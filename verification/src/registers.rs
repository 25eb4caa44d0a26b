//! The register map of the device: where each PLL, each output divider and
//! each control register lives.

use vstd::prelude::*;

verus! {

/// Bus address of the device while its address-select input is low.
pub const ADDRESS: u8 = 0b110_0000;

/// Number of consecutive registers that hold one parameter set.
pub const PARAMETER_REGISTERS: u8 = 8;

/// One of the two phase-locked loops of the chip.
#[allow(non_camel_case_types)]
#[derive(Copy, Clone, Debug, PartialEq, Eq, Structural)]
pub enum PLL {
    A,
    B,
}

impl PLL {
    /// Address of the first of the eight parameter registers of this PLL.
    pub open spec fn spec_base_addr(&self) -> u8 {
        match *self {
            PLL::A => 26,
            PLL::B => 34,
        }
    }

    pub fn base_addr(&self) -> (addr: u8)
        ensures
            addr == self.spec_base_addr(),
    {
        match *self {
            PLL::A => 26,
            PLL::B => 34,
        }
    }
}

/// One of the three output dividers of the chip.
#[allow(non_camel_case_types)]
#[derive(Copy, Clone, Debug, PartialEq, Eq, Structural)]
pub enum Multisynth {
    MS0,
    MS1,
    MS2,
}

impl Multisynth {
    /// Address of the first of the eight parameter registers of this divider.
    pub open spec fn spec_base_addr(&self) -> u8 {
        match *self {
            Multisynth::MS0 => 42,
            Multisynth::MS1 => 50,
            Multisynth::MS2 => 58,
        }
    }

    pub fn base_addr(&self) -> (addr: u8)
        ensures
            addr == self.spec_base_addr(),
    {
        match *self {
            Multisynth::MS0 => 42,
            Multisynth::MS1 => 50,
            Multisynth::MS2 => 58,
        }
    }
}

/// A control register with a fixed address.
#[allow(non_camel_case_types)]
#[derive(Copy, Clone, Debug, PartialEq, Eq, Structural)]
pub enum Register {
    PLL_RESET,
    CLK0,
    CLK1,
    CLK2,
}

impl Register {
    pub open spec fn spec_addr(&self) -> u8 {
        match *self {
            Register::PLL_RESET => 177,
            Register::CLK0 => 16,
            Register::CLK1 => 17,
            Register::CLK2 => 18,
        }
    }

    pub fn addr(&self) -> (addr: u8)
        ensures
            addr == self.spec_addr(),
    {
        match *self {
            Register::PLL_RESET => 177,
            Register::CLK0 => 16,
            Register::CLK1 => 17,
            Register::CLK2 => 18,
        }
    }
}

/// One of the three clock outputs of the chip.
#[allow(non_camel_case_types)]
#[derive(Copy, Clone, Debug, PartialEq, Eq, Structural)]
pub enum ClockOutput {
    CLK0,
    CLK1,
    CLK2,
}

impl ClockOutput {
    /// The control register of this output.
    pub open spec fn spec_register(&self) -> Register {
        match *self {
            ClockOutput::CLK0 => Register::CLK0,
            ClockOutput::CLK1 => Register::CLK1,
            ClockOutput::CLK2 => Register::CLK2,
        }
    }

    pub fn register(&self) -> (reg: Register)
        ensures
            reg == self.spec_register(),
    {
        match *self {
            ClockOutput::CLK0 => Register::CLK0,
            ClockOutput::CLK1 => Register::CLK1,
            ClockOutput::CLK2 => Register::CLK2,
        }
    }
}

/// The registers `base .. base + 8` that hold one parameter set.
pub open spec fn parameter_window(base: u8) -> Set<int> {
    Set::new(|r: int| base <= r < base + PARAMETER_REGISTERS)
}

/// The parameter registers of the two PLLs and the three output dividers
/// share no address with one another, nor with a control register.
pub proof fn parameter_windows_are_disjoint(a: PLL, b: PLL, s: Multisynth, t: Multisynth, c: Register)
    ensures
        a != b ==> parameter_window(a.spec_base_addr()).disjoint(parameter_window(b.spec_base_addr())),
        s != t ==> parameter_window(s.spec_base_addr()).disjoint(parameter_window(t.spec_base_addr())),
        parameter_window(a.spec_base_addr()).disjoint(parameter_window(s.spec_base_addr())),
        !parameter_window(a.spec_base_addr()).contains(c.spec_addr() as int),
        !parameter_window(s.spec_base_addr()).contains(c.spec_addr() as int),
{
}

/// Distinct clock outputs have distinct control registers, and none of them
/// is the PLL reset register.
pub proof fn output_registers_are_distinct(x: ClockOutput, y: ClockOutput)
    ensures
        x != y ==> x.spec_register().spec_addr() != y.spec_register().spec_addr(),
        x.spec_register() != Register::PLL_RESET,
{
}

} // verus!

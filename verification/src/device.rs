//! The device handle: what is known of one chip, and the register writes
//! that bring it to a requested output frequency.

use vstd::prelude::*;
use crate::encoder::{
    multisynth_parameters, multisynth_parameters_for, pack, packed, pll_parameters,
    pll_parameters_for, register_writes, writes_at, RegisterWrite,
};
use crate::planner::{plan_for, plan_frequency};
use crate::registers::{ClockOutput, Multisynth, Register, ADDRESS, PLL};
use crate::sequence::{SequenceState, Stage, WriteSequence};

verus! {

/// Value written to the PLL reset register to reset PLL A: bit 5.
pub const RESET_PLL_A: u8 = 0b0010_0000;

/// Value written to the PLL reset register to reset PLL B: bit 7.
pub const RESET_PLL_B: u8 = 0b1000_0000;

/// Value written to an output's control register to switch the output on; it
/// also fixes the output's source and drive strength.
pub const CLOCK_ON: u8 = 0x4f;

/// Number of register writes of one frequency change.
pub const PROGRAM_WRITES: usize = 18;

/// The bus address of a device whose address-select input is high
/// (`address_bit`) or low.
pub open spec fn address_for(address_bit: bool) -> u8 {
    ADDRESS | if address_bit {
        1u8
    } else {
        0u8
    }
}

/// The write that stores `byte` in the control register `reg`.
pub open spec fn register_write_for(reg: Register, byte: u8) -> RegisterWrite {
    RegisterWrite { register: reg.spec_addr(), value: byte }
}

/// The writes that program `pll` to multiply by `mult + num / denom`.
pub open spec fn pll_writes(pll: PLL, mult: u8, num: u32, denom: u32) -> Seq<RegisterWrite>
    recommends
        denom > 0,
{
    writes_at(pll.spec_base_addr(), packed(pll_parameters_for(mult, num, denom), 0))
}

/// The writes that program `synth` to divide by `divider` with the
/// prescaler field `r_div`.
pub open spec fn multisynth_writes(synth: Multisynth, divider: u32, r_div: u8) -> Seq<
    RegisterWrite,
> {
    writes_at(synth.spec_base_addr(), packed(multisynth_parameters_for(divider), r_div))
}

/// The write that resets `pll`.
pub open spec fn reset_write(pll: PLL) -> RegisterWrite {
    register_write_for(
        Register::PLL_RESET,
        match pll {
            PLL::A => RESET_PLL_A,
            PLL::B => RESET_PLL_B,
        },
    )
}

/// The write that switches `clock` on.
pub open spec fn enable_write(clock: ClockOutput) -> RegisterWrite {
    register_write_for(clock.spec_register(), CLOCK_ON)
}

/// The writes of a change to `target` hertz on a device clocked with
/// `reference` hertz: PLL A, output divider 0 with no prescaler, the reset of
/// PLL A, and the enabling of output 0.
pub open spec fn frequency_program(reference: u32, target: u32) -> Seq<RegisterWrite>
    recommends
        reference > 0,
        target > 0,
{
    let plan = plan_for(target as nat, reference as nat);
    pll_writes(PLL::A, plan.mult, plan.num, plan.denom) + multisynth_writes(
        Multisynth::MS0,
        plan.divider,
        0,
    ) + seq![reset_write(PLL::A), enable_write(ClockOutput::CLK0)]
}

/// A frequency change is eighteen writes: the eight parameter registers of
/// PLL A in ascending order, the eight of output divider 0 in ascending
/// order, the PLL reset register and the control register of output 0.
pub proof fn frequency_program_layout(reference: u32, target: u32)
    ensures
        frequency_program(reference, target).len() == PROGRAM_WRITES,
        forall|i: int|
            0 <= i < 8 ==> (#[trigger] frequency_program(reference, target)[i]).register == 26 + i,
        forall|i: int|
            8 <= i < 16 ==> (#[trigger] frequency_program(reference, target)[i]).register == 34
                + i,
        frequency_program(reference, target)[16] == (RegisterWrite {
            register: 177,
            value: RESET_PLL_A,
        }),
        frequency_program(reference, target)[17] == (RegisterWrite {
            register: 16,
            value: CLOCK_ON,
        }),
{
}

/// One Si5351 on the bus: its bus address and the frequency of its
/// reference oscillator. Neither changes after construction.
#[derive(Copy, Clone, Debug, PartialEq, Eq, Structural)]
pub struct Si5351 {
    address: u8,
    xtal_freq: u32,
}

impl Si5351 {
    /// The bus address of the device.
    pub closed spec fn spec_address(&self) -> u8 {
        self.address
    }

    /// The frequency of the reference oscillator, in hertz.
    pub closed spec fn spec_reference(&self) -> u32 {
        self.xtal_freq
    }

    /// A handle for the device whose address-select input is high
    /// (`address_bit`) or low, clocked with `xtal_freq` hertz.
    pub fn new(address_bit: bool, xtal_freq: u32) -> (device: Si5351)
        ensures
            device.spec_address() == address_for(address_bit),
            device.spec_address() == if address_bit {
                0x61u8
            } else {
                0x60u8
            },
            device.spec_reference() == xtal_freq,
    {
        let low: u8 = if address_bit {
            1
        } else {
            0
        };
        assert(0b110_0000u8 | 1u8 == 0x61u8) by (bit_vector);
        assert(0b110_0000u8 | 0u8 == 0x60u8) by (bit_vector);
        Si5351 { address: ADDRESS | low, xtal_freq }
    }

    pub fn address(&self) -> (a: u8)
        ensures
            a == self.spec_address(),
    {
        self.address
    }

    pub fn reference_freq(&self) -> (f: u32)
        ensures
            f == self.spec_reference(),
    {
        self.xtal_freq
    }

    /// The writes of a change to `freq` hertz on output 0, ready to be sent
    /// in order: nothing is issued yet.
    pub fn set_frequency(&self, freq: u32) -> (run: WriteSequence)
        requires
            freq > 0,
            self.spec_reference() > 0,
        ensures
            run@ == SequenceState::fresh(frequency_program(self.spec_reference(), freq)),
            run@.plan.len() == PROGRAM_WRITES,
            run@.stage() == Stage::ComputedParameters,
    {
        let plan = plan_frequency(freq, self.xtal_freq);
        let mut writes: Vec<RegisterWrite> = self.setup_pll(
            PLL::A,
            plan.mult,
            plan.num,
            plan.denom,
        );
        let mut synth: Vec<RegisterWrite> = self.setup_multisynth(
            Multisynth::MS0,
            plan.divider,
            0,
        );
        writes.append(&mut synth);
        writes.push(self.reset_pll(PLL::A));
        writes.push(self.enable_clock(ClockOutput::CLK0));
        assert(writes@ =~= frequency_program(self.spec_reference(), freq));
        WriteSequence::new(writes)
    }

    /// The eight writes that program `pll` to multiply by
    /// `mult + num / denom`, in ascending order of register.
    pub fn setup_pll(&self, pll: PLL, mult: u8, num: u32, denom: u32) -> (writes: Vec<
        RegisterWrite,
    >)
        requires
            denom > 0,
        ensures
            writes@ == pll_writes(pll, mult, num, denom),
            writes@.len() == 8,
            forall|i: int|
                0 <= i < 8 ==> (#[trigger] writes@[i]).register == pll.spec_base_addr() + i,
    {
        let bytes: [u8; 8] = pack(pll_parameters(mult, num, denom), 0);
        register_writes(pll.base_addr(), &bytes)
    }

    /// The eight writes that program `synth` to divide by `divider`, in
    /// ascending order of register. `r_div` is the prescaler field of the
    /// third register.
    pub fn setup_multisynth(&self, synth: Multisynth, divider: u32, r_div: u8) -> (writes: Vec<
        RegisterWrite,
    >)
        ensures
            writes@ == multisynth_writes(synth, divider, r_div),
            writes@.len() == 8,
            forall|i: int|
                0 <= i < 8 ==> (#[trigger] writes@[i]).register == synth.spec_base_addr() + i,
    {
        let bytes: [u8; 8] = pack(multisynth_parameters(divider), r_div);
        register_writes(synth.base_addr(), &bytes)
    }

    /// The write that resets `pll`.
    pub fn reset_pll(&self, pll: PLL) -> (write: RegisterWrite)
        ensures
            write == reset_write(pll),
            write.register == 177,
            write.value == match pll {
                PLL::A => 0b0010_0000u8,
                PLL::B => 0b1000_0000u8,
            },
    {
        self.write_register(
            Register::PLL_RESET,
            match pll {
                PLL::A => RESET_PLL_A,
                PLL::B => RESET_PLL_B,
            },
        )
    }

    /// The write that switches `clock` on.
    pub fn enable_clock(&self, clock: ClockOutput) -> (write: RegisterWrite)
        ensures
            write == enable_write(clock),
            write.register == clock.spec_register().spec_addr(),
            write.value == 0x4f,
    {
        self.write_register(clock.register(), CLOCK_ON)
    }

    /// The write that stores `byte` in the control register `reg`.
    pub fn write_register(&self, reg: Register, byte: u8) -> (write: RegisterWrite)
        ensures
            write == register_write_for(reg, byte),
    {
        RegisterWrite { register: reg.addr(), value: byte }
    }

    /// The write that stores `byte` in parameter register `reg` of `pll`.
    pub fn write_pll_register(&self, pll: PLL, reg: u8, byte: u8) -> (write: RegisterWrite)
        requires
            pll.spec_base_addr() + reg <= u8::MAX,
        ensures
            write.register == pll.spec_base_addr() + reg,
            write.value == byte,
    {
        RegisterWrite { register: pll.base_addr() + reg, value: byte }
    }

    /// The write that stores `byte` in parameter register `reg` of `synth`.
    pub fn write_synth_register(&self, synth: Multisynth, reg: u8, byte: u8) -> (write:
        RegisterWrite)
        requires
            synth.spec_base_addr() + reg <= u8::MAX,
        ensures
            write.register == synth.spec_base_addr() + reg,
            write.value == byte,
    {
        RegisterWrite { register: synth.base_addr() + reg, value: byte }
    }
}

} // verus!

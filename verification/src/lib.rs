//! Driver core for the Si5351 programmable clock generator.
//!
//! The crate turns a requested output frequency into the PLL feedback and
//! output-divider parameters of the chip, packs them into the chip's register
//! layout and sequences the resulting bus writes. It performs no bus traffic
//! itself: a caller sends each register write that the sequencer hands out
//! and reports how the bus answered.

pub mod registers;
pub mod rounding;
pub mod planner;
pub mod encoder;
pub mod sequence;
pub mod device;

pub use device::Si5351;
pub use encoder::{Parameters, RegisterWrite};
pub use planner::FrequencyPlan;
pub use registers::{ClockOutput, Multisynth, Register, ADDRESS, PLL};
pub use sequence::{Stage, WriteSequence};

//! A calibrated time source built on the processor's cycle counter.
//!
//! The crate holds the rules by which a raw cycle counter becomes a trusted
//! clock: how the counter's stability is classified, how its frequency is
//! measured, how every core is aligned to one anchor instant, and how a raw
//! reading is turned into cycles elapsed since that anchor.

pub mod anchor;
pub mod calibrate;
pub mod cpu_list;
pub mod frequency;
pub mod level;
pub mod number;
pub mod percpu;
pub mod stability;
pub mod state;
pub mod text;

pub use level::TSCLevel;

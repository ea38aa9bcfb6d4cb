//! A CHIP-8 interpreter core: machine state, instruction decoding and the
//! fetch-decode-execute cycle, with every operation proved against a
//! mathematical model of the machine.

pub mod error;
pub mod model;
pub mod decode;
pub mod chip;
pub mod laws;

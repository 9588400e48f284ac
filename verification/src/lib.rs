//! A CHIP-8 virtual machine: machine state, instruction decoding and the
//! fetch-decode-execute step, each with a machine-checked contract.

pub mod display;
pub mod execute;
pub mod instruction;
pub mod key_event;
pub mod machine;

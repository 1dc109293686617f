//! A CHIP-8 virtual machine: the machine state, the instruction decoder and
//! executor, the timers and the fetch-execute cycle, with their behaviour stated
//! as contracts over a mathematical model of the machine.
pub mod constants;
pub mod fault;
pub mod chip8;
pub mod decode;
pub mod model;
pub mod draw;
pub mod random;
pub mod instructions;
pub mod laws;
pub mod host;

//! A virtual machine for a 32-bit, four-core processor with a flat address
//! space, memory-mapped devices and a frame buffer.
//!
//! Every component is modelled by a mathematical view and every operation
//! states its effect on that view.

pub mod cpu;
pub mod gpu;
pub mod memory;
pub mod mmio;
pub mod opcodes;
pub mod processor;
pub mod vm;
pub mod word;

pub use opcodes::OpCode;

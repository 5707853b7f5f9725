//! A small register machine: sixteen-bit registers, a flat byte memory of fixed
//! capacity, a one-byte opcode instruction set, and a stack-based calling
//! convention that saves and restores the general registers across calls.
use vstd::prelude::*;

pub mod isa;
pub mod laws;
pub mod machine;
pub mod memory_window;
pub mod model;
pub mod ptr;

pub use isa::{Instructions, MachineError, Registers};
pub use machine::Machine;
pub use memory_window::MemoryWindow;
pub use model::MachineModel;
pub use ptr::Ptr;

verus! {

/// The width of every register, address and stack word.
pub type VMSize = u16;

/// Number of registers in the register file.
pub const REGISTER_COUNT: usize = 12;

/// Memory capacity of a machine built by `Default`.
pub const DEFAULT_MEMORY_LENGTH: usize = 65535;

} // verus!

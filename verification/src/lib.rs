//! A verified interpreter core for a small 8-bit fantasy machine: fixed
//! memory, sixteen registers, a monochrome bitmap display, a call stack,
//! two countdown timers and a sixteen-key pad. The instruction semantics
//! are stated over an abstract machine model and proved of the executable
//! interpreter.
pub mod arith;
pub mod laws;
pub mod machine;
pub mod model;
mod rng;

pub use machine::Chip8;
pub use model::Chip8Error;
pub use model::Instr;
pub use model::MachineView;

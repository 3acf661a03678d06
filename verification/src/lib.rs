//! An emulator core for the MIX machine: a fixed-word computer with
//! sign-magnitude arithmetic, six-bit byte fields and indexed addressing.
//!
//! The crate holds the word encoding layer ([`MIXWord`]), the machine state
//! ([`MIXComputer`]), the fetch-decode-execute engine ([`MIXCPU`]) and the
//! mnemonic translator ([`parse`], [`format_instruction`]).  Every
//! instruction's effect on the machine is stated in the engine's contracts
//! and proved; the surrounding command loop, snapshot persistence and other
//! input/output live outside the crate.

mod command_parser;
mod fault;
mod mixcpu;
mod mixcomputer;
mod mixword;
mod unit;

pub use command_parser::format_instruction;
pub use command_parser::parse;
pub use fault::Comparison;
pub use fault::Fault;
pub use mixcomputer::MIXComputer;
pub use mixcpu::MIXCPU;
pub use mixcpu::MEMORY_MAX;
pub use mixword::MIXWord;
pub use mixword::MASK;
pub use unit::Unit;

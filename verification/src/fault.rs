use vstd::prelude::*;

verus! {

/// A recoverable failure of one instruction or one translation.
///
/// Every operation of the machine reports trouble through this type; nothing
/// aborts the process.
#[derive(Clone, Copy, PartialEq, Eq, Structural, Debug)]
pub enum Fault {
    /// A computed address, jump target or block transfer left 0..=3999.
    AddressOutOfRange,
    /// A division whose operand has value zero.
    DivideByZero,
    /// Malformed operand text, field specification or register designator.
    InvalidArgument,
    /// A mnemonic the lookup table does not know.
    UnknownOperation,
    /// A device number with no defined block size.
    InvalidDevice,
    /// An opcode and field combination the dispatch table does not cover.
    UnsupportedOpcode,
}

impl Fault {
    /// A short diagnostic name for the fault.
    pub fn describe(&self) -> (r: &'static str)
        ensures
            r@ == (match self {
                Fault::AddressOutOfRange => "address out of range"@,
                Fault::DivideByZero => "divide by zero"@,
                Fault::InvalidArgument => "invalid argument"@,
                Fault::UnknownOperation => "unknown operation"@,
                Fault::InvalidDevice => "invalid device"@,
                Fault::UnsupportedOpcode => "unsupported opcode"@,
            }),
    {
        match self {
            Fault::AddressOutOfRange => "address out of range",
            Fault::DivideByZero => "divide by zero",
            Fault::InvalidArgument => "invalid argument",
            Fault::UnknownOperation => "unknown operation",
            Fault::InvalidDevice => "invalid device",
            Fault::UnsupportedOpcode => "unsupported opcode",
        }
    }
}

/// The three states of the comparison indicator.
#[derive(Clone, Copy, PartialEq, Eq, Structural, Debug)]
pub enum Comparison {
    Less,
    Equal,
    Greater,
}

} // verus!

use vstd::prelude::*;

use crate::fault::Fault;
use crate::mixcomputer::MIXComputer;
use std::io::Write;

verus! {

/// A peripheral device slot: an identity and a derived, fixed block size.
///
/// Devices are address ranges only; their content semantics are reduced to a
/// diagnostic report of the words in the transfer block.
#[derive(Clone, Copy, PartialEq, Eq, Structural, Debug)]
pub struct Unit {
    pub id: u32,
}

/// The transfer block size of a device class, by device number.
pub open spec fn block_size_of(id: int) -> Option<u32> {
    if 0 <= id <= 15 {
        Some(100u32)
    } else if 16 <= id <= 17 {
        Some(16u32)
    } else if id == 18 {
        Some(24u32)
    } else if 19 <= id <= 20 {
        Some(14u32)
    } else {
        None
    }
}

/// Writes one line naming a device whose input was requested.
/// Relies on `writeln` to standard output; diagnostic only.
#[verifier::external_body]
fn report_unit_in(id: u32) {
    let _ = writeln!(std::io::stdout(), "unit number {} in\nnot yet implemented.", id);
}

/// Writes one line naming a device whose output was requested.
/// Relies on `writeln` to standard output; diagnostic only.
#[verifier::external_body]
fn report_unit_header(id: u32) {
    let _ = writeln!(std::io::stdout(), "unit number {}", id);
}

/// Writes one line reporting a single word of a device transfer block.
/// Relies on `writeln` to standard output; diagnostic only.
#[verifier::external_body]
fn report_unit_word(id: u32, value: u32) {
    let _ = writeln!(std::io::stdout(), "[INFO] unit {} : {}", id, value);
}

impl Unit {
    /// A slot for the device with the given number.
    pub fn new(id: u32) -> (r: Self)
        ensures
            r.id == id,
    {
        Unit { id }
    }

    /// The transfer block size of this device, or `None` for an id with no
    /// defined size.
    pub fn get_block_size(&self) -> (r: Option<u32>)
        ensures
            r == block_size_of(self.id as int),
    {
        if self.id <= 15 {
            Some(100)
        } else if self.id <= 17 {
            Some(16)
        } else if self.id == 18 {
            Some(24)
        } else if self.id <= 20 {
            Some(14)
        } else {
            None
        }
    }

    /// Accept a device input request.  Device input is a stub: it reports the
    /// request and changes no state.
    pub fn unit_in(&mut self, _start: usize) -> (r: Result<(), Fault>)
        ensures
            *final(self) == *old(self),
            r == Ok::<(), Fault>(()),
    {
        report_unit_in(self.id);
        Ok(())
    }

    /// Report the transfer block of this device: `block_size` consecutive
    /// memory words starting at `start`.  Fails with `InvalidDevice` when the
    /// id has no block size, and with `AddressOutOfRange` when the block does
    /// not fit inside memory.
    pub fn unit_out(&self, start: usize, computer: &MIXComputer) -> (r: Result<(), Fault>)
        requires
            computer.wf(),
        ensures
            r == (match block_size_of(self.id as int) {
                None => Err::<(), Fault>(Fault::InvalidDevice),
                Some(size) => if start + size > 4000 {
                    Err::<(), Fault>(Fault::AddressOutOfRange)
                } else {
                    Ok::<(), Fault>(())
                },
            }),
    {
        report_unit_header(self.id);
        let size = match self.get_block_size() {
            None => {
                return Err(Fault::InvalidDevice);
            },
            Some(s) => s,
        };
        if start > 4000 - (size as usize) {
            return Err(Fault::AddressOutOfRange);
        }
        let mut i: usize = start;
        while i < start + (size as usize)
            invariant
                computer.wf(),
                start + size <= 4000,
                start <= i <= start + size,
            decreases start + (size as usize) - i,
        {
            report_unit_word(self.id, computer.memory[i].0);
            i = i + 1;
        }
        Ok(())
    }
}

} // verus!

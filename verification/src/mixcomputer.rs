use vstd::prelude::*;

use crate::fault::{Comparison, Fault};
use crate::mixword::MIXWord;
use crate::unit::Unit;

verus! {

/// The machine state: registers, flags, memory and the device table.
///
/// The nine registers are, in order, the accumulator A, the six index
/// registers I1..I6, the extension register X and the jump register J.
pub struct MIXComputer {
    pub register: Vec<MIXWord>,
    pub overflow: bool,
    pub comp: Comparison,
    pub units: Vec<Unit>,
    pub memory: Vec<MIXWord>,
}

impl MIXComputer {
    /// Well-formedness: nine registers, sixteen device slots numbered by
    /// their position, and exactly four thousand memory words.
    pub open spec fn wf(&self) -> bool {
        &&& self.register@.len() == 9
        &&& self.units@.len() == 16
        &&& (forall|k: int| 0 <= k < 16 ==> #[trigger] self.units@[k].id == k)
        &&& self.memory@.len() == 4000
    }

    /// A zeroed machine: all words 0, comparison LESS, overflow off, sixteen
    /// devices preinitialized.
    pub fn new() -> (r: Self)
        ensures
            r.wf(),
            forall|k: int| 0 <= k < 9 ==> (#[trigger] r.register@[k]).0 == 0,
            forall|k: int| 0 <= k < 4000 ==> (#[trigger] r.memory@[k]).0 == 0,
            r.overflow == false,
            r.comp == Comparison::Less,
    {
        let mut register: Vec<MIXWord> = Vec::new();
        let mut i: usize = 0;
        while i < 9
            invariant
                register@.len() == i,
                i <= 9,
                forall|k: int| 0 <= k < i ==> (#[trigger] register@[k]).0 == 0,
            decreases 9 - i,
        {
            register.push(MIXWord(0));
            i = i + 1;
        }
        let mut units: Vec<Unit> = Vec::new();
        let mut j: u32 = 0;
        while j < 16
            invariant
                units@.len() == j,
                j <= 16,
                forall|k: int| 0 <= k < j ==> #[trigger] units@[k].id == k,
            decreases 16 - j,
        {
            units.push(Unit::new(j));
            j = j + 1;
        }
        let mut memory: Vec<MIXWord> = Vec::new();
        let mut m: usize = 0;
        while m < 4000
            invariant
                memory@.len() == m,
                m <= 4000,
                forall|k: int| 0 <= k < m ==> (#[trigger] memory@[k]).0 == 0,
            decreases 4000 - m,
        {
            memory.push(MIXWord(0));
            m = m + 1;
        }
        MIXComputer { register, overflow: false, comp: Comparison::Less, units, memory }
    }

    /// Write one word of memory directly: the bulk-load entry point used for
    /// literal memory loading.  Fails only when the address is out of range.
    pub fn write_memory(&mut self, address: usize, word: MIXWord) -> (r: Result<(), Fault>)
        requires
            old(self).wf(),
        ensures
            final(self).wf(),
            address < 4000 ==> r == Ok::<(), Fault>(()) && final(self).memory@
                == old(self).memory@.update(address as int, word),
            address >= 4000 ==> r == Err::<(), Fault>(Fault::AddressOutOfRange) && final(self)
                .memory@ == old(self).memory@,
            final(self).register@ == old(self).register@,
            final(self).overflow == old(self).overflow,
            final(self).comp == old(self).comp,
            final(self).units@ == old(self).units@,
    {
        if address < 4000 {
            self.memory.set(address, word);
            Ok(())
        } else {
            Err(Fault::AddressOutOfRange)
        }
    }

    /// The comparison indicator encoded as -1, 0 or 1: the shape used by
    /// snapshots of the machine state.
    pub fn comp_code(&self) -> (r: i32)
        ensures
            r == (match self.comp {
                Comparison::Less => -1int,
                Comparison::Equal => 0int,
                Comparison::Greater => 1int,
            }),
    {
        match self.comp {
            Comparison::Less => -1,
            Comparison::Equal => 0,
            Comparison::Greater => 1,
        }
    }

    /// Set the comparison indicator from its -1/0/1 snapshot encoding; any
    /// other code is rejected.
    pub fn set_comp_code(&mut self, code: i32) -> (r: Result<(), Fault>)
        ensures
            final(self).register@ == old(self).register@,
            final(self).overflow == old(self).overflow,
            final(self).units@ == old(self).units@,
            final(self).memory@ == old(self).memory@,
            code == -1 ==> r == Ok::<(), Fault>(()) && final(self).comp == Comparison::Less,
            code == 0 ==> r == Ok::<(), Fault>(()) && final(self).comp == Comparison::Equal,
            code == 1 ==> r == Ok::<(), Fault>(()) && final(self).comp == Comparison::Greater,
            !(-1 <= code <= 1) ==> r == Err::<(), Fault>(Fault::InvalidArgument) && final(self).comp
                == old(self).comp,
    {
        if code == -1 {
            self.comp = Comparison::Less;
            Ok(())
        } else if code == 0 {
            self.comp = Comparison::Equal;
            Ok(())
        } else if code == 1 {
            self.comp = Comparison::Greater;
            Ok(())
        } else {
            Err(Fault::InvalidArgument)
        }
    }
}

impl Default for MIXComputer {
    fn default() -> (r: Self)
        ensures
            r.wf(),
            forall|k: int| 0 <= k < 9 ==> (#[trigger] r.register@[k]).0 == 0,
            forall|k: int| 0 <= k < 4000 ==> (#[trigger] r.memory@[k]).0 == 0,
            r.overflow == false,
            r.comp == Comparison::Less,
    {
        MIXComputer::new()
    }
}

} // verus!

//! What a processor is to its driver, and which processor runs a memory
//! map.

use crate::amd64::interp::Amd64Interp;
use crate::amd64::model::CpuView;
use crate::fault::Fault;
use crate::memory::MemoryMap;
use crate::registers::RegistersView;
use vstd::prelude::*;

verus! {

/// A processor that a driver can step: `init` once, then `tick` for as long
/// as `running` holds.
pub trait ProcessorImplementation {
    /// Whether the processor has carried out a halting instruction.
    spec fn halted(&self) -> bool;

    /// Readies the processor to run what `map` holds. The map is not
    /// changed.
    fn init<M: MemoryMap>(&mut self, map: &mut M)
        ensures
            final(map)@ == old(map)@,
            final(self).halted() == old(self).halted(),
    ;

    /// Whether there is more to run: whether the processor has not halted.
    fn running(&self) -> (running: bool)
        ensures
            running == !self.halted(),
    ;

    /// Carries out one instruction. A processor that has halted stays
    /// halted, and a fault leaves the memory as it was.
    fn tick<M: MemoryMap>(&mut self, map: &mut M) -> (outcome: Result<(), Fault>)
        ensures
            old(self).halted() ==> final(self).halted(),
            outcome is Err ==> final(map)@ == old(map)@ && final(self).halted() == old(
                self,
            ).halted(),
    ;
}

/// A memory map that can name the processor to run it on.
pub trait ProcessableMemoryMap: MemoryMap {
    /// A fresh processor for the executable in this map: the AMD64
    /// interpreter where the word size is 64, none otherwise.
    fn processor_impl(&self) -> (processor: Option<Amd64Interp>)
        ensures
            processor is Some <==> self@.bits == 64,
            processor matches Some(interp) ==> interp@ == (CpuView {
                regs: RegistersView::zeroed(),
                halted: false,
            }),
    ;
}

impl<M: MemoryMap> ProcessableMemoryMap for M {
    fn processor_impl(&self) -> (processor: Option<Amd64Interp>) {
        if self.bits() == 64 {
            Some(Amd64Interp::new())
        } else {
            None
        }
    }
}

} // verus!

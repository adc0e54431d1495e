//! The address space as the interpreter sees it: an ordered list of
//! segments, each a run of bytes at a virtual address.

use crate::bytes::le_bytes;
use crate::bytes::le_value;
use crate::bytes::lemma_le_bytes_len;
use crate::bytes::lemma_le_value_of_bytes;
use crate::bytes::lemma_radix_values;
use crate::bytes::zero_padded;
use crate::fault::Fault;
use crate::registers::XMMWord;
use crate::registers::YMMWord;
use vstd::prelude::*;

verus! {

/// The address at which execution starts with its stack pointer: the top of
/// the synthetic stack, less one 8-byte slot.
pub const STARTING_STACK: u64 = 0x7FFF_FFF8;

/// `contents` with the bytes from `offset` on replaced by `bytes`.
pub open spec fn splice(contents: Seq<u8>, offset: int, bytes: Seq<u8>) -> Seq<u8> {
    Seq::new(
        contents.len(),
        |i: int|
            if offset <= i < offset + bytes.len() {
                bytes[i - offset]
            } else {
                contents[i]
            },
    )
}

/// One region of the address space: `memsz` bytes starting at `vaddr`.
pub struct SegmentView {
    /// The program header's type tag, or the marker of the synthetic stack.
    pub ph_type: u32,
    /// The permission bits; kept, never enforced.
    pub flags: u32,
    /// The address of the first byte.
    pub vaddr: u64,
    /// The physical address; kept, never used.
    pub paddr: u64,
    /// The extent in bytes.
    pub memsz: u64,
    /// The alignment; kept, never used.
    pub align: u64,
    /// Every byte of the region, the zero tail included.
    pub contents: Seq<u8>,
}

impl SegmentView {
    /// The contents span the whole extent.
    pub open spec fn wf(self) -> bool {
        self.contents.len() == self.memsz
    }

    /// `addr` lies in `[vaddr, vaddr + memsz)`.
    pub open spec fn contains(self, addr: u64) -> bool {
        self.vaddr <= addr && addr - self.vaddr < self.memsz
    }

    /// The `len` bytes from `addr` on all lie in the segment, and none of
    /// them past the last address.
    pub open spec fn covers(self, addr: u64, len: nat) -> bool {
        &&& self.contains(addr)
        &&& addr - self.vaddr + len <= self.memsz
        &&& addr + len <= u64::MAX + 1
    }

    /// The `len` bytes stored from `addr` on.
    pub open spec fn load(self, addr: u64, len: nat) -> Seq<u8> {
        self.contents.subrange(addr - self.vaddr, addr - self.vaddr + len)
    }

    /// The segment after `bytes` were stored from `addr` on.
    pub open spec fn store(self, addr: u64, bytes: Seq<u8>) -> SegmentView {
        SegmentView { contents: splice(self.contents, addr - self.vaddr, bytes), ..self }
    }
}

/// The whole address space, with the word size and the entry point that the
/// executable declared.
pub struct MemoryView {
    /// The segments, in the order in which an access searches them.
    pub segments: Seq<SegmentView>,
    /// 32 or 64.
    pub bits: u8,
    /// The address of the first instruction.
    pub entry: u64,
}

impl MemoryView {
    /// Every segment's contents span its extent.
    pub open spec fn wf(self) -> bool {
        forall|i: int| 0 <= i < self.segments.len() ==> (#[trigger] self.segments[i]).wf()
    }

    /// No address lies in two segments.
    pub open spec fn disjoint(self) -> bool {
        forall|i: int, j: int, addr: u64|
            0 <= i < j < self.segments.len() ==> !(#[trigger] self.segments[i].contains(addr)
                && #[trigger] self.segments[j].contains(addr))
    }

    /// The index of the first segment at or after `from` that contains `addr`.
    pub open spec fn segment_from(self, addr: u64, from: int) -> Option<int>
        decreases self.segments.len() - from,
    {
        if from < 0 || from >= self.segments.len() {
            None
        } else if self.segments[from].contains(addr) {
            Some(from)
        } else {
            self.segment_from(addr, from + 1)
        }
    }

    /// `segment_from` finds the first segment at or after `from` that
    /// contains `addr`, and finds none only where there is none.
    pub proof fn lemma_segment_from(self, addr: u64, from: int)
        requires
            0 <= from,
        ensures
            match self.segment_from(addr, from) {
                Some(i) => {
                    &&& from <= i < self.segments.len()
                    &&& self.segments[i].contains(addr)
                    &&& forall|j: int| from <= j < i ==> !(#[trigger] self.segments[j]).contains(addr)
                },
                None => forall|j: int|
                    from <= j < self.segments.len() ==> !(#[trigger] self.segments[j]).contains(
                        addr,
                    ),
            },
        decreases self.segments.len() - from,
    {
        if from < self.segments.len() && !self.segments[from].contains(addr) {
            self.lemma_segment_from(addr, from + 1);
        }
    }

    /// The index of the segment that an access at `addr` operates on: the
    /// first one that contains `addr`.
    pub open spec fn segment_of(self, addr: u64) -> Option<int> {
        self.segment_from(addr, 0)
    }

    /// Whether an access of `len` bytes at `addr` succeeds: the first
    /// segment that contains `addr` holds all of them.
    pub open spec fn accessible(self, addr: u64, len: nat) -> bool {
        match self.segment_of(addr) {
            Some(i) => self.segments[i].covers(addr, len),
            None => false,
        }
    }

    /// What reading `len` bytes at `addr` yields.
    pub open spec fn read(self, addr: u64, len: nat) -> Result<Seq<u8>, Fault> {
        if self.accessible(addr, len) {
            Ok(self.segments[self.segment_of(addr).unwrap()].load(addr, len))
        } else {
            Err(Fault::SegmentationFault { addr })
        }
    }

    /// What writing `bytes` at `addr` yields: the memory afterwards.
    pub open spec fn write(self, addr: u64, bytes: Seq<u8>) -> Result<MemoryView, Fault> {
        if self.accessible(addr, bytes.len()) {
            let i = self.segment_of(addr).unwrap();
            Ok(
                MemoryView {
                    segments: self.segments.update(i, self.segments[i].store(addr, bytes)),
                    ..self
                },
            )
        } else {
            Err(Fault::SegmentationFault { addr })
        }
    }

    /// Where no two segments overlap, the segment that holds an address is
    /// the one that an access there operates on.
    pub proof fn lemma_segment_of_disjoint(self, i: int, addr: u64)
        requires
            self.disjoint(),
            0 <= i < self.segments.len(),
            self.segments[i].contains(addr),
        ensures
            self.segment_of(addr) == Some(i),
    {
        self.lemma_segment_from(addr, 0);
    }

    /// A write moves no segment: afterwards every access operates on the
    /// segment that it operated on before, and succeeds if it did before.
    pub proof fn lemma_write_keeps_extents(self, addr: u64, bytes: Seq<u8>, other: u64, from: int)
        requires
            self.write(addr, bytes) is Ok,
            0 <= from,
        ensures
            self.write(addr, bytes)->Ok_0.segment_from(other, from) == self.segment_from(
                other,
                from,
            ),
            self.write(addr, bytes)->Ok_0.segments.len() == self.segments.len(),
        decreases self.segments.len() - from,
    {
        self.lemma_segment_from(addr, 0);
        if from < self.segments.len() {
            self.lemma_write_keeps_extents(addr, bytes, other, from + 1);
        }
    }

    /// A write keeps the memory well-formed.
    pub proof fn lemma_write_wf(self, addr: u64, bytes: Seq<u8>)
        requires
            self.wf(),
            self.write(addr, bytes) is Ok,
        ensures
            self.write(addr, bytes)->Ok_0.wf(),
    {
        self.lemma_segment_from(addr, 0);
    }

    /// What was written is what is read back, at any width, as long as the
    /// write fits into one segment.
    pub proof fn lemma_write_then_read(self, addr: u64, bytes: Seq<u8>)
        requires
            self.wf(),
            self.write(addr, bytes) is Ok,
        ensures
            self.write(addr, bytes)->Ok_0.read(addr, bytes.len()) == Ok::<Seq<u8>, Fault>(bytes),
    {
        self.lemma_segment_from(addr, 0);
        self.lemma_write_keeps_extents(addr, bytes, addr, 0);
        let i = self.segment_of(addr)->Some_0;
        let after = self.write(addr, bytes)->Ok_0;
        assert(after.segments[i].load(addr, bytes.len()) =~= bytes);
    }

    /// A byte that can be read can be written, and is then read back.
    pub proof fn lemma_write_then_read_u8(self, addr: u64, data: u8)
        requires
            self.wf(),
            self.read_u8(addr) is Ok,
        ensures
            self.write_u8(addr, data) is Ok,
            self.write_u8(addr, data)->Ok_0.read_u8(addr) == Ok::<u8, Fault>(data),
    {
        self.lemma_write_then_read(addr, seq![data]);
    }

    /// A 16-bit number that was written is read back.
    pub proof fn lemma_write_then_read_u16(self, addr: u64, data: u16)
        requires
            self.wf(),
            self.write_u16(addr, data) is Ok,
        ensures
            self.write_u16(addr, data)->Ok_0.read_u16(addr) == Ok::<u16, Fault>(data),
    {
        lemma_le_bytes_len(data as nat, 2);
        lemma_le_value_of_bytes(data as nat, 2);
        lemma_radix_values();
        self.lemma_write_then_read(addr, le_bytes(data as nat, 2));
    }

    /// A 32-bit number that was written is read back.
    pub proof fn lemma_write_then_read_u32(self, addr: u64, data: u32)
        requires
            self.wf(),
            self.write_u32(addr, data) is Ok,
        ensures
            self.write_u32(addr, data)->Ok_0.read_u32(addr) == Ok::<u32, Fault>(data),
    {
        lemma_le_bytes_len(data as nat, 4);
        lemma_le_value_of_bytes(data as nat, 4);
        lemma_radix_values();
        self.lemma_write_then_read(addr, le_bytes(data as nat, 4));
    }

    /// A 64-bit number that was written is read back.
    pub proof fn lemma_write_then_read_u64(self, addr: u64, data: u64)
        requires
            self.wf(),
            self.write_u64(addr, data) is Ok,
        ensures
            self.write_u64(addr, data)->Ok_0.read_u64(addr) == Ok::<u64, Fault>(data),
    {
        lemma_le_bytes_len(data as nat, 8);
        lemma_le_value_of_bytes(data as nat, 8);
        lemma_radix_values();
        self.lemma_write_then_read(addr, le_bytes(data as nat, 8));
    }

    /// Where no two segments overlap, a byte read at an address in a
    /// segment is the byte of that segment's data at that offset, and zero
    /// past the end of the data.
    pub proof fn lemma_read_u8_in_segment(self, i: int, addr: u64, data: Seq<u8>)
        requires
            self.disjoint(),
            0 <= i < self.segments.len(),
            self.segments[i].contains(addr),
            self.segments[i].contents == zero_padded(data, self.segments[i].memsz as nat),
        ensures
            self.read_u8(addr) == Ok::<u8, Fault>(
                if addr - self.segments[i].vaddr < data.len() {
                    data[addr - self.segments[i].vaddr]
                } else {
                    0u8
                },
            ),
    {
        self.lemma_segment_of_disjoint(i, addr);
    }

    /// Where no two segments overlap, the part of a segment that its data
    /// does not reach reads as zero.
    pub proof fn lemma_read_u8_zero_tail(self, i: int, addr: u64, data: Seq<u8>)
        requires
            self.disjoint(),
            0 <= i < self.segments.len(),
            self.segments[i].contains(addr),
            self.segments[i].contents == zero_padded(data, self.segments[i].memsz as nat),
            addr - self.segments[i].vaddr >= data.len(),
        ensures
            self.read_u8(addr) == Ok::<u8, Fault>(0u8),
    {
        self.lemma_read_u8_in_segment(i, addr, data);
    }

    /// Where no two segments overlap, a read of several bytes yields the
    /// bytes that reading each address by itself yields, in address order;
    /// the numbers read at the widths 2, 4 and 8 are those bytes spelled
    /// little-endian.
    pub proof fn lemma_read_bytewise(self, addr: u64, len: nat, k: nat)
        requires
            self.wf(),
            self.disjoint(),
            self.read(addr, len) is Ok,
            k < len,
        ensures
            addr + k <= u64::MAX,
            self.read_u8((addr + k) as u64) == Ok::<u8, Fault>(self.read(addr, len)->Ok_0[k as int]),
            len == 2 ==> self.read_u16(addr) == Ok::<u16, Fault>(
                le_value(self.read(addr, len)->Ok_0) as u16,
            ),
            len == 4 ==> self.read_u32(addr) == Ok::<u32, Fault>(
                le_value(self.read(addr, len)->Ok_0) as u32,
            ),
            len == 8 ==> self.read_u64(addr) == Ok::<u64, Fault>(
                le_value(self.read(addr, len)->Ok_0) as u64,
            ),
    {
        self.lemma_segment_from(addr, 0);
        let i = self.segment_of(addr)->Some_0;
        let at = (addr + k) as u64;
        self.lemma_segment_of_disjoint(i, at);
    }

    /// Where no two segments overlap, a read that starts in a segment and
    /// runs past its end is a segmentation fault.
    pub proof fn lemma_read_across_end(self, i: int, addr: u64, len: nat)
        requires
            self.disjoint(),
            0 <= i < self.segments.len(),
            self.segments[i].contains(addr),
            addr - self.segments[i].vaddr + len > self.segments[i].memsz,
        ensures
            self.read(addr, len) == Err::<Seq<u8>, Fault>(Fault::SegmentationFault { addr }),
    {
        self.lemma_segment_of_disjoint(i, addr);
    }

    /// Writing back what was read changes nothing.
    pub proof fn lemma_write_same(self, addr: u64, len: nat)
        requires
            self.wf(),
            self.read(addr, len) is Ok,
        ensures
            self.write(addr, self.read(addr, len)->Ok_0) == Ok::<MemoryView, Fault>(self),
    {
        self.lemma_segment_from(addr, 0);
        let i = self.segment_of(addr)->Some_0;
        let segment = self.segments[i];
        let bytes = segment.load(addr, len);
        assert(segment.store(addr, bytes).contents =~= segment.contents);
        assert(self.segments.update(i, segment.store(addr, bytes)) =~= self.segments);
    }

    /// Writing back the 32-bit number that was read changes nothing.
    pub proof fn lemma_write_u32_same(self, addr: u64)
        requires
            self.wf(),
            self.read_u32(addr) is Ok,
        ensures
            self.write_u32(addr, self.read_u32(addr)->Ok_0) == Ok::<MemoryView, Fault>(self),
    {
        let bytes = self.read(addr, 4)->Ok_0;
        self.lemma_segment_from(addr, 0);
        crate::bytes::lemma_le_value_bound(bytes);
        crate::bytes::lemma_radix_values();
        crate::bytes::lemma_le_bytes_of_value(bytes);
        self.lemma_write_same(addr, 4);
    }

    /// What reading one byte at `addr` yields.
    pub open spec fn read_u8(self, addr: u64) -> Result<u8, Fault> {
        match self.read(addr, 1) {
            Ok(bytes) => Ok(bytes[0]),
            Err(fault) => Err(fault),
        }
    }

    /// What reading a little-endian 16-bit number at `addr` yields.
    pub open spec fn read_u16(self, addr: u64) -> Result<u16, Fault> {
        match self.read(addr, 2) {
            Ok(bytes) => Ok(le_value(bytes) as u16),
            Err(fault) => Err(fault),
        }
    }

    /// What reading a little-endian 32-bit number at `addr` yields.
    pub open spec fn read_u32(self, addr: u64) -> Result<u32, Fault> {
        match self.read(addr, 4) {
            Ok(bytes) => Ok(le_value(bytes) as u32),
            Err(fault) => Err(fault),
        }
    }

    /// What reading a little-endian 64-bit number at `addr` yields.
    pub open spec fn read_u64(self, addr: u64) -> Result<u64, Fault> {
        match self.read(addr, 8) {
            Ok(bytes) => Ok(le_value(bytes) as u64),
            Err(fault) => Err(fault),
        }
    }

    /// What writing one byte at `addr` yields.
    pub open spec fn write_u8(self, addr: u64, data: u8) -> Result<MemoryView, Fault> {
        self.write(addr, seq![data])
    }

    /// What writing a 16-bit number at `addr`, little-endian, yields.
    pub open spec fn write_u16(self, addr: u64, data: u16) -> Result<MemoryView, Fault> {
        self.write(addr, le_bytes(data as nat, 2))
    }

    /// What writing a 32-bit number at `addr`, little-endian, yields.
    pub open spec fn write_u32(self, addr: u64, data: u32) -> Result<MemoryView, Fault> {
        self.write(addr, le_bytes(data as nat, 4))
    }

    /// What writing a 64-bit number at `addr`, little-endian, yields.
    pub open spec fn write_u64(self, addr: u64, data: u64) -> Result<MemoryView, Fault> {
        self.write(addr, le_bytes(data as nat, 8))
    }
}

/// Whether a write ended as the model says: on success the memory is the
/// one that the model computed, on a fault it is untouched.
pub open spec fn write_outcome(
    before: MemoryView,
    after: MemoryView,
    outcome: Result<(), Fault>,
    expected: Result<MemoryView, Fault>,
) -> bool {
    match expected {
        Ok(memory) => outcome is Ok && after == memory,
        Err(fault) => outcome == Err::<(), Fault>(fault) && after == before,
    }
}

/// An address space that the interpreter can run against. Every access goes
/// to the first segment that contains its address, and faults when it does
/// not fit into that segment.
pub trait MemoryMap {
    /// The address space as a value.
    spec fn view(&self) -> MemoryView;

    /// The contents of every segment span its extent.
    proof fn lemma_view_wf(&self)
        ensures
            self@.wf(),
    ;

    /// The word size of the loaded executable: 32 or 64.
    fn bits(&self) -> (bits: u8)
        ensures
            bits == self@.bits,
    ;

    /// The byte at `addr`.
    fn read_u8(&self, addr: u64) -> (value: Result<u8, Fault>)
        ensures
            value == self@.read_u8(addr),
    ;

    /// The little-endian 16-bit number at `addr`.
    fn read_u16(&self, addr: u64) -> (value: Result<u16, Fault>)
        ensures
            value == self@.read_u16(addr),
    ;

    /// The little-endian 32-bit number at `addr`.
    fn read_u32(&self, addr: u64) -> (value: Result<u32, Fault>)
        ensures
            value == self@.read_u32(addr),
    ;

    /// The little-endian 64-bit number at `addr`.
    fn read_u64(&self, addr: u64) -> (value: Result<u64, Fault>)
        ensures
            value == self@.read_u64(addr),
    ;

    /// The 16 bytes at `addr`.
    fn read_xmmword(&self, addr: u64) -> (value: Result<XMMWord, Fault>)
        ensures
            match self@.read(addr, 16) {
                Ok(bytes) => value is Ok && value->Ok_0@ == bytes,
                Err(fault) => value is Err && value->Err_0 == fault,
            },
    ;

    /// The 32 bytes at `addr`.
    fn read_ymmword(&self, addr: u64) -> (value: Result<YMMWord, Fault>)
        ensures
            match self@.read(addr, 32) {
                Ok(bytes) => value is Ok && value->Ok_0@ == bytes,
                Err(fault) => value is Err && value->Err_0 == fault,
            },
    ;

    /// Stores `data` at `addr`.
    fn write_u8(&mut self, addr: u64, data: u8) -> (outcome: Result<(), Fault>)
        ensures
            write_outcome(old(self)@, final(self)@, outcome, old(self)@.write_u8(addr, data)),
    ;

    /// Stores `data` at `addr`, least significant byte first.
    fn write_u16(&mut self, addr: u64, data: u16) -> (outcome: Result<(), Fault>)
        ensures
            write_outcome(old(self)@, final(self)@, outcome, old(self)@.write_u16(addr, data)),
    ;

    /// Stores `data` at `addr`, least significant byte first.
    fn write_u32(&mut self, addr: u64, data: u32) -> (outcome: Result<(), Fault>)
        ensures
            write_outcome(old(self)@, final(self)@, outcome, old(self)@.write_u32(addr, data)),
    ;

    /// Stores `data` at `addr`, least significant byte first.
    fn write_u64(&mut self, addr: u64, data: u64) -> (outcome: Result<(), Fault>)
        ensures
            write_outcome(old(self)@, final(self)@, outcome, old(self)@.write_u64(addr, data)),
    ;

    /// The address of the first instruction.
    fn entry_point(&self) -> (entry: u64)
        ensures
            entry == self@.entry,
    ;

    /// The stack pointer that execution starts with.
    fn starting_stack(&self) -> (stack: u64)
        ensures
            stack == STARTING_STACK,
    ;
}

} // verus!

//! Segments materialised from program headers, and the memory map that
//! they form.

use crate::bytes::prefix_zeroed;
use crate::bytes::read_le_u16;
use crate::bytes::read_le_u32;
use crate::bytes::read_le_u64;
use crate::bytes::write_le_u16;
use crate::bytes::write_le_u32;
use crate::bytes::write_le_u64;
use crate::bytes::zero_padded;
use crate::fault::Fault;
use crate::memory::splice;
use crate::memory::write_outcome;
use crate::memory::MemoryMap;
use crate::memory::MemoryView;
use crate::memory::STARTING_STACK;
use crate::memory::SegmentView;
use crate::registers::XMMWord;
use crate::registers::YMMWord;
use vstd::prelude::*;
use vstd::slice::slice_subrange;

verus! {

/// One region of the address space. Only the bytes that were ever given or
/// written are held; the rest of the extent reads as zero.
pub struct Segment {
    ph_type: u32,
    flags: u32,
    vaddr: u64,
    paddr: u64,
    memsz: u64,
    align: u64,
    data: Vec<u8>,
}

impl View for Segment {
    type V = SegmentView;

    closed spec fn view(&self) -> SegmentView {
        SegmentView {
            ph_type: self.ph_type,
            flags: self.flags,
            vaddr: self.vaddr,
            paddr: self.paddr,
            memsz: self.memsz,
            align: self.align,
            contents: zero_padded(self.data@, self.memsz as nat),
        }
    }
}

impl Segment {
    /// The held bytes never outrun the extent, which a buffer of this
    /// machine can span.
    #[verifier::type_invariant]
    spec fn inv(self) -> bool {
        self.data@.len() <= self.memsz <= usize::MAX
    }

    /// A segment of `memsz` bytes at `vaddr` that starts with `data` and is
    /// zero from there on. Bytes of `data` past the extent are dropped.
    pub fn new(
        ph_type: u32,
        flags: u32,
        vaddr: u64,
        paddr: u64,
        memsz: u64,
        align: u64,
        data: Vec<u8>,
    ) -> (segment: Segment)
        requires
            memsz <= usize::MAX,
        ensures
            segment@ == (SegmentView {
                ph_type,
                flags,
                vaddr,
                paddr,
                memsz,
                align,
                contents: zero_padded(data@, memsz as nat),
            }),
            segment@.wf(),
    {
        let mut data = data;
        let ghost given = data@;
        if data.len() as u64 > memsz {
            data.truncate(memsz as usize);
        }
        assert(zero_padded(data@, memsz as nat) =~= zero_padded(given, memsz as nat));
        Segment { ph_type, flags, vaddr, paddr, memsz, align, data }
    }

    /// The program header's type tag, or the marker of the synthetic stack.
    pub fn ph_type(&self) -> (ph_type: u32)
        ensures
            ph_type == self@.ph_type,
    {
        self.ph_type
    }

    /// The permission bits.
    pub fn flags(&self) -> (flags: u32)
        ensures
            flags == self@.flags,
    {
        self.flags
    }

    /// The address of the first byte.
    pub fn vaddr(&self) -> (vaddr: u64)
        ensures
            vaddr == self@.vaddr,
    {
        self.vaddr
    }

    /// The physical address.
    pub fn paddr(&self) -> (paddr: u64)
        ensures
            paddr == self@.paddr,
    {
        self.paddr
    }

    /// The extent in bytes.
    pub fn memsz(&self) -> (memsz: u64)
        ensures
            memsz == self@.memsz,
    {
        self.memsz
    }

    /// The alignment.
    pub fn align(&self) -> (align: u64)
        ensures
            align == self@.align,
    {
        self.align
    }

    /// Whether `addr` lies in the segment.
    fn contains(&self, addr: u64) -> (inside: bool)
        ensures
            inside == self@.contains(addr),
    {
        self.vaddr <= addr && addr - self.vaddr < self.memsz
    }

    /// Whether the `len` bytes from `addr` on lie in the segment.
    fn covers(&self, addr: u64, len: u64) -> (inside: bool)
        ensures
            inside == self@.covers(addr, len as nat),
    {
        self.vaddr <= addr && addr - self.vaddr < self.memsz && len <= self.memsz - (addr
            - self.vaddr) && (len == 0 || len - 1 <= u64::MAX - addr)
    }

    /// The `N` bytes from `addr` on.
    fn load<const N: usize>(&self, addr: u64) -> (bytes: [u8; N])
        requires
            self@.covers(addr, N as nat),
        ensures
            bytes@ == self@.load(addr, N as nat),
    {
        let offset = addr - self.vaddr;
        if offset < self.data.len() as u64 {
            prefix_zeroed::<N>(slice_subrange(self.data.as_slice(), offset as usize, self.data.len()))
        } else {
            prefix_zeroed::<N>(slice_subrange(self.data.as_slice(), 0, 0))
        }
    }

    /// Stores `bytes` from `addr` on, materialising the zero tail as far as
    /// the store reaches.
    fn store(&mut self, addr: u64, bytes: &[u8])
        requires
            old(self)@.covers(addr, bytes@.len()),
        ensures
            final(self)@ == old(self)@.store(addr, bytes@),
    {
        proof {
            use_type_invariant(&*self);
        }
        let offset = (addr - self.vaddr) as usize;
        let end = offset + bytes.len();
        let mut data: Vec<u8> = Vec::new();
        core::mem::swap(&mut self.data, &mut data);
        if data.len() < end {
            data.resize(end, 0u8);
        }
        let ghost grown = data@;
        let mut i: usize = 0;
        while i < bytes.len()
            invariant
                i <= bytes@.len(),
                offset + bytes@.len() == end,
                end <= data@.len(),
                data@.len() == grown.len(),
                forall|j: int|
                    0 <= j < data@.len() ==> data@[j] == if offset <= j < offset + i {
                        bytes@[j - offset]
                    } else {
                        grown[j]
                    },
            decreases bytes@.len() - i,
        {
            data[offset + i] = bytes[i];
            i += 1;
        }
        self.data = data;
        assert(self@.contents =~= splice(old(self)@.contents, offset as int, bytes@));
    }
}

/// The segments of `segments` as values, in the same order.
pub open spec fn segment_views(segments: Seq<Segment>) -> Seq<SegmentView> {
    Seq::new(segments.len(), |i: int| segments[i]@)
}

/// The memory map of a loaded ELF executable.
pub struct ElfMemoryMap {
    prghead: Vec<Segment>,
    bits: u8,
    e_entry: u64,
}

impl ElfMemoryMap {
    /// The memory map of `prghead`, searched in that order, for an
    /// executable of word size `bits` that starts at `e_entry`.
    pub fn new(prghead: Vec<Segment>, bits: u8, e_entry: u64) -> (map: ElfMemoryMap)
        ensures
            map@ == (MemoryView {
                segments: segment_views(prghead@),
                bits,
                entry: e_entry,
            }),
            map@.wf(),
    {
        ElfMemoryMap { prghead, bits, e_entry }
    }

    /// The segment that an access of `len` bytes at `addr` operates on,
    /// where the access succeeds.
    fn locate(&self, addr: u64, len: u64) -> (found: Option<usize>)
        ensures
            match found {
                Some(i) => {
                    &&& i < self.prghead@.len()
                    &&& self@.segment_of(addr) == Some(i as int)
                    &&& self@.accessible(addr, len as nat)
                },
                None => !self@.accessible(addr, len as nat),
            },
    {
        let mut i: usize = 0;
        while i < self.prghead.len()
            invariant
                i <= self.prghead@.len(),
                self@.segment_of(addr) == self@.segment_from(addr, i as int),
            decreases self.prghead@.len() - i,
        {
            if self.prghead[i].contains(addr) {
                return if self.prghead[i].covers(addr, len) {
                    Some(i)
                } else {
                    None
                };
            }
            i += 1;
        }
        None
    }

    /// The `N` bytes at `addr`.
    fn read<const N: usize>(&self, addr: u64) -> (bytes: Result<[u8; N], Fault>)
        ensures
            match self@.read(addr, N as nat) {
                Ok(model) => bytes is Ok && bytes->Ok_0@ == model,
                Err(fault) => bytes is Err && bytes->Err_0 == fault,
            },
    {
        match self.locate(addr, N as u64) {
            Some(i) => Ok(self.prghead[i].load::<N>(addr)),
            None => Err(Fault::SegmentationFault { addr }),
        }
    }

    /// Stores `bytes` at `addr`.
    fn write(&mut self, addr: u64, bytes: &[u8]) -> (outcome: Result<(), Fault>)
        ensures
            write_outcome(old(self)@, final(self)@, outcome, old(self)@.write(addr, bytes@)),
    {
        match self.locate(addr, bytes.len() as u64) {
            Some(i) => {
                self.prghead[i].store(addr, bytes);
                assert(self@.segments =~= old(self)@.segments.update(
                    i as int,
                    old(self)@.segments[i as int].store(addr, bytes@),
                ));
                Ok(())
            },
            None => Err(Fault::SegmentationFault { addr }),
        }
    }
}

impl MemoryMap for ElfMemoryMap {
    closed spec fn view(&self) -> MemoryView {
        MemoryView {
            segments: segment_views(self.prghead@),
            bits: self.bits,
            entry: self.e_entry,
        }
    }

    proof fn lemma_view_wf(&self) {
    }

    fn bits(&self) -> (bits: u8) {
        self.bits
    }

    fn read_u8(&self, addr: u64) -> (value: Result<u8, Fault>) {
        match self.read::<1>(addr) {
            Ok(bytes) => Ok(bytes[0]),
            Err(fault) => Err(fault),
        }
    }

    fn read_u16(&self, addr: u64) -> (value: Result<u16, Fault>) {
        match self.read::<2>(addr) {
            Ok(bytes) => {
                assert(bytes@.subrange(0, 2) =~= bytes@);
                Ok(read_le_u16(bytes.as_slice()))
            },
            Err(fault) => Err(fault),
        }
    }

    fn read_u32(&self, addr: u64) -> (value: Result<u32, Fault>) {
        match self.read::<4>(addr) {
            Ok(bytes) => {
                assert(bytes@.subrange(0, 4) =~= bytes@);
                Ok(read_le_u32(bytes.as_slice()))
            },
            Err(fault) => Err(fault),
        }
    }

    fn read_u64(&self, addr: u64) -> (value: Result<u64, Fault>) {
        match self.read::<8>(addr) {
            Ok(bytes) => {
                assert(bytes@.subrange(0, 8) =~= bytes@);
                Ok(read_le_u64(bytes.as_slice()))
            },
            Err(fault) => Err(fault),
        }
    }

    fn read_xmmword(&self, addr: u64) -> (value: Result<XMMWord, Fault>) {
        match self.read::<16>(addr) {
            Ok(bytes) => Ok(XMMWord::from_bytes(bytes)),
            Err(fault) => Err(fault),
        }
    }

    fn read_ymmword(&self, addr: u64) -> (value: Result<YMMWord, Fault>) {
        match self.read::<32>(addr) {
            Ok(bytes) => Ok(YMMWord::from_bytes(bytes)),
            Err(fault) => Err(fault),
        }
    }

    fn write_u8(&mut self, addr: u64, data: u8) -> (outcome: Result<(), Fault>) {
        let bytes = [data];
        assert(bytes@ =~= seq![data]);
        self.write(addr, bytes.as_slice())
    }

    fn write_u16(&mut self, addr: u64, data: u16) -> (outcome: Result<(), Fault>) {
        let bytes = write_le_u16(data);
        self.write(addr, bytes.as_slice())
    }

    fn write_u32(&mut self, addr: u64, data: u32) -> (outcome: Result<(), Fault>) {
        let bytes = write_le_u32(data);
        self.write(addr, bytes.as_slice())
    }

    fn write_u64(&mut self, addr: u64, data: u64) -> (outcome: Result<(), Fault>) {
        let bytes = write_le_u64(data);
        self.write(addr, bytes.as_slice())
    }

    fn entry_point(&self) -> (entry: u64) {
        self.e_entry
    }

    fn starting_stack(&self) -> (stack: u64) {
        STARTING_STACK
    }
}

} // verus!

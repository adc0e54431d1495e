//! The register file of the emulated processor.

use crate::bytes::le_value;
use crate::bytes::read_le_u16;
use crate::bytes::read_le_u32;
use crate::bytes::read_le_u64;
use crate::bytes::zeroed_bytes;
use vstd::prelude::*;
use vstd::slice::slice_subrange;

verus! {

/// 128 bits of storage: one backing store of 16 bytes, read through lanes of
/// 1, 2, 4 or 8 bytes. A lane's number is spelled little-endian.
#[derive(Clone, Copy, Debug)]
pub struct XMMWord {
    bytes: [u8; 16],
}

impl View for XMMWord {
    type V = Seq<u8>;

    closed spec fn view(&self) -> Seq<u8> {
        self.bytes@
    }
}

impl XMMWord {
    /// The word that holds `bytes`.
    pub fn from_bytes(bytes: [u8; 16]) -> (word: XMMWord)
        ensures
            word@ == bytes@,
    {
        XMMWord { bytes }
    }

    /// The word whose bytes are all zero.
    pub fn zeroed() -> (word: XMMWord)
        ensures
            word@ == Seq::new(16, |i: int| 0u8),
    {
        let word = XMMWord { bytes: zeroed_bytes::<16>() };
        word
    }

    /// The 16 bytes.
    pub fn to_bytes(&self) -> (bytes: [u8; 16])
        ensures
            bytes@ == self@,
    {
        self.bytes
    }

    /// Byte `lane`.
    pub fn i8(&self, lane: usize) -> (value: u8)
        requires
            lane < 16,
        ensures
            value == self@[lane as int],
    {
        self.bytes[lane]
    }

    /// The 16-bit number in bytes `2 * lane` and `2 * lane + 1`.
    pub fn i16(&self, lane: usize) -> (value: u16)
        requires
            lane < 8,
        ensures
            value as nat == le_value(self@.subrange(2 * lane, 2 * lane + 2)),
    {
        let tail = slice_subrange(self.bytes.as_slice(), 2 * lane, 16);
        assert(tail@.subrange(0, 2) =~= self@.subrange(2 * lane, 2 * lane + 2));
        read_le_u16(tail)
    }

    /// The 32-bit number in the four bytes from `4 * lane` on.
    pub fn i32(&self, lane: usize) -> (value: u32)
        requires
            lane < 4,
        ensures
            value as nat == le_value(self@.subrange(4 * lane, 4 * lane + 4)),
    {
        let tail = slice_subrange(self.bytes.as_slice(), 4 * lane, 16);
        assert(tail@.subrange(0, 4) =~= self@.subrange(4 * lane, 4 * lane + 4));
        read_le_u32(tail)
    }

    /// The 64-bit number in the eight bytes from `8 * lane` on.
    pub fn i64(&self, lane: usize) -> (value: u64)
        requires
            lane < 2,
        ensures
            value as nat == le_value(self@.subrange(8 * lane, 8 * lane + 8)),
    {
        let tail = slice_subrange(self.bytes.as_slice(), 8 * lane, 16);
        assert(tail@.subrange(0, 8) =~= self@.subrange(8 * lane, 8 * lane + 8));
        read_le_u64(tail)
    }
}

/// 256 bits of storage: one backing store of 32 bytes, read through lanes of
/// 1, 2, 4, 8 or 16 bytes. A lane's number is spelled little-endian.
#[derive(Clone, Copy, Debug)]
pub struct YMMWord {
    bytes: [u8; 32],
}

impl View for YMMWord {
    type V = Seq<u8>;

    closed spec fn view(&self) -> Seq<u8> {
        self.bytes@
    }
}

impl YMMWord {
    /// The word that holds `bytes`.
    pub fn from_bytes(bytes: [u8; 32]) -> (word: YMMWord)
        ensures
            word@ == bytes@,
    {
        YMMWord { bytes }
    }

    /// The word whose bytes are all zero.
    pub fn zeroed() -> (word: YMMWord)
        ensures
            word@ == Seq::new(32, |i: int| 0u8),
    {
        let word = YMMWord { bytes: zeroed_bytes::<32>() };
        word
    }

    /// The 32 bytes.
    pub fn to_bytes(&self) -> (bytes: [u8; 32])
        ensures
            bytes@ == self@,
    {
        self.bytes
    }

    /// Byte `lane`.
    pub fn i8(&self, lane: usize) -> (value: u8)
        requires
            lane < 32,
        ensures
            value == self@[lane as int],
    {
        self.bytes[lane]
    }

    /// The 16-bit number in bytes `2 * lane` and `2 * lane + 1`.
    pub fn i16(&self, lane: usize) -> (value: u16)
        requires
            lane < 16,
        ensures
            value as nat == le_value(self@.subrange(2 * lane, 2 * lane + 2)),
    {
        let tail = slice_subrange(self.bytes.as_slice(), 2 * lane, 32);
        assert(tail@.subrange(0, 2) =~= self@.subrange(2 * lane, 2 * lane + 2));
        read_le_u16(tail)
    }

    /// The 32-bit number in the four bytes from `4 * lane` on.
    pub fn i32(&self, lane: usize) -> (value: u32)
        requires
            lane < 8,
        ensures
            value as nat == le_value(self@.subrange(4 * lane, 4 * lane + 4)),
    {
        let tail = slice_subrange(self.bytes.as_slice(), 4 * lane, 32);
        assert(tail@.subrange(0, 4) =~= self@.subrange(4 * lane, 4 * lane + 4));
        read_le_u32(tail)
    }

    /// The 64-bit number in the eight bytes from `8 * lane` on.
    pub fn i64(&self, lane: usize) -> (value: u64)
        requires
            lane < 4,
        ensures
            value as nat == le_value(self@.subrange(8 * lane, 8 * lane + 8)),
    {
        let tail = slice_subrange(self.bytes.as_slice(), 8 * lane, 32);
        assert(tail@.subrange(0, 8) =~= self@.subrange(8 * lane, 8 * lane + 8));
        read_le_u64(tail)
    }

    /// The 128-bit half `lane`: half 0 is the low one, which the XMM
    /// register of the same number aliases.
    pub fn xmm(&self, lane: usize) -> (half: XMMWord)
        requires
            lane < 2,
        ensures
            half@ == self@.subrange(16 * lane, 16 * lane + 16),
    {
        let tail = slice_subrange(self.bytes.as_slice(), 16 * lane, 32);
        let half = XMMWord::from_bytes(crate::bytes::prefix_zeroed::<16>(tail));
        half
    }
}

/// The register file as plain sequences.
pub struct RegistersView {
    /// The 16 general-purpose registers, in encoding order.
    pub gprs: Seq<u64>,
    /// The 16 control registers.
    pub cr: Seq<u64>,
    /// The 8 segment registers.
    pub sr: Seq<u16>,
    /// The instruction pointer.
    pub rip: u64,
    /// The status word.
    pub rflags: u64,
    /// The 16 wide registers, 32 bytes each.
    pub ymm: Seq<Seq<u8>>,
}

/// The register file. The general-purpose registers stand in encoding
/// order: RAX, RCX, RDX, RBX, RSP, RBP, RSI, RDI, then R8 to R15.
#[derive(Clone, Copy, Debug)]
pub struct Registers {
    pub gprs: [u64; 16],
    pub cr: [u64; 16],
    pub sr: [u16; 8],
    pub rip: u64,
    pub rflags: u64,
    pub ymm: [YMMWord; 16],
}

impl View for Registers {
    type V = RegistersView;

    open spec fn view(&self) -> RegistersView {
        RegistersView {
            gprs: self.gprs@,
            cr: self.cr@,
            sr: self.sr@,
            rip: self.rip,
            rflags: self.rflags,
            ymm: Seq::new(16, |i: int| self.ymm@[i]@),
        }
    }
}

impl RegistersView {
    /// The register file in which every register is zero.
    pub open spec fn zeroed() -> RegistersView {
        RegistersView {
            gprs: Seq::new(16, |i: int| 0u64),
            cr: Seq::new(16, |i: int| 0u64),
            sr: Seq::new(8, |i: int| 0u16),
            rip: 0,
            rflags: 0,
            ymm: Seq::new(16, |i: int| Seq::new(32, |j: int| 0u8)),
        }
    }

    /// Every register bank has its number of registers.
    pub open spec fn wf(self) -> bool {
        &&& self.gprs.len() == 16
        &&& self.cr.len() == 16
        &&& self.sr.len() == 8
        &&& self.ymm.len() == 16
    }
}

impl Registers {
    /// The register file in which every register is zero.
    pub fn zeroed() -> (regs: Registers)
        ensures
            regs@ == RegistersView::zeroed(),
    {
        let zero = YMMWord::zeroed();
        let ymm = [zero; 16];
        assert forall|i: int| 0 <= i < 16 implies (#[trigger] ymm@[i])@ == Seq::new(
            32,
            |j: int| 0u8,
        ) by {
            assert(ymm == vstd::array::spec_array_fill_for_copy_type::<YMMWord, 16>(zero));
            assert(ymm@[i] == zero);
        }
        let regs = Registers {
            gprs: [0u64; 16],
            cr: [0u64; 16],
            sr: [0u16; 8],
            rip: 0,
            rflags: 0,
            ymm,
        };
        assert(regs@.gprs =~= RegistersView::zeroed().gprs);
        assert(regs@.cr =~= RegistersView::zeroed().cr);
        assert(regs@.sr =~= RegistersView::zeroed().sr);
        assert(regs@.ymm =~= RegistersView::zeroed().ymm);
        regs
    }

    /// Every register bank has its number of registers.
    pub proof fn lemma_wf(&self)
        ensures
            self@.wf(),
    {
    }
}

} // verus!

//! The ELF file format, as far as the loader reads it: the header up to the
//! count of program headers, and the program headers. Section headers are
//! not read. Every number is little-endian.

use crate::bytes::le_value;
use crate::bytes::zero_padded;
use crate::memory::SegmentView;
use vstd::prelude::*;

verus! {

/// Why a file is no executable that this loader takes.
#[derive(Clone, Copy, Debug, PartialEq, Eq, Structural)]
pub enum ElfError {
    /// The file ends before something that the loader has to read.
    Truncated,
    /// The file does not start with `7F 45 4C 46`.
    BadMagic,
    /// The class byte is neither 1 (32-bit) nor 2 (64-bit).
    UnsupportedClass { class: u8 },
    /// The data-encoding byte is not 1: the file is not little-endian.
    NotLittleEndian { data: u8 },
    /// The version, in the identification bytes or in the header, is not 1.
    BadVersion { version: u32 },
    /// The machine is x86 in a 64-bit file, or x86-64 in a 32-bit file.
    MachineMismatch { class: u8, machine: u16 },
    /// The machine is neither x86 nor x86-64.
    UnsupportedMachine { machine: u16 },
    /// A segment extends over more memory than a buffer of this machine can
    /// span.
    SegmentTooLarge { memsz: u64 },
}

/// The class byte of a 32-bit file.
pub const CLASS_32: u8 = 1;

/// The class byte of a 64-bit file.
pub const CLASS_64: u8 = 2;

/// The machine number of x86.
pub const MACHINE_386: u16 = 0x03;

/// The machine number of x86-64.
pub const MACHINE_X86_64: u16 = 0x3E;

/// The type tag that marks the synthetic stack segment.
pub const STACK_TYPE: u32 = 0xFFFF_FFFF;

/// The permission bits of the synthetic stack segment, which stand for
/// reading and writing.
pub const STACK_FLAGS: u32 = 3;

/// The address of the synthetic stack segment.
pub const STACK_VADDR: u64 = 0x7FFF_0000;

/// The size of the synthetic stack segment: 64 KiB.
pub const STACK_SIZE: u64 = 0x1_0000;

/// The header fields that the loader keeps.
#[derive(Clone, Copy, Debug, PartialEq, Eq, Structural)]
pub struct ElfHeader {
    /// 1 for a 32-bit file, 2 for a 64-bit file.
    pub class: u8,
    pub abi: u8,
    pub abiver: u8,
    pub bin_type: u16,
    pub isa: u16,
    pub entry: u64,
    /// The file offset of the first program header.
    pub phoff: u64,
    pub flags: u32,
    /// The number of program headers.
    pub phnum: u16,
}

/// One program header.
#[derive(Clone, Copy, Debug, PartialEq, Eq, Structural)]
pub struct ProgramHeader {
    pub ph_type: u32,
    pub flags: u32,
    /// The file offset of the segment's bytes.
    pub offset: u64,
    pub vaddr: u64,
    pub paddr: u64,
    /// The number of bytes that the file holds for the segment.
    pub filesz: u64,
    pub memsz: u64,
    pub align: u64,
}

/// The number in the `width` bytes of `chunk` from `offset` on.
pub open spec fn field(chunk: Seq<u8>, offset: int, width: int) -> nat {
    le_value(chunk.subrange(offset, offset + width))
}

/// The width of an address or a size in a file of class `class`.
pub open spec fn word_len(class: u8) -> int {
    if class == CLASS_32 {
        4
    } else {
        8
    }
}

/// The address or the size in `chunk` at `offset`, in a file of class
/// `class`.
pub open spec fn word(class: u8, chunk: Seq<u8>, offset: int) -> u64 {
    field(chunk, offset, word_len(class)) as u64
}

/// The length of the header up to the count of program headers, which is
/// the last field that the loader reads.
pub open spec fn header_len(class: u8) -> int {
    34 + 3 * word_len(class)
}

/// The length of one program header.
pub open spec fn program_header_len(class: u8) -> int {
    8 + 6 * word_len(class)
}

/// Whether `bytes` start as an ELF file does: the magic number, two bytes
/// of any value, and the version 1.
pub open spec fn recognizes(bytes: Seq<u8>) -> bool {
    &&& bytes.len() >= 7
    &&& bytes[0] == 0x7F
    &&& bytes[1] == 0x45
    &&& bytes[2] == 0x4C
    &&& bytes[3] == 0x46
    &&& bytes[6] == 1
}

/// Whether a file of class `class` may name the machine `machine` without
/// contradicting itself: not x86 unless 32-bit, not x86-64 unless 64-bit.
pub open spec fn machine_agrees(class: u8, machine: u16) -> bool {
    &&& machine == MACHINE_386 ==> class == CLASS_32
    &&& machine == MACHINE_X86_64 ==> class == CLASS_64
}

/// The header of the file `bytes`. The fields are checked in file order,
/// and the first defect is the one reported.
pub open spec fn header(bytes: Seq<u8>) -> Result<ElfHeader, ElfError> {
    let class = bytes[4];
    let machine = field(bytes, 18, 2) as u16;
    let width = word_len(class);
    if bytes.len() < 16 {
        Err(ElfError::Truncated)
    } else if !(bytes[0] == 0x7F && bytes[1] == 0x45 && bytes[2] == 0x4C && bytes[3] == 0x46) {
        Err(ElfError::BadMagic)
    } else if class != CLASS_32 && class != CLASS_64 {
        Err(ElfError::UnsupportedClass { class })
    } else if bytes[5] != 1 {
        Err(ElfError::NotLittleEndian { data: bytes[5] })
    } else if bytes[6] != 1 {
        Err(ElfError::BadVersion { version: bytes[6] as u32 })
    } else if bytes.len() < 20 {
        Err(ElfError::Truncated)
    } else if !machine_agrees(class, machine) {
        Err(ElfError::MachineMismatch { class, machine })
    } else if machine != MACHINE_386 && machine != MACHINE_X86_64 {
        Err(ElfError::UnsupportedMachine { machine })
    } else if bytes.len() < 24 {
        Err(ElfError::Truncated)
    } else if field(bytes, 20, 4) != 1 {
        Err(ElfError::BadVersion { version: field(bytes, 20, 4) as u32 })
    } else if bytes.len() < header_len(class) {
        Err(ElfError::Truncated)
    } else {
        Ok(
            ElfHeader {
                class,
                abi: bytes[7],
                abiver: bytes[8],
                bin_type: field(bytes, 16, 2) as u16,
                isa: machine,
                entry: word(class, bytes, 24),
                phoff: word(class, bytes, 24 + width),
                flags: field(bytes, 24 + 3 * width, 4) as u32,
                phnum: field(bytes, 32 + 3 * width, 2) as u16,
            },
        )
    }
}

/// The program header that `chunk` holds, in a file of class `class`. The
/// two classes order the fields differently: the flags come second in a
/// 64-bit header, and next to last in a 32-bit one.
pub open spec fn program_header(class: u8, chunk: Seq<u8>) -> ProgramHeader {
    if class == CLASS_32 {
        ProgramHeader {
            ph_type: field(chunk, 0, 4) as u32,
            offset: word(class, chunk, 4),
            vaddr: word(class, chunk, 8),
            paddr: word(class, chunk, 12),
            filesz: word(class, chunk, 16),
            memsz: word(class, chunk, 20),
            flags: field(chunk, 24, 4) as u32,
            align: word(class, chunk, 28),
        }
    } else {
        ProgramHeader {
            ph_type: field(chunk, 0, 4) as u32,
            flags: field(chunk, 4, 4) as u32,
            offset: word(class, chunk, 8),
            vaddr: word(class, chunk, 16),
            paddr: word(class, chunk, 24),
            filesz: word(class, chunk, 32),
            memsz: word(class, chunk, 40),
            align: word(class, chunk, 48),
        }
    }
}

/// The file offset of the program header `index`: the headers stand one
/// after the other from `phoff` on.
pub open spec fn program_header_offset(header: ElfHeader, index: nat) -> int {
    header.phoff + index * program_header_len(header.class)
}

/// The segment that the program header `index` of the file `bytes`
/// describes: its first `filesz` bytes are those of the file from `offset`
/// on, and the rest of its extent is zero.
pub open spec fn segment(bytes: Seq<u8>, header: ElfHeader, index: nat) -> Result<
    SegmentView,
    ElfError,
> {
    let at = program_header_offset(header, index);
    let end = at + program_header_len(header.class);
    let ph = program_header(header.class, bytes.subrange(at, end));
    if end > bytes.len() {
        Err(ElfError::Truncated)
    } else if ph.memsz > usize::MAX {
        Err(ElfError::SegmentTooLarge { memsz: ph.memsz })
    } else if ph.offset + ph.filesz > bytes.len() {
        Err(ElfError::Truncated)
    } else {
        Ok(
            SegmentView {
                ph_type: ph.ph_type,
                flags: ph.flags,
                vaddr: ph.vaddr,
                paddr: ph.paddr,
                memsz: ph.memsz,
                align: ph.align,
                contents: zero_padded(
                    bytes.subrange(ph.offset as int, ph.offset + ph.filesz),
                    ph.memsz as nat,
                ),
            },
        )
    }
}

/// The segments of the first `count` program headers of the file `bytes`,
/// in their order; the first defect is the one reported.
pub open spec fn segments(bytes: Seq<u8>, header: ElfHeader, count: nat) -> Result<
    Seq<SegmentView>,
    ElfError,
>
    decreases count,
{
    if count == 0 {
        Ok(Seq::empty())
    } else {
        match segments(bytes, header, (count - 1) as nat) {
            Err(error) => Err(error),
            Ok(before) => match segment(bytes, header, (count - 1) as nat) {
                Err(error) => Err(error),
                Ok(last) => Ok(before.push(last)),
            },
        }
    }
}

/// The synthetic stack: 64 KiB of zeros below `0x8000_0000`.
pub open spec fn stack_segment() -> SegmentView {
    SegmentView {
        ph_type: STACK_TYPE,
        flags: STACK_FLAGS,
        vaddr: STACK_VADDR,
        paddr: 0,
        memsz: STACK_SIZE,
        align: 1,
        contents: Seq::new(STACK_SIZE as nat, |i: int| 0u8),
    }
}

/// A loaded file.
pub struct ElfFileView {
    /// The word size: 32 or 64.
    pub bits: u8,
    pub abi: u8,
    pub abiver: u8,
    pub bin_type: u16,
    pub isa: u16,
    pub flags: u32,
    /// The segments of the program headers, and after them the stack.
    pub prghead: Seq<SegmentView>,
    pub e_entry: u64,
}

/// The word size of a file of class `class`.
pub open spec fn bits_of(class: u8) -> u8 {
    if class == CLASS_32 {
        32
    } else {
        64
    }
}

/// What loading the file `bytes` yields.
pub open spec fn image(bytes: Seq<u8>) -> Result<ElfFileView, ElfError> {
    match header(bytes) {
        Err(error) => Err(error),
        Ok(header) => match segments(bytes, header, header.phnum as nat) {
            Err(error) => Err(error),
            Ok(loaded) => Ok(
                ElfFileView {
                    bits: bits_of(header.class),
                    abi: header.abi,
                    abiver: header.abiver,
                    bin_type: header.bin_type,
                    isa: header.isa,
                    flags: header.flags,
                    prghead: loaded.push(stack_segment()),
                    e_entry: header.entry,
                },
            ),
        },
    }
}

/// Once a program header is defective, so is every longer run of them, and
/// in the same way.
pub proof fn lemma_segments_error(bytes: Seq<u8>, header: ElfHeader, count: nat, more: nat)
    requires
        segments(bytes, header, count) is Err,
        count <= more,
    ensures
        segments(bytes, header, more) == segments(bytes, header, count),
    decreases more,
{
    if more > count {
        lemma_segments_error(bytes, header, count, (more - 1) as nat);
    }
}

} // verus!

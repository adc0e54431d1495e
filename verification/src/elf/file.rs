//! Reading an ELF file from a byte source.

use crate::bytes::read_le_u16;
use crate::bytes::read_le_u32;
use crate::bytes::read_le_u64;
use crate::elf::format::field;
use crate::elf::format::header;
use crate::elf::format::image;
use crate::elf::format::lemma_segments_error;
use crate::elf::format::program_header;
use crate::elf::format::segment;
use crate::elf::format::segments;
use crate::elf::format::stack_segment;
use crate::elf::format::word;
use crate::elf::format::CLASS_32;
use crate::elf::format::CLASS_64;
use crate::elf::format::ElfError;
use crate::elf::format::ElfFileView;
use crate::elf::format::ElfHeader;
use crate::elf::format::MACHINE_386;
use crate::elf::format::MACHINE_X86_64;
use crate::elf::format::ProgramHeader;
use crate::elf::format::STACK_FLAGS;
use crate::elf::format::STACK_SIZE;
use crate::elf::format::STACK_TYPE;
use crate::elf::format::STACK_VADDR;
use crate::elf::map::segment_views;
use crate::elf::map::ElfMemoryMap;
use crate::elf::map::Segment;
use crate::loader::FileLoader;
use crate::memory::MemoryMap;
use crate::memory::MemoryView;
use crate::source::ReadSeek;
use vstd::prelude::*;
use vstd::slice::slice_subrange;

verus! {

/// A field of a chunk of a file is the field of the file at the same place.
proof fn lemma_field_in_chunk(bytes: Seq<u8>, start: int, end: int, offset: int, width: int)
    requires
        0 <= start <= end <= bytes.len(),
        0 <= offset,
        0 <= width,
        offset + width <= end - start,
    ensures
        field(bytes.subrange(start, end), offset, width) == field(bytes, start + offset, width),
{
    assert(bytes.subrange(start, end).subrange(offset, offset + width) =~= bytes.subrange(
        start + offset,
        start + offset + width,
    ));
}

/// The `len` bytes of `file` from `offset` on, where it holds that many.
fn read_at<R: ReadSeek>(file: &mut R, offset: u64, len: u64) -> (chunk: Option<Vec<u8>>)
    ensures
        final(file).bytes() == old(file).bytes(),
        chunk is Some <==> offset + len <= old(file).bytes().len(),
        chunk matches Some(data) ==> data@ == old(file).bytes().subrange(
            offset as int,
            offset + len,
        ),
{
    file.seek(offset);
    file.read_exact(len)
}

/// The 16-bit number in `chunk` at `offset`.
fn u16_at(chunk: &[u8], offset: usize) -> (value: u16)
    requires
        offset + 2 <= chunk.len(),
    ensures
        value == field(chunk@, offset as int, 2),
{
    let bytes = slice_subrange(chunk, offset, offset + 2);
    assert(bytes@.subrange(0, 2) =~= bytes@);
    read_le_u16(bytes)
}

/// The 32-bit number in `chunk` at `offset`.
fn u32_at(chunk: &[u8], offset: usize) -> (value: u32)
    requires
        offset + 4 <= chunk.len(),
    ensures
        value == field(chunk@, offset as int, 4),
{
    let bytes = slice_subrange(chunk, offset, offset + 4);
    assert(bytes@.subrange(0, 4) =~= bytes@);
    read_le_u32(bytes)
}

/// The address or the size in `chunk` at `offset`, in a file of class
/// `class`.
fn word_at(class: u8, chunk: &[u8], offset: usize) -> (value: u64)
    requires
        offset + 8 <= chunk.len() || (class == CLASS_32 && offset + 4 <= chunk.len()),
    ensures
        value == word(class, chunk@, offset as int),
{
    if class == CLASS_32 {
        u32_at(chunk, offset) as u64
    } else {
        let bytes = slice_subrange(chunk, offset, offset + 8);
        assert(bytes@.subrange(0, 8) =~= bytes@);
        read_le_u64(bytes)
    }
}

/// Reads and checks the header of `file`.
fn read_header<R: ReadSeek>(file: &mut R) -> (read: Result<ElfHeader, ElfError>)
    ensures
        final(file).bytes() == old(file).bytes(),
        read == header(old(file).bytes()),
{
    let ghost bytes = file.bytes();
    let ident = match read_at(file, 0, 16) {
        Some(ident) => ident,
        None => {
            return Err(ElfError::Truncated);
        },
    };
    if !(ident[0] == 0x7F && ident[1] == 0x45 && ident[2] == 0x4C && ident[3] == 0x46) {
        return Err(ElfError::BadMagic);
    }
    let class = ident[4];
    if class != CLASS_32 && class != CLASS_64 {
        return Err(ElfError::UnsupportedClass { class });
    }
    if ident[5] != 1 {
        return Err(ElfError::NotLittleEndian { data: ident[5] });
    }
    if ident[6] != 1 {
        return Err(ElfError::BadVersion { version: ident[6] as u32 });
    }
    let kind = match read_at(file, 16, 4) {
        Some(kind) => kind,
        None => {
            return Err(ElfError::Truncated);
        },
    };
    proof {
        lemma_field_in_chunk(bytes, 16, 20, 0, 2);
        lemma_field_in_chunk(bytes, 16, 20, 2, 2);
    }
    let bin_type = u16_at(kind.as_slice(), 0);
    let machine = u16_at(kind.as_slice(), 2);
    if (machine == MACHINE_386 && class != CLASS_32) || (machine == MACHINE_X86_64 && class
        != CLASS_64) {
        return Err(ElfError::MachineMismatch { class, machine });
    }
    if machine != MACHINE_386 && machine != MACHINE_X86_64 {
        return Err(ElfError::UnsupportedMachine { machine });
    }
    let version = match read_at(file, 20, 4) {
        Some(chunk) => {
            proof {
                lemma_field_in_chunk(bytes, 20, 24, 0, 4);
            }
            u32_at(chunk.as_slice(), 0)
        },
        None => {
            return Err(ElfError::Truncated);
        },
    };
    if version != 1 {
        return Err(ElfError::BadVersion { version });
    }
    let width: usize = if class == CLASS_32 {
        4
    } else {
        8
    };
    let rest = match read_at(file, 24, (3 * width + 10) as u64) {
        Some(rest) => rest,
        None => {
            return Err(ElfError::Truncated);
        },
    };
    proof {
        let end = 34 + 3 * width;
        lemma_field_in_chunk(bytes, 24, end, 0, width as int);
        lemma_field_in_chunk(bytes, 24, end, width as int, width as int);
        lemma_field_in_chunk(bytes, 24, end, 3 * width, 4);
        lemma_field_in_chunk(bytes, 24, end, 3 * width + 8, 2);
    }
    Ok(
        ElfHeader {
            class,
            abi: ident[7],
            abiver: ident[8],
            bin_type,
            isa: machine,
            entry: word_at(class, rest.as_slice(), 0),
            phoff: word_at(class, rest.as_slice(), width),
            flags: u32_at(rest.as_slice(), 3 * width),
            phnum: u16_at(rest.as_slice(), 3 * width + 8),
        },
    )
}

/// The program header that `chunk` holds, in a file of class `class`.
fn decode_program_header(class: u8, chunk: &[u8]) -> (ph: ProgramHeader)
    requires
        class == CLASS_32 || class == CLASS_64,
        chunk@.len() == crate::elf::format::program_header_len(class),
    ensures
        ph == program_header(class, chunk@),
{
    if class == CLASS_32 {
        ProgramHeader {
            ph_type: u32_at(chunk, 0),
            offset: word_at(class, chunk, 4),
            vaddr: word_at(class, chunk, 8),
            paddr: word_at(class, chunk, 12),
            filesz: word_at(class, chunk, 16),
            memsz: word_at(class, chunk, 20),
            flags: u32_at(chunk, 24),
            align: word_at(class, chunk, 28),
        }
    } else {
        ProgramHeader {
            ph_type: u32_at(chunk, 0),
            flags: u32_at(chunk, 4),
            offset: word_at(class, chunk, 8),
            vaddr: word_at(class, chunk, 16),
            paddr: word_at(class, chunk, 24),
            filesz: word_at(class, chunk, 32),
            memsz: word_at(class, chunk, 40),
            align: word_at(class, chunk, 48),
        }
    }
}

/// Reads the program header `index` of `file` and the bytes of its segment.
fn read_segment<R: ReadSeek>(file: &mut R, header: ElfHeader, index: u16) -> (read: Result<
    Segment,
    ElfError,
>)
    requires
        header.class == CLASS_32 || header.class == CLASS_64,
    ensures
        final(file).bytes() == old(file).bytes(),
        match segment(old(file).bytes(), header, index as nat) {
            Ok(view) => read is Ok && read->Ok_0@ == view,
            Err(error) => read is Err && read->Err_0 == error,
        },
{
    let size: u64 = if header.class == CLASS_32 {
        32
    } else {
        56
    };
    let total = file.len();
    let skipped = index as u64 * size;
    if header.phoff > total || skipped > total - header.phoff {
        return Err(ElfError::Truncated);
    }
    let at = header.phoff + skipped;
    let chunk = match read_at(file, at, size) {
        Some(chunk) => chunk,
        None => {
            return Err(ElfError::Truncated);
        },
    };
    let ph = decode_program_header(header.class, chunk.as_slice());
    if ph.memsz > usize::MAX as u64 {
        return Err(ElfError::SegmentTooLarge { memsz: ph.memsz });
    }
    match read_at(file, ph.offset, ph.filesz) {
        Some(data) => Ok(
            Segment::new(ph.ph_type, ph.flags, ph.vaddr, ph.paddr, ph.memsz, ph.align, data),
        ),
        None => Err(ElfError::Truncated),
    }
}

/// The section headers of a file. None is ever read.
pub struct ElfSectHead {}

/// A loaded ELF file.
pub struct ElfFile {
    /// The word size: 32 or 64.
    pub bits: u8,
    pub abi: u8,
    pub abiver: u8,
    pub bin_type: u16,
    pub isa: u16,
    pub flags: u32,
    /// The segments of the program headers, and after them the stack.
    pub prghead: Vec<Segment>,
    /// Always empty.
    pub secthead: Vec<ElfSectHead>,
    pub e_entry: u64,
}

impl View for ElfFile {
    type V = ElfFileView;

    open spec fn view(&self) -> ElfFileView {
        ElfFileView {
            bits: self.bits,
            abi: self.abi,
            abiver: self.abiver,
            bin_type: self.bin_type,
            isa: self.isa,
            flags: self.flags,
            prghead: segment_views(self.prghead@),
            e_entry: self.e_entry,
        }
    }
}

impl ElfFile {
    /// Reads `file` from its start, whatever its position.
    fn read<R: ReadSeek>(file: &mut R) -> (loaded: Result<ElfFile, ElfError>)
        ensures
            final(file).bytes() == old(file).bytes(),
            match image(old(file).bytes()) {
                Ok(view) => loaded is Ok && loaded->Ok_0@ == view && loaded->Ok_0.secthead@.len()
                    == 0,
                Err(error) => loaded is Err && loaded->Err_0 == error,
            },
    {
        let ghost bytes = file.bytes();
        let parsed = read_header(file)?;
        let mut prghead: Vec<Segment> = Vec::new();
        let mut index: u16 = 0;
        assert(segment_views(prghead@) =~= Seq::empty());
        while index < parsed.phnum
            invariant
                index <= parsed.phnum,
                bytes == old(file).bytes(),
                header(bytes) == Ok::<ElfHeader, ElfError>(parsed),
                parsed.class == CLASS_32 || parsed.class == CLASS_64,
                file.bytes() == bytes,
                segments(bytes, parsed, index as nat) == Ok::<Seq<crate::memory::SegmentView>, ElfError>(
                    segment_views(prghead@),
                ),
            decreases parsed.phnum - index,
        {
            let ghost before = segment_views(prghead@);
            match read_segment(file, parsed, index) {
                Ok(loaded) => {
                    let ghost view = loaded@;
                    prghead.push(loaded);
                    assert(segment_views(prghead@) =~= before.push(view));
                },
                Err(error) => {
                    proof {
                        assert(segments(bytes, parsed, (index + 1) as nat) == Err::<
                            Seq<crate::memory::SegmentView>,
                            ElfError,
                        >(error));
                        lemma_segments_error(
                            bytes,
                            parsed,
                            (index + 1) as nat,
                            parsed.phnum as nat,
                        );
                    }
                    return Err(error);
                },
            }
            index += 1;
        }
        let ram: Vec<u8> = vec![0u8; 0x1_0000];
        let stack = Segment::new(STACK_TYPE, STACK_FLAGS, STACK_VADDR, 0, STACK_SIZE, 1, ram);
        assert(stack@.contents =~= stack_segment().contents);
        let ghost loaded = segment_views(prghead@);
        prghead.push(stack);
        assert(segment_views(prghead@) =~= loaded.push(stack_segment()));
        Ok(
            ElfFile {
                bits: if parsed.class == CLASS_32 {
                    32
                } else {
                    64
                },
                abi: parsed.abi,
                abiver: parsed.abiver,
                bin_type: parsed.bin_type,
                isa: parsed.isa,
                flags: parsed.flags,
                prghead,
                secthead: Vec::new(),
                e_entry: parsed.entry,
            },
        )
    }

    /// Loads the executable that `file` holds: its header is checked, the
    /// segment of every program header is materialised, and the synthetic
    /// stack is appended. The file is read from its start, whatever its
    /// position, and left there.
    pub fn load<R: ReadSeek>(file: &mut R) -> (loaded: Result<ElfFile, ElfError>)
        ensures
            final(file).bytes() == old(file).bytes(),
            final(file).position() == 0,
            match image(old(file).bytes()) {
                Ok(view) => loaded is Ok && loaded->Ok_0@ == view && loaded->Ok_0.secthead@.len()
                    == 0,
                Err(error) => loaded is Err && loaded->Err_0 == error,
            },
    {
        let loaded = ElfFile::read(file);
        file.seek(0);
        loaded
    }
}

/// The memory that loading the file `bytes` yields.
pub open spec fn loaded_memory(bytes: Seq<u8>) -> Result<MemoryView, ElfError> {
    match image(bytes) {
        Ok(file) => Ok(MemoryView { segments: file.prghead, bits: file.bits, entry: file.e_entry }),
        Err(error) => Err(error),
    }
}

/// The loader of ELF executables.
pub struct ElfFileLoader {}

impl FileLoader for ElfFileLoader {
    type Map = ElfMemoryMap;

    type Error = ElfError;

    open spec fn recognizes(&self, bytes: Seq<u8>) -> bool {
        crate::elf::format::recognizes(bytes)
    }

    fn can_load<R: ReadSeek>(&self, file: &mut R) -> (able: bool) {
        file.seek(0);
        let head = file.read_exact(7);
        file.seek(0);
        match head {
            Some(buf) => buf[0] == 0x7F && buf[1] == 0x45 && buf[2] == 0x4C && buf[3] == 0x46
                && buf[6] == 1,
            None => false,
        }
    }

    /// Builds the memory map of the executable that `file` holds. The file
    /// is left at its start.
    fn load<R: ReadSeek>(&self, file: &mut R) -> (loaded: Result<ElfMemoryMap, ElfError>)
        ensures
            final(file).position() == 0,
            match loaded_memory(old(file).bytes()) {
                Ok(memory) => loaded is Ok && loaded->Ok_0@ == memory,
                Err(error) => loaded is Err && loaded->Err_0 == error,
            },
    {
        let elffile = ElfFile::load(file)?;
        Ok(ElfMemoryMap::new(elffile.prghead, elffile.bits, elffile.e_entry))
    }
}

} // verus!

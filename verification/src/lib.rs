//! A user-space emulator core for statically linked x86-64 ELF executables:
//! a segmented memory map built from program headers, and an instruction
//! interpreter that runs against it.

pub mod amd64;
pub mod bytes;
pub mod elf;
pub mod fault;
pub mod loader;
pub mod memory;
pub mod processor;
pub mod registers;
pub mod source;

pub use crate::amd64::interp::Amd64Interp;
pub use crate::amd64::model::OperandSize;
pub use crate::amd64::prefixes::Prefixes;
pub use crate::bytes::prefix_zeroed;
pub use crate::elf::file::ElfFile;
pub use crate::elf::file::ElfFileLoader;
pub use crate::elf::format::ElfError;
pub use crate::elf::map::ElfMemoryMap;
pub use crate::elf::map::Segment;
pub use crate::fault::Fault;
pub use crate::loader::FileLoader;
pub use crate::loader::LoadableFile;
pub use crate::memory::MemoryMap;
pub use crate::processor::ProcessableMemoryMap;
pub use crate::processor::ProcessorImplementation;
pub use crate::registers::Registers;
pub use crate::registers::XMMWord;
pub use crate::registers::YMMWord;
pub use crate::source::ByteSource;
pub use crate::source::ReadSeek;

//! The ELF loader: the file format, the segments that program headers
//! describe, and the memory map that they form.

pub mod file;
pub mod format;
pub mod map;

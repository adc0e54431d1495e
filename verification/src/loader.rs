//! The loader registry: which loader takes a file.

use crate::elf::file::ElfFileLoader;
use crate::memory::MemoryMap;
use crate::source::ReadSeek;
use vstd::prelude::*;

verus! {

/// A loader for one file format.
pub trait FileLoader {
    /// The memory map that the loader builds.
    type Map: MemoryMap;

    /// Why the loader may refuse a file.
    type Error;

    /// Whether a file that holds `bytes` is of the loader's format.
    spec fn recognizes(&self, bytes: Seq<u8>) -> bool;

    /// Whether `file` is of the loader's format. The file is left at its
    /// start, whatever the answer.
    fn can_load<R: ReadSeek>(&self, file: &mut R) -> (able: bool)
        ensures
            able == self.recognizes(old(file).bytes()),
            final(file).bytes() == old(file).bytes(),
            final(file).position() == 0,
    ;

    /// Builds the memory map of `file`.
    fn load<R: ReadSeek>(&self, file: &mut R) -> (loaded: Result<Self::Map, Self::Error>)
        ensures
            final(file).bytes() == old(file).bytes(),
    ;
}

/// Whether `found` is the first of `loaders` that recognizes `bytes`.
pub open spec fn first_recognizing<L: FileLoader>(
    loaders: Seq<L>,
    bytes: Seq<u8>,
    found: Option<usize>,
) -> bool {
    match found {
        Some(index) => {
            &&& index < loaders.len()
            &&& loaders[index as int].recognizes(bytes)
            &&& forall|i: int| 0 <= i < index ==> !(#[trigger] loaders[i]).recognizes(bytes)
        },
        None => forall|i: int| 0 <= i < loaders.len() ==> !(#[trigger] loaders[i]).recognizes(bytes),
    }
}

/// The index of the first of `loaders` that can load `file`. The file is
/// left at its start if any loader was asked.
pub fn probe<L: FileLoader, R: ReadSeek>(loaders: &[L], file: &mut R) -> (found: Option<usize>)
    ensures
        first_recognizing(loaders@, old(file).bytes(), found),
        final(file).bytes() == old(file).bytes(),
        final(file).position() == if loaders@.len() > 0 {
            0
        } else {
            old(file).position()
        },
{
    let mut index: usize = 0;
    while index < loaders.len()
        invariant
            index <= loaders@.len(),
            file.bytes() == old(file).bytes(),
            file.position() == if index > 0 {
                0
            } else {
                old(file).position()
            },
            forall|i: int| 0 <= i < index ==> !(#[trigger] loaders@[i]).recognizes(file.bytes()),
        decreases loaders@.len() - index,
    {
        if loaders[index].can_load(file) {
            return Some(index);
        }
        index += 1;
    }
    None
}

/// A file that can name its own loader.
pub trait LoadableFile: ReadSeek {
    /// The registered loader that takes this file: the ELF loader or none,
    /// ELF being the one format registered. The file is left at its start.
    fn loader(&mut self) -> (found: Option<ElfFileLoader>)
        ensures
            found is Some <==> crate::elf::format::recognizes(old(self).bytes()),
            final(self).bytes() == old(self).bytes(),
            final(self).position() == 0,
    ;
}

impl<F: ReadSeek> LoadableFile for F {
    fn loader(&mut self) -> (found: Option<ElfFileLoader>) {
        let loaders = [ElfFileLoader {  }];
        match probe(loaders.as_slice(), self) {
            Some(_) => Some(ElfFileLoader {  }),
            None => None,
        }
    }
}

} // verus!

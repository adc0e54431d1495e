//! Byte sources: what a loader reads an executable from.

use vstd::prelude::*;
use vstd::slice::slice_subrange;
use vstd::slice::slice_to_vec;

verus! {

/// A source of bytes that can be read from and repositioned. It has a fixed
/// content and a position that the next read starts at; the position may
/// stand past the end.
pub trait ReadSeek {
    /// Everything that the source holds.
    spec fn bytes(&self) -> Seq<u8>;

    /// The offset that the next read starts at.
    spec fn position(&self) -> u64;

    /// The number of bytes that the source holds.
    fn len(&self) -> (len: u64)
        ensures
            len == self.bytes().len(),
    ;

    /// Moves to the offset `position`, counted from the start.
    fn seek(&mut self, position: u64)
        ensures
            final(self).bytes() == old(self).bytes(),
            final(self).position() == position,
    ;

    /// Reads exactly `len` bytes and moves past them. Where fewer are left,
    /// nothing is read, and where the position then stands is left open.
    fn read_exact(&mut self, len: u64) -> (read: Option<Vec<u8>>)
        ensures
            final(self).bytes() == old(self).bytes(),
            read is Some <==> old(self).position() + len <= old(self).bytes().len(),
            read matches Some(data) ==> {
                &&& data@ == old(self).bytes().subrange(
                    old(self).position() as int,
                    old(self).position() + len,
                )
                &&& final(self).position() == old(self).position() + len
            },
    ;
}

/// A byte source over a buffer in memory.
pub struct ByteSource {
    data: Vec<u8>,
    position: u64,
}

impl ByteSource {
    /// A source that holds `data` and stands at its start.
    pub fn new(data: Vec<u8>) -> (source: ByteSource)
        ensures
            source.bytes() == data@,
            source.position() == 0,
    {
        ByteSource { data, position: 0 }
    }

    /// The offset that the next read starts at.
    pub fn stream_position(&self) -> (position: u64)
        ensures
            position == self.position(),
    {
        self.position
    }
}

impl ReadSeek for ByteSource {
    closed spec fn bytes(&self) -> Seq<u8> {
        self.data@
    }

    closed spec fn position(&self) -> u64 {
        self.position
    }

    fn len(&self) -> (len: u64) {
        self.data.len() as u64
    }

    fn seek(&mut self, position: u64) {
        self.position = position;
    }

    fn read_exact(&mut self, len: u64) -> (read: Option<Vec<u8>>) {
        let total = self.data.len() as u64;
        if self.position > total || len > total - self.position {
            None
        } else {
            let start = self.position as usize;
            let end = (self.position + len) as usize;
            let data = slice_to_vec(slice_subrange(self.data.as_slice(), start, end));
            self.position = self.position + len;
            Some(data)
        }
    }
}

} // verus!

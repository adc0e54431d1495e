//! The prefixes that an instruction has gathered so far.

use vstd::prelude::*;

verus! {

/// The set of prefixes seen since the start of the current instruction, one
/// bit each. It lives for one instruction only.
#[derive(Clone, Copy, Debug, PartialEq, Eq, Structural)]
pub struct Prefixes {
    pub bits: u64,
}

impl Prefixes {
    /// No prefix.
    pub const NONE: u64 = 0b0000_0000;

    /// `F3`: repeat.
    pub const REP: u64 = 0b0000_0001;

    /// `66`: operand-size override.
    pub const OPSIZE: u64 = 0b0000_0010;

    /// `40` to `4F`: a REX prefix was seen.
    pub const REX: u64 = 0b0000_0100;

    /// REX.B: extends the r/m field.
    pub const REX_B: u64 = 0b0000_1000;

    /// REX.X: extends the index field.
    pub const REX_X: u64 = 0b0001_0000;

    /// REX.R: extends the reg field.
    pub const REX_R: u64 = 0b0010_0000;

    /// REX.W: selects the 64-bit operand size.
    pub const REX_W: u64 = 0b0100_0000;

    /// `67`: address-size override. Reserved: no byte sets it yet.
    pub const ADDRSIZE: u64 = 0b0000_1000_0000;

    /// `F0`: lock. Reserved: no byte sets it yet.
    pub const LOCK: u64 = 0b0001_0000_0000;

    /// `F2`: repeat while not equal. Reserved: no byte sets it yet.
    pub const REPNE: u64 = 0b0010_0000_0000;

    /// A segment override. Reserved: no byte sets it yet.
    pub const SEGMENT: u64 = 0b0100_0000_0000;

    /// Whether every bit of `flags` is set.
    pub open spec fn has(self, flags: u64) -> bool {
        self.bits & flags == flags
    }

    /// The set with the bits of `flags` added.
    pub open spec fn with(self, flags: u64) -> Prefixes {
        Prefixes { bits: self.bits | flags }
    }

    /// The empty set.
    pub fn empty() -> (prefixes: Prefixes)
        ensures
            prefixes.bits == Prefixes::NONE,
    {
        Prefixes { bits: Prefixes::NONE }
    }

    /// The bits.
    pub fn bits(&self) -> (bits: u64)
        ensures
            bits == self.bits,
    {
        self.bits
    }

    /// Whether every bit of `flags` is set.
    pub fn contains(&self, flags: u64) -> (present: bool)
        ensures
            present == self.has(flags),
    {
        self.bits & flags == flags
    }

    /// Adds the bits of `flags`.
    pub fn insert(&mut self, flags: u64)
        ensures
            *final(self) == old(self).with(flags),
    {
        self.bits = self.bits | flags;
    }
}

/// The bits that the prefix byte `byte` sets; `None` where `byte` is no
/// prefix. A REX byte sets REX and, for each of its four low bits that is
/// set, W (bit 3), R (bit 2), X (bit 1) or B (bit 0).
pub open spec fn prefix_flags(byte: u8) -> Option<u64> {
    if byte == 0x66 {
        Some(Prefixes::OPSIZE)
    } else if byte == 0xF3 {
        Some(Prefixes::REP)
    } else if 0x40 <= byte <= 0x4F {
        Some(
            Prefixes::REX | (if byte & 8 != 0 {
                Prefixes::REX_W
            } else {
                Prefixes::NONE
            }) | (if byte & 4 != 0 {
                Prefixes::REX_R
            } else {
                Prefixes::NONE
            }) | (if byte & 2 != 0 {
                Prefixes::REX_X
            } else {
                Prefixes::NONE
            }) | (if byte & 1 != 0 {
                Prefixes::REX_B
            } else {
                Prefixes::NONE
            }),
        )
    } else {
        None
    }
}

/// The bits that the prefix byte `byte` sets; `None` where `byte` is no
/// prefix.
pub fn decode_prefix(byte: u8) -> (flags: Option<u64>)
    ensures
        flags == prefix_flags(byte),
{
    if byte == 0x66 {
        Some(Prefixes::OPSIZE)
    } else if byte == 0xF3 {
        Some(Prefixes::REP)
    } else if 0x40 <= byte && byte <= 0x4F {
        let w: u64 = if byte & 8 != 0 {
            Prefixes::REX_W
        } else {
            Prefixes::NONE
        };
        let r: u64 = if byte & 4 != 0 {
            Prefixes::REX_R
        } else {
            Prefixes::NONE
        };
        let x: u64 = if byte & 2 != 0 {
            Prefixes::REX_X
        } else {
            Prefixes::NONE
        };
        let b: u64 = if byte & 1 != 0 {
            Prefixes::REX_B
        } else {
            Prefixes::NONE
        };
        Some(Prefixes::REX | w | r | x | b)
    } else {
        None
    }
}

} // verus!

//! Little-endian byte strings: the model that every multi-byte access is
//! stated in, and the conversions between bytes and machine integers.

use byteorder::{ByteOrder, LittleEndian};
use vstd::prelude::*;
use vstd::slice::slice_subrange;

verus! {

/// The number that `bytes` spells, least significant byte first.
pub open spec fn le_value(bytes: Seq<u8>) -> nat
    decreases bytes.len(),
{
    if bytes.len() == 0 {
        0
    } else {
        bytes[0] as nat + 256 * le_value(bytes.drop_first())
    }
}

/// The `len` low-order bytes of `value`, least significant byte first.
pub open spec fn le_bytes(value: nat, len: nat) -> Seq<u8>
    decreases len,
{
    if len == 0 {
        Seq::empty()
    } else {
        seq![(value % 256) as u8] + le_bytes(value / 256, (len - 1) as nat)
    }
}

/// `bytes` cut or padded with zeros to exactly `len` bytes.
pub open spec fn zero_padded(bytes: Seq<u8>, len: nat) -> Seq<u8> {
    Seq::new(len, |i: int| if i < bytes.len() { bytes[i] } else { 0u8 })
}

/// `le_bytes` yields exactly `len` bytes.
pub proof fn lemma_le_bytes_len(value: nat, len: nat)
    ensures
        le_bytes(value, len).len() == len,
    decreases len,
{
    if len > 0 {
        lemma_le_bytes_len(value / 256, (len - 1) as nat);
    }
}

/// 256 to the power `len`: the number of values that `len` bytes can spell.
pub open spec fn radix(len: nat) -> nat
    decreases len,
{
    if len == 0 {
        1
    } else {
        256 * radix((len - 1) as nat)
    }
}

/// A byte string spells a number below `radix` of its length.
pub proof fn lemma_le_value_bound(bytes: Seq<u8>)
    ensures
        le_value(bytes) < radix(bytes.len()),
    decreases bytes.len(),
{
    if bytes.len() > 0 {
        lemma_le_value_bound(bytes.drop_first());
    }
}

/// Splitting a number into bytes and spelling it back loses exactly the
/// part that does not fit.
pub proof fn lemma_le_value_of_bytes(value: nat, len: nat)
    ensures
        le_value(le_bytes(value, len)) == value % radix(len),
    decreases len,
{
    if len > 0 {
        let rest = le_bytes(value / 256, (len - 1) as nat);
        let whole = le_bytes(value, len);
        lemma_le_value_of_bytes(value / 256, (len - 1) as nat);
        assert(whole.drop_first() =~= rest);
        let r = radix((len - 1) as nat);
        lemma_radix_positive((len - 1) as nat);
        vstd::arithmetic::div_mod::lemma_breakdown(value as int, 256, r as int);
    }
}

/// Spelling a byte string as a number and splitting it again gives the
/// string back.
pub proof fn lemma_le_bytes_of_value(bytes: Seq<u8>)
    ensures
        le_bytes(le_value(bytes), bytes.len()) == bytes,
    decreases bytes.len(),
{
    if bytes.len() > 0 {
        let tail = bytes.drop_first();
        lemma_le_bytes_of_value(tail);
        let v = le_value(bytes);
        assert(v % 256 == bytes[0] as nat && v / 256 == le_value(tail)) by (nonlinear_arith)
            requires
                v == bytes[0] as nat + 256 * le_value(tail),
                bytes[0] < 256,
        ;
    }
}

/// `radix` is never zero.
pub proof fn lemma_radix_positive(len: nat)
    ensures
        radix(len) > 0,
    decreases len,
{
    if len > 0 {
        lemma_radix_positive((len - 1) as nat);
    }
}

/// The values of `radix` at the widths of the machine integers.
pub proof fn lemma_radix_values()
    ensures
        radix(1) == 0x100,
        radix(2) == 0x1_0000,
        radix(4) == 0x1_0000_0000,
        radix(8) == 0x1_0000_0000_0000_0000,
{
    reveal_with_fuel(radix, 9);
}

/// `byteorder::LittleEndian::read_u16`: the number that the first two bytes
/// of `buf` spell in little-endian order. The outside function panics on a
/// shorter buffer, which the precondition rules out.
#[verifier::external_body]
pub(crate) fn read_le_u16(buf: &[u8]) -> (value: u16)
    requires
        buf@.len() >= 2,
    ensures
        value as nat == le_value(buf@.subrange(0, 2)),
{
    LittleEndian::read_u16(buf)
}

/// `byteorder::LittleEndian::read_u32`: the number that the first four bytes
/// of `buf` spell in little-endian order. The outside function panics on a
/// shorter buffer, which the precondition rules out.
#[verifier::external_body]
pub(crate) fn read_le_u32(buf: &[u8]) -> (value: u32)
    requires
        buf@.len() >= 4,
    ensures
        value as nat == le_value(buf@.subrange(0, 4)),
{
    LittleEndian::read_u32(buf)
}

/// `byteorder::LittleEndian::read_u64`: the number that the first eight
/// bytes of `buf` spell in little-endian order. The outside function panics
/// on a shorter buffer, which the precondition rules out.
#[verifier::external_body]
pub(crate) fn read_le_u64(buf: &[u8]) -> (value: u64)
    requires
        buf@.len() >= 8,
    ensures
        value as nat == le_value(buf@.subrange(0, 8)),
{
    LittleEndian::read_u64(buf)
}

/// `byteorder::LittleEndian::write_u16` into a fresh two-byte buffer: the
/// bytes of `value`, least significant first.
#[verifier::external_body]
pub(crate) fn write_le_u16(value: u16) -> (buf: [u8; 2])
    ensures
        buf@ == le_bytes(value as nat, 2),
{
    let mut buf = [0u8; 2];
    LittleEndian::write_u16(&mut buf, value);
    buf
}

/// `byteorder::LittleEndian::write_u32` into a fresh four-byte buffer: the
/// bytes of `value`, least significant first.
#[verifier::external_body]
pub(crate) fn write_le_u32(value: u32) -> (buf: [u8; 4])
    ensures
        buf@ == le_bytes(value as nat, 4),
{
    let mut buf = [0u8; 4];
    LittleEndian::write_u32(&mut buf, value);
    buf
}

/// `byteorder::LittleEndian::write_u64` into a fresh eight-byte buffer: the
/// bytes of `value`, least significant first.
#[verifier::external_body]
pub(crate) fn write_le_u64(value: u64) -> (buf: [u8; 8])
    ensures
        buf@ == le_bytes(value as nat, 8),
{
    let mut buf = [0u8; 8];
    LittleEndian::write_u64(&mut buf, value);
    buf
}

/// `bytemuck::cast_slice` from bytes to `N`-byte arrays, of which there is
/// exactly one when `bytes` is `N` bytes long: that array holds the same
/// bytes in the same order. The cast cannot fail on alignment, since both
/// sides are byte-aligned, and the length divides evenly.
#[verifier::external_body]
pub(crate) fn first_chunk<const N: usize>(bytes: &[u8]) -> (chunk: [u8; N])
    requires
        N > 0,
        bytes@.len() == N,
    ensures
        chunk@ == bytes@,
{
    bytemuck::cast_slice::<u8, [u8; N]>(bytes)[0]
}

/// `bytemuck::Zeroable::zeroed` at a byte array: every byte is zero.
#[verifier::external_body]
pub(crate) fn zeroed_bytes<const N: usize>() -> (bytes: [u8; N])
    ensures
        forall|i: int| 0 <= i < N ==> bytes@[i] == 0u8,
{
    bytemuck::Zeroable::zeroed()
}

/// The first `N` bytes of `slice` as an array; where `slice` is shorter, the
/// missing bytes are zero.
pub fn prefix_zeroed<const N: usize>(slice: &[u8]) -> (prefix: [u8; N])
    ensures
        prefix@ == zero_padded(slice@, N as nat),
{
    if N > 0 && slice.len() >= N {
        let prefix = first_chunk::<N>(slice_subrange(slice, 0, N));
        prefix
    } else {
        let mut prefix: [u8; N] = zeroed_bytes::<N>();
        let mut i: usize = 0;
        while i < slice.len() && i < N
            invariant
                i <= slice@.len(),
                i <= N,
                forall|j: int| 0 <= j < i ==> prefix@[j] == slice@[j],
                forall|j: int| i <= j < N ==> prefix@[j] == 0u8,
            decreases slice@.len() - i,
        {
            prefix[i] = slice[i];
            i += 1;
        }
        prefix
    }
}

} // verus!

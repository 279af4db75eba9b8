//! Big-endian integers on the wire.
use vstd::prelude::*;

use crate::event::MAX_EVENT_SIZE;

verus! {

/// The number of values that `width` bytes can hold.
pub open spec fn be_limit(width: nat) -> nat
    decreases width,
{
    if width == 0 {
        1
    } else {
        256 * be_limit((width - 1) as nat)
    }
}

/// The `width` low-order bytes of `n`, most significant byte first.
pub open spec fn be_bytes(n: nat, width: nat) -> Seq<u8>
    decreases width,
{
    if width == 0 {
        seq![]
    } else {
        be_bytes(n / 256, (width - 1) as nat).push((n % 256) as u8)
    }
}

/// The number that `bytes` spell out, most significant byte first.
pub open spec fn be_value(bytes: Seq<u8>) -> nat
    decreases bytes.len(),
{
    if bytes.len() == 0 {
        0
    } else {
        be_value(bytes.drop_last()) * 256 + bytes.last() as nat
    }
}

/// The number that the `width` bytes of `bytes` from position `at` on spell out.
pub open spec fn field(bytes: Seq<u8>, at: int, width: int) -> nat {
    be_value(bytes.subrange(at, at + width))
}

/// The 32 bits of the two's complement representation of `v`, as an unsigned number.
pub open spec fn i32_bits(v: i32) -> nat {
    if v < 0 {
        (v + 0x1_0000_0000) as nat
    } else {
        v as nat
    }
}

/// The number that `bits` represent in 32-bit two's complement.
pub open spec fn i32_of_bits(bits: nat) -> i32 {
    if bits < 0x8000_0000 {
        bits as i32
    } else {
        (bits - 0x1_0000_0000) as i32
    }
}

pub proof fn lemma_be_limits()
    ensures
        be_limit(1) == 0x100,
        be_limit(2) == 0x1_0000,
        be_limit(4) == 0x1_0000_0000,
        be_limit(8) == 0x1_0000_0000_0000_0000,
{
    reveal_with_fuel(be_limit, 9);
}

pub proof fn lemma_be_bytes_len(n: nat, width: nat)
    ensures
        be_bytes(n, width).len() == width,
    decreases width,
{
    if width > 0 {
        lemma_be_bytes_len(n / 256, (width - 1) as nat);
    }
}

pub proof fn lemma_be_value_bound(bytes: Seq<u8>)
    ensures
        be_value(bytes) < be_limit(bytes.len()),
    decreases bytes.len(),
{
    if bytes.len() > 0 {
        lemma_be_value_bound(bytes.drop_last());
    }
}

/// Reading back what was written gives the number again, if it fits the width.
pub proof fn lemma_be_value_of_bytes(n: nat, width: nat)
    requires
        n < be_limit(width),
    ensures
        be_value(be_bytes(n, width)) == n,
    decreases width,
{
    if width > 0 {
        lemma_be_value_of_bytes(n / 256, (width - 1) as nat);
        let bytes = be_bytes(n, width);
        assert(bytes.drop_last() =~= be_bytes(n / 256, (width - 1) as nat));
    }
}

/// Writing what was read gives the bytes again.
pub proof fn lemma_be_bytes_of_value(bytes: Seq<u8>)
    ensures
        be_bytes(be_value(bytes), bytes.len()) == bytes,
    decreases bytes.len(),
{
    if bytes.len() > 0 {
        lemma_be_bytes_of_value(bytes.drop_last());
        assert(be_value(bytes) / 256 == be_value(bytes.drop_last()));
        assert(bytes =~= bytes.drop_last().push(bytes.last()));
    }
}

/// The two's complement bits of a number represent that number.
pub proof fn lemma_i32_bits(v: i32)
    ensures
        i32_bits(v) < be_limit(4),
        i32_of_bits(i32_bits(v)) == v,
{
    lemma_be_limits();
}

/// The number that 32 bits represent has those bits.
pub proof fn lemma_i32_of_bits(bits: nat)
    requires
        bits < be_limit(4),
    ensures
        i32_bits(i32_of_bits(bits)) == bits,
{
    lemma_be_limits();
}

/// A field of what is left of `bytes` after its first `k` bytes is a field of `bytes`.
pub broadcast proof fn lemma_field_skip(bytes: Seq<u8>, k: int, at: int, width: int)
    requires
        0 <= k,
        0 <= at,
        0 <= width,
        k + at + width <= bytes.len(),
    ensures
        #[trigger] field(bytes.skip(k), at, width) == field(bytes, k + at, width),
{
    assert(bytes.skip(k).subrange(at, at + width) =~= bytes.subrange(k + at, k + at + width));
}

/// Skipping twice is skipping once.
pub broadcast proof fn lemma_skip_skip(bytes: Seq<u8>, j: int, k: int)
    requires
        0 <= j,
        0 <= k,
        j + k <= bytes.len(),
    ensures
        #[trigger] bytes.skip(j).skip(k) == bytes.skip(j + k),
{
    assert(bytes.skip(j).skip(k) =~= bytes.skip(j + k));
}

/// A number that fits the width stands in its field once its bytes stand there.
pub proof fn lemma_field_of_bytes(bytes: Seq<u8>, at: int, n: nat, width: nat)
    requires
        0 <= at,
        at + width <= bytes.len(),
        n < be_limit(width),
        bytes.subrange(at, at + width) == be_bytes(n, width),
    ensures
        field(bytes, at, width as int) == n,
{
    lemma_be_value_of_bytes(n, width);
}

/// The bytes of a field are those of the number that stands in it.
pub proof fn lemma_bytes_of_field(bytes: Seq<u8>, at: int, width: nat)
    requires
        0 <= at,
        at + width <= bytes.len(),
    ensures
        field(bytes, at, width as int) < be_limit(width),
        be_bytes(field(bytes, at, width as int), width) == bytes.subrange(at, at + width),
{
    lemma_be_value_bound(bytes.subrange(at, at + width));
    lemma_be_bytes_of_value(bytes.subrange(at, at + width));
}

/// What stands in a field of two, four or eight bytes: each byte counts 256 times as much as the
/// one after it.
pub proof fn law_field_bytes(bytes: Seq<u8>, at: int)
    requires
        0 <= at,
    ensures
        at + 2 <= bytes.len() ==> field(bytes, at, 2) == bytes[at] * 0x100 + bytes[at + 1],
        at + 4 <= bytes.len() ==> field(bytes, at, 4) == bytes[at] * 0x100_0000 + bytes[at + 1]
            * 0x1_0000 + bytes[at + 2] * 0x100 + bytes[at + 3],
        at + 8 <= bytes.len() ==> field(bytes, at, 8) == bytes[at] * 0x100_0000_0000_0000
            + bytes[at + 1] * 0x1_0000_0000_0000 + bytes[at + 2] * 0x100_0000_0000 + bytes[at + 3]
            * 0x1_0000_0000 + bytes[at + 4] * 0x100_0000 + bytes[at + 5] * 0x1_0000 + bytes[at + 6]
            * 0x100 + bytes[at + 7],
{
    assert forall|width: int| 0 < width && at + width <= bytes.len() implies #[trigger] field(
        bytes,
        at,
        width,
    ) == field(bytes, at, width - 1) * 256 + bytes[at + width - 1] by {
        assert(bytes.subrange(at, at + width).drop_last() =~= bytes.subrange(at, at + width - 1));
    }
    if at + 1 <= bytes.len() {
        assert(field(bytes, at, 0) == 0);
        assert(field(bytes, at, 1) == field(bytes, at, 0) * 256 + bytes[at]);
    }
    if at + 2 <= bytes.len() {
        assert(field(bytes, at, 2) == field(bytes, at, 1) * 256 + bytes[at + 1]);
    }
    if at + 4 <= bytes.len() {
        assert(field(bytes, at, 3) == field(bytes, at, 2) * 256 + bytes[at + 2]);
        assert(field(bytes, at, 4) == field(bytes, at, 3) * 256 + bytes[at + 3]);
    }
    if at + 8 <= bytes.len() {
        assert(field(bytes, at, 5) == field(bytes, at, 4) * 256 + bytes[at + 4]);
        assert(field(bytes, at, 6) == field(bytes, at, 5) * 256 + bytes[at + 5]);
        assert(field(bytes, at, 7) == field(bytes, at, 6) * 256 + bytes[at + 6]);
        assert(field(bytes, at, 8) == field(bytes, at, 7) * 256 + bytes[at + 7]);
    }
}

/// Reads `width` bytes off the front of `data`.
fn decode_uint(data: &mut &[u8], width: usize) -> (n: u64)
    requires
        width <= 8,
        width <= old(data)@.len(),
    ensures
        n == field(old(data)@, 0, width as int),
        final(data)@ == old(data)@.skip(width as int),
        n < be_limit(width as nat),
{
    let (int_bytes, rest) = data.split_at(width);
    let mut n: u64 = 0;
    let mut i: usize = 0;
    while i < width
        invariant
            i <= width <= 8,
            int_bytes@.len() == width,
            n == be_value(int_bytes@.take(i as int)),
        decreases width - i,
    {
        proof {
            lemma_be_value_bound(int_bytes@.take(i as int));
            reveal_with_fuel(be_limit, 9);
            assert(n < be_limit(i as nat));
            assert(be_limit(i as nat) <= 0x100_0000_0000_0000);
            assert(int_bytes@.take(i + 1).drop_last() =~= int_bytes@.take(i as int));
        }
        n = n * 256 + int_bytes[i] as u64;
        i += 1;
    }
    proof {
        assert(int_bytes@.take(width as int) =~= int_bytes@);
        assert(int_bytes@ =~= old(data)@.subrange(0, width as int));
        lemma_be_value_bound(int_bytes@);
    }
    *data = rest;
    n
}

/// Reads a `u8` off the front of `data`.
pub(crate) fn decode_u8(data: &mut &[u8]) -> (n: u8)
    requires
        1 <= old(data)@.len(),
    ensures
        n == old(data)@[0],
        final(data)@ == old(data)@.skip(1),
{
    let (int_bytes, rest) = data.split_at(1);
    let n = int_bytes[0];
    *data = rest;
    n
}

/// Reads a `u16` off the front of `data`.
pub(crate) fn decode_u16(data: &mut &[u8]) -> (n: u16)
    requires
        2 <= old(data)@.len(),
    ensures
        n == field(old(data)@, 0, 2),
        final(data)@ == old(data)@.skip(2),
{
    proof {
        lemma_be_limits();
    }
    decode_uint(data, 2) as u16
}

/// Reads a `u32` off the front of `data`.
pub(crate) fn decode_u32(data: &mut &[u8]) -> (n: u32)
    requires
        4 <= old(data)@.len(),
    ensures
        n == field(old(data)@, 0, 4),
        final(data)@ == old(data)@.skip(4),
{
    proof {
        lemma_be_limits();
    }
    decode_uint(data, 4) as u32
}

/// Reads an `i32` off the front of `data`.
pub(crate) fn decode_i32(data: &mut &[u8]) -> (n: i32)
    requires
        4 <= old(data)@.len(),
    ensures
        n == i32_of_bits(field(old(data)@, 0, 4)),
        final(data)@ == old(data)@.skip(4),
{
    let bits = decode_u32(data);
    proof {
        assert(bits >= 0x8000_0000 ==> (bits as i32) == bits - 0x1_0000_0000) by (bit_vector);
    }
    bits as i32
}

/// Reads the bit pattern of a 64-bit floating-point number off the front of `data`.
pub(crate) fn decode_f64_bits(data: &mut &[u8]) -> (n: u64)
    requires
        8 <= old(data)@.len(),
    ensures
        n == field(old(data)@, 0, 8),
        final(data)@ == old(data)@.skip(8),
{
    decode_uint(data, 8)
}

/// True when `buf` holds nothing but zeros from position `from` on.
pub open spec fn zero_from(buf: Seq<u8>, from: int) -> bool {
    forall|i: int| from <= i < buf.len() ==> buf[i] == 0
}

/// Appends the low-order `width` bytes of `n` to the `len` bytes in use of `buf`.
fn encode_uint(buf: &mut [u8; MAX_EVENT_SIZE], len: &mut usize, n: u64, width: usize)
    requires
        width <= 8,
        *old(len) + width <= MAX_EVENT_SIZE,
        zero_from(old(buf)@, *old(len) as int),
    ensures
        *final(len) == *old(len) + width,
        final(buf)@.take(*final(len) as int) == old(buf)@.take(*old(len) as int) + be_bytes(
            n as nat,
            width as nat,
        ),
        zero_from(final(buf)@, *final(len) as int),
{
    let start = *len;
    let mut rest: u64 = n;
    let mut left: usize = width;
    proof {
        lemma_be_bytes_len(n as nat, width as nat);
    }
    let ghost before = buf@;
    while left > 0
        invariant
            left <= width <= 8,
            start + width <= MAX_EVENT_SIZE,
            before.len() == MAX_EVENT_SIZE,
            buf@.take(start as int) == before.take(start as int),
            zero_from(buf@, start + width),
            be_bytes(n as nat, width as nat).len() == width,
            be_bytes(rest as nat, left as nat) + buf@.subrange(start + left, start + width)
                == be_bytes(n as nat, width as nat),
        decreases left,
    {
        let ghost bytes_before = buf@;
        let ghost rest_before = rest as nat;
        left -= 1;
        buf[start + left] = (rest % 256) as u8;
        rest = rest / 256;
        proof {
            lemma_be_bytes_len(rest as nat, left as nat);
            assert(buf@.subrange(start + left, start + width) =~= seq![(rest_before % 256) as u8]
                + bytes_before.subrange(start + left + 1, start + width));
            assert(be_bytes(rest_before, (left + 1) as nat) =~= be_bytes(
                rest as nat,
                left as nat,
            ).push((rest_before % 256) as u8));
            assert(buf@.take(start as int) =~= bytes_before.take(start as int));
            assert(be_bytes(rest as nat, left as nat) + buf@.subrange(start + left, start + width)
                =~= be_bytes(rest_before, (left + 1) as nat) + bytes_before.subrange(
                start + left + 1,
                start + width,
            ));
        }
    }
    proof {
        assert(buf@.subrange(start as int, start + width) =~= be_bytes(n as nat, width as nat));
        assert(buf@.take(start + width) =~= buf@.take(start as int) + buf@.subrange(
            start as int,
            start + width,
        ));
    }
    *len = start + width;
}

/// Appends `n` to the `len` bytes in use of `buf`.
pub(crate) fn encode_u8(buf: &mut [u8; MAX_EVENT_SIZE], len: &mut usize, n: u8)
    requires
        *old(len) + 1 <= MAX_EVENT_SIZE,
        zero_from(old(buf)@, *old(len) as int),
    ensures
        *final(len) == *old(len) + 1,
        final(buf)@.take(*final(len) as int) == old(buf)@.take(*old(len) as int).push(n),
        zero_from(final(buf)@, *final(len) as int),
{
    let at: usize = *len;
    buf[at] = n;
    *len = at + 1;
    proof {
        assert(buf@.take(at + 1) =~= old(buf)@.take(at as int).push(n));
    }
}

/// Appends `n` to the `len` bytes in use of `buf`.
pub(crate) fn encode_u16(buf: &mut [u8; MAX_EVENT_SIZE], len: &mut usize, n: u16)
    requires
        *old(len) + 2 <= MAX_EVENT_SIZE,
        zero_from(old(buf)@, *old(len) as int),
    ensures
        *final(len) == *old(len) + 2,
        final(buf)@.take(*final(len) as int) == old(buf)@.take(*old(len) as int) + be_bytes(
            n as nat,
            2,
        ),
        zero_from(final(buf)@, *final(len) as int),
{
    encode_uint(buf, len, n as u64, 2)
}

/// Appends `n` to the `len` bytes in use of `buf`.
pub(crate) fn encode_u32(buf: &mut [u8; MAX_EVENT_SIZE], len: &mut usize, n: u32)
    requires
        *old(len) + 4 <= MAX_EVENT_SIZE,
        zero_from(old(buf)@, *old(len) as int),
    ensures
        *final(len) == *old(len) + 4,
        final(buf)@.take(*final(len) as int) == old(buf)@.take(*old(len) as int) + be_bytes(
            n as nat,
            4,
        ),
        zero_from(final(buf)@, *final(len) as int),
{
    encode_uint(buf, len, n as u64, 4)
}

/// Appends `n` to the `len` bytes in use of `buf`.
pub(crate) fn encode_i32(buf: &mut [u8; MAX_EVENT_SIZE], len: &mut usize, n: i32)
    requires
        *old(len) + 4 <= MAX_EVENT_SIZE,
        zero_from(old(buf)@, *old(len) as int),
    ensures
        *final(len) == *old(len) + 4,
        final(buf)@.take(*final(len) as int) == old(buf)@.take(*old(len) as int) + be_bytes(
            i32_bits(n),
            4,
        ),
        zero_from(final(buf)@, *final(len) as int),
{
    proof {
        assert(n < 0 ==> (n as u32) == n + 0x1_0000_0000) by (bit_vector);
    }
    encode_u32(buf, len, n as u32)
}

/// Appends the bit pattern of a 64-bit floating-point number to the `len` bytes in use of `buf`.
pub(crate) fn encode_f64_bits(buf: &mut [u8; MAX_EVENT_SIZE], len: &mut usize, n: u64)
    requires
        *old(len) + 8 <= MAX_EVENT_SIZE,
        zero_from(old(buf)@, *old(len) as int),
    ensures
        *final(len) == *old(len) + 8,
        final(buf)@.take(*final(len) as int) == old(buf)@.take(*old(len) as int) + be_bytes(
            n as nat,
            8,
        ),
        zero_from(final(buf)@, *final(len) as int),
{
    encode_uint(buf, len, n, 8)
}

/// Appends `bytes` to the `len` bytes in use of `buf`.
pub(crate) fn encode_bytes(buf: &mut [u8; MAX_EVENT_SIZE], len: &mut usize, bytes: &[u8])
    requires
        *old(len) + bytes@.len() <= MAX_EVENT_SIZE,
        zero_from(old(buf)@, *old(len) as int),
    ensures
        *final(len) == *old(len) + bytes@.len(),
        final(buf)@.take(*final(len) as int) == old(buf)@.take(*old(len) as int) + bytes@,
        zero_from(final(buf)@, *final(len) as int),
{
    let ghost start = *len as int;
    let ghost before = buf@;
    let mut i: usize = 0;
    proof {
        assert(before.take(start) + bytes@.take(0) =~= before.take(start));
    }
    while i < bytes.len()
        invariant
            i <= bytes@.len(),
            start + bytes@.len() <= MAX_EVENT_SIZE,
            *len == start + i,
            buf@.take(*len as int) == before.take(start) + bytes@.take(i as int),
            zero_from(buf@, *len as int),
        decreases bytes@.len() - i,
    {
        encode_u8(buf, len, bytes[i]);
        proof {
            assert(before.take(start) + bytes@.take(i + 1) =~= (before.take(start) + bytes@.take(
                i as int,
            )).push(bytes@[i as int]));
        }
        i += 1;
    }
    proof {
        assert(bytes@.take(i as int) =~= bytes@);
    }
}

} // verus!

//! Big-endian integers and the byte queue they are read from.

use std::collections::VecDeque;
use vstd::prelude::*;

verus! {

/// The two bytes of `x`, most significant first.
#[verifier::opaque]
pub open spec fn be_u16(x: u16) -> Seq<u8> {
    seq![(x / 0x100) as u8, (x % 0x100) as u8]
}

/// The four bytes of `x`, most significant first.
#[verifier::opaque]
pub open spec fn be_u32(x: u32) -> Seq<u8> {
    seq![
        (x / 0x100_0000) as u8,
        (x / 0x1_0000 % 0x100) as u8,
        (x / 0x100 % 0x100) as u8,
        (x % 0x100) as u8,
    ]
}

/// The eight bytes of `x`, most significant first.
pub open spec fn be_u64(x: u64) -> Seq<u8> {
    be_u32((x / 0x1_0000_0000) as u32) + be_u32((x % 0x1_0000_0000) as u32)
}

/// The two's complement pattern of `x`, read as an unsigned number.
pub open spec fn i32_bits(x: i32) -> u32 {
    if x < 0 {
        (x + 0x1_0000_0000) as u32
    } else {
        x as u32
    }
}

/// The signed number whose two's complement pattern is `bits`.
pub open spec fn i32_from_bits(bits: u32) -> i32 {
    if bits < 0x8000_0000 {
        bits as i32
    } else {
        (bits - 0x1_0000_0000) as i32
    }
}

/// The four bytes of `x` in two's complement, most significant first.
pub open spec fn be_i32(x: i32) -> Seq<u8> {
    be_u32(i32_bits(x))
}

/// The number whose big-endian bytes are the first two of `s`.
#[verifier::opaque]
pub open spec fn u16_at_front(s: Seq<u8>) -> u16 {
    (s[0] * 0x100 + s[1]) as u16
}

/// The number whose big-endian bytes are the first four of `s`.
#[verifier::opaque]
pub open spec fn u32_at_front(s: Seq<u8>) -> u32 {
    (s[0] * 0x100_0000 + s[1] * 0x1_0000 + s[2] * 0x100 + s[3]) as u32
}

/// A 16-bit number takes two bytes.
pub broadcast proof fn lemma_be_u16_len(x: u16)
    ensures
        #[trigger] be_u16(x).len() == 2,
{
    reveal(be_u16);
}

/// A 32-bit number takes four bytes.
pub broadcast proof fn lemma_be_u32_len(x: u32)
    ensures
        #[trigger] be_u32(x).len() == 4,
{
    reveal(be_u32);
}

/// Reading a 16-bit number back from a sequence that starts with its bytes.
pub broadcast proof fn lemma_u16_round_trip(x: u16, rest: Seq<u8>)
    ensures
        #[trigger] u16_at_front(be_u16(x) + rest) == x,
        (be_u16(x) + rest).skip(2) == rest,
{
    reveal(be_u16);
    reveal(u16_at_front);
    assert((be_u16(x) + rest).skip(2) =~= rest);
}

/// Reading a 32-bit number back from a sequence that starts with its bytes.
pub broadcast proof fn lemma_u32_round_trip(x: u32, rest: Seq<u8>)
    ensures
        #[trigger] u32_at_front(be_u32(x) + rest) == x,
        (be_u32(x) + rest).skip(4) == rest,
{
    reveal(be_u32);
    reveal(u32_at_front);
    assert((be_u32(x) + rest).skip(4) =~= rest);
}

/// The two's complement pattern determines the signed number.
pub broadcast proof fn lemma_i32_bits_round_trip(x: i32)
    ensures
        i32_from_bits(#[trigger] i32_bits(x)) == x,
{
}

/// Two numbers with the same eight bytes are equal.
pub proof fn lemma_be_u64_injective(x: u64, y: u64)
    requires
        be_u64(x) == be_u64(y),
    ensures
        x == y,
{
    let (xh, xl) = ((x / 0x1_0000_0000) as u32, (x % 0x1_0000_0000) as u32);
    let (yh, yl) = ((y / 0x1_0000_0000) as u32, (y % 0x1_0000_0000) as u32);
    broadcast use lemma_be_u32_len;

    assert(be_u64(x) =~= be_u32(xh) + be_u32(xl));
    lemma_u32_round_trip(xh, be_u32(xl));
    lemma_u32_round_trip(yh, be_u32(yl));
    assert(be_u32(xl) == be_u32(yl));
    assert(be_u32(xl) + Seq::<u8>::empty() =~= be_u32(xl));
    lemma_u32_round_trip(xl, Seq::empty());
    lemma_u32_round_trip(yl, Seq::empty());
}

/// Appends `x` in big-endian order.
pub fn write_u16(bytes: &mut Vec<u8>, x: u16)
    ensures
        final(bytes)@ == old(bytes)@ + be_u16(x),
{
    reveal(be_u16);
    bytes.push((x / 0x100) as u8);
    bytes.push((x % 0x100) as u8);
    assert(bytes@ =~= old(bytes)@ + be_u16(x));
}

/// Appends `x` in big-endian order.
pub fn write_u32(bytes: &mut Vec<u8>, x: u32)
    ensures
        final(bytes)@ == old(bytes)@ + be_u32(x),
{
    reveal(be_u32);
    bytes.push((x / 0x100_0000) as u8);
    bytes.push((x / 0x1_0000 % 0x100) as u8);
    bytes.push((x / 0x100 % 0x100) as u8);
    bytes.push((x % 0x100) as u8);
    assert(bytes@ =~= old(bytes)@ + be_u32(x));
}

/// Appends `x` in big-endian order.
pub fn write_u64(bytes: &mut Vec<u8>, x: u64)
    ensures
        final(bytes)@ == old(bytes)@ + be_u64(x),
{
    write_u32(bytes, (x / 0x1_0000_0000) as u32);
    write_u32(bytes, (x % 0x1_0000_0000) as u32);
    assert(bytes@ =~= old(bytes)@ + be_u64(x));
}

/// Appends the two's complement pattern of `x` in big-endian order.
pub fn write_i32(bytes: &mut Vec<u8>, x: i32)
    ensures
        final(bytes)@ == old(bytes)@ + be_i32(x),
{
    let bits: u32 = if x < 0 {
        (x as i64 + 0x1_0000_0000) as u32
    } else {
        x as u32
    };
    write_u32(bytes, bits);
}

/// Appends every byte of `data`.
pub fn write_bytes(bytes: &mut Vec<u8>, data: &[u8])
    ensures
        final(bytes)@ == old(bytes)@ + data@,
{
    bytes.extend_from_slice(data);
    assert(bytes@ =~= old(bytes)@ + data@);
}

/// Puts the bytes of a message into a queue that is read from the front.
pub fn to_queue(bytes: Vec<u8>) -> (queue: VecDeque<u8>)
    ensures
        queue@ == bytes@,
{
    let mut queue: VecDeque<u8> = VecDeque::new();
    let n: usize = bytes.len();
    for i in 0..n
        invariant
            n == bytes@.len(),
            queue@ == bytes@.take(i as int),
    {
        queue.push_back(bytes[i]);
        assert(bytes@.take(i + 1) =~= bytes@.take(i as int).push(bytes@[i as int]));
    }
    assert(bytes@.take(n as int) =~= bytes@);
    queue
}

/// Removes the first `n` bytes of the queue and returns them in order.
pub fn take_front(queue: &mut VecDeque<u8>, n: usize) -> (data: Vec<u8>)
    requires
        n <= old(queue)@.len(),
    ensures
        data@ == old(queue)@.take(n as int),
        final(queue)@ == old(queue)@.skip(n as int),
{
    let mut data: Vec<u8> = Vec::new();
    assert(queue@ =~= old(queue)@.skip(0));
    for i in 0..n
        invariant
            n <= old(queue)@.len(),
            data@ == old(queue)@.take(i as int),
            queue@ == old(queue)@.skip(i as int),
    {
        if let Some(byte) = queue.pop_front() {
            data.push(byte);
        }
        assert(data@ =~= old(queue)@.take(i + 1));
        assert(queue@ =~= old(queue)@.skip(i + 1));
    }
    data
}

/// The bytes of a number, weighted by their places from the most significant
/// one down, add up to the number.
pub proof fn law_bytes_add_up(x: u16, y: u32)
    ensures
        be_u16(x).len() == 2,
        be_u16(x)[0] * 0x100 + be_u16(x)[1] == x,
        be_u32(y).len() == 4,
        be_u32(y)[0] * 0x100_0000 + be_u32(y)[1] * 0x1_0000 + be_u32(y)[2] * 0x100 + be_u32(y)[3]
            == y,
{
    reveal(be_u16);
    reveal(be_u32);
}

/// A number of 64 bits has its upper half before its lower half.
pub proof fn law_halves_add_up(x: u64)
    ensures
        be_u64(x).len() == 8,
        u32_at_front(be_u64(x)) * 0x1_0000_0000 + u32_at_front(be_u64(x).skip(4)) == x,
{
    broadcast use lemma_be_u32_len;

    let high = (x / 0x1_0000_0000) as u32;
    let low = (x % 0x1_0000_0000) as u32;
    lemma_u32_round_trip(high, be_u32(low));
    assert(be_u32(low) + Seq::<u8>::empty() =~= be_u32(low));
    lemma_u32_round_trip(low, Seq::empty());
}

/// The number that is read is the one that the bytes add up to, and writing it
/// gives the bytes back.
pub proof fn law_numbers_are_read(s: Seq<u8>)
    ensures
        s.len() >= 2 ==> u16_at_front(s) == s[0] * 0x100 + s[1] && be_u16(u16_at_front(s)) == s.take(
            2,
        ),
        s.len() >= 4 ==> u32_at_front(s) == s[0] * 0x100_0000 + s[1] * 0x1_0000 + s[2] * 0x100 + s[3]
            && be_u32(u32_at_front(s)) == s.take(4),
{
    reveal(be_u16);
    reveal(be_u32);
    reveal(u16_at_front);
    reveal(u32_at_front);
    if s.len() >= 2 {
        assert(be_u16(u16_at_front(s)) =~= s.take(2));
    }
    if s.len() >= 4 {
        assert(be_u32(u32_at_front(s)) =~= s.take(4));
    }
}

/// A signed number and its pattern differ by a multiple of 2^32, and each
/// determines the other.
pub proof fn law_twos_complement(x: i32, bits: u32)
    ensures
        i32_bits(x) == x as int % 0x1_0000_0000,
        i32_from_bits(bits) as int % 0x1_0000_0000 == bits,
        i32_bits(i32_from_bits(bits)) == bits,
        i32_from_bits(i32_bits(x)) == x,
        be_i32(x).len() == 4,
        u32_at_front(be_i32(x)) == x as int % 0x1_0000_0000,
{
    broadcast use lemma_be_u32_len;

    assert(be_i32(x) + Seq::<u8>::empty() =~= be_u32(i32_bits(x)));
    lemma_u32_round_trip(i32_bits(x), Seq::empty());
}

} // verus!

//! Fixed-width integers in network (big-endian) byte order.
//!
//! The reads and writes go through the `bytes` crate (`Buf` for `&[u8]`,
//! `BufMut` for `&mut [u8]`); the spec functions below say which bytes they
//! read and write.
use bytes::{Buf, BufMut};
use vstd::prelude::*;

verus! {

// ---------------------------------------------------------------------------
// Decoding: the integer that the first bytes of a sequence stand for.

/// The `u16` whose big-endian bytes are `s[0], s[1]`.
pub open spec fn be_u16(s: Seq<u8>) -> u16 {
    ((s[0] as u16) << 8u16) | (s[1] as u16)
}

/// The `u32` whose big-endian bytes are `s[i..i + 4]`.
pub open spec fn be_u32_at(s: Seq<u8>, i: int) -> u32 {
    ((s[i] as u32) << 24u32) | ((s[i + 1] as u32) << 16u32) | ((s[i + 2] as u32) << 8u32) | (s[i
        + 3] as u32)
}

/// The `u64` whose big-endian bytes are `s[i..i + 8]`.
pub open spec fn be_u64_at(s: Seq<u8>, i: int) -> u64 {
    ((be_u32_at(s, i) as u64) << 32u64) | (be_u32_at(s, i + 4) as u64)
}

/// The `u32` whose big-endian bytes are `s[0..4]`.
pub open spec fn be_u32(s: Seq<u8>) -> u32 {
    be_u32_at(s, 0)
}

/// The `u64` whose big-endian bytes are `s[0..8]`.
pub open spec fn be_u64(s: Seq<u8>) -> u64 {
    be_u64_at(s, 0)
}

/// The `u128` whose big-endian bytes are `s[0..16]`.
pub open spec fn be_u128(s: Seq<u8>) -> u128 {
    ((be_u64_at(s, 0) as u128) << 64u128) | (be_u64_at(s, 8) as u128)
}

pub open spec fn be_i8(s: Seq<u8>) -> i8 {
    s[0] as i8
}

pub open spec fn be_i16(s: Seq<u8>) -> i16 {
    be_u16(s) as i16
}

pub open spec fn be_i32(s: Seq<u8>) -> i32 {
    be_u32(s) as i32
}

pub open spec fn be_i64(s: Seq<u8>) -> i64 {
    be_u64(s) as i64
}

// ---------------------------------------------------------------------------
// Encoding: the big-endian bytes of an integer.

pub open spec fn u16_be(x: u16) -> Seq<u8> {
    seq![(x >> 8u16) as u8, x as u8]
}

pub open spec fn u32_be(x: u32) -> Seq<u8> {
    seq![(x >> 24u32) as u8, (x >> 16u32) as u8, (x >> 8u32) as u8, x as u8]
}

pub open spec fn u64_be(x: u64) -> Seq<u8> {
    u32_be((x >> 32u64) as u32) + u32_be(x as u32)
}

pub open spec fn u128_be(x: u128) -> Seq<u8> {
    u64_be((x >> 64u128) as u64) + u64_be(x as u64)
}

pub open spec fn i16_be(x: i16) -> Seq<u8> {
    u16_be(x as u16)
}

pub open spec fn i32_be(x: i32) -> Seq<u8> {
    u32_be(x as u32)
}

pub open spec fn i64_be(x: i64) -> Seq<u8> {
    u64_be(x as u64)
}

/// `s` with the bytes from `pos` on replaced by `b` (the length of `s` is kept
/// when `b` fits).
pub open spec fn splice(s: Seq<u8>, pos: int, b: Seq<u8>) -> Seq<u8> {
    s.take(pos) + b + s.skip(pos + b.len())
}

/// Writing `x` at the front and then `y` right after it is writing `x + y`.
pub proof fn lemma_splice_extend(s: Seq<u8>, x: Seq<u8>, y: Seq<u8>)
    requires
        x.len() + y.len() <= s.len(),
    ensures
        splice(splice(s, 0, x), x.len() as int, y) == splice(s, 0, x + y),
{
    assert(splice(splice(s, 0, x), x.len() as int, y) =~= splice(s, 0, x + y));
}

// ---------------------------------------------------------------------------
// Round trips.

/// Two sequences that agree on their first four bytes read as the same INT16
/// and INT32.
pub proof fn lemma_same_first_four(a: Seq<u8>, b: Seq<u8>)
    requires
        a.len() >= 4,
        b.len() >= 4,
        forall|k: int| 0 <= k < 4 ==> a[k] == b[k],
    ensures
        be_i16(a) == be_i16(b),
        be_i32(a) == be_i32(b),
{
    assert(a[0] == b[0] && a[1] == b[1] && a[2] == b[2] && a[3] == b[3]);
}

/// Two sequences that agree on their first eight bytes read as the same INT64.
pub proof fn lemma_same_first_eight(a: Seq<u8>, b: Seq<u8>)
    requires
        a.len() >= 8,
        b.len() >= 8,
        forall|k: int| 0 <= k < 8 ==> a[k] == b[k],
    ensures
        be_i64(a) == be_i64(b),
{
    assert(a[0] == b[0] && a[1] == b[1] && a[2] == b[2] && a[3] == b[3]);
    assert(a[4] == b[4] && a[5] == b[5] && a[6] == b[6] && a[7] == b[7]);
}

pub proof fn lemma_u16_roundtrip(x: u16)
    ensures
        u16_be(x).len() == 2,
        be_u16(u16_be(x)) == x,
{
    let s = u16_be(x);
    assert((((((x >> 8u16) as u8) as u16) << 8u16) | ((x as u8) as u16)) == x) by (bit_vector);
}

pub proof fn lemma_u32_roundtrip(x: u32)
    ensures
        u32_be(x).len() == 4,
        be_u32(u32_be(x)) == x,
{
    assert((((((x >> 24u32) as u8) as u32) << 24u32) | ((((x >> 16u32) as u8) as u32) << 16u32) | (
    (((x >> 8u32) as u8) as u32) << 8u32) | ((x as u8) as u32)) == x) by (bit_vector);
}

pub proof fn lemma_u64_roundtrip(x: u64)
    ensures
        u64_be(x).len() == 8,
        be_u64(u64_be(x)) == x,
{
    let hi = (x >> 32u64) as u32;
    let lo = x as u32;
    lemma_u32_roundtrip(hi);
    lemma_u32_roundtrip(lo);
    let s = u64_be(x);
    assert(be_u32_at(s, 0) == be_u32(u32_be(hi)));
    assert(be_u32_at(s, 4) == be_u32(u32_be(lo)));
    assert(((((x >> 32u64) as u32) as u64) << 32u64) | (((x as u32) as u64)) == x) by (bit_vector);
}

pub proof fn lemma_u128_roundtrip(x: u128)
    ensures
        u128_be(x).len() == 16,
        be_u128(u128_be(x)) == x,
{
    let hi = (x >> 64u128) as u64;
    let lo = x as u64;
    lemma_u64_roundtrip(hi);
    lemma_u64_roundtrip(lo);
    let s = u128_be(x);
    let a = u64_be(hi);
    let b = u64_be(lo);
    assert(be_u32_at(s, 0) == be_u32_at(a, 0));
    assert(be_u32_at(s, 4) == be_u32_at(a, 4));
    assert(be_u32_at(s, 8) == be_u32_at(b, 0));
    assert(be_u32_at(s, 12) == be_u32_at(b, 4));
    assert(((((x >> 64u128) as u64) as u128) << 64u128) | (((x as u64) as u128)) == x)
        by (bit_vector);
}

pub proof fn lemma_i16_roundtrip(x: i16)
    ensures
        i16_be(x).len() == 2,
        be_i16(i16_be(x)) == x,
{
    lemma_u16_roundtrip(x as u16);
    assert(((x as u16) as i16) == x) by (bit_vector);
}

pub proof fn lemma_i32_roundtrip(x: i32)
    ensures
        i32_be(x).len() == 4,
        be_i32(i32_be(x)) == x,
{
    lemma_u32_roundtrip(x as u32);
    assert(((x as u32) as i32) == x) by (bit_vector);
}

pub proof fn lemma_i64_roundtrip(x: i64)
    ensures
        i64_be(x).len() == 8,
        be_i64(i64_be(x)) == x,
{
    lemma_u64_roundtrip(x as u64);
    assert(((x as u64) as i64) == x) by (bit_vector);
}

// ---------------------------------------------------------------------------
// Reads through `bytes::Buf` (big-endian getters on `&[u8]`).

/// `Buf::get_u8` on a byte slice: the first byte. It panics on an empty
/// slice, which `requires` leaves out.
#[verifier::external_body]
pub(crate) fn get_u8(buf: &[u8]) -> (r: u8)
    requires
        buf@.len() >= 1,
    ensures
        r == buf@[0],
{
    let mut b = buf;
    b.get_u8()
}

/// `Buf::get_i8` on a byte slice: the first byte read as a signed integer.
#[verifier::external_body]
pub(crate) fn get_i8(buf: &[u8]) -> (r: i8)
    requires
        buf@.len() >= 1,
    ensures
        r == be_i8(buf@),
{
    let mut b = buf;
    b.get_i8()
}

/// `Buf::get_i16` on a byte slice: `i16::from_be_bytes` of the first two
/// bytes. It panics when fewer than two bytes remain.
#[verifier::external_body]
pub(crate) fn get_i16(buf: &[u8]) -> (r: i16)
    requires
        buf@.len() >= 2,
    ensures
        r == be_i16(buf@),
{
    let mut b = buf;
    b.get_i16()
}

/// `Buf::get_i32` on a byte slice: `i32::from_be_bytes` of the first four
/// bytes. It panics when fewer than four bytes remain.
#[verifier::external_body]
pub(crate) fn get_i32(buf: &[u8]) -> (r: i32)
    requires
        buf@.len() >= 4,
    ensures
        r == be_i32(buf@),
{
    let mut b = buf;
    b.get_i32()
}

/// `Buf::get_i64` on a byte slice: `i64::from_be_bytes` of the first eight
/// bytes. It panics when fewer than eight bytes remain.
#[verifier::external_body]
pub(crate) fn get_i64(buf: &[u8]) -> (r: i64)
    requires
        buf@.len() >= 8,
    ensures
        r == be_i64(buf@),
{
    let mut b = buf;
    b.get_i64()
}

/// `Buf::get_u128` on a byte slice: `u128::from_be_bytes` of the first
/// sixteen bytes. It panics when fewer than sixteen bytes remain.
#[verifier::external_body]
pub(crate) fn get_u128(buf: &[u8]) -> (r: u128)
    requires
        buf@.len() >= 16,
    ensures
        r == be_u128(buf@),
{
    let mut b = buf;
    b.get_u128()
}

// ---------------------------------------------------------------------------
// Writes through `bytes::BufMut` (big-endian putters on `&mut [u8]`).

/// `BufMut::put_u8` on a byte slice: overwrites the first byte. It panics on
/// an empty slice.
#[verifier::external_body]
pub(crate) fn put_u8(buf: &mut [u8], n: u8)
    requires
        old(buf)@.len() >= 1,
    ensures
        final(buf)@ == seq![n] + old(buf)@.skip(1),
{
    let mut b: &mut [u8] = buf;
    b.put_u8(n)
}

/// `BufMut::put_i16` on a byte slice: overwrites the first two bytes with
/// `n.to_be_bytes()`. It panics when fewer than two bytes remain.
#[verifier::external_body]
pub(crate) fn put_i16(buf: &mut [u8], n: i16)
    requires
        old(buf)@.len() >= 2,
    ensures
        final(buf)@ == i16_be(n) + old(buf)@.skip(2),
{
    let mut b: &mut [u8] = buf;
    b.put_i16(n)
}

/// `BufMut::put_i32` on a byte slice: overwrites the first four bytes with
/// `n.to_be_bytes()`. It panics when fewer than four bytes remain.
#[verifier::external_body]
pub(crate) fn put_i32(buf: &mut [u8], n: i32)
    requires
        old(buf)@.len() >= 4,
    ensures
        final(buf)@ == i32_be(n) + old(buf)@.skip(4),
{
    let mut b: &mut [u8] = buf;
    b.put_i32(n)
}

/// `BufMut::put_i64` on a byte slice: overwrites the first eight bytes with
/// `n.to_be_bytes()`. It panics when fewer than eight bytes remain.
#[verifier::external_body]
pub(crate) fn put_i64(buf: &mut [u8], n: i64)
    requires
        old(buf)@.len() >= 8,
    ensures
        final(buf)@ == i64_be(n) + old(buf)@.skip(8),
{
    let mut b: &mut [u8] = buf;
    b.put_i64(n)
}

/// `BufMut::put_u128` on a byte slice: overwrites the first sixteen bytes with
/// `n.to_be_bytes()`. It panics when fewer than sixteen bytes remain.
#[verifier::external_body]
pub(crate) fn put_u128(buf: &mut [u8], n: u128)
    requires
        old(buf)@.len() >= 16,
    ensures
        final(buf)@ == u128_be(n) + old(buf)@.skip(16),
{
    let mut b: &mut [u8] = buf;
    b.put_u128(n)
}

// ---------------------------------------------------------------------------
// Writes at an offset.

pub(crate) fn put_i16_at(buf: &mut [u8], pos: usize, n: i16)
    requires
        pos + 2 <= old(buf)@.len(),
    ensures
        final(buf)@ == splice(old(buf)@, pos as int, i16_be(n)),
{
    let (_head, tail) = buf.split_at_mut(pos);
    put_i16(tail, n);
    assert(final(buf)@ =~= splice(old(buf)@, pos as int, i16_be(n)));
}

pub(crate) fn put_i64_at(buf: &mut [u8], pos: usize, n: i64)
    requires
        pos + 8 <= old(buf)@.len(),
    ensures
        final(buf)@ == splice(old(buf)@, pos as int, i64_be(n)),
{
    let (_head, tail) = buf.split_at_mut(pos);
    put_i64(tail, n);
    assert(final(buf)@ =~= splice(old(buf)@, pos as int, i64_be(n)));
}

pub(crate) fn put_i32_at(buf: &mut [u8], pos: usize, n: i32)
    requires
        pos + 4 <= old(buf)@.len(),
    ensures
        final(buf)@ == splice(old(buf)@, pos as int, i32_be(n)),
{
    let (_head, tail) = buf.split_at_mut(pos);
    put_i32(tail, n);
    assert(final(buf)@ =~= splice(old(buf)@, pos as int, i32_be(n)));
}

} // verus!

//! The primitive types of the Kafka wire protocol and the two traits that
//! read them from and write them to byte buffers.
//!
//! Every readable type has a spec function `spec_parse` from the bytes to an
//! [`Outcome`]: the value and the number of bytes read, the error, or
//! `Undefined` for the inputs on which the reader gives no answer (a read past
//! the end of the buffer, an unsupported encoding). Every writable type has a
//! spec function `spec_bytes` that gives its encoding.
use crate::big_endian::{
    be_i16, be_i32, be_u128, get_i16, get_i32, get_u128, get_u8, i16_be, lemma_i16_roundtrip,
    put_u128, put_u8, splice, u128_be,
};
use vstd::prelude::*;
use vstd::utf8::{decode_utf8, encode_utf8, valid_utf8};

verus! {

// ---------------------------------------------------------------------------
// Errors

#[verifier::external_type_specification]
#[verifier::external_body]
pub struct ExUtf8Error(std::str::Utf8Error);

#[verifier::external_type_specification]
#[verifier::external_body]
pub struct ExFromUtf8Error(std::string::FromUtf8Error);

/// Why a message could not be read.
#[derive(Debug, PartialEq)]
pub enum ParseError {
    /// The buffer holds a number of bytes (first) other than the one that the
    /// message needs (second).
    InvalidSize(usize, usize),
    /// A size field does not fit in a `usize` (it is negative).
    SizeTooLarge(core::num::TryFromIntError),
    /// A nullable string is not valid UTF-8.
    InvalidUtf8Str(std::str::Utf8Error),
    /// A compact string is not valid UTF-8.
    InvalidUtf8(std::string::FromUtf8Error),
}

/// What a [`ParseError`] says, without the payload of the standard library's
/// error types.
pub enum ParseFailure {
    InvalidSize(usize, usize),
    SizeTooLarge,
    InvalidUtf8Str,
    InvalidUtf8,
}

impl View for ParseError {
    type V = ParseFailure;

    open spec fn view(&self) -> ParseFailure {
        match self {
            ParseError::InvalidSize(got, expected) => ParseFailure::InvalidSize(*got, *expected),
            ParseError::SizeTooLarge(_) => ParseFailure::SizeTooLarge,
            ParseError::InvalidUtf8Str(_) => ParseFailure::InvalidUtf8Str,
            ParseError::InvalidUtf8(_) => ParseFailure::InvalidUtf8,
        }
    }
}

/// Why a value could not be written. The writers of this library require a
/// buffer large enough for the encoding, so none of them returns it.
#[derive(Debug, Clone, PartialEq)]
pub enum SerializeError {
    BufferTooSmall,
}

// ---------------------------------------------------------------------------
// Outcomes of reading

/// The result of reading a value of view `V` from a byte sequence.
pub enum Outcome<V> {
    /// The value and the number of bytes it took.
    Parsed(V, nat),
    /// The reader rejects the bytes with this error.
    Failed(ParseFailure),
    /// The reader has no answer for these bytes: it would read past the end
    /// of the buffer, or meets an encoding that it does not support.
    Undefined,
}

/// `r` is what a reader returns when the bytes have outcome `o`; `None`
/// stands for `Undefined`.
pub open spec fn agrees<T: View>(o: Outcome<T::V>, r: Option<Result<(T, usize), ParseError>>) -> bool {
    match o {
        Outcome::Parsed(v, n) => r matches Some(Ok((x, m))) && x@ == v && m == n,
        Outcome::Failed(f) => r matches Some(Err(e)) && e@ == f,
        Outcome::Undefined => r is None,
    }
}

/// `o` with `n` more bytes counted as read.
pub open spec fn after<V>(n: nat, o: Outcome<V>) -> Outcome<V> {
    match o {
        Outcome::Parsed(v, m) => Outcome::Parsed(v, n + m),
        Outcome::Failed(f) => Outcome::Failed(f),
        Outcome::Undefined => Outcome::Undefined,
    }
}

/// A type that can be read from the front of a byte buffer.
pub trait Deserialize: Sized + View {
    /// What reading the front of `buf` gives.
    spec fn spec_parse(buf: Seq<u8>) -> Outcome<Self::V>;

    /// A reader never claims more bytes than it was given.
    proof fn lemma_parse_len(buf: Seq<u8>)
        ensures
            Self::spec_parse(buf) matches Outcome::Parsed(_, n) ==> n <= buf.len(),
    ;

    /// Reads the front of `buf`; `None` on the inputs that have no outcome.
    fn try_parse(buf: &[u8]) -> (r: Option<Result<(Self, usize), ParseError>>)
        ensures
            agrees(Self::spec_parse(buf@), r),
    ;

    /// Reads the front of `buf`: the value and the number of bytes it took.
    fn parse(buf: &[u8]) -> (r: Result<(Self, usize), ParseError>)
        requires
            !(Self::spec_parse(buf@) is Undefined),
        ensures
            agrees(Self::spec_parse(buf@), Some(r)),
    {
        Self::try_parse(buf).unwrap()
    }
}

/// A type that can be written to the front of a byte buffer.
pub trait Serialize: View {
    /// The encoding of a value.
    spec fn spec_bytes(v: Self::V) -> Seq<u8>;

    /// Writes the encoding of `self` at the front of `buf` and returns its
    /// length; the rest of `buf` is left as it was.
    fn write(&self, buf: &mut [u8]) -> (r: Result<usize, SerializeError>)
        requires
            Self::spec_bytes(self@).len() <= old(buf)@.len(),
        ensures
            r matches Ok(n) && n == Self::spec_bytes(self@).len(),
            final(buf)@ == splice(old(buf)@, 0, Self::spec_bytes(self@)),
    ;

    /// The length of the encoding of `self`, or `None` where it does not fit
    /// in a `usize`.
    fn encoded_len(&self) -> (r: Option<usize>)
        ensures
            match r {
                Some(n) => n == Self::spec_bytes(self@).len(),
                None => Self::spec_bytes(self@).len() > usize::MAX,
            },
    ;
}

/// Writes `x` at offset `pos` of `buf`.
pub(crate) fn write_at<T: Serialize>(x: &T, buf: &mut [u8], pos: usize) -> (n: usize)
    requires
        pos + T::spec_bytes(x@).len() <= old(buf)@.len(),
    ensures
        n == T::spec_bytes(x@).len(),
        final(buf)@ == splice(old(buf)@, pos as int, T::spec_bytes(x@)),
{
    let (_head, tail) = buf.split_at_mut(pos);
    let n = x.write(tail).unwrap();
    assert(final(buf)@ =~= splice(old(buf)@, pos as int, T::spec_bytes(x@)));
    n
}

// ---------------------------------------------------------------------------
// UNSIGNED_VARINT

/// An unsigned integer in the variable-length encoding of the protocol: seven
/// bits per byte, least significant group first, the high bit of each byte set
/// when another byte follows.
#[derive(Debug, Clone, PartialEq, Eq)]
pub struct UnsignedVarint {
    pub val: u32,
}

impl View for UnsignedVarint {
    type V = u32;

    open spec fn view(&self) -> u32 {
        self.val
    }
}

/// The index of the first byte of `s` without the continuation bit, or
/// `s.len()` where there is none.
pub open spec fn varint_end(s: Seq<u8>) -> nat
    decreases s.len(),
{
    if s.len() == 0 {
        0
    } else if s[0] < 0x80 {
        0
    } else {
        1 + varint_end(s.drop_first())
    }
}

/// The integer that the groups of `s` make: byte `i` gives bits `7 * i` and up
/// (bits past the 32nd are dropped).
pub open spec fn varint_value(s: Seq<u8>) -> u32
    decreases s.len(),
{
    if s.len() == 0 {
        0
    } else {
        varint_value(s.drop_last()) | (((s.last() & 0x7f) as u32) << ((7 * (s.len() - 1)) as u32))
    }
}

/// The number of bytes that the encoding of `v` takes.
pub open spec fn varint_len(v: u32) -> u32 {
    if v < 0x80 {
        1
    } else if v < 0x4000 {
        2
    } else if v < 0x20_0000 {
        3
    } else if v < 0x1000_0000 {
        4
    } else {
        5
    }
}

/// Byte `i` of the encoding of `v`.
pub open spec fn varint_byte(v: u32, i: u32) -> u8 {
    if i + 1 < varint_len(v) {
        (((v >> (7 * i)) & 0x7f) | 0x80) as u8
    } else {
        ((v >> (7 * i)) & 0x7f) as u8
    }
}

/// The encoding of `v`.
pub open spec fn varint_bytes(v: u32) -> Seq<u8> {
    Seq::new(varint_len(v) as nat, |i: int| varint_byte(v, i as u32))
}

proof fn lemma_varint_end(s: Seq<u8>, k: nat)
    requires
        k <= s.len(),
        forall|j: int| 0 <= j < k ==> s[j] >= 0x80,
    ensures
        varint_end(s) >= k,
        k < s.len() && s[k as int] < 0x80 ==> varint_end(s) == k,
    decreases k,
{
    if k > 0 {
        lemma_varint_end(s.drop_first(), (k - 1) as nat);
    }
}

proof fn lemma_varint_value_step(s: Seq<u8>, k: nat)
    requires
        k < s.len(),
    ensures
        varint_value(s.take(k as int + 1)) == varint_value(s.take(k as int)) | (((s[k as int]
            & 0x7f) as u32) << ((7 * k) as u32)),
{
    assert(s.take(k as int + 1).drop_last() =~= s.take(k as int));
}

impl Deserialize for UnsignedVarint {
    /// The bytes up to the first one without the continuation bit. There is
    /// no outcome where the buffer ends before that byte, or where it is not
    /// among the first five (a sixth group would start past bit 32).
    open spec fn spec_parse(buf: Seq<u8>) -> Outcome<u32> {
        let k = varint_end(buf);
        if k < buf.len() && k < 5 {
            Outcome::Parsed(varint_value(buf.take(k + 1 as int)), k + 1)
        } else {
            Outcome::Undefined
        }
    }

    proof fn lemma_parse_len(buf: Seq<u8>) {
    }

    fn try_parse(v: &[u8]) -> (r: Option<Result<(Self, usize), ParseError>>) {
        let mut s: usize = 0;
        let mut res: u32 = 0;
        proof {
            assert(v@.take(0) =~= Seq::<u8>::empty());
        }
        loop
            invariant
                s <= 4,
                s <= v@.len(),
                res == varint_value(v@.take(s as int)),
                forall|j: int| 0 <= j < s ==> v@[j] >= 0x80,
            decreases 5 - s,
        {
            if s >= v.len() {
                proof {
                    lemma_varint_end(v@, s as nat);
                }
                return None;
            }
            let byte = v[s];
            let m = (byte & 0x7f) as u32;
            proof {
                lemma_varint_value_step(v@, s as nat);
            }
            res = res | (m << (7 * s as u32));
            if byte & 0x80 == 0 {
                proof {
                    assert(byte & 0x80 == 0 ==> byte < 0x80) by (bit_vector);
                    lemma_varint_end(v@, s as nat);
                }
                return Some(Ok((UnsignedVarint { val: res }, s + 1)));
            }
            assert(byte & 0x80 != 0 ==> byte >= 0x80) by (bit_vector);
            if s == 4 {
                proof {
                    lemma_varint_end(v@, 5);
                }
                return None;
            }
            s += 1;
        }
    }
}

/// The low `7 * k` bits of `v`.
pub open spec fn low_groups(v: u32, k: u32) -> u32 {
    if k >= 5 {
        v
    } else {
        v & (((1u32 << (7 * k)) - 1) as u32)
    }
}

proof fn lemma_varint_bytes_value(v: u32, k: nat)
    requires
        k <= varint_len(v),
    ensures
        varint_value(varint_bytes(v).take(k as int)) == low_groups(v, k as u32),
    decreases k,
{
    let s = varint_bytes(v);
    if k == 0 {
        assert(s.take(0) =~= Seq::<u8>::empty());
        assert(low_groups(v, 0) == 0) by (bit_vector);
    } else {
        let j = (k - 1) as nat;
        lemma_varint_bytes_value(v, j);
        lemma_varint_value_step(s, j);
        let jj = j as u32;
        let b = varint_byte(v, jj);
        assert(s[j as int] == b);
        assert(jj <= 4 ==> (low_groups(v, jj) | (((varint_byte(v, jj) & 0x7f) as u32) << (7 * jj)))
            == low_groups(v, (jj + 1) as u32)) by (bit_vector);
    }
}

proof fn lemma_varint_bytes_shape(v: u32, j: u32)
    requires
        j < varint_len(v),
    ensures
        j + 1 < varint_len(v) ==> varint_byte(v, j) >= 0x80,
        j + 1 == varint_len(v) ==> varint_byte(v, j) < 0x80,
{
    assert(j + 1 < varint_len(v) ==> varint_byte(v, j) >= 0x80) by (bit_vector);
    assert(j + 1 == varint_len(v) ==> varint_byte(v, j) < 0x80) by (bit_vector);
}

/// Writing an unsigned varint and reading it back gives the same value, and
/// the reader stops at the end of the encoding whatever follows it.
pub proof fn law_varint_roundtrip(v: u32, rest: Seq<u8>)
    ensures
        UnsignedVarint::spec_parse(UnsignedVarint::spec_bytes(v) + rest) == Outcome::Parsed(
            v,
            UnsignedVarint::spec_bytes(v).len(),
        ),
        1 <= UnsignedVarint::spec_bytes(v).len() <= 5,
{
    let b = varint_bytes(v);
    let s = b + rest;
    let l = varint_len(v);
    assert(1 <= l <= 5);
    assert forall|j: int| 0 <= j < l - 1 implies s[j] >= 0x80 by {
        lemma_varint_bytes_shape(v, j as u32);
    }
    lemma_varint_bytes_shape(v, (l - 1) as u32);
    lemma_varint_end(s, (l - 1) as nat);
    assert(s.take(l as int) =~= b.take(l as int));
    lemma_varint_bytes_value(v, l as nat);
    assert(low_groups(v, varint_len(v)) == v) by (bit_vector);
}

impl Serialize for UnsignedVarint {
    open spec fn spec_bytes(v: u32) -> Seq<u8> {
        varint_bytes(v)
    }

    fn write(&self, buf: &mut [u8]) -> (r: Result<usize, SerializeError>) {
        let v = self.val;
        let ghost len = varint_len(v);
        let mut count: usize = 0;
        let mut val = v;
        proof {
            assert(varint_bytes(v).take(0) =~= Seq::<u8>::empty());
            assert(buf@ =~= splice(old(buf)@, 0, varint_bytes(v).take(0)));
            assert(v >> 0u32 == v) by (bit_vector);
        }
        loop
            invariant
                v == self.val,
                count < varint_len(v),
                val == v >> (7 * count as u32),
                varint_len(v) <= old(buf)@.len(),
                buf@ == splice(old(buf)@, 0, varint_bytes(v).take(count as int)),
            decreases 5 - count,
        {
            let ghost c = count as u32;
            let mut b = val & 0x7f;
            val = val >> 7;
            if val > 0 {
                b = b | 0x80;
            }
            proof {
                assert(c < varint_len(v) ==> (v >> (7 * c)) >> 7u32 == v >> (7 * (c + 1)))
                    by (bit_vector);
                assert(c < varint_len(v) ==> ((v >> (7 * (c + 1)) > 0) == (c + 1 < varint_len(v))))
                    by (bit_vector);
                assert(c < varint_len(v) && c + 1 < varint_len(v) ==> ((((v >> (7 * c)) & 0x7f) | 0x80) as u8) == varint_byte(v, c)) by (bit_vector);
                assert(c < varint_len(v) && c + 1 >= varint_len(v) ==> (((v >> (7 * c)) & 0x7f) as u8) == varint_byte(v, c)) by (bit_vector);
            }
            buf[count] = b as u8;
            proof {
                assert(buf@ =~= splice(old(buf)@, 0, varint_bytes(v).take(count + 1)));
            }
            count += 1;
            if val == 0 {
                proof {
                    assert(varint_bytes(v).take(count as int) =~= varint_bytes(v));
                }
                return Ok(count);
            }
        }
    }

    fn encoded_len(&self) -> (r: Option<usize>) {
        let v = self.val;
        if v < 0x80 {
            Some(1)
        } else if v < 0x4000 {
            Some(2)
        } else if v < 0x20_0000 {
            Some(3)
        } else if v < 0x1000_0000 {
            Some(4)
        } else {
            Some(5)
        }
    }
}

// ---------------------------------------------------------------------------
// UUID

/// A 128-bit identifier, sixteen bytes in network order.
#[derive(Debug, Copy, Clone)]
pub struct Uuid {
    pub uuid: u128,
}

impl View for Uuid {
    type V = u128;

    open spec fn view(&self) -> u128 {
        self.uuid
    }
}

impl Default for Uuid {
    fn default() -> (r: Self)
        ensures
            r.uuid == 0,
    {
        Uuid { uuid: 0 }
    }
}

impl Deserialize for Uuid {
    /// A buffer of sixteen bytes or fewer is refused: the reader asks for
    /// more than the identifier itself.
    open spec fn spec_parse(buf: Seq<u8>) -> Outcome<u128> {
        if buf.len() <= 16 {
            Outcome::Failed(ParseFailure::InvalidSize(buf.len() as usize, 16))
        } else {
            Outcome::Parsed(be_u128(buf), 16)
        }
    }

    proof fn lemma_parse_len(buf: Seq<u8>) {
    }

    fn try_parse(buf: &[u8]) -> (r: Option<Result<(Self, usize), ParseError>>) {
        if buf.len() <= 16 {
            return Some(Err(ParseError::InvalidSize(buf.len(), 16)));
        }
        let uuid = get_u128(buf);
        Some(Ok((Self { uuid }, 16)))
    }
}

impl Serialize for Uuid {
    open spec fn spec_bytes(v: u128) -> Seq<u8> {
        u128_be(v)
    }

    fn write(&self, buf: &mut [u8]) -> (r: Result<usize, SerializeError>) {
        proof {
            crate::big_endian::lemma_u128_roundtrip(self.uuid);
        }
        put_u128(buf, self.uuid);
        assert(buf@ =~= splice(old(buf)@, 0, u128_be(self.uuid)));
        Ok(16)
    }

    fn encoded_len(&self) -> (r: Option<usize>) {
        proof {
            crate::big_endian::lemma_u128_roundtrip(self.uuid);
        }
        Some(16)
    }
}

/// Writing a UUID and reading it back gives the same identifier, sixteen
/// bytes long, when at least one byte follows it (the reader refuses a buffer
/// of sixteen bytes or fewer).
pub proof fn law_uuid_roundtrip(u: u128, rest: Seq<u8>)
    requires
        rest.len() > 0,
    ensures
        Uuid::spec_parse(Uuid::spec_bytes(u) + rest) == Outcome::Parsed(u, 16),
{
    crate::big_endian::lemma_u128_roundtrip(u);
    let b = u128_be(u);
    assert(be_u128(b + rest) == be_u128(b));
}

// ---------------------------------------------------------------------------
// Text

/// `std::str::from_utf8`: the string slice that the bytes encode, or an error
/// where they are not valid UTF-8.
#[verifier::external_body]
fn str_from_utf8(v: &[u8]) -> (r: Result<&str, std::str::Utf8Error>)
    ensures
        r is Ok <==> valid_utf8(v@),
        r matches Ok(s) ==> s@ == decode_utf8(v@),
{
    std::str::from_utf8(v)
}

/// `String::from_utf8`: the string that the bytes encode, or an error where
/// they are not valid UTF-8.
#[verifier::external_body]
fn string_from_utf8(v: Vec<u8>) -> (r: Result<String, std::string::FromUtf8Error>)
    ensures
        r is Ok <==> valid_utf8(v@),
        r matches Ok(s) ==> s@ == decode_utf8(v@),
{
    String::from_utf8(v)
}

/// NULLABLE_STRING: a sequence of characters or null. For non-null strings,
/// first the length N is given as an INT16. Then N bytes follow which are the
/// UTF-8 encoding of the character sequence. A null value is encoded with
/// length of -1 and there are no following bytes.
///
/// Only a negative length is read as null; a length of zero is the empty
/// string.
#[derive(Debug, Clone)]
pub struct NullableString {
    pub str: Option<String>,
}

impl View for NullableString {
    type V = Option<Seq<char>>;

    open spec fn view(&self) -> Option<Seq<char>> {
        match self.str {
            Some(s) => Some(s@),
            None => None,
        }
    }
}

impl Default for NullableString {
    fn default() -> (r: Self)
        ensures
            r.str is None,
    {
        NullableString { str: None }
    }
}

impl Deserialize for NullableString {
    open spec fn spec_parse(buf: Seq<u8>) -> Outcome<Option<Seq<char>>> {
        if buf.len() < 2 {
            Outcome::Undefined
        } else if be_i16(buf) < 0 {
            Outcome::Parsed(None, 2)
        } else {
            let n = be_i16(buf) as nat;
            let text = buf.subrange(2, 2 + n as int);
            if 2 + n > buf.len() {
                Outcome::Undefined
            } else if valid_utf8(text) {
                Outcome::Parsed(Some(decode_utf8(text)), n + 2)
            } else {
                Outcome::Failed(ParseFailure::InvalidUtf8Str)
            }
        }
    }

    proof fn lemma_parse_len(buf: Seq<u8>) {
    }

    fn try_parse(buf: &[u8]) -> (r: Option<Result<(Self, usize), ParseError>>) {
        if buf.len() < 2 {
            return None;
        }
        let len = get_i16(buf);
        if len < 0 {
            return Some(Ok((Self { str: None }, 2)));
        }
        let len = len as usize;
        if len > buf.len() - 2 {
            return None;
        }
        match str_from_utf8(&buf[2..2 + len]) {
            Ok(s) => Some(Ok((Self { str: Some(s.to_owned()) }, len + 2))),
            Err(e) => Some(Err(ParseError::InvalidUtf8Str(e))),
        }
    }
}

/// Reading a nullable string written as its length (INT16) and the UTF-8
/// encoding of its characters gives back those characters and takes those
/// bytes, whatever follows; the empty string is no exception.
pub proof fn law_nullable_string_roundtrip(s: Seq<char>, rest: Seq<u8>)
    requires
        encode_utf8(s).len() <= i16::MAX,
    ensures
        NullableString::spec_parse(i16_be(encode_utf8(s).len() as i16) + encode_utf8(s) + rest)
            == Outcome::Parsed(Some(s), encode_utf8(s).len() + 2),
{
    broadcast use vstd::utf8::encode_utf8_valid_utf8, vstd::utf8::encode_utf8_decode_utf8;

    let bytes = encode_utf8(s);
    let n = bytes.len() as i16;
    lemma_i16_roundtrip(n);
    let buf = i16_be(n) + bytes + rest;
    assert(buf[0] == i16_be(n)[0] && buf[1] == i16_be(n)[1]);
    assert(buf.subrange(2, 2 + n as int) =~= bytes);
}

/// Any negative length reads as null and takes the 2 bytes of the length,
/// whatever follows.
pub proof fn law_nullable_string_null(n: i16, rest: Seq<u8>)
    requires
        n < 0,
    ensures
        NullableString::spec_parse(i16_be(n) + rest) == Outcome::<Option<Seq<char>>>::Parsed(
            None,
            2,
        ),
{
    lemma_i16_roundtrip(n);
    let buf = i16_be(n) + rest;
    assert(buf[0] == i16_be(n)[0] && buf[1] == i16_be(n)[1]);
}

/// COMPACT_STRING: a sequence of characters. First the length N + 1 is given
/// as an UNSIGNED_VARINT. Then N bytes follow which are the UTF-8 encoding of
/// the character sequence.
#[derive(Debug, Clone)]
pub struct CompactString {
    pub str: String,
}

impl View for CompactString {
    type V = Seq<char>;

    open spec fn view(&self) -> Seq<char> {
        self.str@
    }
}

impl Deserialize for CompactString {
    open spec fn spec_parse(buf: Seq<u8>) -> Outcome<Seq<char>> {
        match CompactArray::<u8>::spec_parse(buf) {
            Outcome::Parsed(bytes, n) => if valid_utf8(bytes) {
                Outcome::Parsed(decode_utf8(bytes), n)
            } else {
                Outcome::Failed(ParseFailure::InvalidUtf8)
            },
            Outcome::Failed(f) => Outcome::Failed(f),
            Outcome::Undefined => Outcome::Undefined,
        }
    }

    proof fn lemma_parse_len(buf: Seq<u8>) {
        CompactArray::<u8>::lemma_parse_len(buf);
    }

    fn try_parse(buf: &[u8]) -> (r: Option<Result<(Self, usize), ParseError>>) {
        let (arr, used) = match CompactArray::<u8>::try_parse(buf) {
            None => return None,
            Some(Err(e)) => return Some(Err(e)),
            Some(Ok(p)) => p,
        };
        proof {
            assert(arr.vec@ =~= arr@);
        }
        match string_from_utf8(arr.vec) {
            Ok(str) => Some(Ok((Self { str }, used))),
            Err(e) => Some(Err(ParseError::InvalidUtf8(e))),
        }
    }
}

// ---------------------------------------------------------------------------
// COMPACT_ARRAY

/// COMPACT_ARRAY: a sequence of objects of a given type T. First, the length
/// N + 1 is given as an UNSIGNED_VARINT. Then N instances of type T follow. A
/// null array is represented with a length of 0.
#[derive(Debug, Clone)]
pub struct CompactArray<T> {
    pub vec: Vec<T>,
}

impl<T: View> View for CompactArray<T> {
    type V = Seq<T::V>;

    open spec fn view(&self) -> Seq<T::V> {
        self.vec@.map_values(|x: T| x@)
    }
}

impl<T> Default for CompactArray<T> {
    fn default() -> (r: Self)
        ensures
            r.vec@.len() == 0,
    {
        Self { vec: Vec::new() }
    }
}

/// `vs` put in front of the values that `o` read, with `n` more bytes.
pub open spec fn prepend<V>(vs: Seq<V>, n: nat, o: Outcome<Seq<V>>) -> Outcome<Seq<V>> {
    match o {
        Outcome::Parsed(ws, m) => Outcome::Parsed(vs + ws, n + m),
        Outcome::Failed(f) => Outcome::Failed(f),
        Outcome::Undefined => Outcome::Undefined,
    }
}

/// Reading `count` values of `T` one after the other.
pub open spec fn parse_elems<T: Deserialize>(count: nat, buf: Seq<u8>) -> Outcome<Seq<T::V>>
    decreases count,
{
    if count == 0 {
        Outcome::Parsed(Seq::empty(), 0)
    } else {
        match T::spec_parse(buf) {
            Outcome::Parsed(v, n) => prepend(seq![v], n, parse_elems::<T>((count - 1) as nat, buf.skip(n as int))),
            Outcome::Failed(f) => Outcome::Failed(f),
            Outcome::Undefined => Outcome::Undefined,
        }
    }
}

/// The number of elements that a compact array with length field `n` holds.
pub open spec fn compact_count(n: u32) -> nat {
    if n == 0 {
        0
    } else {
        (n - 1) as nat
    }
}

proof fn lemma_prepend_prepend<V>(a: Seq<V>, n: nat, b: Seq<V>, m: nat, o: Outcome<Seq<V>>)
    ensures
        prepend(a, n, prepend(b, m, o)) == prepend(a + b, n + m, o),
{
    if let Outcome::Parsed(ws, k) = o {
        assert(a + (b + ws) =~= (a + b) + ws);
    }
}

proof fn lemma_parse_elems_len<T: Deserialize>(count: nat, buf: Seq<u8>)
    ensures
        parse_elems::<T>(count, buf) matches Outcome::Parsed(vs, n) ==> n <= buf.len() && vs.len() == count,
    decreases count,
{
    if count > 0 {
        T::lemma_parse_len(buf);
        if let Outcome::Parsed(v, n) = T::spec_parse(buf) {
            lemma_parse_elems_len::<T>((count - 1) as nat, buf.skip(n as int));
        }
    }
}

impl<T: Deserialize> Deserialize for CompactArray<T> {
    open spec fn spec_parse(buf: Seq<u8>) -> Outcome<Seq<T::V>> {
        match UnsignedVarint::spec_parse(buf) {
            Outcome::Parsed(c, used) => after(used, parse_elems::<T>(compact_count(c), buf.skip(used as int))),
            Outcome::Failed(f) => Outcome::Failed(f),
            Outcome::Undefined => Outcome::Undefined,
        }
    }

    proof fn lemma_parse_len(buf: Seq<u8>) {
        if let Outcome::Parsed(c, used) = UnsignedVarint::spec_parse(buf) {
            lemma_parse_elems_len::<T>(compact_count(c), buf.skip(used as int));
        }
    }

    fn try_parse(buf: &[u8]) -> (r: Option<Result<(Self, usize), ParseError>>) {
        let (count, used0) = match UnsignedVarint::try_parse(buf) {
            None => return None,
            Some(Err(e)) => return Some(Err(e)),
            Some(Ok(p)) => p,
        };
        let mut used = used0;
        let count = count.val as usize;
        let count = count.saturating_sub(1);
        let ghost rest0 = buf@.skip(used0 as int);
        assert(Self::spec_parse(buf@) == after(used0 as nat, parse_elems::<T>(count as nat, rest0)));
        if count == 0 {
            let vec: Vec<T> = Vec::new();
            proof {
                assert(vec@.map_values(|x: T| x@) =~= Seq::<T::V>::empty());
            }
            return Some(Ok((Self { vec }, used)));
        }
        let mut vec: Vec<T> = Vec::new();
        let mut i: usize = 0;
        proof {
            assert(buf@.skip(used as int) =~= rest0);
            assert(vec@.map_values(|x: T| x@) =~= Seq::<T::V>::empty());
            assert(prepend(Seq::<T::V>::empty(), 0, parse_elems::<T>(count as nat, rest0)) == parse_elems::<T>(count as nat, rest0)) by {
                if let Outcome::Parsed(ws, k) = parse_elems::<T>(count as nat, rest0) {
                    assert(Seq::<T::V>::empty() + ws =~= ws);
                }
            }
        }
        while i < count
            invariant
                i <= count,
                used0 <= used <= buf@.len(),
                rest0 == buf@.skip(used0 as int),
                Self::spec_parse(buf@) == after(used0 as nat, parse_elems::<T>(count as nat, rest0)),
                parse_elems::<T>(count as nat, rest0) == prepend(
                    vec@.map_values(|x: T| x@),
                    (used - used0) as nat,
                    parse_elems::<T>((count - i) as nat, buf@.skip(used as int)),
                ),
            decreases count - i,
        {
            proof {
                assert(buf@.subrange(used as int, buf@.len() as int) =~= buf@.skip(used as int));
            }
            let (e, s) = match T::try_parse(&buf[used..buf.len()]) {
                None => return None,
                Some(Err(e)) => return Some(Err(e)),
                Some(Ok(p)) => p,
            };
            proof {
                let rest = buf@.skip(used as int);
                assert(buf@.subrange(used as int, buf@.len() as int) =~= rest);
                T::lemma_parse_len(rest);
                assert(rest.skip(s as int) =~= buf@.skip(used + s));
                lemma_prepend_prepend(vec@.map_values(|x: T| x@), (used - used0) as nat, seq![e@], s as nat, parse_elems::<T>((count - i - 1) as nat, buf@.skip(used + s)));
            }
            let ghost old_vec = vec@;
            vec.push(e);
            proof {
                assert(vec@.map_values(|x: T| x@) =~= old_vec.map_values(|x: T| x@) + seq![e@]);
            }
            used = used + s;
            i = i + 1;
        }
        proof {
            let vs = vec@.map_values(|x: T| x@);
            assert(vs + Seq::<T::V>::empty() =~= vs);
        }
        Some(Ok((Self { vec }, used)))
    }
}

// ---------------------------------------------------------------------------
// Integers read as array elements

impl Deserialize for u8 {
    open spec fn spec_parse(buf: Seq<u8>) -> Outcome<u8> {
        if buf.len() >= 1 {
            Outcome::Parsed(buf[0], 1)
        } else {
            Outcome::Undefined
        }
    }

    proof fn lemma_parse_len(buf: Seq<u8>) {
    }

    fn try_parse(buf: &[u8]) -> (r: Option<Result<(Self, usize), ParseError>>) {
        if buf.len() < 1 {
            return None;
        }
        let val = get_u8(buf);
        Some(Ok((val, 1)))
    }
}

impl Deserialize for i32 {
    open spec fn spec_parse(buf: Seq<u8>) -> Outcome<i32> {
        if buf.len() >= 4 {
            Outcome::Parsed(be_i32(buf), 4)
        } else {
            Outcome::Undefined
        }
    }

    proof fn lemma_parse_len(buf: Seq<u8>) {
    }

    fn try_parse(buf: &[u8]) -> (r: Option<Result<(Self, usize), ParseError>>) {
        if buf.len() < 4 {
            return None;
        }
        let val = get_i32(buf);
        Some(Ok((val, 4)))
    }
}

/// The length field of a compact array of `n` elements: N + 1, modulo 2^32.
pub open spec fn compact_len_field(n: nat) -> u32 {
    if n as u32 == u32::MAX {
        0
    } else {
        ((n as u32) + 1) as u32
    }
}

/// The encodings of `vs`, one after the other.
pub open spec fn concat_bytes<T: Serialize>(vs: Seq<T::V>) -> Seq<u8>
    decreases vs.len(),
{
    if vs.len() == 0 {
        Seq::empty()
    } else {
        concat_bytes::<T>(vs.drop_last()) + T::spec_bytes(vs.last())
    }
}

proof fn lemma_concat_bytes_step<T: Serialize>(vs: Seq<T::V>, i: int)
    requires
        0 <= i < vs.len(),
    ensures
        concat_bytes::<T>(vs.take(i + 1)) == concat_bytes::<T>(vs.take(i)) + T::spec_bytes(vs[i]),
{
    assert(vs.take(i + 1).drop_last() =~= vs.take(i));
}

proof fn lemma_concat_bytes_prefix<T: Serialize>(vs: Seq<T::V>, k: int)
    requires
        0 <= k <= vs.len(),
    ensures
        concat_bytes::<T>(vs.take(k)).len() <= concat_bytes::<T>(vs).len(),
    decreases vs.len(),
{
    if k == vs.len() {
        assert(vs.take(k) =~= vs);
    } else {
        assert(vs.take(k) =~= vs.drop_last().take(k));
        lemma_concat_bytes_prefix::<T>(vs.drop_last(), k);
    }
}

impl<T: Serialize> Serialize for CompactArray<T> {
    open spec fn spec_bytes(vs: Seq<T::V>) -> Seq<u8> {
        varint_bytes(compact_len_field(vs.len())) + concat_bytes::<T>(vs)
    }

    fn write(&self, buf: &mut [u8]) -> (r: Result<usize, SerializeError>) {
        let ghost vs = self@;
        let ghost head = varint_bytes(compact_len_field(vs.len()));
        let n = self.vec.len();
        let size = UnsignedVarint { val: (n as u32).wrapping_add(1) };
        assert(size.val == compact_len_field(vs.len()));
        // The length of `buf` is a `usize`: it bounds the offsets below.
        let total = buf.len();
        let mut s = write_at(&size, buf, 0);
        let mut i: usize = 0;
        proof {
            assert(vs.take(0) =~= Seq::<T::V>::empty());
            assert(head + concat_bytes::<T>(vs.take(0)) =~= head);
        }
        while i < n
            invariant
                n == self.vec@.len(),
                vs == self@,
                head == varint_bytes(compact_len_field(vs.len())),
                i <= n,
                s == head.len() + concat_bytes::<T>(vs.take(i as int)).len(),
                head.len() + concat_bytes::<T>(vs).len() <= old(buf)@.len(),
                old(buf)@.len() == total,
                buf@ == splice(old(buf)@, 0, head + concat_bytes::<T>(vs.take(i as int))),
            decreases n - i,
        {
            proof {
                lemma_concat_bytes_step::<T>(vs, i as int);
                lemma_concat_bytes_prefix::<T>(vs, i + 1);
                assert(vs[i as int] == self.vec@[i as int]@);
            }
            let w = write_at(&self.vec[i], buf, s);
            proof {
                assert(buf@ =~= splice(old(buf)@, 0, head + concat_bytes::<T>(vs.take(i + 1))));
            }
            s = s + w;
            i = i + 1;
        }
        proof {
            assert(vs.take(n as int) =~= vs);
        }
        Ok(s)
    }

    fn encoded_len(&self) -> (r: Option<usize>) {
        let ghost vs = self@;
        let ghost head = varint_bytes(compact_len_field(vs.len()));
        let n = self.vec.len();
        let size = UnsignedVarint { val: (n as u32).wrapping_add(1) };
        let mut s = match size.encoded_len() {
            Some(k) => k,
            None => return None,
        };
        let mut i: usize = 0;
        proof {
            assert(vs.take(0) =~= Seq::<T::V>::empty());
        }
        while i < n
            invariant
                n == self.vec@.len(),
                vs == self@,
                head == varint_bytes(compact_len_field(vs.len())),
                i <= n,
                s == head.len() + concat_bytes::<T>(vs.take(i as int)).len(),
            decreases n - i,
        {
            proof {
                lemma_concat_bytes_step::<T>(vs, i as int);
                lemma_concat_bytes_prefix::<T>(vs, i + 1);
                assert(vs[i as int] == self.vec@[i as int]@);
            }
            let w = match self.vec[i].encoded_len() {
                Some(w) => w,
                None => return None,
            };
            s = match s.checked_add(w) {
                Some(t) => t,
                None => return None,
            };
            i = i + 1;
        }
        proof {
            assert(vs.take(n as int) =~= vs);
        }
        Some(s)
    }
}

proof fn lemma_concat_bytes_front<T: Serialize>(vs: Seq<<T as View>::V>)
    requires
        vs.len() > 0,
    ensures
        concat_bytes::<T>(vs) == T::spec_bytes(vs[0]) + concat_bytes::<T>(vs.drop_first()),
    decreases vs.len(),
{
    if vs.len() == 1 {
        assert(vs.drop_last() =~= Seq::<<T as View>::V>::empty());
        assert(vs.drop_first() =~= Seq::<<T as View>::V>::empty());
        assert(concat_bytes::<T>(vs.drop_last()) == Seq::<u8>::empty());
        assert(concat_bytes::<T>(vs.drop_first()) == Seq::<u8>::empty());
        assert(vs.last() == vs[0]);
        assert(concat_bytes::<T>(vs) =~= T::spec_bytes(vs[0]));
    } else {
        let init = vs.drop_last();
        lemma_concat_bytes_front::<T>(init);
        assert(init.drop_first() =~= vs.drop_first().drop_last());
        assert(vs.drop_first().last() == vs.last());
        assert(concat_bytes::<T>(vs) =~= T::spec_bytes(vs[0]) + concat_bytes::<T>(vs.drop_first()));
    }
}

proof fn lemma_parse_elems_of_bytes<T: Serialize + Deserialize>(vs: Seq<<T as View>::V>, rest: Seq<u8>)
    requires
        forall|v: <T as View>::V, r: Seq<u8>| #[trigger]
            T::spec_parse(T::spec_bytes(v) + r) == Outcome::Parsed(v, T::spec_bytes(v).len()),
    ensures
        parse_elems::<T>(vs.len(), concat_bytes::<T>(vs) + rest) == Outcome::Parsed(
            vs,
            concat_bytes::<T>(vs).len(),
        ),
    decreases vs.len(),
{
    if vs.len() == 0 {
        assert(vs =~= Seq::<<T as View>::V>::empty());
    } else {
        let b0 = T::spec_bytes(vs[0]);
        let tail = vs.drop_first();
        lemma_concat_bytes_front::<T>(vs);
        let after0 = concat_bytes::<T>(tail) + rest;
        assert(concat_bytes::<T>(vs) + rest =~= b0 + after0);
        assert(T::spec_parse(b0 + after0) == Outcome::Parsed(vs[0], b0.len()));
        assert((b0 + after0).skip(b0.len() as int) =~= after0);
        lemma_parse_elems_of_bytes::<T>(tail, rest);
        assert(seq![vs[0]] + tail =~= vs);
    }
}

/// Writing a compact array and reading it back gives the same elements, the
/// reader stopping at the end of the array, for element types whose own
/// reading gives back what they wrote, and for fewer than 2^32 - 1 elements
/// (the length field, N + 1, is 32 bits wide).
pub proof fn law_compact_array_roundtrip<T: Serialize + Deserialize>(
    vs: Seq<<T as View>::V>,
    rest: Seq<u8>,
)
    requires
        vs.len() + 1 < 0x1_0000_0000,
        forall|v: <T as View>::V, r: Seq<u8>| #[trigger]
            T::spec_parse(T::spec_bytes(v) + r) == Outcome::Parsed(v, T::spec_bytes(v).len()),
    ensures
        CompactArray::<T>::spec_parse(CompactArray::<T>::spec_bytes(vs) + rest) == Outcome::Parsed(
            vs,
            CompactArray::<T>::spec_bytes(vs).len(),
        ),
{
    let field = compact_len_field(vs.len());
    assert(field == vs.len() + 1);
    let head = varint_bytes(field);
    let body = concat_bytes::<T>(vs) + rest;
    let all = CompactArray::<T>::spec_bytes(vs) + rest;
    assert(all =~= head + body);
    law_varint_roundtrip(field, body);
    assert(all.skip(head.len() as int) =~= body);
    lemma_parse_elems_of_bytes::<T>(vs, rest);
}

// ---------------------------------------------------------------------------
// Tagged fields and records

/// Tag headers. The tag header contains two unsigned variable-length
/// integers: the first one contains the field's tag, the second one is the
/// length of the field. Only the empty variation, a single zero byte (no
/// tagged fields), is supported.
#[derive(Debug, Clone)]
pub struct TaggedFields;

impl View for TaggedFields {
    type V = ();

    open spec fn view(&self) -> () {
        ()
    }
}

impl Default for TaggedFields {
    fn default() -> (r: Self) {
        TaggedFields
    }
}

impl Deserialize for TaggedFields {
    /// Any first byte but zero announces tagged fields, which are not
    /// supported.
    open spec fn spec_parse(buf: Seq<u8>) -> Outcome<()> {
        if buf.len() >= 1 && buf[0] == 0 {
            Outcome::Parsed((), 1)
        } else {
            Outcome::Undefined
        }
    }

    proof fn lemma_parse_len(buf: Seq<u8>) {
    }

    fn try_parse(v: &[u8]) -> (r: Option<Result<(Self, usize), ParseError>>) {
        if v.len() >= 1 && v[0] == 0 {
            return Some(Ok((TaggedFields, 1)));
        }
        None
    }
}

impl Serialize for TaggedFields {
    open spec fn spec_bytes(v: ()) -> Seq<u8> {
        seq![0u8]
    }

    fn write(&self, buf: &mut [u8]) -> (r: Result<usize, SerializeError>) {
        buf[0] = 0;
        assert(buf@ =~= splice(old(buf)@, 0, seq![0u8]));
        Ok(1)
    }

    fn encoded_len(&self) -> (r: Option<usize>) {
        Some(1)
    }
}

/// COMPACT_RECORDS: a sequence of Kafka records as COMPACT_NULLABLE_BYTES.
/// This library only writes the empty sequence: a length field N + 1 = 1.
#[derive(Debug, Clone)]
pub struct CompactRecords {}

impl View for CompactRecords {
    type V = ();

    open spec fn view(&self) -> () {
        ()
    }
}

impl Default for CompactRecords {
    fn default() -> (r: Self) {
        CompactRecords {}
    }
}

impl Serialize for CompactRecords {
    open spec fn spec_bytes(v: ()) -> Seq<u8> {
        seq![1u8]
    }

    fn write(&self, buf: &mut [u8]) -> (r: Result<usize, SerializeError>) {
        put_u8(buf, 1);
        assert(buf@ =~= splice(old(buf)@, 0, seq![1u8]));
        Ok(1)
    }

    fn encoded_len(&self) -> (r: Option<usize>) {
        Some(1)
    }
}

} // verus!

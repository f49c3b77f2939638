//! Wire encoding of the Java protocol: VarInts, big-endian integers and
//! length-prefixed UTF-8 strings, with a byte reader and a `Vec<u8>` writer.

use vstd::prelude::*;
use vstd::utf8::*;

verus! {

broadcast use vstd::seq_lib::group_seq_properties;

/// The longest array a VarInt length prefix can announce; reading with this
/// bound accepts every array the prefix can describe.
pub const MAX_PREFIXED_LENGTH: usize = 2147483647;

/// A protocol VarInt: an `i32` sent in 1 to 5 little-endian 7-bit groups.
#[derive(Debug, Clone, Copy, PartialEq, Eq, Structural)]
pub struct VarInt(pub i32);

/// Why decoding bytes failed.
#[derive(Debug, Clone, Copy, PartialEq, Eq, Structural)]
pub enum ReadingError {
    /// The input ended before the value was complete.
    Incomplete,
    /// A VarInt did not end within its five bytes.
    VarIntTooLarge,
    /// A string was announced with a negative byte length.
    NegativeLength,
    /// A string's bytes are not valid UTF-8.
    InvalidUtf8,
    /// A field held a value outside the set the packet accepts.
    InvalidValue,
    /// A length exceeded the bound the packet allows.
    TooLarge,
    /// A handshake asked for a connection state that does not exist.
    InvalidStatus,
}

impl ReadingError {
    /// A short human-readable description of the error.
    pub fn message(&self) -> (m: &'static str)
        ensures
            *self == ReadingError::InvalidStatus ==> m@ == "Invalid status"@,
            *self == ReadingError::Incomplete ==> m@ == "Incomplete"@,
            *self == ReadingError::VarIntTooLarge ==> m@ == "VarInt too large"@,
            *self == ReadingError::NegativeLength ==> m@ == "Negative length"@,
            *self == ReadingError::InvalidUtf8 ==> m@ == "Invalid UTF-8"@,
            *self == ReadingError::InvalidValue ==> m@ == "Invalid value"@,
            *self == ReadingError::TooLarge ==> m@ == "Too large"@,
    {
        match self {
            ReadingError::Incomplete => "Incomplete",
            ReadingError::VarIntTooLarge => "VarInt too large",
            ReadingError::NegativeLength => "Negative length",
            ReadingError::InvalidUtf8 => "Invalid UTF-8",
            ReadingError::InvalidValue => "Invalid value",
            ReadingError::TooLarge => "Too large",
            ReadingError::InvalidStatus => "Invalid status",
        }
    }
}

/// Why encoding failed.
#[derive(Debug, Clone, Copy, PartialEq, Eq, Structural)]
pub enum WritingError {
    /// A length does not fit in a VarInt.
    TooLong,
}

// ---------------------------------------------------------------------------
// VarInt format
// ---------------------------------------------------------------------------

/// Value carried by the byte at position `i` of a VarInt (the fifth byte
/// only contributes its low four bits to the 32-bit result).
pub open spec fn var_int_group(b: u8, i: int) -> int {
    if i == 4 {
        (b % 16) as int
    } else {
        (b % 128) as int
    }
}

/// Weight `128^i` of the group at position `i`.
pub open spec fn group_weight(i: int) -> int {
    if i == 0 {
        1
    } else if i == 1 {
        128
    } else if i == 2 {
        16384
    } else if i == 3 {
        2097152
    } else {
        268435456
    }
}

/// Reinterpret an unsigned 32-bit quantity as two's complement.
pub open spec fn i32_from_bits(u: int) -> i32 {
    if u < 0x8000_0000 {
        u as i32
    } else {
        (u - 0x1_0000_0000) as i32
    }
}

/// The unsigned 32-bit pattern of an `i32`.
pub open spec fn i32_bits(v: i32) -> nat {
    if v >= 0 {
        v as nat
    } else {
        (v + 0x1_0000_0000) as nat
    }
}

/// Decoding a VarInt from `s`, having read `i` bytes whose groups sum to
/// `acc`: the value and the number of bytes used, or the error.
pub open spec fn parse_var_int_from(s: Seq<u8>, i: int, acc: int) -> Result<(i32, int), ReadingError>
    decreases 5 - i,
{
    if i >= 5 || i < 0 {
        Err(ReadingError::VarIntTooLarge)
    } else if i >= s.len() {
        Err(ReadingError::Incomplete)
    } else {
        let acc2 = acc + var_int_group(s[i], i) * group_weight(i);
        if s[i] < 128 {
            Ok((i32_from_bits(acc2), i + 1))
        } else {
            parse_var_int_from(s, i + 1, acc2)
        }
    }
}

/// A decoded VarInt spans one to five bytes.
pub proof fn lemma_parse_var_int_len(s: Seq<u8>, i: int, acc: int)
    ensures
        parse_var_int_from(s, i, acc) matches Ok((v, k)) ==> i < k <= 5 && k <= s.len(),
    decreases 5 - i,
{
    if 0 <= i < 5 && i < s.len() {
        lemma_parse_var_int_len(s, i + 1, acc + var_int_group(s[i], i) * group_weight(i));
    }
}

/// A VarInt at the front of `s`: its value and length, or why there is none.
pub open spec fn parse_var_int(s: Seq<u8>) -> Result<(i32, int), ReadingError> {
    parse_var_int_from(s, 0, 0)
}

/// The minimal 7-bit-group encoding of an unsigned quantity.
pub open spec fn var_int_encoding(u: nat) -> Seq<u8>
    decreases u,
{
    if u < 128 {
        seq![u as u8]
    } else {
        seq![(u % 128 + 128) as u8] + var_int_encoding(u / 128)
    }
}

/// The bytes that encode `v` as a VarInt.
pub open spec fn var_int_bytes(v: i32) -> Seq<u8> {
    var_int_encoding(i32_bits(v))
}

/// The VarInt wire layout, stated byte by byte: seven value bits per byte,
/// least significant group first, the high bit set on every byte but the
/// last. A value below 128 is one byte holding it; a value from 128 to
/// 16383 is its low seven bits with the high bit set, then the rest; a
/// negative value takes five bytes (-1 is `FF FF FF FF 0F`). Reading
/// back: a first byte below 128 is a whole VarInt, and a first byte with
/// the high bit set followed by one below 128 is a two-byte VarInt worth
/// `low7(first) + 128 * second`.
pub proof fn lemma_var_int_layout(v: i32, b: u8, c: u8, rest: Seq<u8>)
    ensures
        0 <= v < 128 ==> var_int_bytes(v) == seq![v as u8],
        128 <= v < 16384 ==> var_int_bytes(v) == seq![(v % 128 + 128) as u8, (v / 128) as u8],
        var_int_bytes(-1i32) == seq![0xFFu8, 0xFFu8, 0xFFu8, 0xFFu8, 0x0Fu8],
        b < 128 ==> parse_var_int(seq![b] + rest) == Ok::<(i32, int), ReadingError>(
            (b as i32, 1),
        ),
        b >= 128 && c < 128 ==> parse_var_int(seq![b, c] + rest) == Ok::<(i32, int), ReadingError>(
            ((b % 128 + 128 * c) as i32, 2),
        ),
{
    reveal_with_fuel(var_int_encoding, 6);
    assert(i32_bits(-1i32) == 0xFFFF_FFFF);
    assert(var_int_bytes(-1i32) =~= seq![0xFFu8, 0xFFu8, 0xFFu8, 0xFFu8, 0x0Fu8]);
    if 128 <= v < 16384 {
        assert(var_int_bytes(v) =~= seq![(v % 128 + 128) as u8, (v / 128) as u8]);
    }
    if b < 128 {
        assert((seq![b] + rest)[0] == b);
    }
    if b >= 128 && c < 128 {
        let s2 = seq![b, c] + rest;
        assert(s2[0] == b);
        assert(s2[1] == c);
        assert(parse_var_int_from(s2, 0, 0) == parse_var_int_from(s2, 1, (b % 128) as int));
        assert(parse_var_int_from(s2, 1, (b % 128) as int) == Ok::<(i32, int), ReadingError>(
            (i32_from_bits(b % 128 + c * 128), 2),
        ));
    }
}

// ---------------------------------------------------------------------------
// Fixed-width and string formats
// ---------------------------------------------------------------------------

/// Big-endian unsigned value of the first `n` bytes of `s`.
pub open spec fn be_value(s: Seq<u8>, n: int) -> nat
    decreases n,
{
    if n <= 0 {
        0
    } else {
        (be_value(s, n - 1) * 256 + s[n - 1]) as nat
    }
}

/// Big-endian encoding of the low `n` bytes of `u`.
pub open spec fn be_bytes(u: nat, n: nat) -> Seq<u8>
    decreases n,
{
    if n == 0 {
        seq![]
    } else {
        be_bytes(u / 256, (n - 1) as nat).push((u % 256) as u8)
    }
}

/// Two's complement reinterpretation of a 64-bit pattern.
pub open spec fn i64_from_bits(u: int) -> i64 {
    if u < 0x8000_0000_0000_0000 {
        u as i64
    } else {
        (u - 0x1_0000_0000_0000_0000) as i64
    }
}

/// The unsigned 64-bit pattern of an `i64`.
pub open spec fn i64_bits(v: i64) -> nat {
    if v >= 0 {
        v as nat
    } else {
        (v + 0x1_0000_0000_0000_0000) as nat
    }
}

/// A length-prefixed UTF-8 string at the front of `s`: its characters and
/// the number of bytes used, or why there is none.
pub open spec fn parse_string(s: Seq<u8>) -> Result<(Seq<char>, int), ReadingError> {
    match parse_var_int(s) {
        Err(e) => Err(e),
        Ok((n, k)) => {
            if n < 0 {
                Err(ReadingError::NegativeLength)
            } else if s.len() < k + n {
                Err(ReadingError::Incomplete)
            } else if !valid_utf8(s.subrange(k, k + n)) {
                Err(ReadingError::InvalidUtf8)
            } else {
                Ok((decode_utf8(s.subrange(k, k + n)), k + n))
            }
        },
    }
}

/// The bytes of a length-prefixed string with characters `chars`.
pub open spec fn string_bytes(chars: Seq<char>) -> Seq<u8> {
    var_int_bytes(encode_utf8(chars).len() as i32) + encode_utf8(chars)
}

// ---------------------------------------------------------------------------
// Reading a field off the front of a byte sequence
// ---------------------------------------------------------------------------

/// `i8` from its 8-bit two's complement pattern.
pub open spec fn i8_from_bits(u: int) -> i8 {
    if u < 0x80 {
        u as i8
    } else {
        (u - 0x100) as i8
    }
}

/// One byte off the front of `s`, and what follows it.
pub open spec fn take_u8(s: Seq<u8>) -> Result<(u8, Seq<u8>), ReadingError> {
    if s.len() < 1 {
        Err(ReadingError::Incomplete)
    } else {
        Ok((s[0], s.skip(1)))
    }
}

/// A boolean byte (any non-zero byte is `true`) off the front of `s`.
pub open spec fn take_bool(s: Seq<u8>) -> Result<(bool, Seq<u8>), ReadingError> {
    if s.len() < 1 {
        Err(ReadingError::Incomplete)
    } else {
        Ok((s[0] != 0, s.skip(1)))
    }
}

/// A signed byte off the front of `s`.
pub open spec fn take_i8(s: Seq<u8>) -> Result<(i8, Seq<u8>), ReadingError> {
    if s.len() < 1 {
        Err(ReadingError::Incomplete)
    } else {
        Ok((i8_from_bits(s[0] as int), s.skip(1)))
    }
}

/// A big-endian `i16` off the front of `s`.
pub open spec fn take_i16(s: Seq<u8>) -> Result<(i16, Seq<u8>), ReadingError> {
    if s.len() < 2 {
        Err(ReadingError::Incomplete)
    } else {
        Ok((i16_from_bits(be_value(s, 2) as int), s.skip(2)))
    }
}

/// A big-endian `i64` off the front of `s`.
pub open spec fn take_i64(s: Seq<u8>) -> Result<(i64, Seq<u8>), ReadingError> {
    if s.len() < 8 {
        Err(ReadingError::Incomplete)
    } else {
        Ok((i64_from_bits(be_value(s, 8) as int), s.skip(8)))
    }
}

/// A VarInt off the front of `s`.
pub open spec fn take_var_int(s: Seq<u8>) -> Result<(i32, Seq<u8>), ReadingError> {
    match parse_var_int(s) {
        Ok((v, k)) => Ok((v, s.skip(k))),
        Err(e) => Err(e),
    }
}

/// A length-prefixed UTF-8 string off the front of `s`.
pub open spec fn take_string(s: Seq<u8>) -> Result<(Seq<char>, Seq<u8>), ReadingError> {
    match parse_string(s) {
        Ok((chars, k)) => Ok((chars, s.skip(k))),
        Err(e) => Err(e),
    }
}

/// A VarInt-length-prefixed byte array of at most `max` bytes off the front
/// of `s`.
pub open spec fn take_byte_array(s: Seq<u8>, max: int) -> Result<(Seq<u8>, Seq<u8>), ReadingError> {
    match parse_var_int(s) {
        Err(e) => Err(e),
        Ok((n, k)) => {
            if n < 0 {
                Err(ReadingError::NegativeLength)
            } else if n > max {
                Err(ReadingError::TooLarge)
            } else if s.len() < k + n {
                Err(ReadingError::Incomplete)
            } else {
                Ok((s.subrange(k, k + n), s.skip(k + n)))
            }
        },
    }
}

/// All of `s`, provided it holds at most `max` bytes.
pub open spec fn take_remaining(s: Seq<u8>, max: int) -> Result<(Seq<u8>, Seq<u8>), ReadingError> {
    if s.len() > max {
        Err(ReadingError::TooLarge)
    } else {
        Ok((s, Seq::<u8>::empty()))
    }
}

/// A big-endian `u32` off the front of `s` (also the bit pattern of a
/// big-endian `f32`).
pub open spec fn take_u32(s: Seq<u8>) -> Result<(u32, Seq<u8>), ReadingError> {
    if s.len() < 4 {
        Err(ReadingError::Incomplete)
    } else {
        Ok((be_value(s, 4) as u32, s.skip(4)))
    }
}

/// A big-endian `u64` off the front of `s` (also the bit pattern of a
/// big-endian `f64`).
pub open spec fn take_u64(s: Seq<u8>) -> Result<(u64, Seq<u8>), ReadingError> {
    if s.len() < 8 {
        Err(ReadingError::Incomplete)
    } else {
        Ok((be_value(s, 8) as u64, s.skip(8)))
    }
}

/// A big-endian `u128` off the front of `s`.
pub open spec fn take_u128(s: Seq<u8>) -> Result<(u128, Seq<u8>), ReadingError> {
    if s.len() < 16 {
        Err(ReadingError::Incomplete)
    } else {
        Ok((be_value(s, 16) as u128, s.skip(16)))
    }
}

/// A length-prefixed UTF-8 string of at most `bound` bytes off the front of
/// `s`; a negative length counts as too large.
pub open spec fn take_bounded_string(s: Seq<u8>, bound: int) -> Result<
    (Seq<char>, Seq<u8>),
    ReadingError,
> {
    match parse_var_int(s) {
        Err(e) => Err(e),
        Ok((n, k)) => {
            if n < 0 || n > bound {
                Err(ReadingError::TooLarge)
            } else {
                take_string(s)
            }
        },
    }
}

/// The byte that encodes a boolean.
pub open spec fn bool_byte(b: bool) -> u8 {
    if b {
        1
    } else {
        0
    }
}

/// The byte that encodes an `i8`.
pub open spec fn i8_byte(v: i8) -> u8 {
    if v >= 0 {
        v as u8
    } else {
        (v + 0x100) as u8
    }
}

/// The 16-bit pattern of an `i16`.
pub open spec fn i16_bits(v: i16) -> nat {
    if v >= 0 {
        v as nat
    } else {
        (v + 0x1_0000) as nat
    }
}

/// The bytes of a VarInt-length-prefixed byte array.
pub open spec fn byte_array_bytes(data: Seq<u8>) -> Seq<u8> {
    var_int_bytes(data.len() as i32) + data
}

// ---------------------------------------------------------------------------
// Laws
// ---------------------------------------------------------------------------

proof fn lemma_var_int_decode_encoding(s: Seq<u8>, u: nat, rest: Seq<u8>, i: int, acc: int)
    requires
        0 <= i < 5,
        s.len() >= i,
        0 <= acc,
        acc + u * group_weight(i) < 0x1_0000_0000,
    ensures
        parse_var_int_from(s.subrange(0, i) + var_int_encoding(u) + rest, i, acc) == Ok::<
            (i32, int),
            ReadingError,
        >((i32_from_bits(acc + u * group_weight(i)), i + var_int_encoding(u).len())),
    decreases u,
{
    let p = s.subrange(0, i);
    let full = p + var_int_encoding(u) + rest;
    assert(full[i] == var_int_encoding(u)[0]);
    if u < 128 {
        if i == 4 {
            assert(u * 268435456 < 0x1_0000_0000);
            assert(u < 16) by (nonlinear_arith)
                requires
                    u * 268435456 < 0x1_0000_0000,
            ;
        }
    } else {
        let b = (u % 128 + 128) as u8;
        assert(i < 4) by {
            if i == 4 {
                assert(u * 268435456 >= 128 * 268435456) by (nonlinear_arith)
                    requires
                        u >= 128,
                ;
            }
        }
        assert(group_weight(i + 1) == 128 * group_weight(i));
        let w = group_weight(i);
        assert(u * w == (u % 128) * w + (u / 128) * (128 * w)) by (nonlinear_arith)
            requires
                u >= 0,
                w > 0,
        ;
        assert(0 <= (u % 128) * w) by (nonlinear_arith)
            requires
                w > 0,
        ;
        let acc2 = acc + (u % 128) * w;
        let s2 = full;
        assert(s2.subrange(0, i + 1) + var_int_encoding(u / 128) + rest =~= full);
        lemma_var_int_decode_encoding(s2, u / 128, rest, i + 1, acc2);
    }
}

/// Decoding the VarInt encoding of `v`, whatever follows it, gives back `v`
/// and the encoding's length.
pub proof fn lemma_var_int_roundtrip(v: i32, rest: Seq<u8>)
    ensures
        parse_var_int(var_int_bytes(v) + rest) == Ok::<(i32, int), ReadingError>(
            (v, var_int_bytes(v).len() as int),
        ),
        1 <= var_int_bytes(v).len() <= 5,
{
    let u = i32_bits(v);
    let s = Seq::<u8>::empty();
    assert(s.subrange(0, 0) + var_int_encoding(u) + rest =~= var_int_bytes(v) + rest);
    lemma_var_int_decode_encoding(s, u, rest, 0, 0);
    lemma_var_int_encoding_len(u);
}

/// The encoding of an unsigned 32-bit quantity takes one to five bytes.
pub proof fn lemma_var_int_encoding_len(u: nat)
    requires
        u < 0x1_0000_0000,
    ensures
        1 <= var_int_encoding(u).len() <= 5,
        u < 128 ==> var_int_encoding(u).len() == 1,
{
    reveal_with_fuel(var_int_encoding, 6);
}

/// Decoding a string's encoding, whatever follows it, gives back its
/// characters and the encoding's length.
pub proof fn lemma_string_roundtrip(chars: Seq<char>, rest: Seq<u8>)
    requires
        encode_utf8(chars).len() <= i32::MAX,
    ensures
        parse_string(string_bytes(chars) + rest) == Ok::<(Seq<char>, int), ReadingError>(
            (chars, string_bytes(chars).len() as int),
        ),
{
    broadcast use encode_utf8_valid_utf8, encode_utf8_decode_utf8;

    let bytes = encode_utf8(chars);
    let n = bytes.len() as i32;
    let s = string_bytes(chars) + rest;
    assert(s =~= var_int_bytes(n) + (bytes + rest));
    lemma_var_int_roundtrip(n, bytes + rest);
    let k = var_int_bytes(n).len() as int;
    assert(s.subrange(k, k + n) =~= bytes);
}

/// The big-endian encoding of `n` bytes decodes back to the value it was
/// made from, reduced to `n` bytes.
pub proof fn lemma_be_roundtrip(u: nat, n: nat, rest: Seq<u8>)
    ensures
        be_bytes(u, n).len() == n,
        be_value(be_bytes(u, n) + rest, n as int) == u % pow256(n),
    decreases n,
{
    if n > 0 {
        let m = (n - 1) as nat;
        lemma_be_roundtrip(u / 256, m, seq![(u % 256) as u8] + rest);
        let s = be_bytes(u, n) + rest;
        let s2 = be_bytes(u / 256, m) + (seq![(u % 256) as u8] + rest);
        assert(s =~= s2);
        assert(s[m as int] == (u % 256) as u8);
        let p = pow256(m);
        assert(pow256(n) == 256 * p);
        lemma_pow256_positive(m);
        vstd::arithmetic::div_mod::lemma_breakdown(u as int, 256, p as int);
        assert(256 * ((u / 256) % p) == ((u / 256) % p) * 256);
    }
}

/// What follows a prefix is what remains after skipping it.
pub proof fn lemma_skip_prefix(x: Seq<u8>, y: Seq<u8>)
    ensures
        (x + y).skip(x.len() as int) == y,
{
    assert((x + y).skip(x.len() as int) =~= y);
}

/// Reading a VarInt back from its encoding leaves exactly what followed it.
pub proof fn lemma_take_var_int(v: i32, rest: Seq<u8>)
    ensures
        take_var_int(var_int_bytes(v) + rest) == Ok::<(i32, Seq<u8>), ReadingError>((v, rest)),
{
    lemma_var_int_roundtrip(v, rest);
    lemma_skip_prefix(var_int_bytes(v), rest);
}

/// Reading a string back from its encoding leaves exactly what followed it.
pub proof fn lemma_take_string(chars: Seq<char>, rest: Seq<u8>)
    requires
        encode_utf8(chars).len() <= i32::MAX,
    ensures
        take_string(string_bytes(chars) + rest) == Ok::<(Seq<char>, Seq<u8>), ReadingError>(
            (chars, rest),
        ),
{
    lemma_string_roundtrip(chars, rest);
    lemma_skip_prefix(string_bytes(chars), rest);
}

/// Reading a string back within a byte bound.
pub proof fn lemma_take_bounded_string(chars: Seq<char>, bound: int, rest: Seq<u8>)
    requires
        encode_utf8(chars).len() <= bound,
        encode_utf8(chars).len() <= i32::MAX,
    ensures
        take_bounded_string(string_bytes(chars) + rest, bound) == Ok::<
            (Seq<char>, Seq<u8>),
            ReadingError,
        >((chars, rest)),
{
    let n = encode_utf8(chars).len() as i32;
    let s = string_bytes(chars) + rest;
    assert(s =~= var_int_bytes(n) + (encode_utf8(chars) + rest));
    lemma_var_int_roundtrip(n, encode_utf8(chars) + rest);
    lemma_take_string(chars, rest);
}

/// Reading a big-endian `u32` back.
pub proof fn lemma_take_u32(v: u32, rest: Seq<u8>)
    ensures
        take_u32(be_bytes(v as nat, 4) + rest) == Ok::<(u32, Seq<u8>), ReadingError>((v, rest)),
{
    lemma_be_roundtrip(v as nat, 4, rest);
    assert(pow256(4) == 0x1_0000_0000) by {
        reveal_with_fuel(pow256, 5);
    }
    lemma_skip_prefix(be_bytes(v as nat, 4), rest);
}

/// Reading a big-endian `u64` back.
pub proof fn lemma_take_u64(v: u64, rest: Seq<u8>)
    ensures
        take_u64(be_bytes(v as nat, 8) + rest) == Ok::<(u64, Seq<u8>), ReadingError>((v, rest)),
{
    lemma_be_roundtrip(v as nat, 8, rest);
    assert(pow256(8) == 0x1_0000_0000_0000_0000) by {
        reveal_with_fuel(pow256, 9);
    }
    lemma_skip_prefix(be_bytes(v as nat, 8), rest);
}

/// Reading a big-endian `u128` back.
pub proof fn lemma_take_u128(v: u128, rest: Seq<u8>)
    ensures
        take_u128(be_bytes(v as nat, 16) + rest) == Ok::<(u128, Seq<u8>), ReadingError>(
            (v, rest),
        ),
{
    lemma_be_roundtrip(v as nat, 16, rest);
    assert(pow256(16) == 0x1_0000_0000_0000_0000_0000_0000_0000_0000) by {
        reveal_with_fuel(pow256, 17);
    }
    lemma_skip_prefix(be_bytes(v as nat, 16), rest);
}

/// Reading a byte back.
pub proof fn lemma_take_u8(b: u8, rest: Seq<u8>)
    ensures
        take_u8(seq![b] + rest) == Ok::<(u8, Seq<u8>), ReadingError>((b, rest)),
{
    lemma_skip_prefix(seq![b], rest);
}

/// Reading a boolean back.
pub proof fn lemma_take_bool(b: bool, rest: Seq<u8>)
    ensures
        take_bool(seq![bool_byte(b)] + rest) == Ok::<(bool, Seq<u8>), ReadingError>((b, rest)),
{
    lemma_skip_prefix(seq![bool_byte(b)], rest);
}

/// Reading a signed byte back.
pub proof fn lemma_take_i8(v: i8, rest: Seq<u8>)
    ensures
        take_i8(seq![i8_byte(v)] + rest) == Ok::<(i8, Seq<u8>), ReadingError>((v, rest)),
{
    lemma_skip_prefix(seq![i8_byte(v)], rest);
}

/// Reading a big-endian `i16` back.
pub proof fn lemma_take_i16(v: i16, rest: Seq<u8>)
    ensures
        take_i16(be_bytes(i16_bits(v), 2) + rest) == Ok::<(i16, Seq<u8>), ReadingError>(
            (v, rest),
        ),
{
    lemma_be_roundtrip(i16_bits(v), 2, rest);
    assert(pow256(2) == 65536) by {
        reveal_with_fuel(pow256, 3);
    }
    lemma_skip_prefix(be_bytes(i16_bits(v), 2), rest);
}

/// Reading a big-endian `i64` back.
pub proof fn lemma_take_i64(v: i64, rest: Seq<u8>)
    ensures
        take_i64(be_bytes(i64_bits(v), 8) + rest) == Ok::<(i64, Seq<u8>), ReadingError>(
            (v, rest),
        ),
{
    lemma_be_roundtrip(i64_bits(v), 8, rest);
    assert(pow256(8) == 0x1_0000_0000_0000_0000) by {
        reveal_with_fuel(pow256, 9);
    }
    lemma_skip_prefix(be_bytes(i64_bits(v), 8), rest);
}

/// Reading a length-prefixed byte array back, within its bound.
pub proof fn lemma_take_byte_array(data: Seq<u8>, max: int, rest: Seq<u8>)
    requires
        data.len() <= max,
        data.len() <= i32::MAX,
    ensures
        take_byte_array(byte_array_bytes(data) + rest, max) == Ok::<
            (Seq<u8>, Seq<u8>),
            ReadingError,
        >((data, rest)),
{
    let n = data.len() as i32;
    let s = byte_array_bytes(data) + rest;
    assert(s =~= var_int_bytes(n) + (data + rest));
    lemma_var_int_roundtrip(n, data + rest);
    let k = var_int_bytes(n).len() as int;
    assert(s.subrange(k, k + n) =~= data);
    assert(s.skip(k + n) =~= rest);
}

proof fn lemma_be_bytes_empty(x: nat)
    ensures
        be_bytes(x, 0) == Seq::<u8>::empty(),
{
}

/// `256^n`.
pub open spec fn pow256(n: nat) -> nat
    decreases n,
{
    if n == 0 {
        1
    } else {
        256 * pow256((n - 1) as nat)
    }
}

proof fn lemma_pow256_positive(n: nat)
    ensures
        pow256(n) > 0,
    decreases n,
{
    if n > 0 {
        lemma_pow256_positive((n - 1) as nat);
    }
}

// ---------------------------------------------------------------------------
// Reader
// ---------------------------------------------------------------------------

proof fn lemma_rest_advance(data: Seq<u8>, p: int, k: int)
    requires
        0 <= p,
        0 <= k,
        p + k <= data.len(),
    ensures
        data.skip(p + k) == data.skip(p).skip(k),
{
    assert(data.skip(p + k) =~= data.skip(p).skip(k));
}

/// A cursor over a byte slice, consumed from the front.
pub struct ByteReader<'a> {
    data: &'a [u8],
    pos: usize,
}

impl<'a> ByteReader<'a> {
    #[verifier::type_invariant]
    spec fn inv(self) -> bool {
        self.pos <= self.data@.len()
    }

    /// The whole underlying byte sequence.
    pub closed spec fn data(self) -> Seq<u8> {
        self.data@
    }

    /// How many bytes have been consumed.
    pub closed spec fn pos(self) -> int {
        self.pos as int
    }

    /// The bytes not consumed yet.
    pub open spec fn rest(self) -> Seq<u8> {
        self.data().skip(self.pos())
    }

    /// A reader positioned at the start of `data`.
    pub fn new(data: &'a [u8]) -> (r: Self)
        ensures
            r.data() == data@,
            r.pos() == 0,
    {
        ByteReader { data, pos: 0 }
    }

    /// Number of bytes consumed so far.
    pub fn position(&self) -> (p: usize)
        ensures
            p == self.pos(),
            0 <= self.pos() <= self.data().len(),
    {
        proof {
            use_type_invariant(self);
        }
        self.pos
    }

    /// Read one byte.
    pub fn get_u8(&mut self) -> (res: Result<u8, ReadingError>)
        ensures
            final(self).data() == old(self).data(),
            old(self).rest().len() == 0 ==> res == Err::<u8, ReadingError>(ReadingError::Incomplete)
                && final(self).pos() == old(self).pos(),
            old(self).rest().len() > 0 ==> res == Ok::<u8, ReadingError>(old(self).rest()[0])
                && final(self).pos() == old(self).pos() + 1,
            match take_u8(old(self).rest()) {
                Ok((b, rest)) => res == Ok::<u8, ReadingError>(b) && final(self).rest() == rest,
                Err(e) => res == Err::<u8, ReadingError>(e),
            },
    {
        proof {
            use_type_invariant(&*self);
        }
        if self.pos < self.data.len() {
            let b = self.data[self.pos];
            proof {
                lemma_rest_advance(self.data@, self.pos as int, 1);
            }
            self.pos = self.pos + 1;
            Ok(b)
        } else {
            Err(ReadingError::Incomplete)
        }
    }

    /// Read `n` big-endian bytes as an unsigned value.
    fn get_be(&mut self, n: usize) -> (res: Result<u64, ReadingError>)
        requires
            n <= 8,
        ensures
            final(self).data() == old(self).data(),
            old(self).rest().len() < n ==> res == Err::<u64, ReadingError>(
                ReadingError::Incomplete,
            ),
            old(self).rest().len() >= n ==> res == Ok::<u64, ReadingError>(
                be_value(old(self).rest(), n as int) as u64,
            ) && final(self).pos() == old(self).pos() + n && be_value(old(self).rest(), n as int)
                < pow256(n as nat) && final(self).rest() == old(self).rest().skip(n as int),
    {
        proof {
            use_type_invariant(&*self);
        }
        if self.data.len() - self.pos < n {
            return Err(ReadingError::Incomplete);
        }
        let ghost start = self.rest();
        let mut value: u64 = 0;
        let mut i: usize = 0;
        assert(pow256(8) == 0x1_0000_0000_0000_0000) by {
            reveal_with_fuel(pow256, 9);
        }
        while i < n
            invariant
                i <= n <= 8,
                self.data@ == old(self).data@,
                self.pos == old(self).pos + i,
                start == old(self).rest(),
                start.len() >= n,
                self.pos <= self.data@.len(),
                self.data@.len() - old(self).pos >= n,
                value == be_value(start, i as int),
                be_value(start, i as int) < pow256(i as nat),
                start == self.data@.skip(old(self).pos as int),
            decreases n - i,
        {
            let b = self.data[self.pos];
            assert(b == start[i as int]);
            proof {
                assert(pow256((i + 1) as nat) == 256 * pow256(i as nat));
                assert(pow256(i as nat) <= pow256(7)) by {
                    lemma_pow256_mono(i as nat, 7);
                }
                assert(pow256(7) == 0x100_0000_0000_0000) by {
                    reveal_with_fuel(pow256, 8);
                }
                assert(be_value(start, i as int) * 256 + b < 256 * pow256(i as nat))
                    by (nonlinear_arith)
                    requires
                        be_value(start, i as int) < pow256(i as nat),
                        b < 256,
                ;
            }
            value = value * 256 + b as u64;
            self.pos = self.pos + 1;
            i = i + 1;
        }
        proof {
            lemma_rest_advance(self.data@, old(self).pos as int, n as int);
        }
        Ok(value)
    }

    /// Read a VarInt.
    pub fn get_var_int(&mut self) -> (res: Result<VarInt, ReadingError>)
        ensures
            final(self).data() == old(self).data(),
            match parse_var_int(old(self).rest()) {
                Ok((v, k)) => res == Ok::<VarInt, ReadingError>(VarInt(v)) && final(self).pos()
                    == old(self).pos() + k,
                Err(e) => res == Err::<VarInt, ReadingError>(e),
            },
            match take_var_int(old(self).rest()) {
                Ok((v, rest)) => res == Ok::<VarInt, ReadingError>(VarInt(v)) && final(self).rest()
                    == rest,
                Err(e) => res == Err::<VarInt, ReadingError>(e),
            },
    {
        proof {
            use_type_invariant(&*self);
        }
        let ghost start = self.rest();
        let mut acc: u64 = 0;
        let mut i: usize = 0;
        while i < 5
            invariant
                i <= 5,
                self.data@ == old(self).data@,
                self.pos == old(self).pos + i,
                self.pos <= self.data@.len(),
                start == old(self).rest(),
                i <= 4 ==> acc < group_weight(i as int),
                acc < 0x1_0000_0000,
                start == self.data@.skip(old(self).pos as int),
                parse_var_int(start) == parse_var_int_from(start, i as int, acc as int),
            decreases 5 - i,
        {
            proof {
                use_type_invariant(&*self);
            }
            if self.pos >= self.data.len() {
                return Err(ReadingError::Incomplete);
            }
            let b = self.data[self.pos];
            assert(b == start[i as int]);
            let group: u64 = if i == 4 {
                (b % 16) as u64
            } else {
                (b % 128) as u64
            };
            let weight: u64 = if i == 0 {
                1
            } else if i == 1 {
                128
            } else if i == 2 {
                16384
            } else if i == 3 {
                2097152
            } else {
                268435456
            };
            assert(group * weight <= 127 * weight) by (nonlinear_arith)
                requires
                    group <= 127,
                    weight > 0,
            ;
            assert(i == 4 ==> group * weight <= 15 * 268435456) by (nonlinear_arith)
                requires
                    i == 4 ==> group <= 15,
                    i == 4 ==> weight == 268435456,
            ;
            acc = acc + group * weight;
            self.pos = self.pos + 1;
            i = i + 1;
            if b < 128 {
                proof {
                    lemma_rest_advance(self.data@, old(self).pos as int, i as int);
                }
                let v: i32 = if acc < 0x8000_0000 {
                    acc as i32
                } else {
                    (acc as i64 - 0x1_0000_0000i64) as i32
                };
                return Ok(VarInt(v));
            }
        }
        Err(ReadingError::VarIntTooLarge)
    }

    /// Read a big-endian `u16`.
    pub fn get_u16_be(&mut self) -> (res: Result<u16, ReadingError>)
        ensures
            final(self).data() == old(self).data(),
            old(self).rest().len() < 2 ==> res == Err::<u16, ReadingError>(
                ReadingError::Incomplete,
            ),
            old(self).rest().len() >= 2 ==> res == Ok::<u16, ReadingError>(
                be_value(old(self).rest(), 2) as u16,
            ) && final(self).pos() == old(self).pos() + 2,
    {
        let r = self.get_be(2);
        match r {
            Ok(v) => {
                assert(pow256(2) == 65536) by {
                    reveal_with_fuel(pow256, 3);
                }
                Ok(v as u16)
            },
            Err(e) => Err(e),
        }
    }

    /// Read a big-endian `i16`.
    pub fn get_i16_be(&mut self) -> (res: Result<i16, ReadingError>)
        ensures
            final(self).data() == old(self).data(),
            old(self).rest().len() < 2 ==> res == Err::<i16, ReadingError>(
                ReadingError::Incomplete,
            ),
            old(self).rest().len() >= 2 ==> res == Ok::<i16, ReadingError>(
                i16_from_bits(be_value(old(self).rest(), 2) as int),
            ) && final(self).pos() == old(self).pos() + 2,
            match take_i16(old(self).rest()) {
                Ok((v, rest)) => res == Ok::<i16, ReadingError>(v) && final(self).rest() == rest,
                Err(e) => res == Err::<i16, ReadingError>(e),
            },
    {
        let r = self.get_be(2);
        match r {
            Ok(v) => {
                assert(pow256(2) == 65536) by {
                    reveal_with_fuel(pow256, 3);
                }
                if v < 0x8000 {
                    Ok(v as i16)
                } else {
                    Ok((v as i32 - 0x1_0000i32) as i16)
                }
            },
            Err(e) => Err(e),
        }
    }

    /// Read a big-endian `i64`.
    pub fn get_i64_be(&mut self) -> (res: Result<i64, ReadingError>)
        ensures
            final(self).data() == old(self).data(),
            old(self).rest().len() < 8 ==> res == Err::<i64, ReadingError>(
                ReadingError::Incomplete,
            ),
            old(self).rest().len() >= 8 ==> res == Ok::<i64, ReadingError>(
                i64_from_bits(be_value(old(self).rest(), 8) as int),
            ) && final(self).pos() == old(self).pos() + 8,
            match take_i64(old(self).rest()) {
                Ok((v, rest)) => res == Ok::<i64, ReadingError>(v) && final(self).rest() == rest,
                Err(e) => res == Err::<i64, ReadingError>(e),
            },
    {
        let r = self.get_be(8);
        assert(pow256(8) == 0x1_0000_0000_0000_0000) by {
            reveal_with_fuel(pow256, 9);
        }
        match r {
            Ok(v) => {
                if v < 0x8000_0000_0000_0000 {
                    Ok(v as i64)
                } else {
                    let low: u64 = v - 0x8000_0000_0000_0000;
                    Ok((low as i64) - 0x7fff_ffff_ffff_ffffi64 - 1)
                }
            },
            Err(e) => Err(e),
        }
    }

    /// Read a length-prefixed UTF-8 string.
    pub fn get_str(&mut self) -> (res: Result<String, ReadingError>)
        ensures
            final(self).data() == old(self).data(),
            match parse_string(old(self).rest()) {
                Ok((chars, k)) => res matches Ok(s) && s@ == chars && final(self).pos() == old(
                    self,
                ).pos() + k,
                Err(e) => res == Err::<String, ReadingError>(e),
            },
            match take_string(old(self).rest()) {
                Ok((chars, rest)) => res matches Ok(s) && s@ == chars && final(self).rest() == rest,
                Err(e) => res == Err::<String, ReadingError>(e),
            },
    {
        let ghost start = self.rest();
        let len = self.get_var_int();
        let n = match len {
            Ok(v) => v.0,
            Err(e) => {
                return Err(e);
            },
        };
        if n < 0 {
            return Err(ReadingError::NegativeLength);
        }
        proof {
            use_type_invariant(&*self);
            lemma_parse_var_int_len(start, 0, 0);
        }
        let ghost k = self.pos() - old(self).pos();
        let n = n as usize;
        if self.data.len() - self.pos < n {
            return Err(ReadingError::Incomplete);
        }
        let mut bytes: Vec<u8> = Vec::with_capacity(n);
        let mut i: usize = 0;
        while i < n
            invariant
                i <= n,
                0 <= k,
                old(self).pos + k + n <= self.data@.len(),
                start.len() >= k + n,
                self.data@ == old(self).data@,
                self.pos == old(self).pos + k + i,
                start == self.data@.skip(old(self).pos as int),
                bytes@ =~= start.subrange(k, k + i),
            decreases n - i,
        {
            bytes.push(self.data[self.pos]);
            self.pos = self.pos + 1;
            i = i + 1;
        }
        assert(bytes@ =~= start.subrange(k, k + n));
        proof {
            lemma_rest_advance(self.data@, old(self).pos as int, k + n);
        }
        match utf8_to_string(bytes) {
            Some(s) => Ok(s),
            None => Err(ReadingError::InvalidUtf8),
        }
    }

    /// Read a big-endian `u32`; a big-endian `f32` reads as its bit
    /// pattern.
    pub fn get_u32_be(&mut self) -> (res: Result<u32, ReadingError>)
        ensures
            final(self).data() == old(self).data(),
            match take_u32(old(self).rest()) {
                Ok((v, rest)) => res == Ok::<u32, ReadingError>(v) && final(self).rest() == rest,
                Err(e) => res == Err::<u32, ReadingError>(e),
            },
    {
        match self.get_be(4) {
            Ok(v) => {
                assert(pow256(4) == 0x1_0000_0000) by {
                    reveal_with_fuel(pow256, 5);
                }
                Ok(v as u32)
            },
            Err(e) => Err(e),
        }
    }

    /// Read a big-endian `u64`; a big-endian `f64` reads as its bit
    /// pattern.
    pub fn get_u64_be(&mut self) -> (res: Result<u64, ReadingError>)
        ensures
            final(self).data() == old(self).data(),
            match take_u64(old(self).rest()) {
                Ok((v, rest)) => res == Ok::<u64, ReadingError>(v) && final(self).rest() == rest,
                Err(e) => res == Err::<u64, ReadingError>(e),
            },
    {
        self.get_be(8)
    }

    /// Read a big-endian `u128` (16 bytes).
    pub fn get_u128_be(&mut self) -> (res: Result<u128, ReadingError>)
        ensures
            final(self).data() == old(self).data(),
            match take_u128(old(self).rest()) {
                Ok((v, rest)) => res == Ok::<u128, ReadingError>(v) && final(self).rest() == rest,
                Err(e) => res == Err::<u128, ReadingError>(e),
            },
    {
        proof {
            use_type_invariant(&*self);
        }
        if self.data.len() - self.pos < 16 {
            return Err(ReadingError::Incomplete);
        }
        let ghost start = self.rest();
        let mut value: u128 = 0;
        let mut i: usize = 0;
        assert(pow256(16) == 0x1_0000_0000_0000_0000_0000_0000_0000_0000) by {
            reveal_with_fuel(pow256, 17);
        }
        while i < 16
            invariant
                i <= 16,
                self.data@ == old(self).data@,
                self.pos == old(self).pos + i,
                start == old(self).rest(),
                start.len() >= 16,
                self.pos <= self.data@.len(),
                self.data@.len() - old(self).pos >= 16,
                value == be_value(start, i as int),
                be_value(start, i as int) < pow256(i as nat),
                start == self.data@.skip(old(self).pos as int),
            decreases 16 - i,
        {
            let b = self.data[self.pos];
            assert(b == start[i as int]);
            proof {
                assert(pow256((i + 1) as nat) == 256 * pow256(i as nat));
                assert(pow256(i as nat) <= pow256(15)) by {
                    lemma_pow256_mono(i as nat, 15);
                }
                assert(pow256(15) == 0x1_0000_0000_0000_0000_0000_0000_0000_00) by {
                    reveal_with_fuel(pow256, 16);
                }
                assert(be_value(start, i as int) * 256 + b < 256 * pow256(i as nat))
                    by (nonlinear_arith)
                    requires
                        be_value(start, i as int) < pow256(i as nat),
                        b < 256,
                ;
            }
            value = value * 256 + b as u128;
            self.pos = self.pos + 1;
            i = i + 1;
        }
        proof {
            lemma_rest_advance(self.data@, old(self).pos as int, 16);
        }
        Ok(value)
    }

    /// Read a length-prefixed UTF-8 string of at most `bound` bytes.
    pub fn get_string_bounded(&mut self, bound: usize) -> (res: Result<String, ReadingError>)
        ensures
            final(self).data() == old(self).data(),
            match take_bounded_string(old(self).rest(), bound as int) {
                Ok((chars, rest)) => res matches Ok(s) && s@ == chars && final(self).rest() == rest,
                Err(e) => res == Err::<String, ReadingError>(e),
            },
    {
        proof {
            use_type_invariant(&*self);
        }
        let mut probe = ByteReader { data: self.data, pos: self.pos };
        let len = probe.get_var_int();
        match len {
            Err(e) => {
                return Err(e);
            },
            Ok(n) => {
                if n.0 < 0 || n.0 as usize > bound {
                    return Err(ReadingError::TooLarge);
                }
            },
        }
        self.get_str()
    }

    /// Read a boolean byte; any non-zero byte reads as `true`.
    pub fn get_bool(&mut self) -> (res: Result<bool, ReadingError>)
        ensures
            final(self).data() == old(self).data(),
            match take_bool(old(self).rest()) {
                Ok((b, rest)) => res == Ok::<bool, ReadingError>(b) && final(self).rest() == rest,
                Err(e) => res == Err::<bool, ReadingError>(e),
            },
    {
        match self.get_u8() {
            Ok(b) => Ok(b != 0),
            Err(e) => Err(e),
        }
    }

    /// Read a signed byte.
    pub fn get_i8(&mut self) -> (res: Result<i8, ReadingError>)
        ensures
            final(self).data() == old(self).data(),
            match take_i8(old(self).rest()) {
                Ok((v, rest)) => res == Ok::<i8, ReadingError>(v) && final(self).rest() == rest,
                Err(e) => res == Err::<i8, ReadingError>(e),
            },
    {
        match self.get_u8() {
            Ok(b) => {
                if b < 0x80 {
                    Ok(b as i8)
                } else {
                    Ok((b as i16 - 0x100i16) as i8)
                }
            },
            Err(e) => Err(e),
        }
    }

    /// Read a VarInt-length-prefixed byte array of at most `max` bytes.
    pub fn get_byte_array(&mut self, max: usize) -> (res: Result<Vec<u8>, ReadingError>)
        ensures
            final(self).data() == old(self).data(),
            match take_byte_array(old(self).rest(), max as int) {
                Ok((bytes, rest)) => res matches Ok(v) && v@ == bytes && final(self).rest() == rest,
                Err(e) => res == Err::<Vec<u8>, ReadingError>(e),
            },
    {
        let ghost start = self.rest();
        let len = self.get_var_int();
        let n = match len {
            Ok(v) => v.0,
            Err(e) => {
                return Err(e);
            },
        };
        if n < 0 {
            return Err(ReadingError::NegativeLength);
        }
        if n as usize > max {
            return Err(ReadingError::TooLarge);
        }
        proof {
            use_type_invariant(&*self);
            lemma_parse_var_int_len(start, 0, 0);
        }
        let ghost k = self.pos() - old(self).pos();
        let n = n as usize;
        if self.data.len() - self.pos < n {
            return Err(ReadingError::Incomplete);
        }
        let mut bytes: Vec<u8> = Vec::with_capacity(n);
        let mut i: usize = 0;
        while i < n
            invariant
                i <= n,
                0 <= k,
                old(self).pos + k + n <= self.data@.len(),
                start.len() >= k + n,
                self.data@ == old(self).data@,
                self.pos == old(self).pos + k + i,
                start == self.data@.skip(old(self).pos as int),
                bytes@ =~= start.subrange(k, k + i),
            decreases n - i,
        {
            bytes.push(self.data[self.pos]);
            self.pos = self.pos + 1;
            i = i + 1;
        }
        assert(bytes@ =~= start.subrange(k, k + n));
        proof {
            lemma_rest_advance(self.data@, old(self).pos as int, k + n);
        }
        Ok(bytes)
    }

    /// Read every byte left, provided there are at most `max` of them.
    pub fn read_remaining(&mut self, max: usize) -> (res: Result<Vec<u8>, ReadingError>)
        ensures
            final(self).data() == old(self).data(),
            match take_remaining(old(self).rest(), max as int) {
                Ok((bytes, rest)) => res matches Ok(v) && v@ == bytes && final(self).rest() == rest,
                Err(e) => res == Err::<Vec<u8>, ReadingError>(e),
            },
    {
        proof {
            use_type_invariant(&*self);
        }
        let ghost start = self.rest();
        if self.data.len() - self.pos > max {
            return Err(ReadingError::TooLarge);
        }
        let mut bytes: Vec<u8> = Vec::new();
        while self.pos < self.data.len()
            invariant
                self.data@ == old(self).data@,
                old(self).pos <= self.pos <= self.data@.len(),
                start == self.data@.skip(old(self).pos as int),
                bytes@ =~= start.subrange(0, self.pos - old(self).pos),
            decreases self.data@.len() - self.pos,
        {
            bytes.push(self.data[self.pos]);
            self.pos = self.pos + 1;
        }
        assert(bytes@ =~= start);
        assert(self.rest() =~= Seq::<u8>::empty());
        Ok(bytes)
    }
}

/// `i16` from its 16-bit two's complement pattern.
pub open spec fn i16_from_bits(u: int) -> i16 {
    if u < 0x8000 {
        u as i16
    } else {
        (u - 0x1_0000) as i16
    }
}

proof fn lemma_pow256_mono(a: nat, b: nat)
    requires
        a <= b,
    ensures
        pow256(a) <= pow256(b),
    decreases b,
{
    if a < b {
        lemma_pow256_mono(a, (b - 1) as nat);
        lemma_pow256_positive((b - 1) as nat);
    }
}

/// `String::from_utf8`: the bytes as a string exactly when they are valid
/// UTF-8, and then the string holds the characters they encode.
#[verifier::external_body]
fn utf8_to_string(bytes: Vec<u8>) -> (res: Option<String>)
    ensures
        res is Some <==> valid_utf8(bytes@),
        res matches Some(s) ==> s@ == decode_utf8(bytes@),
{
    String::from_utf8(bytes).ok()
}

// ---------------------------------------------------------------------------
// Writer
// ---------------------------------------------------------------------------

/// Appending protocol values to a byte buffer.
pub trait NetworkWriteExt {
    /// Append one byte.
    fn write_u8(&mut self, value: u8) -> Result<(), WritingError>;

    /// Append a VarInt.
    fn write_var_int(&mut self, value: &VarInt) -> Result<(), WritingError>;

    /// Append a boolean as one byte.
    fn write_bool(&mut self, value: bool) -> Result<(), WritingError>;

    /// Append a signed byte.
    fn write_i8(&mut self, value: i8) -> Result<(), WritingError>;

    /// Append a big-endian `u16`.
    fn write_u16_be(&mut self, value: u16) -> Result<(), WritingError>;

    /// Append a big-endian `i16`.
    fn write_i16_be(&mut self, value: i16) -> Result<(), WritingError>;

    /// Append a big-endian `i64`.
    fn write_i64_be(&mut self, value: i64) -> Result<(), WritingError>;

    /// Append raw bytes.
    fn write_slice(&mut self, data: &[u8]) -> Result<(), WritingError>;

    /// Append a length-prefixed UTF-8 string.
    fn write_string(&mut self, data: &str) -> Result<(), WritingError>;
}

/// Append the big-endian encoding of the low `n` bytes of `value`.
fn push_be(buf: &mut Vec<u8>, value: u64, n: usize)
    requires
        n <= 8,
    ensures
        final(buf)@ == old(buf)@ + be_bytes(value as nat, n as nat),
{
    let mut i: usize = 0;
    proof {
        lemma_be_bytes_empty(value as nat / pow256(n as nat));
    }
    assert(buf@ =~= old(buf)@ + be_bytes(value as nat / pow256(n as nat), 0));
    while i < n
        invariant
            i <= n <= 8,
            buf@ =~= old(buf)@ + be_bytes(value as nat / pow256((n - i) as nat), i as nat),
        decreases n - i,
    {
        let shift_div = pow256_exec((n - i - 1) as u32);
        let b = ((value / shift_div) % 256) as u8;
        proof {
            let d = pow256((n - i - 1) as nat);
            lemma_pow256_positive((n - i - 1) as nat);
            assert(pow256((n - i) as nat) == 256 * d);
            assert(value as nat / (d * 256) == (value as nat / d) / 256) by {
                vstd::arithmetic::div_mod::lemma_div_denominator(value as int, d as int, 256);
            }
            assert(d * 256 == 256 * d);
            assert(be_bytes(value as nat / d, (i + 1) as nat) == be_bytes(
                (value as nat / d) / 256,
                i as nat,
            ).push(((value as nat / d) % 256) as u8));
        }
        buf.push(b);
        i = i + 1;
    }
    assert(pow256(0) == 1);
    assert(value as nat / 1 == value as nat);
}

/// `256^n` for small `n`.
fn pow256_exec(n: u32) -> (r: u64)
    requires
        n <= 7,
    ensures
        r == pow256(n as nat),
        r > 0,
{
    let mut r: u64 = 1;
    let mut i: u32 = 0;
    proof {
        lemma_pow256_mono(0, 7);
        assert(pow256(7) == 0x100_0000_0000_0000) by {
            reveal_with_fuel(pow256, 8);
        }
    }
    while i < n
        invariant
            i <= n <= 7,
            r == pow256(i as nat),
            r <= pow256(7),
            pow256(7) == 0x100_0000_0000_0000,
        decreases n - i,
    {
        proof {
            lemma_pow256_mono((i + 1) as nat, 7);
            assert(pow256((i + 1) as nat) == 256 * pow256(i as nat));
        }
        r = r * 256;
        i = i + 1;
    }
    proof {
        lemma_pow256_positive(n as nat);
    }
    r
}

impl NetworkWriteExt for Vec<u8> {
    fn write_u8(&mut self, value: u8) -> (res: Result<(), WritingError>)
        ensures
            final(self)@ == old(self)@.push(value),
            res is Ok,
    {
        self.push(value);
        Ok(())
    }

    fn write_bool(&mut self, value: bool) -> (res: Result<(), WritingError>)
        ensures
            final(self)@ == old(self)@.push(bool_byte(value)),
            res is Ok,
    {
        if value {
            self.push(1);
        } else {
            self.push(0);
        }
        Ok(())
    }

    fn write_i8(&mut self, value: i8) -> (res: Result<(), WritingError>)
        ensures
            final(self)@ == old(self)@.push(i8_byte(value)),
            res is Ok,
    {
        let b: u8 = if value >= 0 {
            value as u8
        } else {
            (value as i16 + 0x100i16) as u8
        };
        self.push(b);
        Ok(())
    }

    fn write_var_int(&mut self, value: &VarInt) -> (res: Result<(), WritingError>)
        ensures
            final(self)@ == old(self)@ + var_int_bytes(value.0),
            res is Ok,
    {
        let v = value.0;
        let mut u: u32 = if v >= 0 {
            v as u32
        } else {
            (v as i64 + 0x1_0000_0000i64) as u32
        };
        let ghost total = i32_bits(v);
        loop
            invariant_except_break
                old(self)@ + var_int_encoding(total) == self@ + var_int_encoding(u as nat),
            ensures
                old(self)@ + var_int_encoding(total) == self@,
            decreases u,
        {
            if u < 128 {
                self.push(u as u8);
                assert(self@ =~= old(self)@ + var_int_encoding(total));
                break;
            }
            let ghost before = self@;
            self.push((u % 128 + 128) as u8);
            assert(before + var_int_encoding(u as nat) =~= self@ + var_int_encoding((u / 128) as nat));
            u = u / 128;
        }
        Ok(())
    }

    fn write_u16_be(&mut self, value: u16) -> (res: Result<(), WritingError>)
        ensures
            final(self)@ == old(self)@ + be_bytes(value as nat, 2),
            res is Ok,
    {
        push_be(self, value as u64, 2);
        Ok(())
    }

    fn write_i16_be(&mut self, value: i16) -> (res: Result<(), WritingError>)
        ensures
            final(self)@ == old(self)@ + be_bytes(i16_bits(value), 2),
            res is Ok,
    {
        let bits: u64 = if value >= 0 {
            value as u64
        } else {
            (value as i32 + 0x1_0000i32) as u64
        };
        push_be(self, bits, 2);
        Ok(())
    }

    fn write_i64_be(&mut self, value: i64) -> (res: Result<(), WritingError>)
        ensures
            final(self)@ == old(self)@ + be_bytes(i64_bits(value), 8),
            res is Ok,
    {
        let bits: u64 = if value >= 0 {
            value as u64
        } else {
            ((value + 0x7fff_ffff_ffff_ffffi64 + 1) as u64) + 0x8000_0000_0000_0000u64
        };
        push_be(self, bits, 8);
        Ok(())
    }

    fn write_slice(&mut self, data: &[u8]) -> (res: Result<(), WritingError>)
        ensures
            final(self)@ == old(self)@ + data@,
            res is Ok,
    {
        let mut i: usize = 0;
        while i < data.len()
            invariant
                i <= data@.len(),
                self@ == old(self)@ + data@.subrange(0, i as int),
            decreases data.len() - i,
        {
            self.push(data[i]);
            i = i + 1;
        }
        assert(data@.subrange(0, data@.len() as int) =~= data@);
        Ok(())
    }

    fn write_string(&mut self, data: &str) -> (res: Result<(), WritingError>)
        ensures
            encode_utf8(data@).len() <= i32::MAX ==> res is Ok && final(self)@ == old(self)@
                + string_bytes(data@),
            encode_utf8(data@).len() > i32::MAX ==> res == Err::<(), WritingError>(
                WritingError::TooLong,
            ) && final(self)@ == old(self)@,
    {
        let bytes = data.as_bytes();
        if bytes.len() > i32::MAX as usize {
            return Err(WritingError::TooLong);
        }
        let len = VarInt(bytes.len() as i32);
        let _ = self.write_var_int(&len);
        let _ = self.write_slice(bytes);
        assert(self@ =~= old(self)@ + string_bytes(data@));
        Ok(())
    }
}

} // verus!

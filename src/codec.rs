//! Wire primitives: the VarInt, the length-prefixed string and the short.

use vstd::prelude::*;
use vstd::utf8::{decode_utf8, encode_utf8, encode_utf8_decode_utf8, encode_utf8_valid_utf8, valid_utf8};

verus! {

/// The most bytes a VarInt may take on the wire.
pub const MAX_VARINT_LEN: usize = 5;

/// Why a primitive could not be read.
#[derive(Debug, Clone, Copy, PartialEq, Eq, Structural)]
pub enum CodecError {
    /// The input ended before the value was complete.
    Truncated,
    /// A VarInt ran past its longest legal encoding.
    Overlong,
    /// A string field held bytes that are not UTF-8.
    InvalidUtf8,
    /// A length prefix was negative.
    NegativeLength,
}

/// A 32-bit signed integer sent seven bits at a time.
#[derive(Debug, Clone, Copy, PartialEq, Eq, Structural)]
pub struct VarInt(pub i32);

/// `128` to the power `n`.
pub open spec fn pow128(n: nat) -> nat
    decreases n,
{
    if n == 0 {
        1
    } else {
        128 * pow128((n - 1) as nat)
    }
}

/// The encoding of an unsigned value: low seven bits first, the top bit of
/// each byte set when more bytes follow.
pub open spec fn varint_bytes(u: nat) -> Seq<u8>
    decreases u,
{
    if u < 128 {
        seq![u as u8]
    } else {
        seq![(u % 128 + 128) as u8] + varint_bytes(u / 128)
    }
}

/// The bytes that encode `v`: its two's-complement bit pattern over 32 bits.
pub open spec fn varint_encoding(v: i32) -> Seq<u8> {
    varint_bytes((v as u32) as nat)
}

/// Reads a VarInt from the front of `b`, taking at most `budget` bytes:
/// the value of its seven-bit groups, unbounded, and the bytes it took.
pub open spec fn parse_varint(b: Seq<u8>, budget: nat) -> Result<(nat, nat), CodecError>
    decreases budget,
{
    if budget == 0 {
        Err(CodecError::Overlong)
    } else if b.len() == 0 {
        Err(CodecError::Truncated)
    } else if b[0] < 128 {
        Ok((b[0] as nat, 1))
    } else {
        match parse_varint(b.drop_first(), (budget - 1) as nat) {
            Ok((v, n)) => Ok((((b[0] - 128) + 128 * v) as nat, n + 1)),
            Err(e) => Err(e),
        }
    }
}

/// The VarInt at the front of `b` and how many bytes it takes, or why there
/// is none: the low 32 bits of its value, read as a signed integer.
pub open spec fn varint_spec(b: Seq<u8>) -> Result<(i32, usize), CodecError> {
    match parse_varint(b, MAX_VARINT_LEN as nat) {
        Ok((v, n)) => Ok((((v % 0x1_0000_0000) as u32) as i32, n as usize)),
        Err(e) => Err(e),
    }
}

/// What is known of a read that has already passed `i` continuation bytes
/// worth `acc`, with `mult` the weight of the next group.
pub open spec fn lift_varint(acc: nat, mult: nat, i: nat, r: Result<(nat, nat), CodecError>) -> Result<(nat, nat), CodecError> {
    match r {
        Ok((v, n)) => Ok((acc + mult * v, n + i)),
        Err(e) => Err(e),
    }
}

proof fn lemma_pow128_small()
    ensures
        pow128(1) == 128,
        pow128(2) == 16384,
        pow128(3) == 2097152,
        pow128(4) == 268435456,
        pow128(5) == 34359738368,
{
    reveal_with_fuel(pow128, 6);
}

proof fn lemma_parse_encoding(u: nat, k: nat, rest: Seq<u8>)
    requires
        k > 0,
        u < pow128(k),
    ensures
        parse_varint(varint_bytes(u) + rest, k) == Ok::<(nat, nat), CodecError>((u, varint_bytes(u).len())),
    decreases u,
{
    let b = varint_bytes(u) + rest;
    if u < 128 {
        assert(b[0] == u as u8);
    } else {
        let q = u / 128;
        let k1 = (k - 1) as nat;
        assert(k1 > 0) by {
            if k == 1 {
                assert(pow128(1) == 128 * pow128(0));
            }
        }
        assert(q < pow128(k1)) by (nonlinear_arith)
            requires
                q == u / 128,
                u < pow128(k),
                pow128(k) == 128 * pow128(k1),
        ;
        lemma_parse_encoding(q, k1, rest);
        assert(b.drop_first() =~= varint_bytes(q) + rest);
        assert(b[0] == (u % 128 + 128) as u8);
    }
}

/// Decoding the encoding of any `v` gives `v` back and takes exactly the
/// bytes of the encoding, whatever follows them.
pub proof fn varint_round_trip(v: i32, rest: Seq<u8>)
    ensures
        varint_spec(varint_encoding(v) + rest) == Ok::<(i32, usize), CodecError>((v, varint_encoding(v).len() as usize)),
        1 <= varint_encoding(v).len() <= MAX_VARINT_LEN,
{
    let u = (v as u32) as nat;
    lemma_pow128_small();
    lemma_parse_encoding(u, 5, rest);
    lemma_varint_len(u, 5);
    assert(u % 0x1_0000_0000 == u);
    assert(((v as u32) as i32) == v) by (bit_vector);
}

proof fn lemma_varint_len(u: nat, k: nat)
    requires
        k > 0,
        u < pow128(k),
    ensures
        1 <= varint_bytes(u).len() <= k,
    decreases u,
{
    if u >= 128 {
        let k1 = (k - 1) as nat;
        assert(k1 > 0) by {
            if k == 1 {
                assert(pow128(1) == 128 * pow128(0));
            }
        }
        assert(u / 128 < pow128(k1)) by (nonlinear_arith)
            requires
                u < pow128(k),
                pow128(k) == 128 * pow128(k1),
        ;
        lemma_varint_len(u / 128, k1);
    }
}

proof fn lemma_overlong(b: Seq<u8>, k: nat)
    requires
        k <= b.len(),
        forall|j: int| 0 <= j < k ==> b[j] >= 128,
    ensures
        parse_varint(b, k) == Err::<(nat, nat), CodecError>(CodecError::Overlong),
    decreases k,
{
    if k > 0 {
        let d = b.drop_first();
        assert forall|j: int| 0 <= j < k - 1 implies d[j] >= 128 by {
            assert(d[j] == b[j + 1]);
        }
        lemma_overlong(d, (k - 1) as nat);
    }
}

/// Input whose first five bytes all carry the continuation bit is refused
/// as overlong, whatever its length.
pub proof fn varint_rejects_overlong(b: Seq<u8>)
    requires
        b.len() >= MAX_VARINT_LEN,
        forall|j: int| 0 <= j < MAX_VARINT_LEN ==> b[j] >= 128,
    ensures
        varint_spec(b) == Err::<(i32, usize), CodecError>(CodecError::Overlong),
{
    lemma_overlong(b, MAX_VARINT_LEN as nat);
}

/// Empty input holds no VarInt: the read fails as truncated.
pub proof fn varint_empty_is_truncated()
    ensures
        varint_spec(Seq::<u8>::empty()) == Err::<(i32, usize), CodecError>(CodecError::Truncated),
{
}

impl VarInt {
    /// The wire bytes of this value.
    pub fn encode(&self) -> (r: Vec<u8>)
        ensures
            r@ == varint_encoding(self.0),
    {
        let mut u: u32 = #[verifier::truncate] (self.0 as u32);
        let ghost whole = varint_encoding(self.0);
        let mut out: Vec<u8> = Vec::new();
        while u >= 128
            invariant
                whole == out@ + varint_bytes(u as nat),
            decreases u,
        {
            let byte: u8 = (u % 128 + 128) as u8;
            proof {
                assert(varint_bytes(u as nat) == seq![byte] + varint_bytes((u / 128) as nat));
                assert(out@.push(byte) + varint_bytes((u / 128) as nat) =~= out@ + varint_bytes(u as nat));
            }
            out.push(byte);
            u = u / 128;
        }
        let last: u8 = u as u8;
        proof {
            assert(out@.push(last) =~= out@ + varint_bytes(u as nat));
        }
        out.push(last);
        out
    }

    /// Reads the VarInt at the front of `bytes`: its value and how many bytes
    /// it took.
    pub fn decode(bytes: &[u8]) -> (r: Result<(VarInt, usize), CodecError>)
        ensures
            match varint_spec(bytes@) {
                Ok((v, n)) => r == Ok::<(VarInt, usize), CodecError>((VarInt(v), n)),
                Err(e) => r == Err::<(VarInt, usize), CodecError>(e),
            },
    {
        assert(bytes@.skip(0) =~= bytes@);
        match read_varint(bytes, 0) {
            Ok((v, n)) => Ok((VarInt(v), n)),
            Err(e) => Err(e),
        }
    }
}

/// Reads the VarInt that starts at `pos` in `bytes`.
pub fn read_varint(bytes: &[u8], pos: usize) -> (r: Result<(i32, usize), CodecError>)
    requires
        pos <= bytes@.len(),
    ensures
        r == varint_spec(bytes@.skip(pos as int)),
        r matches Ok((_, n)) ==> 1 <= n <= bytes@.len() - pos,
{
    let ghost s = bytes@.skip(pos as int);
    let mut acc: u64 = 0;
    let mut mult: u64 = 1;
    let mut i: usize = 0;
    proof {
        lemma_pow128_small();
        assert(s.skip(0) =~= s);
    }
    while i < MAX_VARINT_LEN
        invariant
            i <= MAX_VARINT_LEN,
            pos <= bytes@.len(),
            i <= bytes@.len() - pos,
            s == bytes@.skip(pos as int),
            mult == pow128(i as nat),
            acc < mult,
            pow128(4) == 268435456,
            pow128(5) == 34359738368,
            parse_varint(s, MAX_VARINT_LEN as nat) == lift_varint(
                acc as nat,
                mult as nat,
                i as nat,
                parse_varint(s.skip(i as int), (MAX_VARINT_LEN - i) as nat),
            ),
        decreases MAX_VARINT_LEN - i,
    {
        let ghost t = s.skip(i as int);
        if i == bytes.len() - pos {
            assert(t.len() == 0);
            return Err(CodecError::Truncated);
        }
        let b: u8 = bytes[pos + i];
        assert(t[0] == b);
        proof {
            lemma_pow128_monotone(i as nat, 4);
        }
        assert(mult * (b as u64) <= 268435456 * 255) by (nonlinear_arith)
            requires
                mult <= 268435456,
        ;
        if b < 128 {
            let total: u64 = acc + mult * (b as u64);
            assert(total < 0x1_0000_0000_0000) by (nonlinear_arith)
                requires
                    total == acc + mult * (b as u64),
                    acc < mult,
                    mult <= 268435456,
                    b < 128,
            ;
            let low: u32 = (total % 0x1_0000_0000) as u32;
            let v: i32 = #[verifier::truncate] (low as i32);
            return Ok((v, i + 1));
        }
        let ghost rest = parse_varint(s.skip(i + 1), (MAX_VARINT_LEN - i - 1) as nat);
        proof {
            assert(t.drop_first() =~= s.skip(i + 1));
            let d = (b - 128) as nat;
            match rest {
                Ok((v, n)) => {
                    assert(acc + mult * (d + 128 * v) == (acc + mult * d) + (mult * 128) * v)
                        by (nonlinear_arith);
                },
                Err(_) => {},
            }
            assert(acc + mult * d < mult * 128) by (nonlinear_arith)
                requires
                    acc < mult,
                    d < 128,
            ;
        }
        acc = acc + mult * ((b - 128) as u64);
        mult = mult * 128;
        i = i + 1;
    }
    proof {
        assert(parse_varint(s.skip(i as int), 0) == Err::<(nat, nat), CodecError>(CodecError::Overlong));
    }
    Err(CodecError::Overlong)
}

proof fn lemma_pow128_monotone(i: nat, j: nat)
    requires
        i <= j,
    ensures
        pow128(i) <= pow128(j),
    decreases j,
{
    if i < j {
        lemma_pow128_monotone(i, (j - 1) as nat);
    }
}

/// Appends the bytes of `b` to `out`.
pub fn extend_bytes(out: &mut Vec<u8>, b: &[u8])
    ensures
        final(out)@ == old(out)@ + b@,
{
    let mut i: usize = 0;
    while i < b.len()
        invariant
            i <= b@.len(),
            out@ == old(out)@ + b@.subrange(0, i as int),
        decreases b@.len() - i,
    {
        proof {
            assert(b@.subrange(0, i + 1) =~= b@.subrange(0, i as int).push(b@[i as int]));
        }
        out.push(b[i]);
        i = i + 1;
    }
    assert(b@.subrange(0, i as int) =~= b@);
}

/// A UTF-8 string sent after its byte length as a VarInt.
#[derive(Debug, Clone, PartialEq, Eq)]
pub struct MCString(pub String);

/// The largest byte length of a string that this library encodes, the
/// protocol's own limit for string fields.
pub const MAX_STRING_BYTES: usize = 32767;

/// The wire bytes of the text `s`: its UTF-8 length, then its UTF-8 bytes.
pub open spec fn mcstring_encoding(s: Seq<char>) -> Seq<u8> {
    varint_encoding(encode_utf8(s).len() as i32) + encode_utf8(s)
}

/// The string at the front of `b` and how many bytes it takes, or why there
/// is none. A length prefix that reaches past the input is a truncation.
pub open spec fn mcstring_spec(b: Seq<u8>) -> Result<(Seq<char>, usize), CodecError> {
    match varint_spec(b) {
        Err(e) => Err(e),
        Ok((len, n)) => {
            let end = n + len;
            if len < 0 {
                Err(CodecError::NegativeLength)
            } else if end > b.len() {
                Err(CodecError::Truncated)
            } else if !valid_utf8(b.subrange(n as int, end)) {
                Err(CodecError::InvalidUtf8)
            } else {
                Ok((decode_utf8(b.subrange(n as int, end)), end as usize))
            }
        },
    }
}

/// Decoding the encoding of any text that fits the length prefix gives the
/// text back and takes exactly the bytes of the encoding.
pub proof fn mcstring_round_trip(s: Seq<char>, rest: Seq<u8>)
    requires
        encode_utf8(s).len() <= MAX_STRING_BYTES,
    ensures
        mcstring_spec(mcstring_encoding(s) + rest) == Ok::<(Seq<char>, usize), CodecError>((s, mcstring_encoding(s).len() as usize)),
{
    let u = encode_utf8(s);
    let pre = varint_encoding(u.len() as i32);
    let b = mcstring_encoding(s) + rest;
    varint_round_trip(u.len() as i32, u + rest);
    assert(b =~= pre + (u + rest));
    let n = pre.len();
    assert(b.subrange(n as int, (n + u.len()) as int) =~= u);
    encode_utf8_valid_utf8(s);
    encode_utf8_decode_utf8(s);
}

/// A length prefix that reaches past the end of the input is refused as a
/// truncation.
pub proof fn mcstring_rejects_short_input(b: Seq<u8>)
    requires
        varint_spec(b) is Ok,
        varint_spec(b)->Ok_0.0 >= 0,
        varint_spec(b)->Ok_0.1 + varint_spec(b)->Ok_0.0 > b.len(),
    ensures
        mcstring_spec(b) == Err::<(Seq<char>, usize), CodecError>(CodecError::Truncated),
{
}

/// Relies on std::str::from_utf8: it accepts exactly the valid UTF-8 byte
/// sequences, and the text it returns is made of those very bytes.
#[verifier::external_body]
fn str_from_utf8(b: &[u8]) -> (r: Option<&str>)
    ensures
        r is Some <==> valid_utf8(b@),
        r matches Some(s) ==> encode_utf8(s@) == b@,
{
    std::str::from_utf8(b).ok()
}

impl MCString {
    /// The wire bytes of this string.
    pub fn encode(&self) -> (r: Vec<u8>)
        requires
            encode_utf8(self.0@).len() <= MAX_STRING_BYTES,
        ensures
            r@ == mcstring_encoding(self.0@),
    {
        let bytes: &[u8] = self.0.as_str().as_bytes();
        let mut out = VarInt(bytes.len() as i32).encode();
        extend_bytes(&mut out, bytes);
        out
    }

    /// Reads the string at the front of `bytes`, and how many bytes it took.
    pub fn decode(bytes: &[u8]) -> (r: Result<(MCString, usize), CodecError>)
        ensures
            match mcstring_spec(bytes@) {
                Ok((s, n)) => r matches Ok((m, k)) && m.0@ == s && k == n,
                Err(e) => r == Err::<(MCString, usize), CodecError>(e),
            },
    {
        assert(bytes@.skip(0) =~= bytes@);
        match read_mcstring(bytes, 0) {
            Ok((s, n)) => Ok((MCString(s), n)),
            Err(e) => Err(e),
        }
    }
}

/// Reads the string that starts at `pos` in `bytes`; the count is of the
/// bytes taken from `pos` on.
pub fn read_mcstring(bytes: &[u8], pos: usize) -> (r: Result<(String, usize), CodecError>)
    requires
        pos <= bytes@.len(),
    ensures
        match mcstring_spec(bytes@.skip(pos as int)) {
            Ok((s, n)) => r matches Ok((t, k)) && t@ == s && k == n,
            Err(e) => r == Err::<(String, usize), CodecError>(e),
        },
{
    let ghost b = bytes@.skip(pos as int);
    let (len, n) = match read_varint(bytes, pos) {
        Ok(x) => x,
        Err(e) => return Err(e),
    };
    if len < 0 {
        return Err(CodecError::NegativeLength);
    }
    let ulen: u32 = len as u32;
    let avail: usize = bytes.len() - pos - n;
    if ulen as usize > avail {
        return Err(CodecError::Truncated);
    }
    let start: usize = pos + n;
    let end: usize = start + ulen as usize;
    let field: &[u8] = &bytes[start..end];
    assert(field@ =~= b.subrange(n as int, n + ulen as int));
    match str_from_utf8(field) {
        Some(text) => {
            proof {
                encode_utf8_decode_utf8(text@);
            }
            Ok((text.to_owned(), n + ulen as usize))
        },
        None => Err(CodecError::InvalidUtf8),
    }
}

/// A 16-bit unsigned integer sent as two bytes, high byte first.
#[derive(Debug, Clone, Copy, PartialEq, Eq, Structural)]
pub struct Short(pub u16);

/// The two wire bytes of `v`.
pub open spec fn short_bytes(v: u16) -> Seq<u8> {
    seq![(v / 256) as u8, (v % 256) as u8]
}

/// The short at the front of `b`, or a truncation when fewer than two
/// bytes are there.
pub open spec fn short_spec(b: Seq<u8>) -> Result<u16, CodecError> {
    if b.len() < 2 {
        Err(CodecError::Truncated)
    } else {
        Ok((b[0] * 256 + b[1]) as u16)
    }
}

/// Decoding the two bytes of any short gives it back.
pub proof fn short_round_trip(v: u16, rest: Seq<u8>)
    ensures
        short_spec(short_bytes(v) + rest) == Ok::<u16, CodecError>(v),
{
    let b = short_bytes(v) + rest;
    assert(b[0] == (v / 256) as u8 && b[1] == (v % 256) as u8);
}

impl Short {
    /// The wire bytes of this value.
    pub fn encode(&self) -> (r: Vec<u8>)
        ensures
            r@ == short_bytes(self.0),
    {
        let mut out: Vec<u8> = Vec::new();
        out.push((self.0 / 256) as u8);
        out.push((self.0 % 256) as u8);
        assert(out@ =~= short_bytes(self.0));
        out
    }

    /// Reads the short at the front of `bytes`; it always takes two bytes.
    pub fn decode(bytes: &[u8]) -> (r: Result<Short, CodecError>)
        ensures
            match short_spec(bytes@) {
                Ok(v) => r == Ok::<Short, CodecError>(Short(v)),
                Err(e) => r == Err::<Short, CodecError>(e),
            },
    {
        if bytes.len() < 2 {
            return Err(CodecError::Truncated);
        }
        let v: u16 = (bytes[0] as u16) * 256 + bytes[1] as u16;
        Ok(Short(v))
    }
}

} // verus!

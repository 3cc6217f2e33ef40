//! Mathematical description of the wire format.
//!
//! `ArgValue` is the abstract value of one argument: the `view` of the
//! executable `Argument` type.  `wire_bytes` gives the exact payload bytes
//! an argument occupies on the wire, and `decode_spec` the exact outcome of
//! decoding one argument from a byte sequence.  Contracts of the executable
//! encode and decode operations are stated over these functions.

use vstd::prelude::*;
use vstd::utf8::valid_utf8;
use crate::endian::{be_u32, be_u64, u32_be_bytes, u64_be_bytes};

verus! {

/// The abstract value of one argument.  Float variants carry the IEEE-754
/// bit pattern of the number; the string variant carries its UTF-8 bytes.
pub enum ArgValue {
    Int32(i32),
    Float32(u32),
    Float64(u64),
    Str(Seq<u8>),
    True,
    False,
    Nil,
}

/// Why decoding an argument failed.
#[derive(Clone, Copy, Debug, PartialEq, Eq, Structural)]
pub enum DecodeError {
    /// The type tag is not one of `T`, `F`, `N`, `i`, `f`, `d`, `s`.
    UnknownTag,
    /// The buffer holds fewer bytes than the value requires.
    BufferTooShort,
    /// No zero terminator byte before the end of the buffer.
    UnterminatedString,
    /// The string content before the terminator is not valid UTF-8.
    InvalidUtf8,
}

/// The single-character type tag of an argument value.
pub open spec fn tag_of(v: ArgValue) -> char {
    match v {
        ArgValue::True => 'T',
        ArgValue::False => 'F',
        ArgValue::Nil => 'N',
        ArgValue::Int32(_) => 'i',
        ArgValue::Float32(_) => 'f',
        ArgValue::Float64(_) => 'd',
        ArgValue::Str(_) => 's',
    }
}

/// The tags the codec understands.
pub open spec fn valid_tag(tag: char) -> bool {
    tag == 'T' || tag == 'F' || tag == 'N' || tag == 'i' || tag == 'f' || tag == 'd' || tag == 's'
}

/// A well-formed argument value: string content is valid UTF-8.  Decoding
/// only produces well-formed values, and encoding a string assumes one.
pub open spec fn wf(v: ArgValue) -> bool {
    match v {
        ArgValue::Str(content) => valid_utf8(content),
        _ => true,
    }
}

/// The unsigned 32-bit pattern that carries `n` on the wire, as an integer:
/// the two's-complement reading of `n`.
pub open spec fn i32_bits(n: i32) -> int {
    if n >= 0 {
        n as int
    } else {
        n + 0x1_0000_0000
    }
}

/// The signed value carried by the unsigned 32-bit pattern `u`: the inverse
/// of `i32_bits`.
pub open spec fn i32_of_bits(u: int) -> int
    recommends
        0 <= u < 0x1_0000_0000,
{
    if u < 0x8000_0000 {
        u
    } else {
        u - 0x1_0000_0000
    }
}

/// How many zero bytes follow string content of length `len`: one
/// terminator plus padding up to the next multiple of 4, so 1 to 4 bytes.
pub open spec fn str_zero_count(len: int) -> int {
    4 - len % 4
}

/// `n` zero bytes.
pub open spec fn zero_bytes(n: int) -> Seq<u8> {
    Seq::new(n as nat, |i: int| 0u8)
}

/// Padding consumed by decode after the `n` bytes of content-plus-terminator:
/// up to the next multiple of 4.
pub open spec fn pad_len(n: int) -> int {
    if n % 4 == 0 {
        0
    } else {
        4 - n % 4
    }
}

/// The exact payload bytes of `v` on the wire.  `True`, `False` and `Nil`
/// occupy no bytes: their tag carries all information.
pub open spec fn wire_bytes(v: ArgValue) -> Seq<u8> {
    match v {
        ArgValue::True => Seq::empty(),
        ArgValue::False => Seq::empty(),
        ArgValue::Nil => Seq::empty(),
        ArgValue::Int32(n) => u32_be_bytes(i32_bits(n) as u32),
        ArgValue::Float32(bits) => u32_be_bytes(bits),
        ArgValue::Float64(bits) => u64_be_bytes(bits),
        ArgValue::Str(content) => content + zero_bytes(str_zero_count(content.len() as int)),
    }
}

/// The index of the first zero byte of `s`, if any.
pub open spec fn first_zero(s: Seq<u8>) -> Option<int>
    decreases s.len(),
{
    if s.len() == 0 {
        None
    } else if s[0] == 0 {
        Some(0int)
    } else {
        match first_zero(s.drop_first()) {
            Some(i) => Some(i + 1),
            None => None,
        }
    }
}

/// The exact outcome of decoding one argument with tag `tag` from the bytes
/// `rest`: the decoded value and the number of bytes consumed, or the error.
pub open spec fn decode_spec(tag: char, rest: Seq<u8>) -> Result<(ArgValue, int), DecodeError> {
    if tag == 'T' {
        Ok((ArgValue::True, 0))
    } else if tag == 'F' {
        Ok((ArgValue::False, 0))
    } else if tag == 'N' {
        Ok((ArgValue::Nil, 0))
    } else if tag == 'i' {
        if rest.len() < 4 {
            Err(DecodeError::BufferTooShort)
        } else {
            Ok((ArgValue::Int32(i32_of_bits(be_u32(rest)) as i32), 4))
        }
    } else if tag == 'f' {
        if rest.len() < 4 {
            Err(DecodeError::BufferTooShort)
        } else {
            Ok((ArgValue::Float32(be_u32(rest) as u32), 4))
        }
    } else if tag == 'd' {
        if rest.len() < 8 {
            Err(DecodeError::BufferTooShort)
        } else {
            Ok((ArgValue::Float64(be_u64(rest) as u64), 8))
        }
    } else if tag == 's' {
        match first_zero(rest) {
            None => Err(DecodeError::UnterminatedString),
            Some(term) => {
                let content = rest.take(term);
                if !valid_utf8(content) {
                    Err(DecodeError::InvalidUtf8)
                } else {
                    let total = term + 1 + pad_len(term + 1);
                    if rest.len() < total {
                        Err(DecodeError::BufferTooShort)
                    } else {
                        Ok((ArgValue::Str(content), total))
                    }
                }
            },
        }
    } else {
        Err(DecodeError::UnknownTag)
    }
}

/// A successful decode yields a well-formed value that consumed no more
/// bytes than were available.
pub proof fn lemma_decode_spec_ok(tag: char, rest: Seq<u8>)
    ensures
        decode_spec(tag, rest) matches Ok(p) ==> wf(p.0) && 0 <= p.1 <= rest.len(),
{
    lemma_first_zero_bounds(rest);
}

/// Whatever `first_zero` finds is the first zero byte of `s`.
pub proof fn lemma_first_zero_bounds(s: Seq<u8>)
    ensures
        first_zero(s) matches Some(k) ==> 0 <= k < s.len() && s[k] == 0 && (forall|j: int|
            0 <= j < k ==> s[j] != 0),
    decreases s.len(),
{
    if s.len() > 0 && s[0] != 0 {
        let t = s.drop_first();
        lemma_first_zero_bounds(t);
        assert(forall|j: int| 0 <= j < t.len() ==> t[j] == s[j + 1]);
        if let Some(i) = first_zero(t) {
            assert(forall|j: int| 1 <= j < i + 1 ==> s[j] == t[j - 1] && t[j - 1] != 0);
        }
    }
}

/// If `s[k]` is the first zero byte of `s`, `first_zero` finds exactly it.
pub proof fn lemma_first_zero_at(s: Seq<u8>, k: int)
    requires
        0 <= k < s.len(),
        s[k] == 0,
        forall|j: int| 0 <= j < k ==> s[j] != 0,
    ensures
        first_zero(s) == Some(k),
    decreases k,
{
    if s[0] == 0 {
        assert(k == 0);
    } else {
        lemma_first_zero_at(s.drop_first(), k - 1);
    }
}

/// If `s` holds no zero byte, `first_zero` finds none.
pub proof fn lemma_first_zero_none(s: Seq<u8>)
    requires
        forall|j: int| 0 <= j < s.len() ==> s[j] != 0,
    ensures
        first_zero(s) == None::<int>,
    decreases s.len(),
{
    if s.len() > 0 {
        lemma_first_zero_none(s.drop_first());
    }
}

} // verus!

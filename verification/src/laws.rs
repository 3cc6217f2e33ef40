//! Proved properties of the codec.

use vstd::prelude::*;
use crate::endian::{lemma_u32_be_round_trip, lemma_u64_be_round_trip};
use crate::wire::{
    decode_spec, first_zero, i32_bits, pad_len, str_zero_count, tag_of, valid_tag, wf, wire_bytes,
    zero_bytes, ArgValue, DecodeError,
};
use crate::wire::{lemma_first_zero_at, lemma_first_zero_bounds};

verus! {

/// True when `s` holds no zero byte, so that a zero terminator can mark its
/// end on the wire.
pub open spec fn no_zero_bytes(s: Seq<u8>) -> bool {
    forall|i: int| 0 <= i < s.len() ==> s[i] != 0
}

/// Round trip: decoding the wire bytes of a well-formed value `v` under its
/// own tag yields `v` again and consumes exactly the bytes written, whatever
/// bytes follow them in the buffer.  String content must hold no zero byte:
/// a zero byte inside the content would itself be read as the terminator.
pub proof fn lemma_round_trip(v: ArgValue, suffix: Seq<u8>)
    requires
        wf(v),
        v matches ArgValue::Str(content) ==> no_zero_bytes(content),
    ensures
        decode_spec(tag_of(v), wire_bytes(v) + suffix) == Ok::<(ArgValue, int), DecodeError>(
            (v, wire_bytes(v).len() as int),
        ),
{
    let rest = wire_bytes(v) + suffix;
    match v {
        ArgValue::True | ArgValue::False | ArgValue::Nil => {
            assert(wire_bytes(v).len() == 0);
        },
        ArgValue::Int32(n) => {
            let bits = i32_bits(n) as u32;
            lemma_u32_be_round_trip(bits);
            assert(rest[0] == wire_bytes(v)[0] && rest[1] == wire_bytes(v)[1] && rest[2]
                == wire_bytes(v)[2] && rest[3] == wire_bytes(v)[3]);
        },
        ArgValue::Float32(bits) => {
            lemma_u32_be_round_trip(bits);
            assert(rest[0] == wire_bytes(v)[0] && rest[1] == wire_bytes(v)[1] && rest[2]
                == wire_bytes(v)[2] && rest[3] == wire_bytes(v)[3]);
        },
        ArgValue::Float64(bits) => {
            lemma_u64_be_round_trip(bits);
            assert(forall|j: int| 0 <= j < 8 ==> rest[j] == wire_bytes(v)[j]);
        },
        ArgValue::Str(content) => {
            let k = content.len() as int;
            let z = str_zero_count(k);
            assert(1 <= z <= 4);
            assert(rest[k] == 0);
            assert(forall|j: int| 0 <= j < k ==> rest[j] == content[j]);
            lemma_first_zero_at(rest, k);
            assert(rest.take(k) =~= content);
            assert(k + 1 + pad_len(k + 1) == k + z);
        },
    }
}

/// Padding invariant, produced side: the wire bytes of a string are always
/// a multiple of 4 long, longer than the content, and the byte immediately
/// after the content is a zero terminator.
pub proof fn lemma_padding_invariant(content: Seq<u8>)
    ensures
        wire_bytes(ArgValue::Str(content)).len() % 4 == 0,
        wire_bytes(ArgValue::Str(content)).len() > content.len(),
        wire_bytes(ArgValue::Str(content))[content.len() as int] == 0,
{
    let k = content.len() as int;
    assert(wire_bytes(ArgValue::Str(content)).len() == k + str_zero_count(k));
    assert((k + (4 - k % 4)) % 4 == 0);
    assert(wire_bytes(ArgValue::Str(content))[k] == zero_bytes(str_zero_count(k))[0]);
}

/// Padding invariant, consumed side: whenever decoding a string succeeds,
/// the number of bytes consumed is a positive multiple of 4.
pub proof fn lemma_decode_str_aligned(rest: Seq<u8>)
    ensures
        decode_spec('s', rest) matches Ok(p) ==> p.1 % 4 == 0 && p.1 >= 4,
{
    lemma_first_zero_bounds(rest);
    if let Some(term) = first_zero(rest) {
        assert((term + 1 + pad_len(term + 1)) % 4 == 0);
    }
}

/// True when `a` and `b` are the same variant of `ArgValue`.
pub open spec fn same_variant(a: ArgValue, b: ArgValue) -> bool {
    &&& (a is Int32 <==> b is Int32)
    &&& (a is Float32 <==> b is Float32)
    &&& (a is Float64 <==> b is Float64)
    &&& (a is Str <==> b is Str)
    &&& (a is True <==> b is True)
    &&& (a is False <==> b is False)
    &&& (a is Nil <==> b is Nil)
}

/// Tag bijection, assigning side: every value's tag is one of the seven
/// supported tags, and two values carry the same tag exactly when they are
/// the same variant.
pub proof fn lemma_tag_bijection(a: ArgValue, b: ArgValue)
    ensures
        valid_tag(tag_of(a)),
        tag_of(a) == tag_of(b) <==> same_variant(a, b),
{
}

/// Tag bijection, rejecting side: decoding under any tag outside the
/// supported set fails with `UnknownTag`, whatever the buffer holds.
pub proof fn lemma_unknown_tag_rejected(tag: char, rest: Seq<u8>)
    ensures
        !valid_tag(tag) ==> decode_spec(tag, rest) == Err::<(ArgValue, int), DecodeError>(
            DecodeError::UnknownTag,
        ),
{
}

/// Boundary: decoding a 32-bit integer or float needs 4 bytes and a 64-bit
/// float 8 bytes; a shorter buffer fails with `BufferTooShort`.
pub proof fn lemma_fixed_width_boundary(tag: char, rest: Seq<u8>)
    ensures
        (tag == 'i' || tag == 'f') && rest.len() < 4 ==> decode_spec(tag, rest) == Err::<
            (ArgValue, int),
            DecodeError,
        >(DecodeError::BufferTooShort),
        tag == 'd' && rest.len() < 8 ==> decode_spec(tag, rest) == Err::<
            (ArgValue, int),
            DecodeError,
        >(DecodeError::BufferTooShort),
{
}

} // verus!

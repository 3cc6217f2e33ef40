//! The argument value type with its encode and decode operations.

use vstd::prelude::*;
use vstd::slice::{slice_subrange, slice_to_vec};
use vstd::string::StringSliceAdditionalSpecFns;
use vstd::utf8::valid_utf8;
use crate::endian::{be_u32, be_u64, read_be_u32, read_be_u64, write_be_u32, write_be_u64};
use crate::wire::{
    decode_spec, i32_bits, i32_of_bits, pad_len, str_zero_count, tag_of, wf, wire_bytes,
    zero_bytes, ArgValue, DecodeError,
};
use crate::wire::{lemma_first_zero_at, lemma_first_zero_none};
use crate::utf8check::check_utf8;

verus! {

/// One decoded or to-be-encoded argument value.
///
/// The float variants carry the IEEE-754 bit pattern of the number, which is
/// exactly what travels on the wire; the string variant owns its UTF-8
/// content bytes.
#[derive(Debug)]
pub enum Argument {
    Int32(i32),
    Float32(u32),
    Float64(u64),
    Str(Vec<u8>),
    True,
    False,
    Nil,
}

impl View for Argument {
    type V = ArgValue;

    open spec fn view(&self) -> ArgValue {
        match self {
            Argument::Int32(n) => ArgValue::Int32(*n),
            Argument::Float32(bits) => ArgValue::Float32(*bits),
            Argument::Float64(bits) => ArgValue::Float64(*bits),
            Argument::Str(content) => ArgValue::Str(content@),
            Argument::True => ArgValue::True,
            Argument::False => ArgValue::False,
            Argument::Nil => ArgValue::Nil,
        }
    }
}

/// The index of the first occurrence of `needle` in `haystack`, if any.
pub fn strchr(haystack: &[u8], needle: u8) -> (r: Option<usize>)
    ensures
        match r {
            Some(idx) => idx < haystack@.len() && haystack@[idx as int] == needle && (forall|
                j: int,
            | 0 <= j < idx ==> haystack@[j] != needle),
            None => forall|j: int| 0 <= j < haystack@.len() ==> haystack@[j] != needle,
        },
{
    let n = haystack.len();
    let mut idx: usize = 0;
    while idx < n
        invariant
            idx <= n,
            n == haystack@.len(),
            forall|j: int| 0 <= j < idx ==> haystack@[j] != needle,
        decreases n - idx,
    {
        if haystack[idx] == needle {
            return Some(idx);
        }
        idx = idx + 1;
    }
    None
}

fn vec_bytes_eq(a: &Vec<u8>, b: &Vec<u8>) -> (r: bool)
    ensures
        r == (a@ == b@),
{
    if a.len() != b.len() {
        return false;
    }
    let n = a.len();
    let mut i: usize = 0;
    while i < n
        invariant
            i <= n,
            n == a@.len(),
            n == b@.len(),
            forall|j: int| 0 <= j < i ==> a@[j] == b@[j],
        decreases n - i,
    {
        if a[i] != b[i] {
            return false;
        }
        i = i + 1;
    }
    proof {
        assert(a@ =~= b@);
    }
    true
}

impl PartialEq for Argument {
    fn eq(&self, other: &Argument) -> (r: bool) {
        match (self, other) {
            (Argument::Int32(a), Argument::Int32(b)) => a == b,
            (Argument::Float32(a), Argument::Float32(b)) => a == b,
            (Argument::Float64(a), Argument::Float64(b)) => a == b,
            (Argument::Str(a), Argument::Str(b)) => vec_bytes_eq(a, b),
            (Argument::True, Argument::True) => true,
            (Argument::False, Argument::False) => true,
            (Argument::Nil, Argument::Nil) => true,
            _ => false,
        }
    }
}

impl vstd::std_specs::cmp::PartialEqSpecImpl for Argument {
    open spec fn obeys_eq_spec() -> bool {
        true
    }

    open spec fn eq_spec(&self, other: &Argument) -> bool {
        self@ == other@
    }
}

impl Argument {
    /// The single-character type tag of this value.
    pub fn typetag(&self) -> (r: char)
        ensures
            r == tag_of(self@),
    {
        match self {
            Argument::True => 'T',
            Argument::False => 'F',
            Argument::Nil => 'N',
            Argument::Int32(_) => 'i',
            Argument::Float32(_) => 'f',
            Argument::Float64(_) => 'd',
            Argument::Str(_) => 's',
        }
    }

    /// Appends the exact wire bytes of this value to `into`: nothing for
    /// `True`, `False` and `Nil`, the big-endian bytes of the numeric
    /// variants, and for `Str` the content followed by one zero terminator
    /// and zero padding up to the next 4-byte boundary.
    pub fn serialize(&self, into: &mut Vec<u8>)
        ensures
            final(into)@ == old(into)@ + wire_bytes(self@),
    {
        match self {
            Argument::True | Argument::False | Argument::Nil => {
                proof {
                    assert(into@ =~= old(into)@ + wire_bytes(self@));
                }
            },
            Argument::Int32(n) => {
                let bits: u32 = if *n >= 0 {
                    *n as u32
                } else {
                    (((*n as i64) + 0x1_0000_0000i64) as u32)
                };
                proof {
                    assert(bits == i32_bits(*n) as u32);
                }
                write_be_u32(into, bits);
            },
            Argument::Float32(bits) => {
                write_be_u32(into, *bits);
            },
            Argument::Float64(bits) => {
                write_be_u64(into, *bits);
            },
            Argument::Str(content) => {
                let ghost base = into@;
                let clen = content.len();
                let mut i: usize = 0;
                while i < clen
                    invariant
                        i <= clen,
                        clen == content@.len(),
                        into@ == base + content@.take(i as int),
                    decreases clen - i,
                {
                    into.push(content[i]);
                    proof {
                        assert(into@ =~= base + content@.take(i as int + 1));
                    }
                    i = i + 1;
                }
                let z = 4 - clen % 4;
                proof {
                    assert(into@ =~= base + content@ + zero_bytes(0));
                    assert(z == str_zero_count(clen as int));
                }
                let mut k: usize = 0;
                while k < z
                    invariant
                        k <= z,
                        into@ == base + content@ + zero_bytes(k as int),
                    decreases z - k,
                {
                    into.push(0u8);
                    proof {
                        assert(into@ =~= base + content@ + zero_bytes(k as int + 1));
                    }
                    k = k + 1;
                }
                proof {
                    assert(into@ =~= base + wire_bytes(self@));
                }
            },
        }
    }

    /// Decodes one argument with tag `typetag` from `buf`, starting at
    /// `*pos`.  On success the cursor advances exactly past the consumed
    /// wire bytes; on failure it is unchanged and the error says what was
    /// wrong, exactly as `decode_spec` describes.
    pub fn deserialize(typetag: char, buf: &[u8], pos: &mut usize) -> (r: Result<
        Argument,
        DecodeError,
    >)
        requires
            *old(pos) <= buf@.len(),
        ensures
            ({
                let rest = buf@.subrange(*old(pos) as int, buf@.len() as int);
                match decode_spec(typetag, rest) {
                    Ok(p) => r matches Ok(v) && v@ == p.0 && wf(v@) && *final(pos) == *old(pos)
                        + p.1,
                    Err(e) => r matches Err(e2) && e2 == e && *final(pos) == *old(pos),
                }
            }),
    {
        let ghost rest = buf@.subrange(*old(pos) as int, buf@.len() as int);
        let start = *pos;
        let len = buf.len();
        match typetag {
            'T' => Ok(Argument::True),
            'F' => Ok(Argument::False),
            'N' => Ok(Argument::Nil),
            'i' => {
                if len - start < 4 {
                    return Err(DecodeError::BufferTooShort);
                }
                let bits = read_be_u32(buf, start);
                proof {
                    assert(be_u32(buf@.subrange(start as int, start as int + 4)) == be_u32(rest));
                }
                let val: i32 = if bits >= 0x8000_0000 {
                    (((bits as i64) - 0x1_0000_0000i64) as i32)
                } else {
                    bits as i32
                };
                *pos = start + 4;
                proof {
                    assert(val == i32_of_bits(be_u32(rest)) as i32);
                }
                Ok(Argument::Int32(val))
            },
            'f' => {
                if len - start < 4 {
                    return Err(DecodeError::BufferTooShort);
                }
                let bits = read_be_u32(buf, start);
                proof {
                    assert(be_u32(buf@.subrange(start as int, start as int + 4)) == be_u32(rest));
                }
                *pos = start + 4;
                Ok(Argument::Float32(bits))
            },
            'd' => {
                if len - start < 8 {
                    return Err(DecodeError::BufferTooShort);
                }
                let bits = read_be_u64(buf, start);
                proof {
                    assert(be_u64(buf@.subrange(start as int, start as int + 8)) == be_u64(rest));
                }
                *pos = start + 8;
                Ok(Argument::Float64(bits))
            },
            's' => {
                let rest_slice = slice_subrange(buf, start, len);
                match strchr(rest_slice, 0) {
                    None => {
                        proof {
                            lemma_first_zero_none(rest);
                        }
                        Err(DecodeError::UnterminatedString)
                    },
                    Some(term) => {
                        proof {
                            lemma_first_zero_at(rest, term as int);
                        }
                        let content_slice = slice_subrange(buf, start, start + term);
                        proof {
                            assert(content_slice@ =~= rest.take(term as int));
                        }
                        if !check_utf8(content_slice) {
                            return Err(DecodeError::InvalidUtf8);
                        }
                        let consumed = term + 1;
                        let pad = if consumed % 4 == 0 {
                            0
                        } else {
                            4 - consumed % 4
                        };
                        proof {
                            assert(pad == pad_len(term as int + 1));
                        }
                        if pad > len - start - consumed {
                            return Err(DecodeError::BufferTooShort);
                        }
                        let content = slice_to_vec(content_slice);
                        *pos = start + consumed + pad;
                        Ok(Argument::Str(content))
                    },
                }
            },
            _ => Err(DecodeError::UnknownTag),
        }
    }

    /// Builds a `Str` argument from `bytes` if they are valid UTF-8, and
    /// reports `InvalidUtf8` otherwise.
    pub fn str_from_bytes(bytes: Vec<u8>) -> (r: Result<Argument, DecodeError>)
        ensures
            valid_utf8(bytes@) ==> (r matches Ok(v) && v@ == ArgValue::Str(bytes@)),
            !valid_utf8(bytes@) ==> (r matches Err(e) && e == DecodeError::InvalidUtf8),
    {
        if check_utf8(bytes.as_slice()) {
            Ok(Argument::Str(bytes))
        } else {
            Err(DecodeError::InvalidUtf8)
        }
    }

    /// Builds a `Str` argument holding the UTF-8 bytes of `text`.
    pub fn from_text(text: &str) -> (r: Argument)
        ensures
            r@ == ArgValue::Str(text.spec_bytes()),
            wf(r@),
    {
        proof {
            vstd::utf8::encode_utf8_valid_utf8(text@);
        }
        Argument::Str(slice_to_vec(text.as_bytes()))
    }
}

impl From<bool> for Argument {
    /// `true` maps to `True`, `false` to `False`.
    fn from(b: bool) -> (r: Argument) {
        if b {
            Argument::True
        } else {
            Argument::False
        }
    }
}

impl vstd::std_specs::convert::FromSpecImpl<bool> for Argument {
    open spec fn obeys_from_spec() -> bool {
        true
    }

    open spec fn from_spec(b: bool) -> Argument {
        if b {
            Argument::True
        } else {
            Argument::False
        }
    }
}

impl From<i32> for Argument {
    fn from(n: i32) -> (r: Argument) {
        Argument::Int32(n)
    }
}

impl vstd::std_specs::convert::FromSpecImpl<i32> for Argument {
    open spec fn obeys_from_spec() -> bool {
        true
    }

    open spec fn from_spec(n: i32) -> Argument {
        Argument::Int32(n)
    }
}

} // verus!

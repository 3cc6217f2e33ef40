//! A verified UTF-8 validity check.
//!
//! `check_utf8` decides vstd's `valid_utf8` for a byte slice: one pass that
//! classifies each leading byte, checks its continuation bytes, and rejects
//! overlong encodings and surrogate codepoints.

use vstd::prelude::*;
use vstd::utf8::{
    codepoint_width_2, codepoint_width_3, codepoint_width_4, valid_first_scalar, valid_utf8,
};

verus! {

/// Validity of a byte sequence splits at a valid first scalar of `w` bytes.
proof fn lemma_valid_utf8_step(s: Seq<u8>, w: int)
    requires
        valid_first_scalar(s),
        vstd::utf8::length_of_first_scalar(s) == w,
    ensures
        0 < w <= s.len(),
        valid_utf8(s) == valid_utf8(s.subrange(w, s.len() as int)),
{
}

/// Returns whether `s` is a valid UTF-8 encoding.
pub fn check_utf8(s: &[u8]) -> (r: bool)
    ensures
        r == valid_utf8(s@),
{
    let n = s.len();
    let mut i: usize = 0;
    proof {
        assert(s@.skip(0) =~= s@);
    }
    while i < n
        invariant
            i <= n,
            n == s@.len(),
            valid_utf8(s@) == valid_utf8(s@.skip(i as int)),
        decreases n - i,
    {
        let ghost suf = s@.skip(i as int);
        proof {
            assert(forall|j: int| 0 <= j < suf.len() ==> suf[j] == s@[i + j]);
        }
        let b0 = s[i];
        if b0 <= 0x7F {
            proof {
                assert(b0 & 0x7F <= 0x7F) by (bit_vector);
                assert(valid_first_scalar(suf));
                lemma_valid_utf8_step(suf, 1);
                assert(suf.subrange(1, suf.len() as int) =~= s@.skip(i as int + 1));
            }
            i = i + 1;
        } else if b0 >= 0xC0 && b0 <= 0xDF {
            if n - i < 2 {
                proof {
                    assert(!valid_first_scalar(suf));
                    assert(!valid_utf8(suf));
                }
                return false;
            }
            let b1 = s[i + 1];
            if !(b1 >= 0x80 && b1 <= 0xBF) {
                proof {
                    assert(!valid_first_scalar(suf));
                    assert(!valid_utf8(suf));
                }
                return false;
            }
            let cp: u32 = (((b0 & 0x1F) as u32) << 6) | ((b1 & 0x3F) as u32);
            proof {
                assert(cp == codepoint_width_2(b0, b1));
            }
            if cp < 0x80 {
                // overlong: two bytes spent on a codepoint that fits in one
                proof {
                    assert(!valid_first_scalar(suf));
                    assert(!valid_utf8(suf));
                }
                return false;
            }
            proof {
                assert((((b0 & 0x1F) as u32) << 6) | ((b1 & 0x3F) as u32) < 0x800) by (bit_vector);
                assert(valid_first_scalar(suf));
                lemma_valid_utf8_step(suf, 2);
                assert(suf.subrange(2, suf.len() as int) =~= s@.skip(i as int + 2));
            }
            i = i + 2;
        } else if b0 >= 0xE0 && b0 <= 0xEF {
            if n - i < 3 {
                proof {
                    assert(!valid_first_scalar(suf));
                    assert(!valid_utf8(suf));
                }
                return false;
            }
            let b1 = s[i + 1];
            let b2 = s[i + 2];
            if !(b1 >= 0x80 && b1 <= 0xBF) || !(b2 >= 0x80 && b2 <= 0xBF) {
                proof {
                    assert(!valid_first_scalar(suf));
                    assert(!valid_utf8(suf));
                }
                return false;
            }
            let cp: u32 = (((b0 & 0x0F) as u32) << 12) | (((b1 & 0x3F) as u32) << 6) | ((b2
                & 0x3F) as u32);
            proof {
                assert(cp == codepoint_width_3(b0, b1, b2));
            }
            if cp < 0x800 {
                // overlong: three bytes spent on a codepoint that fits in two
                proof {
                    assert(!valid_first_scalar(suf));
                    assert(!valid_utf8(suf));
                }
                return false;
            }
            if cp >= 0xD800 && cp <= 0xDFFF {
                // surrogate codepoints are not Unicode scalars
                proof {
                    assert(!valid_first_scalar(suf));
                    assert(!valid_utf8(suf));
                }
                return false;
            }
            proof {
                assert(valid_first_scalar(suf));
                lemma_valid_utf8_step(suf, 3);
                assert(suf.subrange(3, suf.len() as int) =~= s@.skip(i as int + 3));
            }
            i = i + 3;
        } else if b0 >= 0xF0 && b0 <= 0xF7 {
            if n - i < 4 {
                proof {
                    assert(!valid_first_scalar(suf));
                    assert(!valid_utf8(suf));
                }
                return false;
            }
            let b1 = s[i + 1];
            let b2 = s[i + 2];
            let b3 = s[i + 3];
            if !(b1 >= 0x80 && b1 <= 0xBF) || !(b2 >= 0x80 && b2 <= 0xBF) || !(b3 >= 0x80 && b3
                <= 0xBF) {
                proof {
                    assert(!valid_first_scalar(suf));
                    assert(!valid_utf8(suf));
                }
                return false;
            }
            let cp: u32 = (((b0 & 0x07) as u32) << 18) | (((b1 & 0x3F) as u32) << 12) | (((b2
                & 0x3F) as u32) << 6) | ((b3 & 0x3F) as u32);
            proof {
                assert(cp == codepoint_width_4(b0, b1, b2, b3));
            }
            if cp < 0x10000 || cp > 0x10FFFF {
                // overlong, or beyond the last Unicode codepoint
                proof {
                    assert(!valid_first_scalar(suf));
                    assert(!valid_utf8(suf));
                }
                return false;
            }
            proof {
                assert(valid_first_scalar(suf));
                lemma_valid_utf8_step(suf, 4);
                assert(suf.subrange(4, suf.len() as int) =~= s@.skip(i as int + 4));
            }
            i = i + 4;
        } else {
            // a stray continuation byte (0x80-0xBF) or an impossible leading
            // byte (0xF8-0xFF)
            proof {
                assert(!valid_first_scalar(suf));
                assert(!valid_utf8(suf));
            }
            return false;
        }
    }
    proof {
        assert(s@.skip(n as int).len() == 0);
        assert(valid_utf8(s@.skip(n as int)));
    }
    true
}

} // verus!

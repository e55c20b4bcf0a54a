//! Well-formedness of inbound text. The decoder must reject byte buffers
//! that are not valid UTF-8 before it looks at the grammar, so validity is
//! stated here as a spec predicate and checked by a verified scanner.

use vstd::prelude::*;

verus! {

/// A continuation byte of a multi-byte sequence.
pub open spec fn is_cont(b: u8) -> bool {
    0x80 <= b && b <= 0xbf
}

/// The suffix `s[i..]` is a well-formed UTF-8 byte sequence. The branches
/// follow the shortest-form encoding: overlong forms, surrogates and code
/// points above U+10FFFF are all excluded.
pub open spec fn is_utf8_from(s: Seq<u8>, i: int) -> bool
    decreases s.len() - i,
{
    if i < 0 || i >= s.len() {
        true
    } else {
        let b0 = s[i];
        if b0 < 0x80 {
            is_utf8_from(s, i + 1)
        } else if 0xc2 <= b0 && b0 <= 0xdf {
            i + 1 < s.len() && is_cont(s[i + 1]) && is_utf8_from(s, i + 2)
        } else if b0 == 0xe0 {
            i + 2 < s.len() && 0xa0 <= s[i + 1] && s[i + 1] <= 0xbf && is_cont(s[i + 2])
                && is_utf8_from(s, i + 3)
        } else if b0 == 0xed {
            i + 2 < s.len() && 0x80 <= s[i + 1] && s[i + 1] <= 0x9f && is_cont(s[i + 2])
                && is_utf8_from(s, i + 3)
        } else if 0xe1 <= b0 && b0 <= 0xef {
            i + 2 < s.len() && is_cont(s[i + 1]) && is_cont(s[i + 2])
                && is_utf8_from(s, i + 3)
        } else if b0 == 0xf0 {
            i + 3 < s.len() && 0x90 <= s[i + 1] && s[i + 1] <= 0xbf && is_cont(s[i + 2])
                && is_cont(s[i + 3]) && is_utf8_from(s, i + 4)
        } else if 0xf1 <= b0 && b0 <= 0xf3 {
            i + 3 < s.len() && is_cont(s[i + 1]) && is_cont(s[i + 2]) && is_cont(s[i + 3])
                && is_utf8_from(s, i + 4)
        } else if b0 == 0xf4 {
            i + 3 < s.len() && 0x80 <= s[i + 1] && s[i + 1] <= 0x8f && is_cont(s[i + 2])
                && is_cont(s[i + 3]) && is_utf8_from(s, i + 4)
        } else {
            false
        }
    }
}

/// The whole buffer is well-formed UTF-8.
pub open spec fn is_utf8(s: Seq<u8>) -> bool {
    is_utf8_from(s, 0)
}

fn cont(b: u8) -> (r: bool)
    ensures
        r == is_cont(b),
{
    0x80 <= b && b <= 0xbf
}

/// Decide whether the buffer holds well-formed UTF-8 text.
pub fn validate_utf8(buf: &Vec<u8>) -> (r: bool)
    ensures
        r == is_utf8(buf@),
{
    let n = buf.len();
    let mut i: usize = 0;
    while i < n
        invariant
            n == buf@.len(),
            i <= n,
            is_utf8(buf@) == is_utf8_from(buf@, i as int),
        decreases n - i,
    {
        let b0 = buf[i];
        if b0 < 0x80 {
            i = i + 1;
        } else if 0xc2 <= b0 && b0 <= 0xdf {
            if !(n - i >= 2 && cont(buf[i + 1])) {
                return false;
            }
            i = i + 2;
        } else if b0 == 0xe0 {
            if !(n - i >= 3 && 0xa0 <= buf[i + 1] && buf[i + 1] <= 0xbf && cont(buf[i + 2])) {
                return false;
            }
            i = i + 3;
        } else if b0 == 0xed {
            if !(n - i >= 3 && 0x80 <= buf[i + 1] && buf[i + 1] <= 0x9f && cont(buf[i + 2])) {
                return false;
            }
            i = i + 3;
        } else if 0xe1 <= b0 && b0 <= 0xef {
            if !(n - i >= 3 && cont(buf[i + 1]) && cont(buf[i + 2])) {
                return false;
            }
            i = i + 3;
        } else if b0 == 0xf0 {
            if !(n - i >= 4 && 0x90 <= buf[i + 1] && buf[i + 1] <= 0xbf && cont(buf[i + 2])
                && cont(buf[i + 3])) {
                return false;
            }
            i = i + 4;
        } else if 0xf1 <= b0 && b0 <= 0xf3 {
            if !(n - i >= 4 && cont(buf[i + 1]) && cont(buf[i + 2]) && cont(buf[i + 3])) {
                return false;
            }
            i = i + 4;
        } else if b0 == 0xf4 {
            if !(n - i >= 4 && 0x80 <= buf[i + 1] && buf[i + 1] <= 0x8f && cont(buf[i + 2])
                && cont(buf[i + 3])) {
                return false;
            }
            i = i + 4;
        } else {
            return false;
        }
    }
    true
}

} // verus!

//! The marshaling codec: a `World` travels as the UTF-8 bytes of a JSON
//! object with one numeric field, `{"size":N}`. The wire grammar is stated
//! here as spec functions; the executable encoder and decoder are proved
//! against them.

use vstd::prelude::*;
use crate::world::World;
use crate::channel::BridgeError;
use crate::utf8::{is_utf8, validate_utf8};

verus! {

/// JSON insignificant whitespace.
pub open spec fn is_ws(b: u8) -> bool {
    b == 0x20 || b == 0x09 || b == 0x0a || b == 0x0d
}

/// An ASCII decimal digit.
pub open spec fn is_digit(b: u8) -> bool {
    0x30 <= b && b <= 0x39
}

/// First index at or after `i` that does not hold whitespace.
pub open spec fn ws_end(s: Seq<u8>, i: int) -> int
    decreases s.len() - i,
{
    if 0 <= i && i < s.len() && is_ws(s[i]) {
        ws_end(s, i + 1)
    } else {
        i
    }
}

/// First index at or after `i` that does not hold a digit.
pub open spec fn digits_end(s: Seq<u8>, i: int) -> int
    decreases s.len() - i,
{
    if 0 <= i && i < s.len() && is_digit(s[i]) {
        digits_end(s, i + 1)
    } else {
        i
    }
}

/// Numeric value of the digit run `s[i..j]`.
pub open spec fn digits_val(s: Seq<u8>, i: int, j: int) -> int
    decreases j - i,
{
    if i < j {
        digits_val(s, i, j - 1) * 10 + (s[j - 1] - 0x30)
    } else {
        0
    }
}

/// The member key `"size"`, quotes included, starting at index `i`.
pub open spec fn key_at(s: Seq<u8>, i: int) -> bool {
    &&& i + 6 <= s.len()
    &&& s[i] == 0x22
    &&& s[i + 1] == 0x73
    &&& s[i + 2] == 0x69
    &&& s[i + 3] == 0x7a
    &&& s[i + 4] == 0x65
    &&& s[i + 5] == 0x22
}

/// The wire grammar: optional whitespace around `{`, the `"size"` key, `:`,
/// an unsigned decimal number without leading zeros that fits in `usize`,
/// and `}`, with nothing after the closing brace. A text of this shape
/// denotes exactly one `World`; every other text denotes none.
pub open spec fn parse_world(s: Seq<u8>) -> Option<World> {
    let i0 = ws_end(s, 0);
    if !(i0 < s.len() && s[i0] == 0x7b) {
        None
    } else {
        let i1 = ws_end(s, i0 + 1);
        if !key_at(s, i1) {
            None
        } else {
            let i2 = ws_end(s, i1 + 6);
            if !(i2 < s.len() && s[i2] == 0x3a) {
                None
            } else {
                let i3 = ws_end(s, i2 + 1);
                let j = digits_end(s, i3);
                if !(i3 < j) {
                    None
                } else if s[i3] == 0x30 && j != i3 + 1 {
                    None
                } else if digits_val(s, i3, j) > usize::MAX {
                    None
                } else {
                    let i4 = ws_end(s, j);
                    if !(i4 < s.len() && s[i4] == 0x7d && ws_end(s, i4 + 1) == s.len()) {
                        None
                    } else {
                        Some(World { size: digits_val(s, i3, j) as usize })
                    }
                }
            }
        }
    }
}

/// Decimal digits of `n`, most significant first, no leading zeros.
pub open spec fn digits_of(n: nat) -> Seq<u8>
    decreases n,
{
    if n < 10 {
        seq![(0x30 + n) as u8]
    } else {
        digits_of(n / 10) + seq![(0x30 + n % 10) as u8]
    }
}

/// The one encoding this system emits for a `World`: `{"size":N}`.
pub open spec fn encoding_of(w: World) -> Seq<u8> {
    seq![0x7bu8, 0x22u8, 0x73u8, 0x69u8, 0x7au8, 0x65u8, 0x22u8, 0x3au8]
        + digits_of(w.size as nat) + seq![0x7du8]
}

/// Append the decimal digits of `n` to `out`.
fn push_digits(out: &mut Vec<u8>, n: usize)
    ensures
        final(out)@ == old(out)@ + digits_of(n as nat),
    decreases n,
{
    if n < 10 {
        out.push((0x30 + n) as u8);
        assert(out@ =~= old(out)@ + digits_of(n as nat));
    } else {
        push_digits(out, n / 10);
        out.push((0x30 + n % 10) as u8);
        assert(out@ =~= old(out)@ + digits_of(n as nat));
    }
}

/// Serialize a `World` into a fresh outbound buffer holding its JSON
/// encoding. The buffer's ownership passes to the caller.
pub fn encode(w: &World) -> (r: Vec<u8>)
    ensures
        r@ == encoding_of(*w),
{
    let mut r: Vec<u8> = Vec::new();
    r.push(0x7b);
    r.push(0x22);
    r.push(0x73);
    r.push(0x69);
    r.push(0x7a);
    r.push(0x65);
    r.push(0x22);
    r.push(0x3a);
    push_digits(&mut r, w.size);
    r.push(0x7d);
    proof {
        assert(r@ =~= encoding_of(*w));
    }
    r
}

fn ws_byte(b: u8) -> (r: bool)
    ensures
        r == is_ws(b),
{
    b == 0x20 || b == 0x09 || b == 0x0a || b == 0x0d
}

fn digit_byte(b: u8) -> (r: bool)
    ensures
        r == is_digit(b),
{
    0x30 <= b && b <= 0x39
}

/// Scan past whitespace, starting at `i`.
fn scan_ws(buf: &Vec<u8>, i: usize) -> (r: usize)
    requires
        i <= buf@.len(),
    ensures
        r as int == ws_end(buf@, i as int),
        i <= r && r <= buf@.len(),
{
    let n = buf.len();
    let mut j: usize = i;
    while j < n && ws_byte(buf[j])
        invariant
            i <= j && j <= n,
            n == buf@.len(),
            ws_end(buf@, i as int) == ws_end(buf@, j as int),
        decreases n - j,
    {
        j = j + 1;
    }
    j
}

/// Scan past decimal digits, starting at `i`.
fn scan_digits(buf: &Vec<u8>, i: usize) -> (r: usize)
    requires
        i <= buf@.len(),
    ensures
        r as int == digits_end(buf@, i as int),
        i <= r && r <= buf@.len(),
        forall|k: int| i <= k < r ==> is_digit(#[trigger] buf@[k]),
    {
    let n = buf.len();
    let mut j: usize = i;
    while j < n && digit_byte(buf[j])
        invariant
            i <= j && j <= n,
            n == buf@.len(),
            digits_end(buf@, i as int) == digits_end(buf@, j as int),
            forall|k: int| i <= k < j ==> is_digit(#[trigger] buf@[k]),
        decreases n - j,
    {
        j = j + 1;
    }
    j
}

proof fn lemma_digits_val_nonneg(s: Seq<u8>, i: int, j: int)
    requires
        i <= j,
        forall|k: int| i <= k < j ==> is_digit(#[trigger] s[k]),
    ensures
        digits_val(s, i, j) >= 0,
    decreases j - i,
{
    if i < j {
        lemma_digits_val_nonneg(s, i, j - 1);
    }
}

/// A digit run's value never shrinks as the run extends to the right.
proof fn lemma_digits_val_monotone(s: Seq<u8>, i: int, a: int, b: int)
    requires
        i <= a && a <= b,
        forall|k: int| i <= k < b ==> is_digit(#[trigger] s[k]),
    ensures
        digits_val(s, i, a) <= digits_val(s, i, b),
    decreases b - a,
{
    if a < b {
        lemma_digits_val_monotone(s, i, a, b - 1);
        lemma_digits_val_nonneg(s, i, b - 1);
    }
}

/// Evaluate the digit run `buf[i..j]`, reporting a value too large for
/// `usize` instead of wrapping.
fn digits_value(buf: &Vec<u8>, i: usize, j: usize) -> (r: Option<usize>)
    requires
        i <= j && j <= buf@.len(),
        forall|k: int| i <= k < j ==> is_digit(#[trigger] buf@[k]),
    ensures
        match r {
            Some(v) => v as int == digits_val(buf@, i as int, j as int),
            None => digits_val(buf@, i as int, j as int) > usize::MAX,
        },
{
    let mut acc: usize = 0;
    let mut k: usize = i;
    while k < j
        invariant
            i <= k && k <= j,
            j <= buf@.len(),
            forall|t: int| i <= t < j ==> is_digit(#[trigger] buf@[t]),
            acc as int == digits_val(buf@, i as int, k as int),
        decreases j - k,
    {
        assert(is_digit(buf@[k as int]));
        let d = buf[k] - 0x30;
        let overflowed: bool = match acc.checked_mul(10) {
            Some(m) => match m.checked_add(d as usize) {
                Some(next) => {
                    acc = next;
                    false
                },
                None => true,
            },
            None => true,
        };
        if overflowed {
            proof {
                lemma_digits_val_monotone(buf@, i as int, k + 1, j as int);
            }
            return None;
        }
        k = k + 1;
    }
    Some(acc)
}

/// Parse a buffer against the wire grammar.
pub fn parse(buf: &Vec<u8>) -> (r: Option<World>)
    ensures
        r == parse_world(buf@),
{
    let n = buf.len();
    let i0 = scan_ws(buf, 0);
    if !(i0 < n && buf[i0] == 0x7b) {
        return None;
    }
    let i1 = scan_ws(buf, i0 + 1);
    if !(n - i1 >= 6 && buf[i1] == 0x22 && buf[i1 + 1] == 0x73 && buf[i1 + 2] == 0x69
        && buf[i1 + 3] == 0x7a && buf[i1 + 4] == 0x65 && buf[i1 + 5] == 0x22) {
        return None;
    }
    let i2 = scan_ws(buf, i1 + 6);
    if !(i2 < n && buf[i2] == 0x3a) {
        return None;
    }
    let i3 = scan_ws(buf, i2 + 1);
    let j = scan_digits(buf, i3);
    if !(i3 < j) {
        return None;
    }
    if buf[i3] == 0x30 && j != i3 + 1 {
        return None;
    }
    let v = match digits_value(buf, i3, j) {
        Some(v) => v,
        None => {
            return None;
        },
    };
    let i4 = scan_ws(buf, j);
    if !(i4 < n && buf[i4] == 0x7d) {
        return None;
    }
    if scan_ws(buf, i4 + 1) != n {
        return None;
    }
    Some(World { size: v })
}

/// Decode an inbound buffer into a `World`. The buffer is taken by value:
/// ownership moves into this call and the buffer is gone afterwards, whether
/// or not decoding succeeds, so a caller can never reuse or re-free it.
pub fn decode(buf: Vec<u8>) -> (r: Result<World, BridgeError>)
    ensures
        (r is Ok) == (parse_world(buf@) is Some),
        r matches Ok(w) ==> parse_world(buf@) == Some(w),
        r matches Err(e) ==> e == (if is_utf8(buf@) {
            BridgeError::Schema
        } else {
            BridgeError::Decode
        }),
{
    match parse(&buf) {
        Some(w) => Ok(w),
        None => {
            if validate_utf8(&buf) {
                Err(BridgeError::Schema)
            } else {
                Err(BridgeError::Decode)
            }
        },
    }
}

/// A terminator byte somewhere in the buffer.
pub open spec fn contains_nul(s: Seq<u8>) -> bool {
    exists|k: int| 0 <= k < s.len() && s[k] == 0
}

proof fn lemma_digits_of_wf(n: nat)
    ensures
        digits_of(n).len() >= 1,
        forall|k: int| 0 <= k < digits_of(n).len() ==> is_digit(#[trigger] digits_of(n)[k]),
        (digits_of(n)[0] == 0x30) == (n == 0),
    decreases n,
{
    if n >= 10 {
        lemma_digits_of_wf(n / 10);
    }
}

proof fn lemma_digits_end_run(s: Seq<u8>, i: int, j: int)
    requires
        0 <= i && i <= j && j <= s.len(),
        forall|k: int| i <= k < j ==> is_digit(#[trigger] s[k]),
        j == s.len() || !is_digit(s[j]),
    ensures
        digits_end(s, i) == j,
    decreases j - i,
{
    if i < j {
        lemma_digits_end_run(s, i + 1, j);
    }
}

proof fn lemma_digits_val_of_digits(s: Seq<u8>, i: int, n: nat)
    requires
        0 <= i,
        i + digits_of(n).len() <= s.len(),
        s.subrange(i, i + digits_of(n).len() as int) == digits_of(n),
    ensures
        digits_val(s, i, i + digits_of(n).len() as int) == n,
    decreases n,
{
    let d = digits_of(n);
    let l = d.len() as int;
    if n < 10 {
        assert(s[i] == s.subrange(i, i + 1)[0]);
        assert(digits_val(s, i, i) == 0);
        assert(digits_val(s, i, i + 1) == digits_val(s, i, i) * 10 + (s[i] - 0x30));
    } else {
        let d1 = digits_of(n / 10);
        let l1 = d1.len() as int;
        assert(l == l1 + 1);
        assert forall|k: int| 0 <= k < l1 implies s.subrange(i, i + l1)[k] == d1[k] by {
            assert(s.subrange(i, i + l)[k] == d[k]);
        }
        assert(s.subrange(i, i + l1) =~= d1);
        lemma_digits_val_of_digits(s, i, n / 10);
        assert(s[i + l - 1] == s.subrange(i, i + l)[l - 1]);
        assert(s[i + l - 1] == 0x30 + n % 10);
        assert(digits_val(s, i, i + l) == (n / 10) * 10 + n % 10);
        assert((n / 10) * 10 + n % 10 == n) by {
            vstd::arithmetic::div_mod::lemma_fundamental_div_mod(n as int, 10);
        }
    }
}

/// Round trip: the encoding of every payload value parses back to exactly
/// that value.
pub proof fn lemma_round_trip(w: World)
    ensures
        parse_world(encoding_of(w)) == Some(w),
{
    let s = encoding_of(w);
    let n = w.size as nat;
    let d = digits_of(n);
    let l = d.len() as int;
    lemma_digits_of_wf(n);
    assert(s.len() == 9 + l);
    assert(s[0] == 0x7b);
    assert(s[1] == 0x22);
    assert(s[2] == 0x73);
    assert(s[3] == 0x69);
    assert(s[4] == 0x7a);
    assert(s[5] == 0x65);
    assert(s[6] == 0x22);
    assert(s[7] == 0x3a);
    assert(forall|k: int| 8 <= k < 8 + l ==> #[trigger] s[k] == d[k - 8]);
    assert(s[8 + l] == 0x7d);
    assert(ws_end(s, 0) == 0);
    assert(ws_end(s, 1) == 1);
    assert(key_at(s, 1));
    assert(ws_end(s, 7) == 7);
    assert(is_digit(s[8]));
    assert(ws_end(s, 8) == 8);
    assert(forall|k: int| 8 <= k < 8 + l ==> is_digit(#[trigger] s[k]));
    lemma_digits_end_run(s, 8, 8 + l);
    assert(s.subrange(8, 8 + l) =~= d);
    lemma_digits_val_of_digits(s, 8, n);
    assert(digits_val(s, 8, 8 + l) == n);
    assert(ws_end(s, 8 + l) == 8 + l);
    assert(ws_end(s, 9 + l) == 9 + l);
    assert((s[8] == 0x30) == (n == 0));
    assert(n == 0 ==> l == 1);
    assert(parse_world(s) == Some(w));
}

/// The encoding this system emits never holds a terminator byte, so it can
/// always be carried by a null-terminated buffer.
pub proof fn lemma_encoding_no_nul(w: World)
    ensures
        !contains_nul(encoding_of(w)),
{
    let s = encoding_of(w);
    let n = w.size as nat;
    let d = digits_of(n);
    let l = d.len() as int;
    lemma_digits_of_wf(n);
    assert forall|k: int| 0 <= k < s.len() implies s[k] != 0 by {
        if 8 <= k < 8 + l {
            assert(s[k] == d[k - 8]);
            assert(is_digit(d[k - 8]));
        }
    }
}

} // verus!

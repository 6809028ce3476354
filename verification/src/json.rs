//! Byte-level parsing primitives for the JSON-shaped texts the pipeline
//! reads: archive entries and response envelopes.
//!
//! Every parser comes in two forms: a `spec` function that defines the
//! grammar as a mathematical function of the byte sequence, and an
//! executable function proved to return exactly what the `spec` form says.
//! Positions are byte indices; a parser returns the decoded value together
//! with the index just past the bytes it consumed.

use vstd::prelude::*;

verus! {

pub const QUOTE: u8 = 0x22;
pub const BACKSLASH: u8 = 0x5C;
pub const LBRACE: u8 = 0x7B;
pub const RBRACE: u8 = 0x7D;
pub const LBRACKET: u8 = 0x5B;
pub const RBRACKET: u8 = 0x5D;
pub const COMMA: u8 = 0x2C;
pub const COLON: u8 = 0x3A;

/// Insignificant whitespace between JSON tokens.
pub open spec fn is_json_ws(b: u8) -> bool {
    b == 0x20 || b == 0x09 || b == 0x0A || b == 0x0D
}

/// Index of the first byte at or after `i` that is not JSON whitespace.
pub open spec fn spec_skip_ws(s: Seq<u8>, i: int) -> int
    decreases s.len() - i,
{
    if 0 <= i < s.len() && is_json_ws(s[i]) {
        spec_skip_ws(s, i + 1)
    } else {
        i
    }
}

pub proof fn lemma_skip_ws_bounds(s: Seq<u8>, i: int)
    requires
        0 <= i <= s.len(),
    ensures
        i <= spec_skip_ws(s, i) <= s.len(),
        spec_skip_ws(s, i) < s.len() ==> !is_json_ws(s[spec_skip_ws(s, i)]),
    decreases s.len() - i,
{
    if i < s.len() && is_json_ws(s[i]) {
        lemma_skip_ws_bounds(s, i + 1);
    }
}

/// First non-whitespace byte at or after `i`, with the index just past it;
/// `None` when only whitespace remains.
pub open spec fn spec_next_token(s: Seq<u8>, i: int) -> Option<(u8, int)> {
    let j = spec_skip_ws(s, i);
    if j < s.len() {
        Some((s[j], j + 1))
    } else {
        None
    }
}

/// Skips insignificant whitespace, starting at `i`.
pub fn skip_ws(s: &[u8], i: usize) -> (r: usize)
    requires
        i <= s@.len(),
    ensures
        r == spec_skip_ws(s@, i as int),
        i <= r <= s@.len(),
        r < s@.len() ==> !is_json_ws(s@[r as int]),
    decreases s@.len() - i,
{
    proof {
        lemma_skip_ws_bounds(s@, i as int);
    }
    if i < s.len() {
        let b = s[i];
        if b == 0x20 || b == 0x09 || b == 0x0A || b == 0x0D {
            return skip_ws(s, i + 1);
        }
    }
    i
}

/// Reads the next byte that is not JSON whitespace, returning it with the
/// index just past it; `None` when the input ends first.
pub fn read_skipping_ws(s: &[u8], i: usize) -> (r: Option<(u8, usize)>)
    requires
        i <= s@.len(),
    ensures
        match spec_next_token(s@, i as int) {
            Some((b, j)) => r == Some((b, j as usize)),
            None => r is None,
        },
{
    let j = skip_ws(s, i);
    if j < s.len() {
        Some((s[j], j + 1))
    } else {
        None
    }
}

// ------------------------------------------------------------------
// Decimal digit strings
// ------------------------------------------------------------------

pub open spec fn is_digit(b: u8) -> bool {
    0x30 <= b <= 0x39
}

pub open spec fn all_digits(s: Seq<u8>) -> bool {
    forall|k: int| 0 <= k < s.len() ==> is_digit(s[k])
}

/// Numeric value of a digit string, most significant digit first.
pub open spec fn digits_value(s: Seq<u8>) -> int
    decreases s.len(),
{
    if s.len() == 0 {
        0
    } else {
        digits_value(s.drop_last()) * 10 + (s.last() - 0x30)
    }
}

pub proof fn lemma_digits_value_nonneg(s: Seq<u8>)
    requires
        all_digits(s),
    ensures
        digits_value(s) >= 0,
    decreases s.len(),
{
    if s.len() > 0 {
        assert(all_digits(s.drop_last()));
        lemma_digits_value_nonneg(s.drop_last());
    }
}

/// Extending a digit string on the right never decreases its value.
pub proof fn lemma_digits_value_prefix(s: Seq<u8>, k: int)
    requires
        all_digits(s),
        0 <= k <= s.len(),
    ensures
        digits_value(s.take(k)) <= digits_value(s),
    decreases s.len() - k,
{
    if k < s.len() {
        lemma_digits_value_prefix(s, k + 1);
        let t = s.take(k + 1);
        assert(t.drop_last() =~= s.take(k));
        assert(all_digits(s.take(k)));
        lemma_digits_value_nonneg(s.take(k));
        assert(digits_value(t) == digits_value(s.take(k)) * 10 + (s[k] - 0x30));
    } else {
        assert(s.take(k) =~= s);
    }
}

/// The value of a non-empty all-digit byte string, when it fits in a `u64`.
/// Anything else — empty, a stray byte, or a value past `u64::MAX` — is
/// rejected.
pub open spec fn spec_parse_u64(s: Seq<u8>) -> Option<u64> {
    if s.len() > 0 && all_digits(s) && digits_value(s) <= u64::MAX {
        Some(digits_value(s) as u64)
    } else {
        None
    }
}

/// Decodes a decimal digit string into a `u64`.
pub fn u64_from_digits(s: &[u8]) -> (r: Option<u64>)
    ensures
        r == spec_parse_u64(s@),
{
    if s.len() == 0 {
        return None;
    }
    let mut acc: u64 = 0;
    let mut i: usize = 0;
    while i < s.len()
        invariant
            0 <= i <= s@.len(),
            all_digits(s@.take(i as int)),
            acc == digits_value(s@.take(i as int)),
        decreases s@.len() - i,
    {
        let b = s[i];
        if b < 0x30 || b > 0x39 {
            assert(!all_digits(s@));
            return None;
        }
        let d: u64 = (b - 0x30) as u64;
        proof {
            assert(s@.take(i + 1).drop_last() =~= s@.take(i as int));
            assert(all_digits(s@.take(i + 1)));
        }
        if acc > (u64::MAX - d) / 10 {
            proof {
                let hi = u64::MAX - d;
                assert(10 * (hi / 10) + (hi % 10) == hi);
                assert(acc * 10 + d > u64::MAX);
                if all_digits(s@) {
                    lemma_digits_value_prefix(s@, i + 1);
                    assert(digits_value(s@) > u64::MAX);
                }
            }
            return None;
        }
        proof {
            let hi = u64::MAX - d;
            assert(10 * (hi / 10) + (hi % 10) == hi);
            assert(acc * 10 + d <= u64::MAX);
        }
        acc = acc * 10 + d;
        i += 1;
    }
    proof {
        assert(s@.take(i as int) =~= s@);
    }
    Some(acc)
}

// ------------------------------------------------------------------
// Hexadecimal escapes
// ------------------------------------------------------------------

/// Value of one hexadecimal digit byte.
pub open spec fn spec_hex_val(b: u8) -> Option<u32> {
    if 0x30 <= b <= 0x39 {
        Some((b - 0x30) as u32)
    } else if 0x61 <= b <= 0x66 {
        Some((b - 0x61 + 10) as u32)
    } else if 0x41 <= b <= 0x46 {
        Some((b - 0x41 + 10) as u32)
    } else {
        None
    }
}

/// Value of the four hexadecimal digit bytes at `i`.
pub open spec fn spec_hex4(s: Seq<u8>, i: int) -> Option<u32> {
    if 0 <= i && i + 4 <= s.len() {
        match (spec_hex_val(s[i]), spec_hex_val(s[i + 1]), spec_hex_val(s[i + 2]), spec_hex_val(
            s[i + 3],
        )) {
            (Some(a), Some(b), Some(c), Some(d)) => Some(
                (a * 0x1000 + b * 0x100 + c * 0x10 + d) as u32,
            ),
            _ => None,
        }
    } else {
        None
    }
}

pub fn hex_val(b: u8) -> (r: Option<u32>)
    ensures
        r == spec_hex_val(b),
{
    if 0x30 <= b && b <= 0x39 {
        Some((b - 0x30) as u32)
    } else if 0x61 <= b && b <= 0x66 {
        Some((b - 0x61 + 10) as u32)
    } else if 0x41 <= b && b <= 0x46 {
        Some((b - 0x41 + 10) as u32)
    } else {
        None
    }
}

fn hex4(s: &[u8], i: usize) -> (r: Option<u32>)
    requires
        i <= s@.len(),
    ensures
        r == spec_hex4(s@, i as int),
        r is Some ==> i + 4 <= s@.len(),
{
    if s.len() - i < 4 {
        return None;
    }
    let a = hex_val(s[i]);
    let b = hex_val(s[i + 1]);
    let c = hex_val(s[i + 2]);
    let d = hex_val(s[i + 3]);
    match (a, b, c, d) {
        (Some(a), Some(b), Some(c), Some(d)) => Some(a * 0x1000 + b * 0x100 + c * 0x10 + d),
        _ => None,
    }
}

// ------------------------------------------------------------------
// JSON strings
// ------------------------------------------------------------------

/// UTF-8 encoding of one Unicode scalar value.
pub open spec fn utf8_encode_codepoint(cp: u32) -> Seq<u8> {
    if cp < 0x80 {
        seq![cp as u8]
    } else if cp < 0x800 {
        seq![(0xC0 + cp / 0x40) as u8, (0x80 + cp % 0x40) as u8]
    } else if cp < 0x10000 {
        seq![
            (0xE0 + cp / 0x1000) as u8,
            (0x80 + (cp / 0x40) % 0x40) as u8,
            (0x80 + cp % 0x40) as u8,
        ]
    } else {
        seq![
            (0xF0 + cp / 0x40000) as u8,
            (0x80 + (cp / 0x1000) % 0x40) as u8,
            (0x80 + (cp / 0x40) % 0x40) as u8,
            (0x80 + cp % 0x40) as u8,
        ]
    }
}

pub open spec fn spec_string_prepend(pre: Seq<u8>, rest: Option<(Seq<u8>, int)>) -> Option<
    (Seq<u8>, int),
> {
    match rest {
        Some((t, j)) => Some((pre + t, j)),
        None => None,
    }
}

/// Content of a JSON string whose opening quote stands just before `i`,
/// unescaped to UTF-8 bytes, together with the index just past the closing
/// quote. Control bytes must be escaped; a lone surrogate escape is
/// rejected; a surrogate pair combines into one code point.
pub open spec fn spec_string_body(s: Seq<u8>, i: int) -> Option<(Seq<u8>, int)>
    decreases s.len() - i,
{
    if !(0 <= i < s.len()) {
        None
    } else if s[i] == QUOTE {
        Some((Seq::empty(), i + 1))
    } else if s[i] == BACKSLASH {
        if i + 1 < s.len() {
            let e = s[i + 1];
            if e == QUOTE || e == BACKSLASH || e == 0x2F {
                spec_string_prepend(seq![e], spec_string_body(s, i + 2))
            } else if e == 0x62 {
                spec_string_prepend(seq![0x08u8], spec_string_body(s, i + 2))
            } else if e == 0x66 {
                spec_string_prepend(seq![0x0Cu8], spec_string_body(s, i + 2))
            } else if e == 0x6E {
                spec_string_prepend(seq![0x0Au8], spec_string_body(s, i + 2))
            } else if e == 0x72 {
                spec_string_prepend(seq![0x0Du8], spec_string_body(s, i + 2))
            } else if e == 0x74 {
                spec_string_prepend(seq![0x09u8], spec_string_body(s, i + 2))
            } else if e == 0x75 {
                match spec_hex4(s, i + 2) {
                    Some(cp) => {
                        if 0xD800 <= cp < 0xDC00 {
                            if i + 8 < s.len() && s[i + 6] == BACKSLASH && s[i + 7] == 0x75 {
                                match spec_hex4(s, i + 8) {
                                    Some(lo) => if 0xDC00 <= lo < 0xE000 {
                                        let combined = (0x10000 + (cp - 0xD800) * 0x400 + (lo
                                            - 0xDC00)) as u32;
                                        spec_string_prepend(
                                            utf8_encode_codepoint(combined),
                                            spec_string_body(s, i + 12),
                                        )
                                    } else {
                                        None
                                    },
                                    None => None,
                                }
                            } else {
                                None
                            }
                        } else if 0xDC00 <= cp < 0xE000 {
                            None
                        } else {
                            spec_string_prepend(
                                utf8_encode_codepoint(cp),
                                spec_string_body(s, i + 6),
                            )
                        }
                    },
                    None => None,
                }
            } else {
                None
            }
        } else {
            None
        }
    } else if s[i] < 0x20 {
        None
    } else {
        spec_string_prepend(seq![s[i]], spec_string_body(s, i + 1))
    }
}

pub proof fn lemma_string_body_bounds(s: Seq<u8>, i: int)
    ensures
        match spec_string_body(s, i) {
            Some((t, j)) => i < j <= s.len(),
            None => true,
        },
    decreases s.len() - i,
{
    if 0 <= i < s.len() {
        if s[i] == QUOTE {
        } else if s[i] == BACKSLASH {
            if i + 1 < s.len() {
                lemma_string_body_bounds(s, i + 2);
                if i + 6 <= s.len() {
                    lemma_string_body_bounds(s, i + 6);
                }
                if i + 12 <= s.len() {
                    lemma_string_body_bounds(s, i + 12);
                }
            }
        } else {
            lemma_string_body_bounds(s, i + 1);
        }
    }
}

/// Appends the UTF-8 encoding of one Unicode scalar value to `out`.
fn push_utf8(out: &mut Vec<u8>, cp: u32)
    requires
        cp < 0x110000,
    ensures
        final(out)@ == old(out)@ + utf8_encode_codepoint(cp),
{
    if cp < 0x80 {
        out.push(cp as u8);
        assert(out@ =~= old(out)@ + utf8_encode_codepoint(cp));
    } else if cp < 0x800 {
        assert(cp / 0x40 < 0x20) by (nonlinear_arith)
            requires
                cp < 0x800,
        ;
        out.push((0xC0 + cp / 0x40) as u8);
        out.push((0x80 + cp % 0x40) as u8);
        assert(out@ =~= old(out)@ + utf8_encode_codepoint(cp));
    } else if cp < 0x10000 {
        assert(cp / 0x1000 < 0x10) by (nonlinear_arith)
            requires
                cp < 0x10000,
        ;
        out.push((0xE0 + cp / 0x1000) as u8);
        out.push((0x80 + (cp / 0x40) % 0x40) as u8);
        out.push((0x80 + cp % 0x40) as u8);
        assert(out@ =~= old(out)@ + utf8_encode_codepoint(cp));
    } else {
        assert(cp / 0x40000 < 0x8) by (nonlinear_arith)
            requires
                cp < 0x110000,
        ;
        out.push((0xF0 + cp / 0x40000) as u8);
        out.push((0x80 + (cp / 0x1000) % 0x40) as u8);
        out.push((0x80 + (cp / 0x40) % 0x40) as u8);
        out.push((0x80 + cp % 0x40) as u8);
        assert(out@ =~= old(out)@ + utf8_encode_codepoint(cp));
    }
}

/// Parses a JSON string body whose opening quote stands just before `i`,
/// appending the unescaped UTF-8 bytes to `out` and returning the index just
/// past the closing quote.
pub fn parse_string_body(s: &[u8], i: usize, out: &mut Vec<u8>) -> (r: Option<usize>)
    requires
        i <= s@.len(),
    ensures
        match spec_string_body(s@, i as int) {
            Some((t, j)) => r == Some(j as usize) && final(out)@ == old(out)@ + t && i < j
                <= s@.len(),
            None => r is None,
        },
    decreases s@.len() - i, 0int,
{
    proof {
        lemma_string_body_bounds(s@, i as int);
    }
    if i >= s.len() {
        return None;
    }
    let b = s[i];
    if b == QUOTE {
        assert(out@ =~= old(out)@ + Seq::<u8>::empty());
        return Some(i + 1);
    }
    if b == BACKSLASH {
        if s.len() - i < 2 {
            return None;
        }
        let e = s[i + 1];
        if e == QUOTE || e == BACKSLASH || e == 0x2F {
            out.push(e);
            assert(out@ =~= old(out)@ + seq![e]);
            let ghost pre = seq![e];
            return finish_tail(s, i, i + 2, out, Ghost(old(out)@), Ghost(pre));
        } else if e == 0x62 {
            out.push(0x08);
            assert(out@ =~= old(out)@ + seq![0x08u8]);
            let ghost pre = seq![0x08u8];
            return finish_tail(s, i, i + 2, out, Ghost(old(out)@), Ghost(pre));
        } else if e == 0x66 {
            out.push(0x0C);
            assert(out@ =~= old(out)@ + seq![0x0Cu8]);
            let ghost pre = seq![0x0Cu8];
            return finish_tail(s, i, i + 2, out, Ghost(old(out)@), Ghost(pre));
        } else if e == 0x6E {
            out.push(0x0A);
            assert(out@ =~= old(out)@ + seq![0x0Au8]);
            let ghost pre = seq![0x0Au8];
            return finish_tail(s, i, i + 2, out, Ghost(old(out)@), Ghost(pre));
        } else if e == 0x72 {
            out.push(0x0D);
            assert(out@ =~= old(out)@ + seq![0x0Du8]);
            let ghost pre = seq![0x0Du8];
            return finish_tail(s, i, i + 2, out, Ghost(old(out)@), Ghost(pre));
        } else if e == 0x74 {
            out.push(0x09);
            assert(out@ =~= old(out)@ + seq![0x09u8]);
            let ghost pre = seq![0x09u8];
            return finish_tail(s, i, i + 2, out, Ghost(old(out)@), Ghost(pre));
        } else if e == 0x75 {
            let cp = match hex4(s, i + 2) {
                Some(cp) => cp,
                None => {
                    return None;
                },
            };
            if 0xD800 <= cp && cp < 0xDC00 {
                if s.len() - i < 9 || s[i + 6] != BACKSLASH || s[i + 7] != 0x75 {
                    return None;
                }
                let lo = match hex4(s, i + 8) {
                    Some(lo) => lo,
                    None => {
                        return None;
                    },
                };
                if !(0xDC00 <= lo && lo < 0xE000) {
                    return None;
                }
                let combined: u32 = 0x10000 + (cp - 0xD800) * 0x400 + (lo - 0xDC00);
                push_utf8(out, combined);
                let ghost pre = utf8_encode_codepoint(combined);
                return finish_tail(s, i, i + 12, out, Ghost(old(out)@), Ghost(pre));
            } else if 0xDC00 <= cp && cp < 0xE000 {
                return None;
            } else {
                push_utf8(out, cp);
                let ghost pre = utf8_encode_codepoint(cp);
                return finish_tail(s, i, i + 6, out, Ghost(old(out)@), Ghost(pre));
            }
        } else {
            return None;
        }
    }
    if b < 0x20 {
        return None;
    }
    out.push(b);
    assert(out@ =~= old(out)@ + seq![b]);
    let ghost pre = seq![b];
    finish_tail(s, i, i + 1, out, Ghost(old(out)@), Ghost(pre))
}

/// Parses the rest of a string body after `pre` was already appended to
/// `out` for the escape or byte between `i` and `next`.
fn finish_tail(
    s: &[u8],
    i: usize,
    next: usize,
    out: &mut Vec<u8>,
    prefix: Ghost<Seq<u8>>,
    pre: Ghost<Seq<u8>>,
) -> (r: Option<usize>)
    requires
        i < next <= s@.len(),
        spec_string_body(s@, i as int) == spec_string_prepend(
            pre@,
            spec_string_body(s@, next as int),
        ),
        old(out)@ == prefix@ + pre@,
    ensures
        match spec_string_body(s@, i as int) {
            Some((t, j)) => r == Some(j as usize) && final(out)@ == prefix@ + t && i < j
                <= s@.len(),
            None => r is None,
        },
    decreases s@.len() - next, 1int,
{
    let r = parse_string_body(s, next, out);
    proof {
        match spec_string_body(s@, next as int) {
            Some((t, j)) => {
                assert(out@ =~= prefix@ + (pre@ + t));
            },
            None => {},
        }
    }
    r
}

// ------------------------------------------------------------------
// Skipping one JSON value
// ------------------------------------------------------------------

/// Bytes that can continue a JSON number token.
pub open spec fn is_number_byte(b: u8) -> bool {
    is_digit(b) || b == 0x2D || b == 0x2B || b == 0x2E || b == 0x65 || b == 0x45
}

/// End of the maximal run of number bytes starting at `i`.
pub open spec fn spec_skip_number(s: Seq<u8>, i: int) -> int
    decreases s.len() - i,
{
    if 0 <= i < s.len() && is_number_byte(s[i]) {
        spec_skip_number(s, i + 1)
    } else {
        i
    }
}

/// Skips the maximal run of number bytes starting at `i`.
pub fn skip_number(s: &[u8], i: usize) -> (r: usize)
    requires
        i <= s@.len(),
    ensures
        r == spec_skip_number(s@, i as int),
        i <= r <= s@.len(),
    decreases s@.len() - i,
{
    if i < s.len() {
        let b = s[i];
        if (0x30 <= b && b <= 0x39) || b == 0x2D || b == 0x2B || b == 0x2E || b == 0x65 || b
            == 0x45 {
            return skip_number(s, i + 1);
        }
    }
    i
}

/// The bytes of `pat` occur in `s` at position `i`.
pub open spec fn spec_match_at(s: Seq<u8>, i: int, pat: Seq<u8>) -> bool {
    &&& 0 <= i
    &&& i + pat.len() <= s.len()
    &&& forall|k: int| 0 <= k < pat.len() ==> s[i + k] == pat[k]
}

pub open spec fn lit_true() -> Seq<u8> {
    seq![0x74u8, 0x72, 0x75, 0x65]
}

pub open spec fn lit_false() -> Seq<u8> {
    seq![0x66u8, 0x61, 0x6C, 0x73, 0x65]
}

pub open spec fn lit_null() -> Seq<u8> {
    seq![0x6Eu8, 0x75, 0x6C, 0x6C]
}

/// End of the JSON value whose first byte stands at `i`, or `None` when no
/// value starts there. A value is a string, an object, an array, a number,
/// `true`, `false` or `null`; inner whitespace is insignificant.
///
/// The explicit bound checks around recursive positions only guard the
/// termination measure; parsed positions always advance, so they never
/// change the result.
pub open spec fn spec_skip_value(s: Seq<u8>, i: int) -> Option<int>
    decreases s.len() - i, 0int,
{
    if !(0 <= i < s.len()) {
        None
    } else if s[i] == QUOTE {
        match spec_string_body(s, i + 1) {
            Some((t, j)) => Some(j),
            None => None,
        }
    } else if s[i] == LBRACE {
        spec_skip_object_rest(s, i + 1, true)
    } else if s[i] == LBRACKET {
        spec_skip_array_rest(s, i + 1, true)
    } else if is_digit(s[i]) || s[i] == 0x2D {
        let e = spec_skip_number(s, i);
        if i < e <= s.len() {
            Some(e)
        } else {
            None
        }
    } else if s[i] == 0x74 {
        if spec_match_at(s, i, lit_true()) {
            Some(i + 4)
        } else {
            None
        }
    } else if s[i] == 0x66 {
        if spec_match_at(s, i, lit_false()) {
            Some(i + 5)
        } else {
            None
        }
    } else if s[i] == 0x6E {
        if spec_match_at(s, i, lit_null()) {
            Some(i + 4)
        } else {
            None
        }
    } else {
        None
    }
}

/// Members of an object from position `i` (just past the `{` when `first`,
/// just past a separating `,` otherwise) to just past the closing `}`.
pub open spec fn spec_skip_object_rest(s: Seq<u8>, i: int, first: bool) -> Option<int>
    decreases s.len() - i, 1int,
{
    if !(0 <= i <= s.len()) {
        None
    } else {
        let p = spec_skip_ws(s, i);
        if !(i <= p <= s.len()) {
            None
        } else if p >= s.len() {
            None
        } else if s[p] == RBRACE && first {
            Some(p + 1)
        } else if s[p] != QUOTE {
            None
        } else {
            match spec_string_body(s, p + 1) {
                None => None,
                Some((key, k)) => {
                    if !(p < k <= s.len()) {
                        None
                    } else {
                        let c = spec_skip_ws(s, k);
                        if !(k <= c <= s.len()) {
                            None
                        } else if c >= s.len() || s[c] != COLON {
                            None
                        } else {
                            let v = spec_skip_ws(s, c + 1);
                            if !(c + 1 <= v <= s.len()) {
                                None
                            } else {
                                match spec_skip_value(s, v) {
                                    None => None,
                                    Some(e) => spec_skip_member_tail(s, i, e),
                                }
                            }
                        }
                    }
                }
            }
        }
    }
}

/// After one member's value ended at `e`: either the object closes or a `,`
/// introduces the next member.
pub open spec fn spec_skip_member_tail(s: Seq<u8>, i: int, e: int) -> Option<int>
    decreases s.len() - i, 0int,
{
    if !(0 <= i < e <= s.len()) {
        None
    } else {
        let f = spec_skip_ws(s, e);
        if !(e <= f <= s.len()) {
            None
        } else if f >= s.len() {
            None
        } else if s[f] == RBRACE {
            Some(f + 1)
        } else if s[f] == COMMA {
            spec_skip_object_rest(s, f + 1, false)
        } else {
            None
        }
    }
}

/// Elements of an array from position `i` (just past the `[` when `first`,
/// just past a separating `,` otherwise) to just past the closing `]`.
pub open spec fn spec_skip_array_rest(s: Seq<u8>, i: int, first: bool) -> Option<int>
    decreases s.len() - i, 1int,
{
    if !(0 <= i <= s.len()) {
        None
    } else {
        let p = spec_skip_ws(s, i);
        if !(i <= p <= s.len()) {
            None
        } else if p >= s.len() {
            None
        } else if s[p] == RBRACKET && first {
            Some(p + 1)
        } else {
            match spec_skip_value(s, p) {
                None => None,
                Some(e) => {
                    if !(p < e <= s.len()) {
                        None
                    } else {
                        let f = spec_skip_ws(s, e);
                        if !(e <= f <= s.len()) {
                            None
                        } else if f >= s.len() {
                            None
                        } else if s[f] == RBRACKET {
                            Some(f + 1)
                        } else if s[f] == COMMA {
                            spec_skip_array_rest(s, f + 1, false)
                        } else {
                            None
                        }
                    }
                }
            }
        }
    }
}

/// Skips the JSON value whose first byte stands at `i`.
pub fn skip_value(s: &[u8], i: usize) -> (r: Option<usize>)
    requires
        i <= s@.len(),
    ensures
        match spec_skip_value(s@, i as int) {
            Some(e) => r == Some(e as usize) && i < e <= s@.len(),
            None => r is None,
        },
    decreases s@.len() - i, 0int,
{
    if i >= s.len() {
        return None;
    }
    let b = s[i];
    if b == QUOTE {
        let mut scratch: Vec<u8> = Vec::new();
        match parse_string_body(s, i + 1, &mut scratch) {
            Some(j) => Some(j),
            None => None,
        }
    } else if b == LBRACE {
        skip_object_rest(s, i + 1, true)
    } else if b == LBRACKET {
        skip_array_rest(s, i + 1, true)
    } else if (0x30 <= b && b <= 0x39) || b == 0x2D {
        let e = skip_number(s, i + 1);
        assert(e == spec_skip_number(s@, i as int));
        Some(e)
    } else if b == 0x74 {
        if s.len() - i >= 4 && s[i + 1] == 0x72 && s[i + 2] == 0x75 && s[i + 3] == 0x65 {
            assert(spec_match_at(s@, i as int, lit_true()));
            Some(i + 4)
        } else {
            assert(!spec_match_at(s@, i as int, lit_true()));
            None
        }
    } else if b == 0x66 {
        if s.len() - i >= 5 && s[i + 1] == 0x61 && s[i + 2] == 0x6C && s[i + 3] == 0x73 && s[i
            + 4] == 0x65 {
            assert(spec_match_at(s@, i as int, lit_false()));
            Some(i + 5)
        } else {
            assert(!spec_match_at(s@, i as int, lit_false()));
            None
        }
    } else if b == 0x6E {
        if s.len() - i >= 4 && s[i + 1] == 0x75 && s[i + 2] == 0x6C && s[i + 3] == 0x6C {
            assert(spec_match_at(s@, i as int, lit_null()));
            Some(i + 4)
        } else {
            assert(!spec_match_at(s@, i as int, lit_null()));
            None
        }
    } else {
        None
    }
}

fn skip_object_rest(s: &[u8], i: usize, first: bool) -> (r: Option<usize>)
    requires
        i <= s@.len(),
    ensures
        match spec_skip_object_rest(s@, i as int, first) {
            Some(e) => r == Some(e as usize) && i < e <= s@.len(),
            None => r is None,
        },
    decreases s@.len() - i, 1int,
{
    let p = skip_ws(s, i);
    if p >= s.len() {
        return None;
    }
    let b = s[p];
    if b == RBRACE && first {
        return Some(p + 1);
    }
    if b != QUOTE {
        return None;
    }
    let mut key: Vec<u8> = Vec::new();
    let k = match parse_string_body(s, p + 1, &mut key) {
        Some(k) => k,
        None => {
            return None;
        },
    };
    let c = skip_ws(s, k);
    if c >= s.len() {
        return None;
    }
    if s[c] != COLON {
        return None;
    }
    let v = skip_ws(s, c + 1);
    let e = match skip_value(s, v) {
        Some(e) => e,
        None => {
            return None;
        },
    };
    let f = skip_ws(s, e);
    if f >= s.len() {
        return None;
    }
    if s[f] == RBRACE {
        return Some(f + 1);
    }
    if s[f] == COMMA {
        return skip_object_rest(s, f + 1, false);
    }
    None
}

fn skip_array_rest(s: &[u8], i: usize, first: bool) -> (r: Option<usize>)
    requires
        i <= s@.len(),
    ensures
        match spec_skip_array_rest(s@, i as int, first) {
            Some(e) => r == Some(e as usize) && i < e <= s@.len(),
            None => r is None,
        },
    decreases s@.len() - i, 1int,
{
    let p = skip_ws(s, i);
    if p >= s.len() {
        return None;
    }
    let b = s[p];
    if b == RBRACKET && first {
        return Some(p + 1);
    }
    let e = match skip_value(s, p) {
        Some(e) => e,
        None => {
            return None;
        },
    };
    let f = skip_ws(s, e);
    if f >= s.len() {
        return None;
    }
    if s[f] == RBRACKET {
        return Some(f + 1);
    }
    if s[f] == COMMA {
        return skip_array_rest(s, f + 1, false);
    }
    None
}

/// Whether two byte slices hold the same bytes.
pub fn bytes_eq(a: &[u8], b: &[u8]) -> (r: bool)
    ensures
        r == (a@ == b@),
{
    if a.len() != b.len() {
        assert(a@ != b@);
        return false;
    }
    let mut i: usize = 0;
    while i < a.len()
        invariant
            0 <= i <= a@.len(),
            a@.len() == b@.len(),
            forall|k: int| 0 <= k < i ==> a@[k] == b@[k],
        decreases a@.len() - i,
    {
        if a[i] != b[i] {
            assert(a@ != b@);
            return false;
        }
        i += 1;
    }
    assert(a@ =~= b@);
    true
}


// ------------------------------------------------------------------
// Plain non-negative integer number tokens
// ------------------------------------------------------------------

/// End of the maximal run of decimal digits starting at `i`.
pub open spec fn spec_skip_digits(s: Seq<u8>, i: int) -> int
    decreases s.len() - i,
{
    if 0 <= i < s.len() && is_digit(s[i]) {
        spec_skip_digits(s, i + 1)
    } else {
        i
    }
}

/// The non-negative integer number token at `i`: a non-empty maximal digit
/// run whose value fits a `u64`, with the index just past it.
pub open spec fn spec_number_at(s: Seq<u8>, i: int) -> Option<(u64, int)> {
    let e = spec_skip_digits(s, i);
    if 0 <= i < e <= s.len() {
        match spec_parse_u64(s.subrange(i, e)) {
            Some(x) => Some((x, e)),
            None => None,
        }
    } else {
        None
    }
}

/// Reads the non-negative integer number token at `i`.
pub fn parse_number_at(s: &[u8], i: usize) -> (r: Option<(u64, usize)>)
    requires
        i <= s@.len(),
    ensures
        match spec_number_at(s@, i as int) {
            Some((x, e)) => r == Some((x, e as usize)) && i < e <= s@.len(),
            None => r is None,
        },
{
    let mut d: Vec<u8> = Vec::new();
    let mut j = i;
    while j < s.len() && s[j] >= 0x30 && s[j] <= 0x39
        invariant
            i <= j <= s@.len(),
            spec_skip_digits(s@, i as int) == spec_skip_digits(s@, j as int),
            d@ == s@.subrange(i as int, j as int),
        decreases s@.len() - j,
    {
        d.push(s[j]);
        proof {
            assert(d@ =~= s@.subrange(i as int, j + 1));
        }
        j += 1;
    }
    proof {
        assert(spec_skip_digits(s@, j as int) == j);
    }
    if j == i {
        return None;
    }
    match u64_from_digits(d.as_slice()) {
        Some(x) => Some((x, j)),
        None => None,
    }
}


/// Position of the first non-digit at or after `i`.
pub fn digit_run_end(s: &[u8], i: usize) -> (r: usize)
    requires
        i <= s@.len(),
    ensures
        r == spec_skip_digits(s@, i as int),
        i <= r <= s@.len(),
    decreases s@.len() - i,
{
    if i < s.len() && s[i] >= 0x30 && s[i] <= 0x39 {
        digit_run_end(s, i + 1)
    } else {
        i
    }
}


} // verus!

//! The bulk array extractor: pulls identifier lists out of an oversized,
//! array-shaped archive entry without interpreting more than one element at
//! a time.
//!
//! An entry is UTF-8 text of the form `<non-JSON prefix>[ {...}, {...} ]`.
//! Everything up to and including the first `[` is skipped; elements are
//! decoded one by one as the consumer asks for them, so a malformed element
//! surfaces only when it is reached; bytes after the closing `]` are never
//! read.

use vstd::prelude::*;

use crate::errors::Error;
use crate::json::{
    bytes_eq, parse_string_body, skip_value, skip_ws, spec_parse_u64, spec_skip_ws,
    spec_skip_value, spec_string_body, u64_from_digits, COLON, COMMA, LBRACE, LBRACKET, QUOTE,
    RBRACE, RBRACKET,
};

verus! {

/// Builds the error used when archive data does not have the expected shape.
pub fn invalid_data(msg: &str) -> (e: Error)
    ensures
        e matches Error::DataFormat { context } && context@ == msg@,
{
    Error::DataFormat { context: msg.to_owned() }
}

/// Position of the first `[` at or after `i`.
pub open spec fn spec_find_bracket(s: Seq<u8>, i: int) -> Option<int>
    decreases s.len() - i,
{
    if !(0 <= i < s.len()) {
        None
    } else if s[i] == LBRACKET {
        Some(i)
    } else {
        spec_find_bracket(s, i + 1)
    }
}

/// Finds the first `[` at or after `i`.
pub fn find_bracket(s: &[u8], i: usize) -> (r: Option<usize>)
    requires
        i <= s@.len(),
    ensures
        match spec_find_bracket(s@, i as int) {
            Some(b) => r == Some(b as usize) && i <= b < s@.len(),
            None => r is None,
        },
    decreases s@.len() - i,
{
    if i >= s.len() {
        None
    } else if s[i] == LBRACKET {
        Some(i)
    } else {
        find_bracket(s, i + 1)
    }
}

// ------------------------------------------------------------------
// Framing: one step of walking the element list
// ------------------------------------------------------------------

/// One framing step of the element stream, as the grammar sees it.
pub enum ArrayStep {
    /// The next element's first byte stands at this position.
    Elem(int),
    /// The closing bracket ended the array; holds the position just past it.
    End(int),
    /// The array shape is broken at this point.
    Fail,
}

/// What the element stream finds at position `i`: before the first element
/// (`first`), either the closing bracket or an element may follow; later,
/// a `,` must precede every element.
pub open spec fn spec_array_step(s: Seq<u8>, i: int, first: bool) -> ArrayStep {
    let p = spec_skip_ws(s, i);
    if !(i <= p) || p >= s.len() {
        ArrayStep::Fail
    } else if s[p] == RBRACKET {
        ArrayStep::End(p + 1)
    } else if first {
        ArrayStep::Elem(p)
    } else if s[p] == COMMA {
        let q = spec_skip_ws(s, p + 1);
        if p < q < s.len() {
            ArrayStep::Elem(q)
        } else {
            ArrayStep::Fail
        }
    } else {
        ArrayStep::Fail
    }
}

/// Executable framing step.
pub enum Framed {
    Elem(usize),
    End(usize),
    Fail,
}

pub fn array_step(s: &[u8], i: usize, first: bool) -> (r: Framed)
    requires
        i <= s@.len(),
    ensures
        match spec_array_step(s@, i as int, first) {
            ArrayStep::Elem(p) => r matches Framed::Elem(q) && q == p && i <= p < s@.len(),
            ArrayStep::End(e) => r matches Framed::End(q) && q == e && i < e <= s@.len(),
            ArrayStep::Fail => r matches Framed::Fail,
        },
{
    let p = skip_ws(s, i);
    if p >= s.len() {
        return Framed::Fail;
    }
    if s[p] == RBRACKET {
        return Framed::End(p + 1);
    }
    if first {
        return Framed::Elem(p);
    }
    if s[p] == COMMA {
        let q = skip_ws(s, p + 1);
        if q < s.len() {
            return Framed::Elem(q);
        }
        return Framed::Fail;
    }
    Framed::Fail
}

// ------------------------------------------------------------------
// Follower elements
// ------------------------------------------------------------------

/// The discriminant key of a follower element.
pub open spec fn key_follower() -> Seq<u8> {
    seq![0x66u8, 0x6F, 0x6C, 0x6C, 0x6F, 0x77, 0x65, 0x72]
}

/// The account-identifier key inside a follower element.
pub open spec fn key_account_id() -> Seq<u8> {
    seq![0x61u8, 0x63, 0x63, 0x6F, 0x75, 0x6E, 0x74, 0x49, 0x64]
}

/// One decoded element of the follower archive entry, wrapped in the
/// archive's discriminant key rather than a plain field.
#[derive(Clone, Copy, Debug, PartialEq, Eq, Structural)]
pub enum Follower {
    One { id: u64 },
}

/// Members of the inner follower object from position `i` (just past `{`
/// when `first`, just past a `,` otherwise). `"accountId"` must occur
/// exactly once and hold a decimal string that fits a `u64`; other members
/// are skipped. Yields the identifier and the position just past `}`.
///
/// The explicit bound checks around parsed positions only guard the
/// termination measure; parsed positions always advance, so they never
/// change the result.
pub open spec fn spec_follower_members(s: Seq<u8>, i: int, first: bool, acc: Option<u64>) -> Option<
    (u64, int),
>
    decreases s.len() - i, 2int,
{
    if !(0 <= i <= s.len()) {
        None
    } else {
        let p = spec_skip_ws(s, i);
        if !(i <= p <= s.len()) {
            None
        } else if p >= s.len() {
            None
        } else if s[p] == RBRACE && first {
            match acc {
                Some(id) => Some((id, p + 1)),
                None => None,
            }
        } else if s[p] != QUOTE {
            None
        } else {
            match spec_string_body(s, p + 1) {
                None => None,
                Some((key, k)) => {
                    if !(p < k <= s.len()) {
                        None
                    } else {
                        let c = spec_skip_ws(s, k);
                        if !(k <= c <= s.len()) {
                            None
                        } else if c >= s.len() || s[c] != COLON {
                            None
                        } else {
                            let v = spec_skip_ws(s, c + 1);
                            if !(c < v <= s.len()) {
                                None
                            } else if key == key_account_id() {
                                if acc is Some {
                                    None
                                } else if v >= s.len() || s[v] != QUOTE {
                                    None
                                } else {
                                    match spec_string_body(s, v + 1) {
                                        None => None,
                                        Some((digits, e)) => match spec_parse_u64(digits) {
                                            None => None,
                                            Some(id) => spec_follower_member_tail(
                                                s,
                                                i,
                                                e,
                                                Some(id),
                                            ),
                                        },
                                    }
                                }
                            } else {
                                match spec_skip_value(s, v) {
                                    None => None,
                                    Some(e) => spec_follower_member_tail(s, i, e, acc),
                                }
                            }
                        }
                    }
                }
            }
        }
    }
}

/// After one member ended at `e`: either the object closes or a `,`
/// introduces the next member.
pub open spec fn spec_follower_member_tail(s: Seq<u8>, i: int, e: int, acc: Option<u64>) -> Option<
    (u64, int),
>
    decreases s.len() - i, 1int,
{
    if !(0 <= i < e <= s.len()) {
        None
    } else {
        let f = spec_skip_ws(s, e);
        if !(e <= f <= s.len()) {
            None
        } else if f >= s.len() {
            None
        } else if s[f] == RBRACE {
            match acc {
                Some(id) => Some((id, f + 1)),
                None => None,
            }
        } else if s[f] == COMMA {
            spec_follower_members_again(s, i, f + 1, acc)
        } else {
            None
        }
    }
}

/// Continues the member walk at `j`, clamped for the termination measure.
pub open spec fn spec_follower_members_again(s: Seq<u8>, i: int, j: int, acc: Option<u64>) -> Option<
    (u64, int),
>
    decreases s.len() - i, 0int,
{
    if i < j <= s.len() {
        spec_follower_members(s, j, false, acc)
    } else {
        None
    }
}

/// One follower element starting at `i`: an object holding exactly the
/// discriminant member `"follower"`, whose value is the inner object with
/// the account identifier. Yields the identifier and the position just past
/// the element.
pub open spec fn spec_follower_elem(s: Seq<u8>, i: int) -> Option<(u64, int)> {
    if !(0 <= i < s.len()) {
        None
    } else if s[i] != LBRACE {
        None
    } else {
        let p = spec_skip_ws(s, i + 1);
        if !(i < p) || p >= s.len() {
            None
        } else if s[p] != QUOTE {
            None
        } else {
            match spec_string_body(s, p + 1) {
                None => None,
                Some((key, k)) => {
                    if key != key_follower() || !(p < k <= s.len()) {
                        None
                    } else {
                        let c = spec_skip_ws(s, k);
                        if !(k <= c <= s.len()) || c >= s.len() || s[c] != COLON {
                            None
                        } else {
                            let v = spec_skip_ws(s, c + 1);
                            if !(c < v) || v >= s.len() || s[v] != LBRACE {
                                None
                            } else {
                                match spec_follower_members(s, v + 1, true, None) {
                                    None => None,
                                    Some((id, e)) => {
                                        if !(e <= s.len()) {
                                            None
                                        } else {
                                            let f = spec_skip_ws(s, e);
                                            if !(e <= f <= s.len()) || f >= s.len() || s[f]
                                                != RBRACE {
                                                None
                                            } else {
                                                Some((id, f + 1))
                                            }
                                        }
                                    },
                                }
                            }
                        }
                    }
                }
            }
        }
    }
}

fn follower_members(s: &[u8], i: usize, first: bool, acc: Option<u64>) -> (r: Option<(u64, usize)>)
    requires
        i <= s@.len(),
    ensures
        match spec_follower_members(s@, i as int, first, acc) {
            Some((id, e)) => r == Some((id, e as usize)) && i < e <= s@.len(),
            None => r is None,
        },
    decreases s@.len() - i, 1int,
{
    let p = skip_ws(s, i);
    if p >= s.len() {
        return None;
    }
    if s[p] == RBRACE && first {
        return match acc {
            Some(id) => Some((id, p + 1)),
            None => None,
        };
    }
    if s[p] != QUOTE {
        return None;
    }
    let mut key: Vec<u8> = Vec::new();
    let k = match parse_string_body(s, p + 1, &mut key) {
        Some(k) => k,
        None => {
            return None;
        },
    };
    let c = skip_ws(s, k);
    if c >= s.len() {
        return None;
    }
    if s[c] != COLON {
        return None;
    }
    let v = skip_ws(s, c + 1);
    let pat: Vec<u8> = vec![0x61u8, 0x63, 0x63, 0x6F, 0x75, 0x6E, 0x74, 0x49, 0x64];
    proof {
        assert(pat@ =~= key_account_id());
        assert(key@ =~= Seq::<u8>::empty() + key@);
    }
    if bytes_eq(key.as_slice(), pat.as_slice()) {
        if acc.is_some() {
            return None;
        }
        if v >= s.len() {
            return None;
        }
        if s[v] != QUOTE {
            return None;
        }
        let mut digits: Vec<u8> = Vec::new();
        let e = match parse_string_body(s, v + 1, &mut digits) {
            Some(e) => e,
            None => {
                return None;
            },
        };
        proof {
            assert(digits@ =~= Seq::<u8>::empty() + digits@);
        }
        let id = match u64_from_digits(digits.as_slice()) {
            Some(id) => id,
            None => {
                return None;
            },
        };
        follower_member_tail(s, i, e, Some(id))
    } else {
        let e = match skip_value(s, v) {
            Some(e) => e,
            None => {
                return None;
            },
        };
        follower_member_tail(s, i, e, acc)
    }
}

fn follower_member_tail(s: &[u8], i: usize, e: usize, acc: Option<u64>) -> (r: Option<(u64, usize)>)
    requires
        i < e <= s@.len(),
    ensures
        match spec_follower_member_tail(s@, i as int, e as int, acc) {
            Some((id, q)) => r == Some((id, q as usize)) && i < q <= s@.len(),
            None => r is None,
        },
    decreases s@.len() - i, 0int,
{
    let f = skip_ws(s, e);
    if f >= s.len() {
        return None;
    }
    if s[f] == RBRACE {
        return match acc {
            Some(id) => Some((id, f + 1)),
            None => None,
        };
    }
    if s[f] == COMMA {
        return follower_members(s, f + 1, false, acc);
    }
    None
}

fn follower_elem(s: &[u8], i: usize) -> (r: Option<(u64, usize)>)
    requires
        i <= s@.len(),
    ensures
        match spec_follower_elem(s@, i as int) {
            Some((id, e)) => r == Some((id, e as usize)) && i < e <= s@.len(),
            None => r is None,
        },
{
    if i >= s.len() {
        return None;
    }
    if s[i] != LBRACE {
        return None;
    }
    let p = skip_ws(s, i + 1);
    if p >= s.len() {
        return None;
    }
    if s[p] != QUOTE {
        return None;
    }
    let mut key: Vec<u8> = Vec::new();
    let k = match parse_string_body(s, p + 1, &mut key) {
        Some(k) => k,
        None => {
            return None;
        },
    };
    let pat: Vec<u8> = vec![0x66u8, 0x6F, 0x6C, 0x6C, 0x6F, 0x77, 0x65, 0x72];
    proof {
        assert(pat@ =~= key_follower());
        assert(key@ =~= Seq::<u8>::empty() + key@);
    }
    if !bytes_eq(key.as_slice(), pat.as_slice()) {
        return None;
    }
    let c = skip_ws(s, k);
    if c >= s.len() {
        return None;
    }
    if s[c] != COLON {
        return None;
    }
    let v = skip_ws(s, c + 1);
    if v >= s.len() {
        return None;
    }
    if s[v] != LBRACE {
        return None;
    }
    let (id, e) = match follower_members(s, v + 1, true, None) {
        Some(r) => r,
        None => {
            return None;
        },
    };
    let f = skip_ws(s, e);
    if f >= s.len() {
        return None;
    }
    if s[f] != RBRACE {
        return None;
    }
    Some((id, f + 1))
}

// ------------------------------------------------------------------
// The follower element stream and collector
// ------------------------------------------------------------------

/// The context text of a failed pull: either the framing broke (a byte
/// where only `,` or `]` may stand) or the element itself did.
pub open spec fn spec_follower_fail_message(s: Seq<u8>, i: int, first: bool) -> Seq<char> {
    match spec_array_step(s, i, first) {
        ArrayStep::Fail => "`,` or `]` not found"@,
        _ => "malformed follower element"@,
    }
}

/// What one pull on the follower stream yields.
pub enum FollowerStep {
    /// An element decoded to this identifier; the stream advances to the
    /// held position.
    Yield(u64, int),
    /// The closing bracket ended the sequence.
    End(int),
    /// The array shape or the element at this point is broken.
    Fail,
}

pub open spec fn spec_follower_step(s: Seq<u8>, i: int, first: bool) -> FollowerStep {
    match spec_array_step(s, i, first) {
        ArrayStep::Fail => FollowerStep::Fail,
        ArrayStep::End(e) => FollowerStep::End(e),
        ArrayStep::Elem(p) => match spec_follower_elem(s, p) {
            Some((id, e)) => FollowerStep::Yield(id, e),
            None => FollowerStep::Fail,
        },
    }
}

/// The identifiers of all elements from position `i` to the closing
/// bracket, in their original order.
pub open spec fn spec_follower_list(s: Seq<u8>, i: int, first: bool) -> Option<Seq<u64>>
    decreases s.len() - i,
{
    if !(0 <= i <= s.len()) {
        None
    } else {
        match spec_follower_step(s, i, first) {
            FollowerStep::Fail => None,
            FollowerStep::End(e) => Some(Seq::empty()),
            FollowerStep::Yield(id, e) => if i < e <= s.len() {
                match spec_follower_list(s, e, false) {
                    Some(rest) => Some(seq![id] + rest),
                    None => None,
                }
            } else {
                None
            },
        }
    }
}

/// The follower identifiers of a whole prefixed archive entry: everything
/// up to and including the first `[` is skipped; an entry without `[` has
/// no value.
pub open spec fn spec_followers(s: Seq<u8>) -> Option<Seq<u64>> {
    match spec_find_bracket(s, 0) {
        Some(b) => spec_follower_list(s, b + 1, true),
        None => None,
    }
}

/// A lazy, forward-only, non-restartable walk over the follower elements of
/// one archive entry. Elements are decoded one at a time as `next` is
/// called; a malformed element surfaces only when it is reached.
pub struct FollowerStream {
    /// Current byte position in the entry.
    pub pos: usize,
    /// No element has been consumed yet.
    pub first: bool,
    /// The stream has ended, by the closing bracket or by an error.
    pub done: bool,
}

impl FollowerStream {
    /// Opens the stream, skipping the non-JSON prefix up to and including
    /// the first `[`. An entry without `[` is rejected.
    pub fn new(s: &[u8]) -> (r: Result<FollowerStream, Error>)
        ensures
            match spec_find_bracket(s@, 0) {
                Some(b) => r matches Ok(st) && st.pos == b + 1 && st.first && !st.done && st.pos
                    <= s@.len(),
                None => r matches Err(e) && (e matches Error::DataFormat { context } && context@
                    == "`[` not found"@),
            },
    {
        proof {
            assert(s@.len() == s.len());
        }
        match find_bracket(s, 0) {
            Some(b) => Ok(FollowerStream { pos: b + 1, first: true, done: false }),
            None => Err(invalid_data("`[` not found")),
        }
    }

    /// Pulls the next element. Yields `Ok(Some(..))` for a decoded element,
    /// `Ok(None)` once the closing bracket is reached (and forever after),
    /// and a `DataFormat` error when the entry is broken at the current
    /// position.
    pub fn next(&mut self, s: &[u8]) -> (r: Result<Option<Follower>, Error>)
        requires
            old(self).pos <= s@.len(),
        ensures
            final(self).pos <= s@.len(),
            old(self).done ==> (*final(self) == *old(self) && (r matches Ok(f) && f is None)),
            !old(self).done ==> ({
                let me = *final(self);
                match spec_follower_step(s@, old(self).pos as int, old(self).first) {
                    FollowerStep::Yield(id, e) => r matches Ok(f) && f matches Some(fl) && fl
                        == (Follower::One { id }) && me.pos == e && !me.first && !me.done && old(
                        self,
                    ).pos < e,
                    FollowerStep::End(e) => r matches Ok(f) && f is None && me.done,
                    FollowerStep::Fail => r matches Err(err) && (err matches Error::DataFormat {
                        context,
                    } && context@ == spec_follower_fail_message(
                        s@,
                        old(self).pos as int,
                        old(self).first,
                    )) && me.done,
                }
            }),
    {
        proof {
            assert(s@.len() == s.len());
        }
        if self.done {
            return Ok(None);
        }
        match array_step(s, self.pos, self.first) {
            Framed::Fail => {
                self.done = true;
                Err(invalid_data("`,` or `]` not found"))
            },
            Framed::End(_) => {
                self.done = true;
                Ok(None)
            },
            Framed::Elem(p) => {
                match follower_elem(s, p) {
                    Some((id, e)) => {
                        self.pos = e;
                        self.first = false;
                        Ok(Some(Follower::One { id }))
                    },
                    None => {
                        self.done = true;
                        Err(invalid_data("malformed follower element"))
                    },
                }
            },
        }
    }
}

/// Decodes a whole prefixed follower entry into the identifier list, in
/// original order. A well-formed entry of `k` elements yields exactly its
/// `k` identifiers; the empty array yields the empty list; an entry whose
/// prefix, framing or element shape is broken is rejected.
pub fn extract_followers(s: &[u8]) -> (r: Result<Vec<u64>, Error>)
    ensures
        match spec_followers(s@) {
            Some(ids) => r matches Ok(v) && v@ == ids,
            None => r matches Err(e) && e is DataFormat && (spec_find_bracket(s@, 0) is None
                ==> (e matches Error::DataFormat { context } && context@ == "`[` not found"@)),
        },
{
    let mut st = match FollowerStream::new(s) {
        Ok(st) => st,
        Err(e) => {
            return Err(e);
        },
    };
    let mut out: Vec<u64> = Vec::new();
    proof {
        match spec_follower_list(s@, st.pos as int, st.first) {
            Some(rest) => {
                assert(Seq::<u64>::empty() + rest =~= rest);
            },
            None => {},
        }
    }
    loop
        invariant
            st.pos <= s@.len(),
            !st.done,
            spec_find_bracket(s@, 0) is Some,
            match spec_follower_list(s@, st.pos as int, st.first) {
                Some(rest) => spec_followers(s@) matches Some(ids) && ids == out@ + rest,
                None => spec_followers(s@) is None,
            },
        decreases s@.len() - st.pos,
    {
        let ghost old_pos = st.pos as int;
        let ghost old_first = st.first;
        match st.next(s) {
            Ok(Some(fl)) => {
                let Follower::One { id } = fl;
                let ghost prev = out@;
                proof {
                    let rest1 = spec_follower_list(s@, st.pos as int, false);
                    match rest1 {
                        Some(r1) => {
                            assert(prev + (seq![id] + r1) =~= (prev + seq![id]) + r1);
                        },
                        None => {},
                    }
                }
                out.push(id);
                proof {
                    assert(out@ =~= prev + seq![id]);
                }
            },
            Ok(None) => {
                proof {
                    assert(out@ + Seq::<u64>::empty() =~= out@);
                }
                return Ok(out);
            },
            Err(e) => {
                return Err(e);
            },
        }
    }
}

// ------------------------------------------------------------------
// Content (tweet) elements
// ------------------------------------------------------------------

/// The discriminant key of a content element.
pub open spec fn key_tweet() -> Seq<u8> {
    seq![0x74u8, 0x77, 0x65, 0x65, 0x74]
}

/// The identifier key inside a content element.
pub open spec fn key_id() -> Seq<u8> {
    seq![0x69u8, 0x64]
}

/// The text key inside a content element.
pub open spec fn key_full_text() -> Seq<u8> {
    seq![0x66u8, 0x75, 0x6C, 0x6C, 0x5F, 0x74, 0x65, 0x78, 0x74]
}

/// One decoded element of the content archive entry, wrapped in the
/// archive's discriminant key rather than a plain field. `text` holds the
/// UTF-8 bytes of the content's text.
#[derive(Clone, Debug, PartialEq, Eq)]
pub enum Tweet {
    One { id: u64, text: Vec<u8> },
}

/// The byte-level view of an optional text accumulator.
pub open spec fn opt_bytes_view(o: Option<Vec<u8>>) -> Option<Seq<u8>> {
    match o {
        Some(v) => Some(v@),
        None => None,
    }
}

/// Members of the inner content object from position `i`. `"id"` must hold
/// a decimal string that fits a `u64` and `"full_text"` a string; each must
/// occur exactly once; other members are skipped. Yields the identifier,
/// the unescaped text bytes and the position just past `}`.
///
/// The explicit bound checks around parsed positions only guard the
/// termination measure; parsed positions always advance, so they never
/// change the result.
pub open spec fn spec_tweet_members(
    s: Seq<u8>,
    i: int,
    first: bool,
    aid: Option<u64>,
    atext: Option<Seq<u8>>,
) -> Option<(u64, Seq<u8>, int)>
    decreases s.len() - i, 2int,
{
    if !(0 <= i <= s.len()) {
        None
    } else {
        let p = spec_skip_ws(s, i);
        if !(i <= p <= s.len()) {
            None
        } else if p >= s.len() {
            None
        } else if s[p] == RBRACE && first {
            match (aid, atext) {
                (Some(id), Some(text)) => Some((id, text, p + 1)),
                _ => None,
            }
        } else if s[p] != QUOTE {
            None
        } else {
            match spec_string_body(s, p + 1) {
                None => None,
                Some((key, k)) => {
                    if !(p < k <= s.len()) {
                        None
                    } else {
                        let c = spec_skip_ws(s, k);
                        if !(k <= c <= s.len()) {
                            None
                        } else if c >= s.len() || s[c] != COLON {
                            None
                        } else {
                            let v = spec_skip_ws(s, c + 1);
                            if !(c < v <= s.len()) {
                                None
                            } else if key == key_id() {
                                if aid is Some {
                                    None
                                } else if v >= s.len() || s[v] != QUOTE {
                                    None
                                } else {
                                    match spec_string_body(s, v + 1) {
                                        None => None,
                                        Some((digits, e)) => match spec_parse_u64(digits) {
                                            None => None,
                                            Some(id) => spec_tweet_member_tail(
                                                s,
                                                i,
                                                e,
                                                Some(id),
                                                atext,
                                            ),
                                        },
                                    }
                                }
                            } else if key == key_full_text() {
                                if atext is Some {
                                    None
                                } else if v >= s.len() || s[v] != QUOTE {
                                    None
                                } else {
                                    match spec_string_body(s, v + 1) {
                                        None => None,
                                        Some((text, e)) => spec_tweet_member_tail(
                                            s,
                                            i,
                                            e,
                                            aid,
                                            Some(text),
                                        ),
                                    }
                                }
                            } else {
                                match spec_skip_value(s, v) {
                                    None => None,
                                    Some(e) => spec_tweet_member_tail(s, i, e, aid, atext),
                                }
                            }
                        }
                    }
                }
            }
        }
    }
}

/// After one member ended at `e`: either the object closes or a `,`
/// introduces the next member.
pub open spec fn spec_tweet_member_tail(
    s: Seq<u8>,
    i: int,
    e: int,
    aid: Option<u64>,
    atext: Option<Seq<u8>>,
) -> Option<(u64, Seq<u8>, int)>
    decreases s.len() - i, 1int,
{
    if !(0 <= i < e <= s.len()) {
        None
    } else {
        let f = spec_skip_ws(s, e);
        if !(e <= f <= s.len()) {
            None
        } else if f >= s.len() {
            None
        } else if s[f] == RBRACE {
            match (aid, atext) {
                (Some(id), Some(text)) => Some((id, text, f + 1)),
                _ => None,
            }
        } else if s[f] == COMMA {
            spec_tweet_members_again(s, i, f + 1, aid, atext)
        } else {
            None
        }
    }
}

/// Continues the member walk at `j`, clamped for the termination measure.
pub open spec fn spec_tweet_members_again(
    s: Seq<u8>,
    i: int,
    j: int,
    aid: Option<u64>,
    atext: Option<Seq<u8>>,
) -> Option<(u64, Seq<u8>, int)>
    decreases s.len() - i, 0int,
{
    if i < j <= s.len() {
        spec_tweet_members(s, j, false, aid, atext)
    } else {
        None
    }
}

/// One content element starting at `i`: an object holding exactly the
/// discriminant member `"tweet"`, whose value is the inner object with the
/// identifier and the text.
pub open spec fn spec_tweet_elem(s: Seq<u8>, i: int) -> Option<(u64, Seq<u8>, int)> {
    if !(0 <= i < s.len()) {
        None
    } else if s[i] != LBRACE {
        None
    } else {
        let p = spec_skip_ws(s, i + 1);
        if !(i < p) || p >= s.len() {
            None
        } else if s[p] != QUOTE {
            None
        } else {
            match spec_string_body(s, p + 1) {
                None => None,
                Some((key, k)) => {
                    if key != key_tweet() || !(p < k <= s.len()) {
                        None
                    } else {
                        let c = spec_skip_ws(s, k);
                        if !(k <= c <= s.len()) || c >= s.len() || s[c] != COLON {
                            None
                        } else {
                            let v = spec_skip_ws(s, c + 1);
                            if !(c < v) || v >= s.len() || s[v] != LBRACE {
                                None
                            } else {
                                match spec_tweet_members(s, v + 1, true, None, None) {
                                    None => None,
                                    Some((id, text, e)) => {
                                        if !(e <= s.len()) {
                                            None
                                        } else {
                                            let f = spec_skip_ws(s, e);
                                            if !(e <= f <= s.len()) || f >= s.len() || s[f]
                                                != RBRACE {
                                                None
                                            } else {
                                                Some((id, text, f + 1))
                                            }
                                        }
                                    },
                                }
                            }
                        }
                    }
                }
            }
        }
    }
}

fn tweet_members(s: &[u8], i: usize, first: bool, aid: Option<u64>, atext: Option<Vec<u8>>) -> (r:
    Option<(u64, Vec<u8>, usize)>)
    requires
        i <= s@.len(),
    ensures
        match spec_tweet_members(s@, i as int, first, aid, opt_bytes_view(atext)) {
            Some((id, text, e)) => r matches Some((rid, rtext, re)) && rid == id && rtext@
                == text && re == e && i < e <= s@.len(),
            None => r is None,
        },
    decreases s@.len() - i, 1int,
{
    let p = skip_ws(s, i);
    if p >= s.len() {
        return None;
    }
    if s[p] == RBRACE && first {
        return match (aid, atext) {
            (Some(id), Some(text)) => Some((id, text, p + 1)),
            _ => None,
        };
    }
    if s[p] != QUOTE {
        return None;
    }
    let mut key: Vec<u8> = Vec::new();
    let k = match parse_string_body(s, p + 1, &mut key) {
        Some(k) => k,
        None => {
            return None;
        },
    };
    let c = skip_ws(s, k);
    if c >= s.len() {
        return None;
    }
    if s[c] != COLON {
        return None;
    }
    let v = skip_ws(s, c + 1);
    let pat_id: Vec<u8> = vec![0x69u8, 0x64];
    let pat_text: Vec<u8> = vec![0x66u8, 0x75, 0x6C, 0x6C, 0x5F, 0x74, 0x65, 0x78, 0x74];
    proof {
        assert(pat_id@ =~= key_id());
        assert(pat_text@ =~= key_full_text());
        assert(key@ =~= Seq::<u8>::empty() + key@);
    }
    if bytes_eq(key.as_slice(), pat_id.as_slice()) {
        if aid.is_some() {
            return None;
        }
        if v >= s.len() {
            return None;
        }
        if s[v] != QUOTE {
            return None;
        }
        let mut digits: Vec<u8> = Vec::new();
        let e = match parse_string_body(s, v + 1, &mut digits) {
            Some(e) => e,
            None => {
                return None;
            },
        };
        proof {
            assert(digits@ =~= Seq::<u8>::empty() + digits@);
        }
        let id = match u64_from_digits(digits.as_slice()) {
            Some(id) => id,
            None => {
                return None;
            },
        };
        tweet_member_tail(s, i, e, Some(id), atext)
    } else if bytes_eq(key.as_slice(), pat_text.as_slice()) {
        if atext.is_some() {
            return None;
        }
        if v >= s.len() {
            return None;
        }
        if s[v] != QUOTE {
            return None;
        }
        let mut text: Vec<u8> = Vec::new();
        let e = match parse_string_body(s, v + 1, &mut text) {
            Some(e) => e,
            None => {
                return None;
            },
        };
        proof {
            assert(text@ =~= Seq::<u8>::empty() + text@);
        }
        tweet_member_tail(s, i, e, aid, Some(text))
    } else {
        let e = match skip_value(s, v) {
            Some(e) => e,
            None => {
                return None;
            },
        };
        tweet_member_tail(s, i, e, aid, atext)
    }
}

fn tweet_member_tail(s: &[u8], i: usize, e: usize, aid: Option<u64>, atext: Option<Vec<u8>>) -> (r:
    Option<(u64, Vec<u8>, usize)>)
    requires
        i < e <= s@.len(),
    ensures
        match spec_tweet_member_tail(s@, i as int, e as int, aid, opt_bytes_view(atext)) {
            Some((id, text, q)) => r matches Some((rid, rtext, rq)) && rid == id && rtext@
                == text && rq == q && i < q <= s@.len(),
            None => r is None,
        },
    decreases s@.len() - i, 0int,
{
    let f = skip_ws(s, e);
    if f >= s.len() {
        return None;
    }
    if s[f] == RBRACE {
        return match (aid, atext) {
            (Some(id), Some(text)) => Some((id, text, f + 1)),
            _ => None,
        };
    }
    if s[f] == COMMA {
        return tweet_members(s, f + 1, false, aid, atext);
    }
    None
}

fn tweet_elem(s: &[u8], i: usize) -> (r: Option<(u64, Vec<u8>, usize)>)
    requires
        i <= s@.len(),
    ensures
        match spec_tweet_elem(s@, i as int) {
            Some((id, text, e)) => r matches Some((rid, rtext, re)) && rid == id && rtext@
                == text && re == e && i < e <= s@.len(),
            None => r is None,
        },
{
    if i >= s.len() {
        return None;
    }
    if s[i] != LBRACE {
        return None;
    }
    let p = skip_ws(s, i + 1);
    if p >= s.len() {
        return None;
    }
    if s[p] != QUOTE {
        return None;
    }
    let mut key: Vec<u8> = Vec::new();
    let k = match parse_string_body(s, p + 1, &mut key) {
        Some(k) => k,
        None => {
            return None;
        },
    };
    let pat: Vec<u8> = vec![0x74u8, 0x77, 0x65, 0x65, 0x74];
    proof {
        assert(pat@ =~= key_tweet());
        assert(key@ =~= Seq::<u8>::empty() + key@);
    }
    if !bytes_eq(key.as_slice(), pat.as_slice()) {
        return None;
    }
    let c = skip_ws(s, k);
    if c >= s.len() {
        return None;
    }
    if s[c] != COLON {
        return None;
    }
    let v = skip_ws(s, c + 1);
    if v >= s.len() {
        return None;
    }
    if s[v] != LBRACE {
        return None;
    }
    let (id, text, e) = match tweet_members(s, v + 1, true, None, None) {
        Some(r) => r,
        None => {
            return None;
        },
    };
    let f = skip_ws(s, e);
    if f >= s.len() {
        return None;
    }
    if s[f] != RBRACE {
        return None;
    }
    Some((id, text, f + 1))
}

// ------------------------------------------------------------------
// The content element stream and collector
// ------------------------------------------------------------------

/// The context text of a failed pull on the content stream.
pub open spec fn spec_tweet_fail_message(s: Seq<u8>, i: int, first: bool) -> Seq<char> {
    match spec_array_step(s, i, first) {
        ArrayStep::Fail => "`,` or `]` not found"@,
        _ => "malformed tweet element"@,
    }
}

/// What one pull on the content stream yields.
pub enum TweetStep {
    /// An element decoded to this identifier and text; the stream advances
    /// to the held position.
    Yield(u64, Seq<u8>, int),
    /// The closing bracket ended the sequence.
    End(int),
    /// The array shape or the element at this point is broken.
    Fail,
}

pub open spec fn spec_tweet_step(s: Seq<u8>, i: int, first: bool) -> TweetStep {
    match spec_array_step(s, i, first) {
        ArrayStep::Fail => TweetStep::Fail,
        ArrayStep::End(e) => TweetStep::End(e),
        ArrayStep::Elem(p) => match spec_tweet_elem(s, p) {
            Some((id, text, e)) => TweetStep::Yield(id, text, e),
            None => TweetStep::Fail,
        },
    }
}

/// The identifier and text of every element from position `i` to the
/// closing bracket, in their original order.
pub open spec fn spec_tweet_list(s: Seq<u8>, i: int, first: bool) -> Option<Seq<(u64, Seq<u8>)>>
    decreases s.len() - i,
{
    if !(0 <= i <= s.len()) {
        None
    } else {
        match spec_tweet_step(s, i, first) {
            TweetStep::Fail => None,
            TweetStep::End(e) => Some(Seq::empty()),
            TweetStep::Yield(id, text, e) => if i < e <= s.len() {
                match spec_tweet_list(s, e, false) {
                    Some(rest) => Some(seq![(id, text)] + rest),
                    None => None,
                }
            } else {
                None
            },
        }
    }
}

/// The content elements of a whole prefixed archive entry.
pub open spec fn spec_tweets(s: Seq<u8>) -> Option<Seq<(u64, Seq<u8>)>> {
    match spec_find_bracket(s, 0) {
        Some(b) => spec_tweet_list(s, b + 1, true),
        None => None,
    }
}

/// A decoded content element matches one entry of the grammar's list.
pub open spec fn tweet_matches(t: Tweet, p: (u64, Seq<u8>)) -> bool {
    t matches Tweet::One { id, text } && id == p.0 && text@ == p.1
}

/// A lazy, forward-only, non-restartable walk over the content elements of
/// one archive entry. Elements are decoded one at a time as `next` is
/// called; a malformed element surfaces only when it is reached.
pub struct TweetStream {
    /// Current byte position in the entry.
    pub pos: usize,
    /// No element has been consumed yet.
    pub first: bool,
    /// The stream has ended, by the closing bracket or by an error.
    pub done: bool,
}

impl TweetStream {
    /// Opens the stream, skipping the non-JSON prefix up to and including
    /// the first `[`. An entry without `[` is rejected.
    pub fn new(s: &[u8]) -> (r: Result<TweetStream, Error>)
        ensures
            match spec_find_bracket(s@, 0) {
                Some(b) => r matches Ok(st) && st.pos == b + 1 && st.first && !st.done && st.pos
                    <= s@.len(),
                None => r matches Err(e) && (e matches Error::DataFormat { context } && context@
                    == "`[` not found"@),
            },
    {
        proof {
            assert(s@.len() == s.len());
        }
        match find_bracket(s, 0) {
            Some(b) => Ok(TweetStream { pos: b + 1, first: true, done: false }),
            None => Err(invalid_data("`[` not found")),
        }
    }

    /// Pulls the next element. Yields `Ok(Some(..))` for a decoded element,
    /// `Ok(None)` once the closing bracket is reached (and forever after),
    /// and a `DataFormat` error when the entry is broken at the current
    /// position.
    pub fn next(&mut self, s: &[u8]) -> (r: Result<Option<Tweet>, Error>)
        requires
            old(self).pos <= s@.len(),
        ensures
            final(self).pos <= s@.len(),
            old(self).done ==> (*final(self) == *old(self) && (r matches Ok(f) && f is None)),
            !old(self).done ==> ({
                let me = *final(self);
                match spec_tweet_step(s@, old(self).pos as int, old(self).first) {
                    TweetStep::Yield(id, text, e) => r matches Ok(f) && f matches Some(t)
                        && tweet_matches(t, (id, text)) && me.pos == e && !me.first && !me.done
                        && old(self).pos < e,
                    TweetStep::End(e) => r matches Ok(f) && f is None && me.done,
                    TweetStep::Fail => r matches Err(err) && (err matches Error::DataFormat {
                        context,
                    } && context@ == spec_tweet_fail_message(
                        s@,
                        old(self).pos as int,
                        old(self).first,
                    )) && me.done,
                }
            }),
    {
        proof {
            assert(s@.len() == s.len());
        }
        if self.done {
            return Ok(None);
        }
        match array_step(s, self.pos, self.first) {
            Framed::Fail => {
                self.done = true;
                Err(invalid_data("`,` or `]` not found"))
            },
            Framed::End(_) => {
                self.done = true;
                Ok(None)
            },
            Framed::Elem(p) => {
                match tweet_elem(s, p) {
                    Some((id, text, e)) => {
                        self.pos = e;
                        self.first = false;
                        Ok(Some(Tweet::One { id, text }))
                    },
                    None => {
                        self.done = true;
                        Err(invalid_data("malformed tweet element"))
                    },
                }
            },
        }
    }
}

/// Decodes a whole prefixed content entry into its elements, in original
/// order. A well-formed entry of `k` elements yields exactly its `k`
/// decoded elements; the empty array yields the empty list; an entry whose
/// prefix, framing or element shape is broken is rejected.
#[verifier::rlimit(60)]
pub fn extract_tweets(s: &[u8]) -> (r: Result<Vec<Tweet>, Error>)
    ensures
        match spec_tweets(s@) {
            Some(items) => r matches Ok(v) && v@.len() == items.len() && (forall|k: int|
                0 <= k < items.len() ==> tweet_matches(#[trigger] v@[k], items[k])),
            None => r matches Err(e) && e is DataFormat && (spec_find_bracket(s@, 0) is None
                ==> (e matches Error::DataFormat { context } && context@ == "`[` not found"@)),
        },
{
    let mut st = match TweetStream::new(s) {
        Ok(st) => st,
        Err(e) => {
            return Err(e);
        },
    };
    let mut out: Vec<Tweet> = Vec::new();
    loop
        invariant
            st.pos <= s@.len(),
            !st.done,
            spec_find_bracket(s@, 0) is Some,
            match spec_tweet_list(s@, st.pos as int, st.first) {
                Some(rest) => spec_tweets(s@) matches Some(items) && items.len() == out@.len()
                    + rest.len() && (forall|k: int|
                    0 <= k < out@.len() ==> tweet_matches(#[trigger] out@[k], items[k])) && (
                forall|k: int|
                    0 <= k < rest.len() ==> items[out@.len() + k] == #[trigger] rest[k]),
                None => spec_tweets(s@) is None,
            },
        decreases s@.len() - st.pos,
    {
        let ghost old_out = out@;
        let ghost old_pos = st.pos as int;
        let ghost old_first = st.first;
        match st.next(s) {
            Ok(Some(t)) => {
                out.push(t);
                proof {
                    let rest0 = spec_tweet_list(s@, old_pos, old_first);
                    let rest1 = spec_tweet_list(s@, st.pos as int, false);
                    match spec_tweet_step(s@, old_pos, old_first) {
                        TweetStep::Yield(id, text, e) => {
                            match rest1 {
                                Some(r1) => {
                                    let head = seq![(id, text)];
                                    assert(rest0 == Some(head + r1));
                                    assert(out@ =~= old_out.push(t));
                                    let items = spec_tweets(s@)->0;
                                    assert((head + r1).len() == 1 + r1.len());
                                    assert(forall|k: int|
                                        0 <= k < out@.len() ==> tweet_matches(
                                            #[trigger] out@[k],
                                            items[k],
                                        )) by {
                                        assert(forall|k: int|
                                            0 <= k < old_out.len() ==> out@[k] == #[trigger] old_out[k]);
                                        assert((head + r1)[0] == (id, text));
                                        assert(items[old_out.len() as int] == (id, text));
                                        assert(out@[old_out.len() as int] == t);
                                    }
                                    assert(forall|k: int| 0 <= k < r1.len() ==> items[out@.len()
                                        + k] == #[trigger] r1[k]) by {
                                        assert(forall|k: int|
                                            0 <= k < r1.len() ==> (head + r1)[1 + k] == #[trigger] r1[k]);
                                    }
                                },
                                None => {},
                            }
                        },
                        TweetStep::End(_) => {},
                        TweetStep::Fail => {},
                    }
                }
            },
            Ok(None) => {
                return Ok(out);
            },
            Err(e) => {
                return Err(e);
            },
        }
    }
}

// ------------------------------------------------------------------
// Routing decoded content elements
// ------------------------------------------------------------------

/// Text that begins with the retweet marker `"RT @"`.
pub open spec fn is_old_rt(text: Seq<u8>) -> bool {
    text.len() >= 4 && text[0] == 0x52 && text[1] == 0x54 && text[2] == 0x20 && text[3] == 0x40
}

/// Identifiers of the elements that are kept for metric lookup: those whose
/// text does not begin with the retweet marker, in original order.
pub open spec fn spec_kept_ids(items: Seq<Tweet>) -> Seq<u64>
    decreases items.len(),
{
    if items.len() == 0 {
        Seq::empty()
    } else {
        let pre = spec_kept_ids(items.drop_last());
        match items.last() {
            Tweet::One { id, text } => if is_old_rt(text@) {
                pre
            } else {
                pre.push(id)
            },
        }
    }
}

/// Identifiers of the elements routed to the side list: those whose text
/// begins with the retweet marker, in original order.
pub open spec fn spec_rt_ids(items: Seq<Tweet>) -> Seq<u64>
    decreases items.len(),
{
    if items.len() == 0 {
        Seq::empty()
    } else {
        let pre = spec_rt_ids(items.drop_last());
        match items.last() {
            Tweet::One { id, text } => if is_old_rt(text@) {
                pre.push(id)
            } else {
                pre
            },
        }
    }
}

/// The filter-map step applied per decoded content element: content whose
/// text begins with the retweet marker goes to the side list and is
/// excluded from the main identifier list; everything else is kept. Both
/// lists preserve the input order, and every element lands in exactly one.
pub fn route_tweets(tweets: &Vec<Tweet>) -> (r: (Vec<u64>, Vec<u64>))
    ensures
        r.0@ == spec_kept_ids(tweets@),
        r.1@ == spec_rt_ids(tweets@),
{
    let mut kept: Vec<u64> = Vec::new();
    let mut rts: Vec<u64> = Vec::new();
    let n = tweets.len();
    let mut i: usize = 0;
    while i < n
        invariant
            0 <= i <= n,
            n == tweets@.len(),
            kept@ == spec_kept_ids(tweets@.take(i as int)),
            rts@ == spec_rt_ids(tweets@.take(i as int)),
        decreases n - i,
    {
        proof {
            assert(tweets@.take(i + 1).drop_last() =~= tweets@.take(i as int));
            assert(tweets@.take(i + 1).last() == tweets@[i as int]);
        }
        match &tweets[i] {
            Tweet::One { id, text } => {
                if text.len() >= 4 && text[0] == 0x52 && text[1] == 0x54 && text[2] == 0x20
                    && text[3] == 0x40 {
                    rts.push(*id);
                } else {
                    kept.push(*id);
                }
            },
        }
        i += 1;
    }
    proof {
        assert(tweets@.take(i as int) =~= tweets@);
    }
    (kept, rts)
}


} // verus!

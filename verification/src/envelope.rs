//! The response-envelope grammar: the outer `{"data": ...}` shape of every
//! endpoint reply, with the typed records inside.
//!
//! As in `crate::json`, every parser is a `spec` function defining the
//! grammar over the byte sequence, and an executable function proved to
//! return exactly what the `spec` form says. Unknown object members
//! (`meta` among them) are skipped; each required member must occur
//! exactly once; nothing but whitespace may follow the closing brace.

use vstd::prelude::*;

use crate::archive::{spec_array_step, ArrayStep};
use crate::json::{
    bytes_eq, parse_number_at, parse_string_body, skip_value, skip_ws, spec_number_at,
    spec_parse_u64, spec_skip_value, spec_skip_ws, spec_string_body, u64_from_digits, COLON, COMMA,
    LBRACE, LBRACKET, QUOTE, RBRACE,
};

verus! {

/// The member key `"data"`.
pub open spec fn key_data() -> Seq<u8> {
    seq![0x64u8, 0x61, 0x74, 0x61]
}

/// The member key `"id"`.
pub open spec fn key_id() -> Seq<u8> {
    seq![0x69u8, 0x64]
}

/// The member key `"username"`.
pub open spec fn key_username() -> Seq<u8> {
    seq![0x75u8, 0x73, 0x65, 0x72, 0x6E, 0x61, 0x6D, 0x65]
}

/// The member key `"created_at"`.
pub open spec fn key_created_at() -> Seq<u8> {
    seq![0x63u8, 0x72, 0x65, 0x61, 0x74, 0x65, 0x64, 0x5F, 0x61, 0x74]
}

/// The member key `"public_metrics"`.
pub open spec fn key_public_metrics() -> Seq<u8> {
    seq![0x70u8, 0x75, 0x62, 0x6C, 0x69, 0x63, 0x5F, 0x6D, 0x65, 0x74, 0x72, 0x69, 0x63, 0x73]
}

/// The member key `"retweet_count"`.
pub open spec fn key_retweet_count() -> Seq<u8> {
    seq![0x72u8, 0x65, 0x74, 0x77, 0x65, 0x65, 0x74, 0x5F, 0x63, 0x6F, 0x75, 0x6E, 0x74]
}

/// The member key `"reply_count"`.
pub open spec fn key_reply_count() -> Seq<u8> {
    seq![0x72u8, 0x65, 0x70, 0x6C, 0x79, 0x5F, 0x63, 0x6F, 0x75, 0x6E, 0x74]
}

/// The member key `"like_count"`.
pub open spec fn key_like_count() -> Seq<u8> {
    seq![0x6Cu8, 0x69, 0x6B, 0x65, 0x5F, 0x63, 0x6F, 0x75, 0x6E, 0x74]
}

/// The member key `"quote_count"`.
pub open spec fn key_quote_count() -> Seq<u8> {
    seq![0x71u8, 0x75, 0x6F, 0x74, 0x65, 0x5F, 0x63, 0x6F, 0x75, 0x6E, 0x74]
}

/// The member key `"followers_count"`.
pub open spec fn key_followers_count() -> Seq<u8> {
    seq![0x66u8, 0x6F, 0x6C, 0x6C, 0x6F, 0x77, 0x65, 0x72, 0x73, 0x5F, 0x63, 0x6F, 0x75, 0x6E, 0x74]
}

/// The member key `"following_count"`.
pub open spec fn key_following_count() -> Seq<u8> {
    seq![0x66u8, 0x6F, 0x6C, 0x6C, 0x6F, 0x77, 0x69, 0x6E, 0x67, 0x5F, 0x63, 0x6F, 0x75, 0x6E, 0x74]
}

/// Fetched metrics of one content record, as grammar values.
pub type TweetMetS = (u64, u64, u64, u64);

/// One fetched content record: identifier, creation-time text bytes,
/// metrics.
pub type TweetRecS = (u64, Seq<u8>, TweetMetS);

/// One fetched content record, as executable values.
pub type TweetRec = (u64, Vec<u8>, (u64, u64, u64, u64));

/// Fetched metrics of one account record, as grammar values.
pub type UserMetS = (u64, u64);

/// One fetched account record: name bytes and metrics.
pub type UserRecS = (Seq<u8>, UserMetS);

/// One fetched account record, as executable values.
pub type UserRec = (Vec<u8>, (u64, u64));

/// The grammar view of one executable content record.
pub open spec fn trec_view(r: TweetRec) -> TweetRecS {
    (r.0, r.1@, r.2)
}

/// The grammar view of a run of executable content records.
pub open spec fn trecs_view(v: Seq<TweetRec>) -> Seq<TweetRecS> {
    v.map(|k: int, r: TweetRec| trec_view(r))
}

/// The grammar view of one executable account record.
pub open spec fn urec_view(r: UserRec) -> UserRecS {
    (r.0@, r.1)
}

/// The grammar view of a run of executable account records.
pub open spec fn urecs_view(v: Seq<UserRec>) -> Seq<UserRecS> {
    v.map(|k: int, r: UserRec| urec_view(r))
}

pub open spec fn opt_bv(o: Option<Vec<u8>>) -> Option<Seq<u8>> {
    match o {
        Some(v) => Some(v@),
        None => None,
    }
}

pub open spec fn opt_trecs(o: Option<Vec<TweetRec>>) -> Option<Seq<TweetRecS>> {
    match o {
        Some(v) => Some(trecs_view(v@)),
        None => None,
    }
}

pub open spec fn opt_urecs(o: Option<Vec<UserRec>>) -> Option<Seq<UserRecS>> {
    match o {
        Some(v) => Some(urecs_view(v@)),
        None => None,
    }
}

pub open spec fn opt_wpair(o: Option<(Vec<u8>, Vec<u8>)>) -> Option<(Seq<u8>, Seq<u8>)> {
    match o {
        Some(p) => Some((p.0@, p.1@)),
        None => None,
    }
}

/// Members of the metrics object of one content record from position `i` (just past `{` when `first`,
/// just past a `,` otherwise). Each required member occurs exactly
/// once; unknown members are skipped. The explicit bound checks only
/// guard the termination measure and never change the result.
pub open spec fn spec_tmet_members(s: Seq<u8>, i: int, first: bool, a0: Option<u64>, a1: Option<u64>, a2: Option<u64>, a3: Option<u64>) -> Option<(u64, u64, u64, u64, int)>
    decreases s.len() - i, 2int,
{
    if !(0 <= i <= s.len()) {
        None
    } else {
        let p = spec_skip_ws(s, i);
        if !(i <= p <= s.len()) {
            None
        } else if p >= s.len() {
            None
        } else if s[p] == RBRACE && first {
            match (a0, a1, a2, a3) {
                (Some(x0), Some(x1), Some(x2), Some(x3)) => Some((x0, x1, x2, x3, p + 1)),
                _ => None,
            }
        } else if s[p] != QUOTE {
            None
        } else {
            match spec_string_body(s, p + 1) {
                None => None,
                Some((key, k)) => {
                    if !(p < k <= s.len()) {
                        None
                    } else {
                        let c = spec_skip_ws(s, k);
                        if !(k <= c <= s.len()) {
                            None
                        } else if c >= s.len() || s[c] != COLON {
                            None
                        } else {
                            let v = spec_skip_ws(s, c + 1);
                            if !(c < v <= s.len()) {
                                None
                            } else if key == key_retweet_count() {
                                if a0 is Some {
                                    None
                                } else {
                                    match spec_number_at(s, v) {
                                        None => None,
                                        Some((x, e)) => spec_tmet_tail(s, i, e, Some(x), a1, a2, a3),
                                    }
                                }
                            } else if key == key_reply_count() {
                                if a1 is Some {
                                    None
                                } else {
                                    match spec_number_at(s, v) {
                                        None => None,
                                        Some((x, e)) => spec_tmet_tail(s, i, e, a0, Some(x), a2, a3),
                                    }
                                }
                            } else if key == key_like_count() {
                                if a2 is Some {
                                    None
                                } else {
                                    match spec_number_at(s, v) {
                                        None => None,
                                        Some((x, e)) => spec_tmet_tail(s, i, e, a0, a1, Some(x), a3),
                                    }
                                }
                            } else if key == key_quote_count() {
                                if a3 is Some {
                                    None
                                } else {
                                    match spec_number_at(s, v) {
                                        None => None,
                                        Some((x, e)) => spec_tmet_tail(s, i, e, a0, a1, a2, Some(x)),
                                    }
                                }
                            } else {
                                match spec_skip_value(s, v) {
                                    None => None,
                                    Some(e) => spec_tmet_tail(s, i, e, a0, a1, a2, a3),
                                }
                            }
                        }
                    }
                }
            }
        }
    }
}

/// After one member ended at `e`: either the object closes or a `,`
/// introduces the next member.
pub open spec fn spec_tmet_tail(s: Seq<u8>, i: int, e: int, a0: Option<u64>, a1: Option<u64>, a2: Option<u64>, a3: Option<u64>) -> Option<(u64, u64, u64, u64, int)>
    decreases s.len() - i, 1int,
{
    if !(0 <= i < e <= s.len()) {
        None
    } else {
        let f = spec_skip_ws(s, e);
        if !(e <= f <= s.len()) {
            None
        } else if f >= s.len() {
            None
        } else if s[f] == RBRACE {
            match (a0, a1, a2, a3) {
                (Some(x0), Some(x1), Some(x2), Some(x3)) => Some((x0, x1, x2, x3, f + 1)),
                _ => None,
            }
        } else if s[f] == COMMA {
            spec_tmet_again(s, i, f + 1, a0, a1, a2, a3)
        } else {
            None
        }
    }
}

/// Continues the member walk at `j`, clamped for the termination
/// measure.
pub open spec fn spec_tmet_again(s: Seq<u8>, i: int, j: int, a0: Option<u64>, a1: Option<u64>, a2: Option<u64>, a3: Option<u64>) -> Option<(u64, u64, u64, u64, int)>
    decreases s.len() - i, 0int,
{
    if i < j <= s.len() {
        spec_tmet_members(s, j, false, a0, a1, a2, a3)
    } else {
        None
    }
}

fn tmet_members(s: &[u8], i: usize, first: bool, a0: Option<u64>, a1: Option<u64>, a2: Option<u64>, a3: Option<u64>) -> (r: Option<(u64, u64, u64, u64, usize)>)
    requires
        i <= s@.len(),
    ensures
        match spec_tmet_members(s@, i as int, first, a0, a1, a2, a3) {
            Some((x0, x1, x2, x3, e)) => r matches Some((r0, r1, r2, r3, re)) && r0 == x0 && r1 == x1 && r2 == x2 && r3 == x3 && re == e
                && i < e <= s@.len(),
            None => r is None,
        },
    decreases s@.len() - i, 1int,
{
    let p = skip_ws(s, i);
    if p >= s.len() {
        return None;
    }
    if s[p] == RBRACE && first {
        return match (a0, a1, a2, a3) {
            (Some(x0), Some(x1), Some(x2), Some(x3)) => Some((x0, x1, x2, x3, p + 1)),
            _ => None,
        };
    }
    if s[p] != QUOTE {
        return None;
    }
    let mut key: Vec<u8> = Vec::new();
    let k = match parse_string_body(s, p + 1, &mut key) {
        Some(k) => k,
        None => {
            return None;
        },
    };
    let c = skip_ws(s, k);
    if c >= s.len() {
        return None;
    }
    if s[c] != COLON {
        return None;
    }
    let v = skip_ws(s, c + 1);
    let pat0: Vec<u8> = vec![0x72u8, 0x65, 0x74, 0x77, 0x65, 0x65, 0x74, 0x5F, 0x63, 0x6F, 0x75, 0x6E, 0x74];
    let pat1: Vec<u8> = vec![0x72u8, 0x65, 0x70, 0x6C, 0x79, 0x5F, 0x63, 0x6F, 0x75, 0x6E, 0x74];
    let pat2: Vec<u8> = vec![0x6Cu8, 0x69, 0x6B, 0x65, 0x5F, 0x63, 0x6F, 0x75, 0x6E, 0x74];
    let pat3: Vec<u8> = vec![0x71u8, 0x75, 0x6F, 0x74, 0x65, 0x5F, 0x63, 0x6F, 0x75, 0x6E, 0x74];
    proof {
        assert(pat0@ =~= key_retweet_count());
        assert(pat1@ =~= key_reply_count());
        assert(pat2@ =~= key_like_count());
        assert(pat3@ =~= key_quote_count());
        assert(key@ =~= Seq::<u8>::empty() + key@);
    }
    if bytes_eq(key.as_slice(), pat0.as_slice()) {
        if a0.is_some() {
            return None;
        }
        let (x, e) = match parse_number_at(s, v) {
            Some(r) => r,
            None => {
                return None;
            },
        };
        tmet_tail(s, i, e, Some(x), a1, a2, a3)
    } else if bytes_eq(key.as_slice(), pat1.as_slice()) {
        if a1.is_some() {
            return None;
        }
        let (x, e) = match parse_number_at(s, v) {
            Some(r) => r,
            None => {
                return None;
            },
        };
        tmet_tail(s, i, e, a0, Some(x), a2, a3)
    } else if bytes_eq(key.as_slice(), pat2.as_slice()) {
        if a2.is_some() {
            return None;
        }
        let (x, e) = match parse_number_at(s, v) {
            Some(r) => r,
            None => {
                return None;
            },
        };
        tmet_tail(s, i, e, a0, a1, Some(x), a3)
    } else if bytes_eq(key.as_slice(), pat3.as_slice()) {
        if a3.is_some() {
            return None;
        }
        let (x, e) = match parse_number_at(s, v) {
            Some(r) => r,
            None => {
                return None;
            },
        };
        tmet_tail(s, i, e, a0, a1, a2, Some(x))
    } else {
        let e = match skip_value(s, v) {
            Some(e) => e,
            None => {
                return None;
            },
        };
        tmet_tail(s, i, e, a0, a1, a2, a3)
    }
}

fn tmet_tail(s: &[u8], i: usize, e: usize, a0: Option<u64>, a1: Option<u64>, a2: Option<u64>, a3: Option<u64>) -> (r: Option<(u64, u64, u64, u64, usize)>)
    requires
        i < e <= s@.len(),
    ensures
        match spec_tmet_tail(s@, i as int, e as int, a0, a1, a2, a3) {
            Some((x0, x1, x2, x3, q)) => r matches Some((r0, r1, r2, r3, rq)) && r0 == x0 && r1 == x1 && r2 == x2 && r3 == x3 && rq == q
                && i < q <= s@.len(),
            None => r is None,
        },
    decreases s@.len() - i, 0int,
{
    let f = skip_ws(s, e);
    if f >= s.len() {
        return None;
    }
    if s[f] == RBRACE {
        return match (a0, a1, a2, a3) {
            (Some(x0), Some(x1), Some(x2), Some(x3)) => Some((x0, x1, x2, x3, f + 1)),
            _ => None,
        };
    }
    if s[f] == COMMA {
        return tmet_members(s, f + 1, false, a0, a1, a2, a3);
    }
    None
}

/// The metrics object of one content record: an object whose required members are read and whose other
/// members are skipped; yields the grouped values and the position
/// just past the closing brace.
pub open spec fn spec_tmet_obj(s: Seq<u8>, i: int) -> Option<(TweetMetS, int)> {
    if !(0 <= i < s.len()) {
        None
    } else if s[i] != LBRACE {
        None
    } else {
        match spec_tmet_members(s, i + 1, true, None, None, None, None) {
            None => None,
            Some((x0, x1, x2, x3, e)) => Some(((x0, x1, x2, x3), e)),
        }
    }
}

fn tmet_obj(s: &[u8], i: usize) -> (r: Option<((u64, u64, u64, u64), usize)>)
    requires
        i <= s@.len(),
    ensures
        match spec_tmet_obj(s@, i as int) {
            Some((x, e)) => r matches Some((rx, re)) && rx == x && re == e && i < e
                <= s@.len(),
            None => r is None,
        },
{
    if i >= s.len() {
        return None;
    }
    if s[i] != LBRACE {
        return None;
    }
    match tmet_members(s, i + 1, true, None, None, None, None) {
        None => None,
        Some((r0, r1, r2, r3, re)) => Some(((r0, r1, r2, r3), re)),
    }
}

/// Members of one content record from position `i` (just past `{` when `first`,
/// just past a `,` otherwise). Each required member occurs exactly
/// once; unknown members are skipped. The explicit bound checks only
/// guard the termination measure and never change the result.
pub open spec fn spec_trec_members(s: Seq<u8>, i: int, first: bool, a0: Option<u64>, a1: Option<Seq<u8>>, a2: Option<TweetMetS>) -> Option<(u64, Seq<u8>, TweetMetS, int)>
    decreases s.len() - i, 2int,
{
    if !(0 <= i <= s.len()) {
        None
    } else {
        let p = spec_skip_ws(s, i);
        if !(i <= p <= s.len()) {
            None
        } else if p >= s.len() {
            None
        } else if s[p] == RBRACE && first {
            match (a0, a1, a2) {
                (Some(x0), Some(x1), Some(x2)) => Some((x0, x1, x2, p + 1)),
                _ => None,
            }
        } else if s[p] != QUOTE {
            None
        } else {
            match spec_string_body(s, p + 1) {
                None => None,
                Some((key, k)) => {
                    if !(p < k <= s.len()) {
                        None
                    } else {
                        let c = spec_skip_ws(s, k);
                        if !(k <= c <= s.len()) {
                            None
                        } else if c >= s.len() || s[c] != COLON {
                            None
                        } else {
                            let v = spec_skip_ws(s, c + 1);
                            if !(c < v <= s.len()) {
                                None
                            } else if key == key_id() {
                                if a0 is Some {
                                    None
                                } else if v >= s.len() || s[v] != QUOTE {
                                    None
                                } else {
                                    match spec_string_body(s, v + 1) {
                                        None => None,
                                        Some((digits, e)) => match spec_parse_u64(digits) {
                                            None => None,
                                            Some(x) => spec_trec_tail(s, i, e, Some(x), a1, a2),
                                        },
                                    }
                                }
                            } else if key == key_created_at() {
                                if a1 is Some {
                                    None
                                } else if v >= s.len() || s[v] != QUOTE {
                                    None
                                } else {
                                    match spec_string_body(s, v + 1) {
                                        None => None,
                                        Some((txt, e)) => spec_trec_tail(s, i, e, a0, Some(txt), a2),
                                    }
                                }
                            } else if key == key_public_metrics() {
                                if a2 is Some {
                                    None
                                } else {
                                    match spec_tmet_obj(s, v) {
                                        None => None,
                                        Some((x, e)) => spec_trec_tail(s, i, e, a0, a1, Some(x)),
                                    }
                                }
                            } else {
                                match spec_skip_value(s, v) {
                                    None => None,
                                    Some(e) => spec_trec_tail(s, i, e, a0, a1, a2),
                                }
                            }
                        }
                    }
                }
            }
        }
    }
}

/// After one member ended at `e`: either the object closes or a `,`
/// introduces the next member.
pub open spec fn spec_trec_tail(s: Seq<u8>, i: int, e: int, a0: Option<u64>, a1: Option<Seq<u8>>, a2: Option<TweetMetS>) -> Option<(u64, Seq<u8>, TweetMetS, int)>
    decreases s.len() - i, 1int,
{
    if !(0 <= i < e <= s.len()) {
        None
    } else {
        let f = spec_skip_ws(s, e);
        if !(e <= f <= s.len()) {
            None
        } else if f >= s.len() {
            None
        } else if s[f] == RBRACE {
            match (a0, a1, a2) {
                (Some(x0), Some(x1), Some(x2)) => Some((x0, x1, x2, f + 1)),
                _ => None,
            }
        } else if s[f] == COMMA {
            spec_trec_again(s, i, f + 1, a0, a1, a2)
        } else {
            None
        }
    }
}

/// Continues the member walk at `j`, clamped for the termination
/// measure.
pub open spec fn spec_trec_again(s: Seq<u8>, i: int, j: int, a0: Option<u64>, a1: Option<Seq<u8>>, a2: Option<TweetMetS>) -> Option<(u64, Seq<u8>, TweetMetS, int)>
    decreases s.len() - i, 0int,
{
    if i < j <= s.len() {
        spec_trec_members(s, j, false, a0, a1, a2)
    } else {
        None
    }
}

fn trec_members(s: &[u8], i: usize, first: bool, a0: Option<u64>, a1: Option<Vec<u8>>, a2: Option<(u64, u64, u64, u64)>) -> (r: Option<(u64, Vec<u8>, (u64, u64, u64, u64), usize)>)
    requires
        i <= s@.len(),
    ensures
        match spec_trec_members(s@, i as int, first, a0, opt_bv(a1), a2) {
            Some((x0, x1, x2, e)) => r matches Some((r0, r1, r2, re)) && r0 == x0 && r1@ == x1 && r2 == x2 && re == e
                && i < e <= s@.len(),
            None => r is None,
        },
    decreases s@.len() - i, 1int,
{
    let p = skip_ws(s, i);
    if p >= s.len() {
        return None;
    }
    if s[p] == RBRACE && first {
        return match (a0, a1, a2) {
            (Some(x0), Some(x1), Some(x2)) => Some((x0, x1, x2, p + 1)),
            _ => None,
        };
    }
    if s[p] != QUOTE {
        return None;
    }
    let mut key: Vec<u8> = Vec::new();
    let k = match parse_string_body(s, p + 1, &mut key) {
        Some(k) => k,
        None => {
            return None;
        },
    };
    let c = skip_ws(s, k);
    if c >= s.len() {
        return None;
    }
    if s[c] != COLON {
        return None;
    }
    let v = skip_ws(s, c + 1);
    let pat0: Vec<u8> = vec![0x69u8, 0x64];
    let pat1: Vec<u8> = vec![0x63u8, 0x72, 0x65, 0x61, 0x74, 0x65, 0x64, 0x5F, 0x61, 0x74];
    let pat2: Vec<u8> = vec![0x70u8, 0x75, 0x62, 0x6C, 0x69, 0x63, 0x5F, 0x6D, 0x65, 0x74, 0x72, 0x69, 0x63, 0x73];
    proof {
        assert(pat0@ =~= key_id());
        assert(pat1@ =~= key_created_at());
        assert(pat2@ =~= key_public_metrics());
        assert(key@ =~= Seq::<u8>::empty() + key@);
    }
    if bytes_eq(key.as_slice(), pat0.as_slice()) {
        if a0.is_some() {
            return None;
        }
        if v >= s.len() {
            return None;
        }
        if s[v] != QUOTE {
            return None;
        }
        let mut digits: Vec<u8> = Vec::new();
        let e = match parse_string_body(s, v + 1, &mut digits) {
            Some(e) => e,
            None => {
                return None;
            },
        };
        proof {
            assert(digits@ =~= Seq::<u8>::empty() + digits@);
        }
        let x = match u64_from_digits(digits.as_slice()) {
            Some(x) => x,
            None => {
                return None;
            },
        };
        trec_tail(s, i, e, Some(x), a1, a2)
    } else if bytes_eq(key.as_slice(), pat1.as_slice()) {
        if a1.is_some() {
            return None;
        }
        if v >= s.len() {
            return None;
        }
        if s[v] != QUOTE {
            return None;
        }
        let mut txt: Vec<u8> = Vec::new();
        let e = match parse_string_body(s, v + 1, &mut txt) {
            Some(e) => e,
            None => {
                return None;
            },
        };
        proof {
            assert(txt@ =~= Seq::<u8>::empty() + txt@);
        }
        trec_tail(s, i, e, a0, Some(txt), a2)
    } else if bytes_eq(key.as_slice(), pat2.as_slice()) {
        if a2.is_some() {
            return None;
        }
        let (x, e) = match tmet_obj(s, v) {
            Some(r) => r,
            None => {
                return None;
            },
        };
        trec_tail(s, i, e, a0, a1, Some(x))
    } else {
        let e = match skip_value(s, v) {
            Some(e) => e,
            None => {
                return None;
            },
        };
        trec_tail(s, i, e, a0, a1, a2)
    }
}

fn trec_tail(s: &[u8], i: usize, e: usize, a0: Option<u64>, a1: Option<Vec<u8>>, a2: Option<(u64, u64, u64, u64)>) -> (r: Option<(u64, Vec<u8>, (u64, u64, u64, u64), usize)>)
    requires
        i < e <= s@.len(),
    ensures
        match spec_trec_tail(s@, i as int, e as int, a0, opt_bv(a1), a2) {
            Some((x0, x1, x2, q)) => r matches Some((r0, r1, r2, rq)) && r0 == x0 && r1@ == x1 && r2 == x2 && rq == q
                && i < q <= s@.len(),
            None => r is None,
        },
    decreases s@.len() - i, 0int,
{
    let f = skip_ws(s, e);
    if f >= s.len() {
        return None;
    }
    if s[f] == RBRACE {
        return match (a0, a1, a2) {
            (Some(x0), Some(x1), Some(x2)) => Some((x0, x1, x2, f + 1)),
            _ => None,
        };
    }
    if s[f] == COMMA {
        return trec_members(s, f + 1, false, a0, a1, a2);
    }
    None
}

/// One content record: an object whose required members are read and whose other
/// members are skipped; yields the grouped values and the position
/// just past the closing brace.
pub open spec fn spec_trec_obj(s: Seq<u8>, i: int) -> Option<(TweetRecS, int)> {
    if !(0 <= i < s.len()) {
        None
    } else if s[i] != LBRACE {
        None
    } else {
        match spec_trec_members(s, i + 1, true, None, None, None) {
            None => None,
            Some((x0, x1, x2, e)) => Some(((x0, x1, x2), e)),
        }
    }
}

fn trec_obj(s: &[u8], i: usize) -> (r: Option<(TweetRec, usize)>)
    requires
        i <= s@.len(),
    ensures
        match spec_trec_obj(s@, i as int) {
            Some((x, e)) => r matches Some((rx, re)) && trec_view(rx) == x && re == e && i < e
                <= s@.len(),
            None => r is None,
        },
{
    if i >= s.len() {
        return None;
    }
    if s[i] != LBRACE {
        return None;
    }
    match trec_members(s, i + 1, true, None, None, None) {
        None => None,
        Some((r0, r1, r2, re)) => Some(((r0, r1, r2), re)),
    }
}

/// Members of the metrics object of one account record from position `i` (just past `{` when `first`,
/// just past a `,` otherwise). Each required member occurs exactly
/// once; unknown members are skipped. The explicit bound checks only
/// guard the termination measure and never change the result.
pub open spec fn spec_umet_members(s: Seq<u8>, i: int, first: bool, a0: Option<u64>, a1: Option<u64>) -> Option<(u64, u64, int)>
    decreases s.len() - i, 2int,
{
    if !(0 <= i <= s.len()) {
        None
    } else {
        let p = spec_skip_ws(s, i);
        if !(i <= p <= s.len()) {
            None
        } else if p >= s.len() {
            None
        } else if s[p] == RBRACE && first {
            match (a0, a1) {
                (Some(x0), Some(x1)) => Some((x0, x1, p + 1)),
                _ => None,
            }
        } else if s[p] != QUOTE {
            None
        } else {
            match spec_string_body(s, p + 1) {
                None => None,
                Some((key, k)) => {
                    if !(p < k <= s.len()) {
                        None
                    } else {
                        let c = spec_skip_ws(s, k);
                        if !(k <= c <= s.len()) {
                            None
                        } else if c >= s.len() || s[c] != COLON {
                            None
                        } else {
                            let v = spec_skip_ws(s, c + 1);
                            if !(c < v <= s.len()) {
                                None
                            } else if key == key_followers_count() {
                                if a0 is Some {
                                    None
                                } else {
                                    match spec_number_at(s, v) {
                                        None => None,
                                        Some((x, e)) => spec_umet_tail(s, i, e, Some(x), a1),
                                    }
                                }
                            } else if key == key_following_count() {
                                if a1 is Some {
                                    None
                                } else {
                                    match spec_number_at(s, v) {
                                        None => None,
                                        Some((x, e)) => spec_umet_tail(s, i, e, a0, Some(x)),
                                    }
                                }
                            } else {
                                match spec_skip_value(s, v) {
                                    None => None,
                                    Some(e) => spec_umet_tail(s, i, e, a0, a1),
                                }
                            }
                        }
                    }
                }
            }
        }
    }
}

/// After one member ended at `e`: either the object closes or a `,`
/// introduces the next member.
pub open spec fn spec_umet_tail(s: Seq<u8>, i: int, e: int, a0: Option<u64>, a1: Option<u64>) -> Option<(u64, u64, int)>
    decreases s.len() - i, 1int,
{
    if !(0 <= i < e <= s.len()) {
        None
    } else {
        let f = spec_skip_ws(s, e);
        if !(e <= f <= s.len()) {
            None
        } else if f >= s.len() {
            None
        } else if s[f] == RBRACE {
            match (a0, a1) {
                (Some(x0), Some(x1)) => Some((x0, x1, f + 1)),
                _ => None,
            }
        } else if s[f] == COMMA {
            spec_umet_again(s, i, f + 1, a0, a1)
        } else {
            None
        }
    }
}

/// Continues the member walk at `j`, clamped for the termination
/// measure.
pub open spec fn spec_umet_again(s: Seq<u8>, i: int, j: int, a0: Option<u64>, a1: Option<u64>) -> Option<(u64, u64, int)>
    decreases s.len() - i, 0int,
{
    if i < j <= s.len() {
        spec_umet_members(s, j, false, a0, a1)
    } else {
        None
    }
}

fn umet_members(s: &[u8], i: usize, first: bool, a0: Option<u64>, a1: Option<u64>) -> (r: Option<(u64, u64, usize)>)
    requires
        i <= s@.len(),
    ensures
        match spec_umet_members(s@, i as int, first, a0, a1) {
            Some((x0, x1, e)) => r matches Some((r0, r1, re)) && r0 == x0 && r1 == x1 && re == e
                && i < e <= s@.len(),
            None => r is None,
        },
    decreases s@.len() - i, 1int,
{
    let p = skip_ws(s, i);
    if p >= s.len() {
        return None;
    }
    if s[p] == RBRACE && first {
        return match (a0, a1) {
            (Some(x0), Some(x1)) => Some((x0, x1, p + 1)),
            _ => None,
        };
    }
    if s[p] != QUOTE {
        return None;
    }
    let mut key: Vec<u8> = Vec::new();
    let k = match parse_string_body(s, p + 1, &mut key) {
        Some(k) => k,
        None => {
            return None;
        },
    };
    let c = skip_ws(s, k);
    if c >= s.len() {
        return None;
    }
    if s[c] != COLON {
        return None;
    }
    let v = skip_ws(s, c + 1);
    let pat0: Vec<u8> = vec![0x66u8, 0x6F, 0x6C, 0x6C, 0x6F, 0x77, 0x65, 0x72, 0x73, 0x5F, 0x63, 0x6F, 0x75, 0x6E, 0x74];
    let pat1: Vec<u8> = vec![0x66u8, 0x6F, 0x6C, 0x6C, 0x6F, 0x77, 0x69, 0x6E, 0x67, 0x5F, 0x63, 0x6F, 0x75, 0x6E, 0x74];
    proof {
        assert(pat0@ =~= key_followers_count());
        assert(pat1@ =~= key_following_count());
        assert(key@ =~= Seq::<u8>::empty() + key@);
    }
    if bytes_eq(key.as_slice(), pat0.as_slice()) {
        if a0.is_some() {
            return None;
        }
        let (x, e) = match parse_number_at(s, v) {
            Some(r) => r,
            None => {
                return None;
            },
        };
        umet_tail(s, i, e, Some(x), a1)
    } else if bytes_eq(key.as_slice(), pat1.as_slice()) {
        if a1.is_some() {
            return None;
        }
        let (x, e) = match parse_number_at(s, v) {
            Some(r) => r,
            None => {
                return None;
            },
        };
        umet_tail(s, i, e, a0, Some(x))
    } else {
        let e = match skip_value(s, v) {
            Some(e) => e,
            None => {
                return None;
            },
        };
        umet_tail(s, i, e, a0, a1)
    }
}

fn umet_tail(s: &[u8], i: usize, e: usize, a0: Option<u64>, a1: Option<u64>) -> (r: Option<(u64, u64, usize)>)
    requires
        i < e <= s@.len(),
    ensures
        match spec_umet_tail(s@, i as int, e as int, a0, a1) {
            Some((x0, x1, q)) => r matches Some((r0, r1, rq)) && r0 == x0 && r1 == x1 && rq == q
                && i < q <= s@.len(),
            None => r is None,
        },
    decreases s@.len() - i, 0int,
{
    let f = skip_ws(s, e);
    if f >= s.len() {
        return None;
    }
    if s[f] == RBRACE {
        return match (a0, a1) {
            (Some(x0), Some(x1)) => Some((x0, x1, f + 1)),
            _ => None,
        };
    }
    if s[f] == COMMA {
        return umet_members(s, f + 1, false, a0, a1);
    }
    None
}

/// The metrics object of one account record: an object whose required members are read and whose other
/// members are skipped; yields the grouped values and the position
/// just past the closing brace.
pub open spec fn spec_umet_obj(s: Seq<u8>, i: int) -> Option<(UserMetS, int)> {
    if !(0 <= i < s.len()) {
        None
    } else if s[i] != LBRACE {
        None
    } else {
        match spec_umet_members(s, i + 1, true, None, None) {
            None => None,
            Some((x0, x1, e)) => Some(((x0, x1), e)),
        }
    }
}

fn umet_obj(s: &[u8], i: usize) -> (r: Option<((u64, u64), usize)>)
    requires
        i <= s@.len(),
    ensures
        match spec_umet_obj(s@, i as int) {
            Some((x, e)) => r matches Some((rx, re)) && rx == x && re == e && i < e
                <= s@.len(),
            None => r is None,
        },
{
    if i >= s.len() {
        return None;
    }
    if s[i] != LBRACE {
        return None;
    }
    match umet_members(s, i + 1, true, None, None) {
        None => None,
        Some((r0, r1, re)) => Some(((r0, r1), re)),
    }
}

/// Members of one account record from position `i` (just past `{` when `first`,
/// just past a `,` otherwise). Each required member occurs exactly
/// once; unknown members are skipped. The explicit bound checks only
/// guard the termination measure and never change the result.
pub open spec fn spec_urec_members(s: Seq<u8>, i: int, first: bool, a0: Option<Seq<u8>>, a1: Option<UserMetS>) -> Option<(Seq<u8>, UserMetS, int)>
    decreases s.len() - i, 2int,
{
    if !(0 <= i <= s.len()) {
        None
    } else {
        let p = spec_skip_ws(s, i);
        if !(i <= p <= s.len()) {
            None
        } else if p >= s.len() {
            None
        } else if s[p] == RBRACE && first {
            match (a0, a1) {
                (Some(x0), Some(x1)) => Some((x0, x1, p + 1)),
                _ => None,
            }
        } else if s[p] != QUOTE {
            None
        } else {
            match spec_string_body(s, p + 1) {
                None => None,
                Some((key, k)) => {
                    if !(p < k <= s.len()) {
                        None
                    } else {
                        let c = spec_skip_ws(s, k);
                        if !(k <= c <= s.len()) {
                            None
                        } else if c >= s.len() || s[c] != COLON {
                            None
                        } else {
                            let v = spec_skip_ws(s, c + 1);
                            if !(c < v <= s.len()) {
                                None
                            } else if key == key_username() {
                                if a0 is Some {
                                    None
                                } else if v >= s.len() || s[v] != QUOTE {
                                    None
                                } else {
                                    match spec_string_body(s, v + 1) {
                                        None => None,
                                        Some((txt, e)) => spec_urec_tail(s, i, e, Some(txt), a1),
                                    }
                                }
                            } else if key == key_public_metrics() {
                                if a1 is Some {
                                    None
                                } else {
                                    match spec_umet_obj(s, v) {
                                        None => None,
                                        Some((x, e)) => spec_urec_tail(s, i, e, a0, Some(x)),
                                    }
                                }
                            } else {
                                match spec_skip_value(s, v) {
                                    None => None,
                                    Some(e) => spec_urec_tail(s, i, e, a0, a1),
                                }
                            }
                        }
                    }
                }
            }
        }
    }
}

/// After one member ended at `e`: either the object closes or a `,`
/// introduces the next member.
pub open spec fn spec_urec_tail(s: Seq<u8>, i: int, e: int, a0: Option<Seq<u8>>, a1: Option<UserMetS>) -> Option<(Seq<u8>, UserMetS, int)>
    decreases s.len() - i, 1int,
{
    if !(0 <= i < e <= s.len()) {
        None
    } else {
        let f = spec_skip_ws(s, e);
        if !(e <= f <= s.len()) {
            None
        } else if f >= s.len() {
            None
        } else if s[f] == RBRACE {
            match (a0, a1) {
                (Some(x0), Some(x1)) => Some((x0, x1, f + 1)),
                _ => None,
            }
        } else if s[f] == COMMA {
            spec_urec_again(s, i, f + 1, a0, a1)
        } else {
            None
        }
    }
}

/// Continues the member walk at `j`, clamped for the termination
/// measure.
pub open spec fn spec_urec_again(s: Seq<u8>, i: int, j: int, a0: Option<Seq<u8>>, a1: Option<UserMetS>) -> Option<(Seq<u8>, UserMetS, int)>
    decreases s.len() - i, 0int,
{
    if i < j <= s.len() {
        spec_urec_members(s, j, false, a0, a1)
    } else {
        None
    }
}

fn urec_members(s: &[u8], i: usize, first: bool, a0: Option<Vec<u8>>, a1: Option<(u64, u64)>) -> (r: Option<(Vec<u8>, (u64, u64), usize)>)
    requires
        i <= s@.len(),
    ensures
        match spec_urec_members(s@, i as int, first, opt_bv(a0), a1) {
            Some((x0, x1, e)) => r matches Some((r0, r1, re)) && r0@ == x0 && r1 == x1 && re == e
                && i < e <= s@.len(),
            None => r is None,
        },
    decreases s@.len() - i, 1int,
{
    let p = skip_ws(s, i);
    if p >= s.len() {
        return None;
    }
    if s[p] == RBRACE && first {
        return match (a0, a1) {
            (Some(x0), Some(x1)) => Some((x0, x1, p + 1)),
            _ => None,
        };
    }
    if s[p] != QUOTE {
        return None;
    }
    let mut key: Vec<u8> = Vec::new();
    let k = match parse_string_body(s, p + 1, &mut key) {
        Some(k) => k,
        None => {
            return None;
        },
    };
    let c = skip_ws(s, k);
    if c >= s.len() {
        return None;
    }
    if s[c] != COLON {
        return None;
    }
    let v = skip_ws(s, c + 1);
    let pat0: Vec<u8> = vec![0x75u8, 0x73, 0x65, 0x72, 0x6E, 0x61, 0x6D, 0x65];
    let pat1: Vec<u8> = vec![0x70u8, 0x75, 0x62, 0x6C, 0x69, 0x63, 0x5F, 0x6D, 0x65, 0x74, 0x72, 0x69, 0x63, 0x73];
    proof {
        assert(pat0@ =~= key_username());
        assert(pat1@ =~= key_public_metrics());
        assert(key@ =~= Seq::<u8>::empty() + key@);
    }
    if bytes_eq(key.as_slice(), pat0.as_slice()) {
        if a0.is_some() {
            return None;
        }
        if v >= s.len() {
            return None;
        }
        if s[v] != QUOTE {
            return None;
        }
        let mut txt: Vec<u8> = Vec::new();
        let e = match parse_string_body(s, v + 1, &mut txt) {
            Some(e) => e,
            None => {
                return None;
            },
        };
        proof {
            assert(txt@ =~= Seq::<u8>::empty() + txt@);
        }
        urec_tail(s, i, e, Some(txt), a1)
    } else if bytes_eq(key.as_slice(), pat1.as_slice()) {
        if a1.is_some() {
            return None;
        }
        let (x, e) = match umet_obj(s, v) {
            Some(r) => r,
            None => {
                return None;
            },
        };
        urec_tail(s, i, e, a0, Some(x))
    } else {
        let e = match skip_value(s, v) {
            Some(e) => e,
            None => {
                return None;
            },
        };
        urec_tail(s, i, e, a0, a1)
    }
}

fn urec_tail(s: &[u8], i: usize, e: usize, a0: Option<Vec<u8>>, a1: Option<(u64, u64)>) -> (r: Option<(Vec<u8>, (u64, u64), usize)>)
    requires
        i < e <= s@.len(),
    ensures
        match spec_urec_tail(s@, i as int, e as int, opt_bv(a0), a1) {
            Some((x0, x1, q)) => r matches Some((r0, r1, rq)) && r0@ == x0 && r1 == x1 && rq == q
                && i < q <= s@.len(),
            None => r is None,
        },
    decreases s@.len() - i, 0int,
{
    let f = skip_ws(s, e);
    if f >= s.len() {
        return None;
    }
    if s[f] == RBRACE {
        return match (a0, a1) {
            (Some(x0), Some(x1)) => Some((x0, x1, f + 1)),
            _ => None,
        };
    }
    if s[f] == COMMA {
        return urec_members(s, f + 1, false, a0, a1);
    }
    None
}

/// One account record: an object whose required members are read and whose other
/// members are skipped; yields the grouped values and the position
/// just past the closing brace.
pub open spec fn spec_urec_obj(s: Seq<u8>, i: int) -> Option<(UserRecS, int)> {
    if !(0 <= i < s.len()) {
        None
    } else if s[i] != LBRACE {
        None
    } else {
        match spec_urec_members(s, i + 1, true, None, None) {
            None => None,
            Some((x0, x1, e)) => Some(((x0, x1), e)),
        }
    }
}

fn urec_obj(s: &[u8], i: usize) -> (r: Option<(UserRec, usize)>)
    requires
        i <= s@.len(),
    ensures
        match spec_urec_obj(s@, i as int) {
            Some((x, e)) => r matches Some((rx, re)) && urec_view(rx) == x && re == e && i < e
                <= s@.len(),
            None => r is None,
        },
{
    if i >= s.len() {
        return None;
    }
    if s[i] != LBRACE {
        return None;
    }
    match urec_members(s, i + 1, true, None, None) {
        None => None,
        Some((r0, r1, re)) => Some(((r0, r1), re)),
    }
}

/// Members of the caller-identity object from position `i` (just past `{` when `first`,
/// just past a `,` otherwise). Each required member occurs exactly
/// once; unknown members are skipped. The explicit bound checks only
/// guard the termination measure and never change the result.
pub open spec fn spec_wdata_members(s: Seq<u8>, i: int, first: bool, a0: Option<Seq<u8>>, a1: Option<Seq<u8>>) -> Option<(Seq<u8>, Seq<u8>, int)>
    decreases s.len() - i, 2int,
{
    if !(0 <= i <= s.len()) {
        None
    } else {
        let p = spec_skip_ws(s, i);
        if !(i <= p <= s.len()) {
            None
        } else if p >= s.len() {
            None
        } else if s[p] == RBRACE && first {
            match (a0, a1) {
                (Some(x0), Some(x1)) => Some((x0, x1, p + 1)),
                _ => None,
            }
        } else if s[p] != QUOTE {
            None
        } else {
            match spec_string_body(s, p + 1) {
                None => None,
                Some((key, k)) => {
                    if !(p < k <= s.len()) {
                        None
                    } else {
                        let c = spec_skip_ws(s, k);
                        if !(k <= c <= s.len()) {
                            None
                        } else if c >= s.len() || s[c] != COLON {
                            None
                        } else {
                            let v = spec_skip_ws(s, c + 1);
                            if !(c < v <= s.len()) {
                                None
                            } else if key == key_id() {
                                if a0 is Some {
                                    None
                                } else if v >= s.len() || s[v] != QUOTE {
                                    None
                                } else {
                                    match spec_string_body(s, v + 1) {
                                        None => None,
                                        Some((txt, e)) => spec_wdata_tail(s, i, e, Some(txt), a1),
                                    }
                                }
                            } else if key == key_username() {
                                if a1 is Some {
                                    None
                                } else if v >= s.len() || s[v] != QUOTE {
                                    None
                                } else {
                                    match spec_string_body(s, v + 1) {
                                        None => None,
                                        Some((txt, e)) => spec_wdata_tail(s, i, e, a0, Some(txt)),
                                    }
                                }
                            } else {
                                match spec_skip_value(s, v) {
                                    None => None,
                                    Some(e) => spec_wdata_tail(s, i, e, a0, a1),
                                }
                            }
                        }
                    }
                }
            }
        }
    }
}

/// After one member ended at `e`: either the object closes or a `,`
/// introduces the next member.
pub open spec fn spec_wdata_tail(s: Seq<u8>, i: int, e: int, a0: Option<Seq<u8>>, a1: Option<Seq<u8>>) -> Option<(Seq<u8>, Seq<u8>, int)>
    decreases s.len() - i, 1int,
{
    if !(0 <= i < e <= s.len()) {
        None
    } else {
        let f = spec_skip_ws(s, e);
        if !(e <= f <= s.len()) {
            None
        } else if f >= s.len() {
            None
        } else if s[f] == RBRACE {
            match (a0, a1) {
                (Some(x0), Some(x1)) => Some((x0, x1, f + 1)),
                _ => None,
            }
        } else if s[f] == COMMA {
            spec_wdata_again(s, i, f + 1, a0, a1)
        } else {
            None
        }
    }
}

/// Continues the member walk at `j`, clamped for the termination
/// measure.
pub open spec fn spec_wdata_again(s: Seq<u8>, i: int, j: int, a0: Option<Seq<u8>>, a1: Option<Seq<u8>>) -> Option<(Seq<u8>, Seq<u8>, int)>
    decreases s.len() - i, 0int,
{
    if i < j <= s.len() {
        spec_wdata_members(s, j, false, a0, a1)
    } else {
        None
    }
}

fn wdata_members(s: &[u8], i: usize, first: bool, a0: Option<Vec<u8>>, a1: Option<Vec<u8>>) -> (r: Option<(Vec<u8>, Vec<u8>, usize)>)
    requires
        i <= s@.len(),
    ensures
        match spec_wdata_members(s@, i as int, first, opt_bv(a0), opt_bv(a1)) {
            Some((x0, x1, e)) => r matches Some((r0, r1, re)) && r0@ == x0 && r1@ == x1 && re == e
                && i < e <= s@.len(),
            None => r is None,
        },
    decreases s@.len() - i, 1int,
{
    let p = skip_ws(s, i);
    if p >= s.len() {
        return None;
    }
    if s[p] == RBRACE && first {
        return match (a0, a1) {
            (Some(x0), Some(x1)) => Some((x0, x1, p + 1)),
            _ => None,
        };
    }
    if s[p] != QUOTE {
        return None;
    }
    let mut key: Vec<u8> = Vec::new();
    let k = match parse_string_body(s, p + 1, &mut key) {
        Some(k) => k,
        None => {
            return None;
        },
    };
    let c = skip_ws(s, k);
    if c >= s.len() {
        return None;
    }
    if s[c] != COLON {
        return None;
    }
    let v = skip_ws(s, c + 1);
    let pat0: Vec<u8> = vec![0x69u8, 0x64];
    let pat1: Vec<u8> = vec![0x75u8, 0x73, 0x65, 0x72, 0x6E, 0x61, 0x6D, 0x65];
    proof {
        assert(pat0@ =~= key_id());
        assert(pat1@ =~= key_username());
        assert(key@ =~= Seq::<u8>::empty() + key@);
    }
    if bytes_eq(key.as_slice(), pat0.as_slice()) {
        if a0.is_some() {
            return None;
        }
        if v >= s.len() {
            return None;
        }
        if s[v] != QUOTE {
            return None;
        }
        let mut txt: Vec<u8> = Vec::new();
        let e = match parse_string_body(s, v + 1, &mut txt) {
            Some(e) => e,
            None => {
                return None;
            },
        };
        proof {
            assert(txt@ =~= Seq::<u8>::empty() + txt@);
        }
        wdata_tail(s, i, e, Some(txt), a1)
    } else if bytes_eq(key.as_slice(), pat1.as_slice()) {
        if a1.is_some() {
            return None;
        }
        if v >= s.len() {
            return None;
        }
        if s[v] != QUOTE {
            return None;
        }
        let mut txt: Vec<u8> = Vec::new();
        let e = match parse_string_body(s, v + 1, &mut txt) {
            Some(e) => e,
            None => {
                return None;
            },
        };
        proof {
            assert(txt@ =~= Seq::<u8>::empty() + txt@);
        }
        wdata_tail(s, i, e, a0, Some(txt))
    } else {
        let e = match skip_value(s, v) {
            Some(e) => e,
            None => {
                return None;
            },
        };
        wdata_tail(s, i, e, a0, a1)
    }
}

fn wdata_tail(s: &[u8], i: usize, e: usize, a0: Option<Vec<u8>>, a1: Option<Vec<u8>>) -> (r: Option<(Vec<u8>, Vec<u8>, usize)>)
    requires
        i < e <= s@.len(),
    ensures
        match spec_wdata_tail(s@, i as int, e as int, opt_bv(a0), opt_bv(a1)) {
            Some((x0, x1, q)) => r matches Some((r0, r1, rq)) && r0@ == x0 && r1@ == x1 && rq == q
                && i < q <= s@.len(),
            None => r is None,
        },
    decreases s@.len() - i, 0int,
{
    let f = skip_ws(s, e);
    if f >= s.len() {
        return None;
    }
    if s[f] == RBRACE {
        return match (a0, a1) {
            (Some(x0), Some(x1)) => Some((x0, x1, f + 1)),
            _ => None,
        };
    }
    if s[f] == COMMA {
        return wdata_members(s, f + 1, false, a0, a1);
    }
    None
}

/// The caller-identity object: an object whose required members are read and whose other
/// members are skipped; yields the grouped values and the position
/// just past the closing brace.
pub open spec fn spec_wdata_obj(s: Seq<u8>, i: int) -> Option<((Seq<u8>, Seq<u8>), int)> {
    if !(0 <= i < s.len()) {
        None
    } else if s[i] != LBRACE {
        None
    } else {
        match spec_wdata_members(s, i + 1, true, None, None) {
            None => None,
            Some((x0, x1, e)) => Some(((x0, x1), e)),
        }
    }
}

fn wdata_obj(s: &[u8], i: usize) -> (r: Option<((Vec<u8>, Vec<u8>), usize)>)
    requires
        i <= s@.len(),
    ensures
        match spec_wdata_obj(s@, i as int) {
            Some((x, e)) => r matches Some((rx, re)) && rx.0@ == x.0 && rx.1@ == x.1 && re == e && i < e
                <= s@.len(),
            None => r is None,
        },
{
    if i >= s.len() {
        return None;
    }
    if s[i] != LBRACE {
        return None;
    }
    match wdata_members(s, i + 1, true, None, None) {
        None => None,
        Some((r0, r1, re)) => Some(((r0, r1), re)),
    }
}

/// The content records of the envelope's payload array, from position `i` (just past the `[` when `first`) to just
/// past the closing bracket, in original order.
pub open spec fn spec_tlist(s: Seq<u8>, i: int, first: bool) -> Option<(Seq<TweetRecS>, int)>
    decreases s.len() - i,
{
    if !(0 <= i <= s.len()) {
        None
    } else {
        match spec_array_step(s, i, first) {
            ArrayStep::Fail => None,
            ArrayStep::End(e) => if i < e <= s.len() {
                Some((Seq::empty(), e))
            } else {
                None
            },
            ArrayStep::Elem(p) => match spec_trec_obj(s, p) {
                None => None,
                Some((rec, e)) => if i < e <= s.len() {
                    match spec_tlist(s, e, false) {
                        None => None,
                        Some((rest, end)) => Some((seq![rec] + rest, end)),
                    }
                } else {
                    None
                },
            },
        }
    }
}

#[verifier::rlimit(60)]
fn tlist(s: &[u8], i: usize) -> (r: Option<(Vec<TweetRec>, usize)>)
    requires
        i <= s@.len(),
    ensures
        match spec_tlist(s@, i as int, true) {
            Some((recs, end)) => r matches Some((v, rend)) && trecs_view(v@) == recs && rend
                == end && i < end <= s@.len(),
            None => r is None,
        },
{
    let mut out: Vec<TweetRec> = Vec::new();
    let mut pos = i;
    let mut first = true;
    proof {
        match spec_tlist(s@, i as int, true) {
            Some((recs, end)) => {
                assert(Seq::<TweetRecS>::empty() + recs =~= recs);
                assert(trecs_view(out@) =~= Seq::<TweetRecS>::empty());
            },
            None => {},
        }
    }
    loop
        invariant
            i <= pos <= s@.len(),
            match spec_tlist(s@, pos as int, first) {
                Some((rest, end)) => spec_tlist(s@, i as int, true) matches Some(
                    (recs, end0),
                ) && end0 == end && recs == trecs_view(out@) + rest,
                None => spec_tlist(s@, i as int, true) is None,
            },
        decreases s@.len() - pos,
    {
        match crate::archive::array_step(s, pos, first) {
            crate::archive::Framed::Fail => {
                return None;
            },
            crate::archive::Framed::End(e) => {
                proof {
                    assert(trecs_view(out@) + Seq::<TweetRecS>::empty() =~= trecs_view(
                        out@,
                    ));
                }
                return Some((out, e));
            },
            crate::archive::Framed::Elem(p) => {
                match trec_obj(s, p) {
                    None => {
                        return None;
                    },
                    Some((rec, e)) => {
                        let ghost oldv = out@;
                        out.push(rec);
                        proof {
                            let rs = trec_view(rec);
                            assert(trecs_view(out@) =~= trecs_view(oldv).push(rs));
                            match spec_tlist(s@, e as int, false) {
                                Some((rest1, end1)) => {
                                    assert(trecs_view(oldv) + (seq![rs] + rest1) =~= (
                                    trecs_view(oldv).push(rs)) + rest1);
                                },
                                None => {},
                            }
                        }
                        pos = e;
                        first = false;
                    },
                }
            },
        }
    }
}

/// The account records of the envelope's payload array, from position `i` (just past the `[` when `first`) to just
/// past the closing bracket, in original order.
pub open spec fn spec_ulist(s: Seq<u8>, i: int, first: bool) -> Option<(Seq<UserRecS>, int)>
    decreases s.len() - i,
{
    if !(0 <= i <= s.len()) {
        None
    } else {
        match spec_array_step(s, i, first) {
            ArrayStep::Fail => None,
            ArrayStep::End(e) => if i < e <= s.len() {
                Some((Seq::empty(), e))
            } else {
                None
            },
            ArrayStep::Elem(p) => match spec_urec_obj(s, p) {
                None => None,
                Some((rec, e)) => if i < e <= s.len() {
                    match spec_ulist(s, e, false) {
                        None => None,
                        Some((rest, end)) => Some((seq![rec] + rest, end)),
                    }
                } else {
                    None
                },
            },
        }
    }
}

#[verifier::rlimit(60)]
fn ulist(s: &[u8], i: usize) -> (r: Option<(Vec<UserRec>, usize)>)
    requires
        i <= s@.len(),
    ensures
        match spec_ulist(s@, i as int, true) {
            Some((recs, end)) => r matches Some((v, rend)) && urecs_view(v@) == recs && rend
                == end && i < end <= s@.len(),
            None => r is None,
        },
{
    let mut out: Vec<UserRec> = Vec::new();
    let mut pos = i;
    let mut first = true;
    proof {
        match spec_ulist(s@, i as int, true) {
            Some((recs, end)) => {
                assert(Seq::<UserRecS>::empty() + recs =~= recs);
                assert(urecs_view(out@) =~= Seq::<UserRecS>::empty());
            },
            None => {},
        }
    }
    loop
        invariant
            i <= pos <= s@.len(),
            match spec_ulist(s@, pos as int, first) {
                Some((rest, end)) => spec_ulist(s@, i as int, true) matches Some(
                    (recs, end0),
                ) && end0 == end && recs == urecs_view(out@) + rest,
                None => spec_ulist(s@, i as int, true) is None,
            },
        decreases s@.len() - pos,
    {
        match crate::archive::array_step(s, pos, first) {
            crate::archive::Framed::Fail => {
                return None;
            },
            crate::archive::Framed::End(e) => {
                proof {
                    assert(urecs_view(out@) + Seq::<UserRecS>::empty() =~= urecs_view(
                        out@,
                    ));
                }
                return Some((out, e));
            },
            crate::archive::Framed::Elem(p) => {
                match urec_obj(s, p) {
                    None => {
                        return None;
                    },
                    Some((rec, e)) => {
                        let ghost oldv = out@;
                        out.push(rec);
                        proof {
                            let rs = urec_view(rec);
                            assert(urecs_view(out@) =~= urecs_view(oldv).push(rs));
                            match spec_ulist(s@, e as int, false) {
                                Some((rest1, end1)) => {
                                    assert(urecs_view(oldv) + (seq![rs] + rest1) =~= (
                                    urecs_view(oldv).push(rs)) + rest1);
                                },
                                None => {},
                            }
                        }
                        pos = e;
                        first = false;
                    },
                }
            },
        }
    }
}

/// The `data` payload: an array of records starting at `i`.
pub open spec fn spec_tdata(s: Seq<u8>, i: int) -> Option<(Seq<TweetRecS>, int)> {
    if !(0 <= i < s.len()) {
        None
    } else if s[i] != LBRACKET {
        None
    } else {
        match spec_tlist(s, i + 1, true) {
            None => None,
            Some((recs, e)) => Some((recs, e)),
        }
    }
}

fn tdata(s: &[u8], i: usize) -> (r: Option<(Vec<TweetRec>, usize)>)
    requires
        i <= s@.len(),
    ensures
        match spec_tdata(s@, i as int) {
            Some((x, e)) => r matches Some((rx, re)) && trecs_view(rx@) == x && re == e && i < e
                <= s@.len(),
            None => r is None,
        },
{
    if i >= s.len() {
        return None;
    }
    if s[i] != LBRACKET {
        return None;
    }
    match tlist(s, i + 1) {
        None => None,
        Some((v, e)) => Some((v, e)),
    }
}

/// The `data` payload: an array of records starting at `i`.
pub open spec fn spec_udata(s: Seq<u8>, i: int) -> Option<(Seq<UserRecS>, int)> {
    if !(0 <= i < s.len()) {
        None
    } else if s[i] != LBRACKET {
        None
    } else {
        match spec_ulist(s, i + 1, true) {
            None => None,
            Some((recs, e)) => Some((recs, e)),
        }
    }
}

fn udata(s: &[u8], i: usize) -> (r: Option<(Vec<UserRec>, usize)>)
    requires
        i <= s@.len(),
    ensures
        match spec_udata(s@, i as int) {
            Some((x, e)) => r matches Some((rx, re)) && urecs_view(rx@) == x && re == e && i < e
                <= s@.len(),
            None => r is None,
        },
{
    if i >= s.len() {
        return None;
    }
    if s[i] != LBRACKET {
        return None;
    }
    match ulist(s, i + 1) {
        None => None,
        Some((v, e)) => Some((v, e)),
    }
}

/// Members of the content-lookup response envelope from position `i` (just past `{` when `first`,
/// just past a `,` otherwise). Each required member occurs exactly
/// once; unknown members are skipped. The explicit bound checks only
/// guard the termination measure and never change the result.
pub open spec fn spec_tenv_members(s: Seq<u8>, i: int, first: bool, a0: Option<Seq<TweetRecS>>) -> Option<(Seq<TweetRecS>, int)>
    decreases s.len() - i, 2int,
{
    if !(0 <= i <= s.len()) {
        None
    } else {
        let p = spec_skip_ws(s, i);
        if !(i <= p <= s.len()) {
            None
        } else if p >= s.len() {
            None
        } else if s[p] == RBRACE && first {
            match (a0) {
                (Some(x0)) => Some((x0, p + 1)),
                _ => None,
            }
        } else if s[p] != QUOTE {
            None
        } else {
            match spec_string_body(s, p + 1) {
                None => None,
                Some((key, k)) => {
                    if !(p < k <= s.len()) {
                        None
                    } else {
                        let c = spec_skip_ws(s, k);
                        if !(k <= c <= s.len()) {
                            None
                        } else if c >= s.len() || s[c] != COLON {
                            None
                        } else {
                            let v = spec_skip_ws(s, c + 1);
                            if !(c < v <= s.len()) {
                                None
                            } else if key == key_data() {
                                if a0 is Some {
                                    None
                                } else {
                                    match spec_tdata(s, v) {
                                        None => None,
                                        Some((x, e)) => spec_tenv_tail(s, i, e, Some(x)),
                                    }
                                }
                            } else {
                                match spec_skip_value(s, v) {
                                    None => None,
                                    Some(e) => spec_tenv_tail(s, i, e, a0),
                                }
                            }
                        }
                    }
                }
            }
        }
    }
}

/// After one member ended at `e`: either the object closes or a `,`
/// introduces the next member.
pub open spec fn spec_tenv_tail(s: Seq<u8>, i: int, e: int, a0: Option<Seq<TweetRecS>>) -> Option<(Seq<TweetRecS>, int)>
    decreases s.len() - i, 1int,
{
    if !(0 <= i < e <= s.len()) {
        None
    } else {
        let f = spec_skip_ws(s, e);
        if !(e <= f <= s.len()) {
            None
        } else if f >= s.len() {
            None
        } else if s[f] == RBRACE {
            match (a0) {
                (Some(x0)) => Some((x0, f + 1)),
                _ => None,
            }
        } else if s[f] == COMMA {
            spec_tenv_again(s, i, f + 1, a0)
        } else {
            None
        }
    }
}

/// Continues the member walk at `j`, clamped for the termination
/// measure.
pub open spec fn spec_tenv_again(s: Seq<u8>, i: int, j: int, a0: Option<Seq<TweetRecS>>) -> Option<(Seq<TweetRecS>, int)>
    decreases s.len() - i, 0int,
{
    if i < j <= s.len() {
        spec_tenv_members(s, j, false, a0)
    } else {
        None
    }
}

fn tenv_members(s: &[u8], i: usize, first: bool, a0: Option<Vec<TweetRec>>) -> (r: Option<(Vec<TweetRec>, usize)>)
    requires
        i <= s@.len(),
    ensures
        match spec_tenv_members(s@, i as int, first, opt_trecs(a0)) {
            Some((x0, e)) => r matches Some((r0, re)) && trecs_view(r0@) == x0 && re == e
                && i < e <= s@.len(),
            None => r is None,
        },
    decreases s@.len() - i, 1int,
{
    let p = skip_ws(s, i);
    if p >= s.len() {
        return None;
    }
    if s[p] == RBRACE && first {
        return match (a0) {
            (Some(x0)) => Some((x0, p + 1)),
            _ => None,
        };
    }
    if s[p] != QUOTE {
        return None;
    }
    let mut key: Vec<u8> = Vec::new();
    let k = match parse_string_body(s, p + 1, &mut key) {
        Some(k) => k,
        None => {
            return None;
        },
    };
    let c = skip_ws(s, k);
    if c >= s.len() {
        return None;
    }
    if s[c] != COLON {
        return None;
    }
    let v = skip_ws(s, c + 1);
    let pat0: Vec<u8> = vec![0x64u8, 0x61, 0x74, 0x61];
    proof {
        assert(pat0@ =~= key_data());
        assert(key@ =~= Seq::<u8>::empty() + key@);
    }
    if bytes_eq(key.as_slice(), pat0.as_slice()) {
        if a0.is_some() {
            return None;
        }
        let (x, e) = match tdata(s, v) {
            Some(r) => r,
            None => {
                return None;
            },
        };
        tenv_tail(s, i, e, Some(x))
    } else {
        let e = match skip_value(s, v) {
            Some(e) => e,
            None => {
                return None;
            },
        };
        tenv_tail(s, i, e, a0)
    }
}

fn tenv_tail(s: &[u8], i: usize, e: usize, a0: Option<Vec<TweetRec>>) -> (r: Option<(Vec<TweetRec>, usize)>)
    requires
        i < e <= s@.len(),
    ensures
        match spec_tenv_tail(s@, i as int, e as int, opt_trecs(a0)) {
            Some((x0, q)) => r matches Some((r0, rq)) && trecs_view(r0@) == x0 && rq == q
                && i < q <= s@.len(),
            None => r is None,
        },
    decreases s@.len() - i, 0int,
{
    let f = skip_ws(s, e);
    if f >= s.len() {
        return None;
    }
    if s[f] == RBRACE {
        return match (a0) {
            (Some(x0)) => Some((x0, f + 1)),
            _ => None,
        };
    }
    if s[f] == COMMA {
        return tenv_members(s, f + 1, false, a0);
    }
    None
}

/// Members of the account-lookup response envelope from position `i` (just past `{` when `first`,
/// just past a `,` otherwise). Each required member occurs exactly
/// once; unknown members are skipped. The explicit bound checks only
/// guard the termination measure and never change the result.
pub open spec fn spec_uenv_members(s: Seq<u8>, i: int, first: bool, a0: Option<Seq<UserRecS>>) -> Option<(Seq<UserRecS>, int)>
    decreases s.len() - i, 2int,
{
    if !(0 <= i <= s.len()) {
        None
    } else {
        let p = spec_skip_ws(s, i);
        if !(i <= p <= s.len()) {
            None
        } else if p >= s.len() {
            None
        } else if s[p] == RBRACE && first {
            match (a0) {
                (Some(x0)) => Some((x0, p + 1)),
                _ => None,
            }
        } else if s[p] != QUOTE {
            None
        } else {
            match spec_string_body(s, p + 1) {
                None => None,
                Some((key, k)) => {
                    if !(p < k <= s.len()) {
                        None
                    } else {
                        let c = spec_skip_ws(s, k);
                        if !(k <= c <= s.len()) {
                            None
                        } else if c >= s.len() || s[c] != COLON {
                            None
                        } else {
                            let v = spec_skip_ws(s, c + 1);
                            if !(c < v <= s.len()) {
                                None
                            } else if key == key_data() {
                                if a0 is Some {
                                    None
                                } else {
                                    match spec_udata(s, v) {
                                        None => None,
                                        Some((x, e)) => spec_uenv_tail(s, i, e, Some(x)),
                                    }
                                }
                            } else {
                                match spec_skip_value(s, v) {
                                    None => None,
                                    Some(e) => spec_uenv_tail(s, i, e, a0),
                                }
                            }
                        }
                    }
                }
            }
        }
    }
}

/// After one member ended at `e`: either the object closes or a `,`
/// introduces the next member.
pub open spec fn spec_uenv_tail(s: Seq<u8>, i: int, e: int, a0: Option<Seq<UserRecS>>) -> Option<(Seq<UserRecS>, int)>
    decreases s.len() - i, 1int,
{
    if !(0 <= i < e <= s.len()) {
        None
    } else {
        let f = spec_skip_ws(s, e);
        if !(e <= f <= s.len()) {
            None
        } else if f >= s.len() {
            None
        } else if s[f] == RBRACE {
            match (a0) {
                (Some(x0)) => Some((x0, f + 1)),
                _ => None,
            }
        } else if s[f] == COMMA {
            spec_uenv_again(s, i, f + 1, a0)
        } else {
            None
        }
    }
}

/// Continues the member walk at `j`, clamped for the termination
/// measure.
pub open spec fn spec_uenv_again(s: Seq<u8>, i: int, j: int, a0: Option<Seq<UserRecS>>) -> Option<(Seq<UserRecS>, int)>
    decreases s.len() - i, 0int,
{
    if i < j <= s.len() {
        spec_uenv_members(s, j, false, a0)
    } else {
        None
    }
}

fn uenv_members(s: &[u8], i: usize, first: bool, a0: Option<Vec<UserRec>>) -> (r: Option<(Vec<UserRec>, usize)>)
    requires
        i <= s@.len(),
    ensures
        match spec_uenv_members(s@, i as int, first, opt_urecs(a0)) {
            Some((x0, e)) => r matches Some((r0, re)) && urecs_view(r0@) == x0 && re == e
                && i < e <= s@.len(),
            None => r is None,
        },
    decreases s@.len() - i, 1int,
{
    let p = skip_ws(s, i);
    if p >= s.len() {
        return None;
    }
    if s[p] == RBRACE && first {
        return match (a0) {
            (Some(x0)) => Some((x0, p + 1)),
            _ => None,
        };
    }
    if s[p] != QUOTE {
        return None;
    }
    let mut key: Vec<u8> = Vec::new();
    let k = match parse_string_body(s, p + 1, &mut key) {
        Some(k) => k,
        None => {
            return None;
        },
    };
    let c = skip_ws(s, k);
    if c >= s.len() {
        return None;
    }
    if s[c] != COLON {
        return None;
    }
    let v = skip_ws(s, c + 1);
    let pat0: Vec<u8> = vec![0x64u8, 0x61, 0x74, 0x61];
    proof {
        assert(pat0@ =~= key_data());
        assert(key@ =~= Seq::<u8>::empty() + key@);
    }
    if bytes_eq(key.as_slice(), pat0.as_slice()) {
        if a0.is_some() {
            return None;
        }
        let (x, e) = match udata(s, v) {
            Some(r) => r,
            None => {
                return None;
            },
        };
        uenv_tail(s, i, e, Some(x))
    } else {
        let e = match skip_value(s, v) {
            Some(e) => e,
            None => {
                return None;
            },
        };
        uenv_tail(s, i, e, a0)
    }
}

fn uenv_tail(s: &[u8], i: usize, e: usize, a0: Option<Vec<UserRec>>) -> (r: Option<(Vec<UserRec>, usize)>)
    requires
        i < e <= s@.len(),
    ensures
        match spec_uenv_tail(s@, i as int, e as int, opt_urecs(a0)) {
            Some((x0, q)) => r matches Some((r0, rq)) && urecs_view(r0@) == x0 && rq == q
                && i < q <= s@.len(),
            None => r is None,
        },
    decreases s@.len() - i, 0int,
{
    let f = skip_ws(s, e);
    if f >= s.len() {
        return None;
    }
    if s[f] == RBRACE {
        return match (a0) {
            (Some(x0)) => Some((x0, f + 1)),
            _ => None,
        };
    }
    if s[f] == COMMA {
        return uenv_members(s, f + 1, false, a0);
    }
    None
}

/// Members of the caller-identity response envelope from position `i` (just past `{` when `first`,
/// just past a `,` otherwise). Each required member occurs exactly
/// once; unknown members are skipped. The explicit bound checks only
/// guard the termination measure and never change the result.
pub open spec fn spec_wenv_members(s: Seq<u8>, i: int, first: bool, a0: Option<(Seq<u8>, Seq<u8>)>) -> Option<((Seq<u8>, Seq<u8>), int)>
    decreases s.len() - i, 2int,
{
    if !(0 <= i <= s.len()) {
        None
    } else {
        let p = spec_skip_ws(s, i);
        if !(i <= p <= s.len()) {
            None
        } else if p >= s.len() {
            None
        } else if s[p] == RBRACE && first {
            match (a0) {
                (Some(x0)) => Some((x0, p + 1)),
                _ => None,
            }
        } else if s[p] != QUOTE {
            None
        } else {
            match spec_string_body(s, p + 1) {
                None => None,
                Some((key, k)) => {
                    if !(p < k <= s.len()) {
                        None
                    } else {
                        let c = spec_skip_ws(s, k);
                        if !(k <= c <= s.len()) {
                            None
                        } else if c >= s.len() || s[c] != COLON {
                            None
                        } else {
                            let v = spec_skip_ws(s, c + 1);
                            if !(c < v <= s.len()) {
                                None
                            } else if key == key_data() {
                                if a0 is Some {
                                    None
                                } else {
                                    match spec_wdata_obj(s, v) {
                                        None => None,
                                        Some((x, e)) => spec_wenv_tail(s, i, e, Some(x)),
                                    }
                                }
                            } else {
                                match spec_skip_value(s, v) {
                                    None => None,
                                    Some(e) => spec_wenv_tail(s, i, e, a0),
                                }
                            }
                        }
                    }
                }
            }
        }
    }
}

/// After one member ended at `e`: either the object closes or a `,`
/// introduces the next member.
pub open spec fn spec_wenv_tail(s: Seq<u8>, i: int, e: int, a0: Option<(Seq<u8>, Seq<u8>)>) -> Option<((Seq<u8>, Seq<u8>), int)>
    decreases s.len() - i, 1int,
{
    if !(0 <= i < e <= s.len()) {
        None
    } else {
        let f = spec_skip_ws(s, e);
        if !(e <= f <= s.len()) {
            None
        } else if f >= s.len() {
            None
        } else if s[f] == RBRACE {
            match (a0) {
                (Some(x0)) => Some((x0, f + 1)),
                _ => None,
            }
        } else if s[f] == COMMA {
            spec_wenv_again(s, i, f + 1, a0)
        } else {
            None
        }
    }
}

/// Continues the member walk at `j`, clamped for the termination
/// measure.
pub open spec fn spec_wenv_again(s: Seq<u8>, i: int, j: int, a0: Option<(Seq<u8>, Seq<u8>)>) -> Option<((Seq<u8>, Seq<u8>), int)>
    decreases s.len() - i, 0int,
{
    if i < j <= s.len() {
        spec_wenv_members(s, j, false, a0)
    } else {
        None
    }
}

fn wenv_members(s: &[u8], i: usize, first: bool, a0: Option<(Vec<u8>, Vec<u8>)>) -> (r: Option<((Vec<u8>, Vec<u8>), usize)>)
    requires
        i <= s@.len(),
    ensures
        match spec_wenv_members(s@, i as int, first, opt_wpair(a0)) {
            Some((x0, e)) => r matches Some((r0, re)) && (r0.0@, r0.1@) == x0 && re == e
                && i < e <= s@.len(),
            None => r is None,
        },
    decreases s@.len() - i, 1int,
{
    let p = skip_ws(s, i);
    if p >= s.len() {
        return None;
    }
    if s[p] == RBRACE && first {
        return match (a0) {
            (Some(x0)) => Some((x0, p + 1)),
            _ => None,
        };
    }
    if s[p] != QUOTE {
        return None;
    }
    let mut key: Vec<u8> = Vec::new();
    let k = match parse_string_body(s, p + 1, &mut key) {
        Some(k) => k,
        None => {
            return None;
        },
    };
    let c = skip_ws(s, k);
    if c >= s.len() {
        return None;
    }
    if s[c] != COLON {
        return None;
    }
    let v = skip_ws(s, c + 1);
    let pat0: Vec<u8> = vec![0x64u8, 0x61, 0x74, 0x61];
    proof {
        assert(pat0@ =~= key_data());
        assert(key@ =~= Seq::<u8>::empty() + key@);
    }
    if bytes_eq(key.as_slice(), pat0.as_slice()) {
        if a0.is_some() {
            return None;
        }
        let (x, e) = match wdata_obj(s, v) {
            Some(r) => r,
            None => {
                return None;
            },
        };
        wenv_tail(s, i, e, Some(x))
    } else {
        let e = match skip_value(s, v) {
            Some(e) => e,
            None => {
                return None;
            },
        };
        wenv_tail(s, i, e, a0)
    }
}

fn wenv_tail(s: &[u8], i: usize, e: usize, a0: Option<(Vec<u8>, Vec<u8>)>) -> (r: Option<((Vec<u8>, Vec<u8>), usize)>)
    requires
        i < e <= s@.len(),
    ensures
        match spec_wenv_tail(s@, i as int, e as int, opt_wpair(a0)) {
            Some((x0, q)) => r matches Some((r0, rq)) && (r0.0@, r0.1@) == x0 && rq == q
                && i < q <= s@.len(),
            None => r is None,
        },
    decreases s@.len() - i, 0int,
{
    let f = skip_ws(s, e);
    if f >= s.len() {
        return None;
    }
    if s[f] == RBRACE {
        return match (a0) {
            (Some(x0)) => Some((x0, f + 1)),
            _ => None,
        };
    }
    if s[f] == COMMA {
        return wenv_members(s, f + 1, false, a0);
    }
    None
}

/// A whole response body holding content records: the outer object with its
/// required `data` member, other members skipped, and nothing but
/// whitespace after the closing brace.
pub open spec fn spec_tweets_envelope(s: Seq<u8>) -> Option<Seq<TweetRecS>> {
    let p = spec_skip_ws(s, 0);
    if !(0 <= p <= s.len()) || p >= s.len() || s[p] != LBRACE {
        None
    } else {
        match spec_tenv_members(s, p + 1, true, None) {
            None => None,
            Some((recs, e)) => if 0 <= e <= s.len() && spec_skip_ws(s, e) == s.len() {
                Some(recs)
            } else {
                None
            },
        }
    }
}

/// Decodes a whole response body into its content records.
pub fn tweets_envelope(s: &[u8]) -> (r: Option<Vec<TweetRec>>)
    ensures
        match spec_tweets_envelope(s@) {
            Some(recs) => r matches Some(rv) && trecs_view(rv@) == recs,
            None => r is None,
        },
{
    proof {
        assert(s@.len() == s.len());
    }
    let p = skip_ws(s, 0);
    if p >= s.len() {
        return None;
    }
    if s[p] != LBRACE {
        return None;
    }
    match tenv_members(s, p + 1, true, None) {
        None => None,
        Some((rv, e)) => {
            let q = skip_ws(s, e);
            if q == s.len() {
                Some(rv)
            } else {
                None
            }
        },
    }
}

/// A whole response body holding account records: the outer object with its
/// required `data` member, other members skipped, and nothing but
/// whitespace after the closing brace.
pub open spec fn spec_users_envelope(s: Seq<u8>) -> Option<Seq<UserRecS>> {
    let p = spec_skip_ws(s, 0);
    if !(0 <= p <= s.len()) || p >= s.len() || s[p] != LBRACE {
        None
    } else {
        match spec_uenv_members(s, p + 1, true, None) {
            None => None,
            Some((recs, e)) => if 0 <= e <= s.len() && spec_skip_ws(s, e) == s.len() {
                Some(recs)
            } else {
                None
            },
        }
    }
}

/// Decodes a whole response body into its account records.
pub fn users_envelope(s: &[u8]) -> (r: Option<Vec<UserRec>>)
    ensures
        match spec_users_envelope(s@) {
            Some(recs) => r matches Some(rv) && urecs_view(rv@) == recs,
            None => r is None,
        },
{
    proof {
        assert(s@.len() == s.len());
    }
    let p = skip_ws(s, 0);
    if p >= s.len() {
        return None;
    }
    if s[p] != LBRACE {
        return None;
    }
    match uenv_members(s, p + 1, true, None) {
        None => None,
        Some((rv, e)) => {
            let q = skip_ws(s, e);
            if q == s.len() {
                Some(rv)
            } else {
                None
            }
        },
    }
}

/// A whole response body holding caller identity: the outer object with its
/// required `data` member, other members skipped, and nothing but
/// whitespace after the closing brace.
pub open spec fn spec_whoami_envelope(s: Seq<u8>) -> Option<(Seq<u8>, Seq<u8>)> {
    let p = spec_skip_ws(s, 0);
    if !(0 <= p <= s.len()) || p >= s.len() || s[p] != LBRACE {
        None
    } else {
        match spec_wenv_members(s, p + 1, true, None) {
            None => None,
            Some((recs, e)) => if 0 <= e <= s.len() && spec_skip_ws(s, e) == s.len() {
                Some(recs)
            } else {
                None
            },
        }
    }
}

/// Decodes a whole response body into its caller identity.
pub fn whoami_envelope(s: &[u8]) -> (r: Option<(Vec<u8>, Vec<u8>)>)
    ensures
        match spec_whoami_envelope(s@) {
            Some(recs) => r matches Some(rv) && rv.0@ == recs.0 && rv.1@ == recs.1,
            None => r is None,
        },
{
    proof {
        assert(s@.len() == s.len());
    }
    let p = skip_ws(s, 0);
    if p >= s.len() {
        return None;
    }
    if s[p] != LBRACE {
        return None;
    }
    match wenv_members(s, p + 1, true, None) {
        None => None,
        Some((rv, e)) => {
            let q = skip_ws(s, e);
            if q == s.len() {
                Some(rv)
            } else {
                None
            }
        },
    }
}

} // verus!

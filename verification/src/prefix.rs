//! Prefix stability of the extractor's grammar: a successful parse reads
//! only the bytes it consumed, so bytes appended after the closing
//! bracket are ignored — extending the input changes nothing about an
//! entry that already decoded.

use vstd::prelude::*;

use crate::archive::{
    spec_array_step, spec_find_bracket, spec_follower_elem, spec_follower_list,
    spec_follower_member_tail, spec_follower_members, spec_follower_members_again,
    spec_follower_step, spec_followers, spec_tweet_elem, spec_tweet_list, spec_tweet_member_tail,
    spec_tweet_members, spec_tweet_members_again, spec_tweet_step, spec_tweets, ArrayStep,
    FollowerStep, TweetStep,
};
use crate::json::{
    spec_skip_array_rest, spec_skip_member_tail, spec_skip_number, spec_skip_object_rest,
    spec_skip_value, spec_skip_ws, spec_string_body, spec_match_at,
};

verus! {

/// Skipping whitespace that ends inside `s` is unchanged by appending
/// bytes.
pub proof fn lemma_ext_skip_ws(s: Seq<u8>, t: Seq<u8>, i: int)
    requires
        0 <= i <= s.len(),
        spec_skip_ws(s, i) < s.len(),
    ensures
        spec_skip_ws(s + t, i) == spec_skip_ws(s, i),
    decreases s.len() - i,
{
    crate::json::lemma_skip_ws_bounds(s, i);
    if i < s.len() && crate::json::is_json_ws(s[i]) {
        lemma_ext_skip_ws(s, t, i + 1);
    }
}

/// A string body that closes inside `s` parses the same after appending
/// bytes.
pub proof fn lemma_ext_string_body(s: Seq<u8>, t: Seq<u8>, i: int)
    requires
        spec_string_body(s, i) is Some,
    ensures
        spec_string_body(s + t, i) == spec_string_body(s, i),
    decreases s.len() - i,
{
    if 0 <= i < s.len() {
        if s[i] == crate::json::QUOTE {
        } else if s[i] == crate::json::BACKSLASH {
            if i + 1 < s.len() {
                let e = s[i + 1];
                if e == 0x75 {
                    match crate::json::spec_hex4(s, i + 2) {
                        Some(cp) => {
                            if 0xD800 <= cp < 0xDC00 {
                                if i + 12 <= s.len() {
                                    lemma_ext_string_body(s, t, i + 12);
                                }
                            } else if 0xDC00 <= cp < 0xE000 {
                            } else {
                                if i + 6 <= s.len() {
                                    lemma_ext_string_body(s, t, i + 6);
                                }
                            }
                        },
                        None => {},
                    }
                } else {
                    lemma_ext_string_body(s, t, i + 2);
                }
            }
        } else {
            lemma_ext_string_body(s, t, i + 1);
        }
    }
}

/// A number run that ends inside `s` is unchanged by appending bytes.
pub proof fn lemma_ext_skip_number(s: Seq<u8>, t: Seq<u8>, i: int)
    requires
        0 <= i <= s.len(),
        spec_skip_number(s, i) < s.len(),
        i <= spec_skip_number(s, i),
    ensures
        spec_skip_number(s + t, i) == spec_skip_number(s, i),
    decreases s.len() - i,
{
    if i < s.len() && crate::json::is_number_byte(s[i]) {
        lemma_skip_number_bounds(s, i + 1);
        lemma_ext_skip_number(s, t, i + 1);
    }
}

/// Bounds of the number run.
pub proof fn lemma_skip_number_bounds(s: Seq<u8>, i: int)
    requires
        0 <= i <= s.len(),
    ensures
        i <= spec_skip_number(s, i) <= s.len(),
    decreases s.len() - i,
{
    if i < s.len() && crate::json::is_number_byte(s[i]) {
        lemma_skip_number_bounds(s, i + 1);
    }
}

/// A literal match inside `s` still matches after appending bytes.
pub proof fn lemma_ext_match_at(s: Seq<u8>, t: Seq<u8>, i: int, pat: Seq<u8>)
    requires
        spec_match_at(s, i, pat),
    ensures
        spec_match_at(s + t, i, pat),
{
    assert(forall|k: int| 0 <= k < pat.len() ==> (s + t)[i + k] == #[trigger] pat[k]);
}

/// A value whose end lies strictly inside `s` skips the same after
/// appending bytes.
pub proof fn lemma_ext_skip_value(s: Seq<u8>, t: Seq<u8>, i: int, e: int)
    requires
        spec_skip_value(s, i) == Some(e),
        e < s.len(),
    ensures
        spec_skip_value(s + t, i) == Some(e),
    decreases s.len() - i, 0int,
{
    if s[i] == crate::json::QUOTE {
        lemma_ext_string_body(s, t, i + 1);
    } else if s[i] == crate::json::LBRACE {
        lemma_ext_skip_object_rest(s, t, i + 1, true, e);
    } else if s[i] == crate::json::LBRACKET {
        lemma_ext_skip_array_rest(s, t, i + 1, true, e);
    } else if crate::json::is_digit(s[i]) || s[i] == 0x2D {
        lemma_skip_number_bounds(s, i);
        lemma_ext_skip_number(s, t, i);
    } else if s[i] == 0x74 {
        lemma_ext_match_at(s, t, i, crate::json::lit_true());
    } else if s[i] == 0x66 {
        lemma_ext_match_at(s, t, i, crate::json::lit_false());
    } else if s[i] == 0x6E {
        lemma_ext_match_at(s, t, i, crate::json::lit_null());
    }
}

/// Object members that close inside or at the end of `s` skip the same
/// after appending bytes.
pub proof fn lemma_ext_skip_object_rest(s: Seq<u8>, t: Seq<u8>, i: int, first: bool, e: int)
    requires
        spec_skip_object_rest(s, i, first) == Some(e),
    ensures
        spec_skip_object_rest(s + t, i, first) == Some(e),
    decreases s.len() - i, 1int,
{
    let p = spec_skip_ws(s, i);
    lemma_ext_skip_ws(s, t, i);
    if !(s[p] == crate::json::RBRACE && first) {
        match spec_string_body(s, p + 1) {
            Some((key, k)) => {
                lemma_ext_string_body(s, t, p + 1);
                let c = spec_skip_ws(s, k);
                lemma_ext_skip_ws(s, t, k);
                let v = spec_skip_ws(s, c + 1);
                lemma_ext_skip_ws(s, t, c + 1);
                match spec_skip_value(s, v) {
                    Some(ve) => {
                        lemma_ext_skip_member_tail(s, t, i, ve, e);
                        let f = spec_skip_ws(s, ve);
                        crate::json::lemma_skip_ws_bounds(s, ve);
                        lemma_ext_skip_value(s, t, v, ve);
                    },
                    None => {},
                }
            },
            None => {},
        }
    }
}

/// The tail after one member, likewise.
pub proof fn lemma_ext_skip_member_tail(s: Seq<u8>, t: Seq<u8>, i: int, ve: int, e: int)
    requires
        spec_skip_member_tail(s, i, ve) == Some(e),
    ensures
        spec_skip_member_tail(s + t, i, ve) == Some(e),
    decreases s.len() - i, 0int,
{
    let f = spec_skip_ws(s, ve);
    lemma_ext_skip_ws(s, t, ve);
    if s[f] == crate::json::COMMA {
        lemma_ext_skip_object_rest(s, t, f + 1, false, e);
    }
}

/// Array elements that close inside or at the end of `s`, likewise.
pub proof fn lemma_ext_skip_array_rest(s: Seq<u8>, t: Seq<u8>, i: int, first: bool, e: int)
    requires
        spec_skip_array_rest(s, i, first) == Some(e),
    ensures
        spec_skip_array_rest(s + t, i, first) == Some(e),
    decreases s.len() - i, 1int,
{
    let p = spec_skip_ws(s, i);
    lemma_ext_skip_ws(s, t, i);
    if !(s[p] == crate::json::RBRACKET && first) {
        match spec_skip_value(s, p) {
            Some(ve) => {
                let f = spec_skip_ws(s, ve);
                crate::json::lemma_skip_ws_bounds(s, ve);
                lemma_ext_skip_value(s, t, p, ve);
                lemma_ext_skip_ws(s, t, ve);
                if s[f] == crate::json::COMMA {
                    lemma_ext_skip_array_rest(s, t, f + 1, false, e);
                }
            },
            None => {},
        }
    }
}

/// The first `[`, when there is one, stays where it is after appending
/// bytes.
pub proof fn lemma_ext_find_bracket(s: Seq<u8>, t: Seq<u8>, i: int)
    requires
        spec_find_bracket(s, i) is Some,
    ensures
        spec_find_bracket(s + t, i) == spec_find_bracket(s, i),
    decreases s.len() - i,
{
    if 0 <= i < s.len() && s[i] != crate::json::LBRACKET {
        lemma_ext_find_bracket(s, t, i + 1);
    }
}

/// A framing step that did not fail is unchanged by appending bytes.
pub proof fn lemma_ext_array_step(s: Seq<u8>, t: Seq<u8>, i: int, first: bool)
    requires
        0 <= i <= s.len(),
        !(spec_array_step(s, i, first) is Fail),
    ensures
        spec_array_step(s + t, i, first) == spec_array_step(s, i, first),
{
    crate::json::lemma_skip_ws_bounds(s, i);
    let p = spec_skip_ws(s, i);
    lemma_ext_skip_ws(s, t, i);
    if !(s[p] == crate::json::RBRACKET) && !first && s[p] == crate::json::COMMA {
        crate::json::lemma_skip_ws_bounds(s, p + 1);
        lemma_ext_skip_ws(s, t, p + 1);
    }
}

/// Follower members that decode inside `s` decode the same after
/// appending bytes.
pub proof fn lemma_ext_follower_members(
    s: Seq<u8>,
    t: Seq<u8>,
    i: int,
    first: bool,
    acc: Option<u64>,
)
    requires
        spec_follower_members(s, i, first, acc) is Some,
    ensures
        spec_follower_members(s + t, i, first, acc) == spec_follower_members(s, i, first, acc),
    decreases s.len() - i, 2int,
{
    let p = spec_skip_ws(s, i);
    lemma_ext_skip_ws(s, t, i);
    if !(s[p] == crate::json::RBRACE && first) {
        match spec_string_body(s, p + 1) {
            Some((key, k)) => {
                lemma_ext_string_body(s, t, p + 1);
                let c = spec_skip_ws(s, k);
                lemma_ext_skip_ws(s, t, k);
                let v = spec_skip_ws(s, c + 1);
                lemma_ext_skip_ws(s, t, c + 1);
                if key == crate::archive::key_account_id() {
                    match spec_string_body(s, v + 1) {
                        Some((digits, e)) => {
                            lemma_ext_string_body(s, t, v + 1);
                            match crate::json::spec_parse_u64(digits) {
                                Some(id) => {
                                    lemma_ext_follower_member_tail(s, t, i, e, Some(id));
                                },
                                None => {},
                            }
                        },
                        None => {},
                    }
                } else {
                    match spec_skip_value(s, v) {
                        Some(e) => {
                            lemma_ext_follower_member_tail(s, t, i, e, acc);
                            crate::json::lemma_skip_ws_bounds(s, e);
                            lemma_ext_skip_value(s, t, v, e);
                        },
                        None => {},
                    }
                }
            },
            None => {},
        }
    }
}

/// The tail after one follower member, likewise.
pub proof fn lemma_ext_follower_member_tail(
    s: Seq<u8>,
    t: Seq<u8>,
    i: int,
    e: int,
    acc: Option<u64>,
)
    requires
        spec_follower_member_tail(s, i, e, acc) is Some,
    ensures
        spec_follower_member_tail(s + t, i, e, acc) == spec_follower_member_tail(s, i, e, acc),
    decreases s.len() - i, 1int,
{
    let f = spec_skip_ws(s, e);
    lemma_ext_skip_ws(s, t, e);
    if s[f] == crate::json::COMMA {
        lemma_ext_follower_members_again(s, t, i, f + 1, acc);
    }
}

/// The clamped continuation, likewise.
pub proof fn lemma_ext_follower_members_again(
    s: Seq<u8>,
    t: Seq<u8>,
    i: int,
    j: int,
    acc: Option<u64>,
)
    requires
        spec_follower_members_again(s, i, j, acc) is Some,
    ensures
        spec_follower_members_again(s + t, i, j, acc) == spec_follower_members_again(
            s,
            i,
            j,
            acc,
        ),
    decreases s.len() - i, 0int,
{
    lemma_ext_follower_members(s, t, j, false, acc);
}

/// A follower element that decodes inside `s` decodes the same after
/// appending bytes.
#[verifier::rlimit(100)]
pub proof fn lemma_ext_follower_elem(s: Seq<u8>, t: Seq<u8>, i: int)
    requires
        spec_follower_elem(s, i) is Some,
    ensures
        spec_follower_elem(s + t, i) == spec_follower_elem(s, i),
{
    let p = spec_skip_ws(s, i + 1);
    crate::json::lemma_skip_ws_bounds(s, i + 1);
    lemma_ext_skip_ws(s, t, i + 1);
    match spec_string_body(s, p + 1) {
        Some((key, k)) => {
            lemma_ext_string_body(s, t, p + 1);
            let c = spec_skip_ws(s, k);
            lemma_ext_skip_ws(s, t, k);
            let v = spec_skip_ws(s, c + 1);
            lemma_ext_skip_ws(s, t, c + 1);
            match spec_follower_members(s, v + 1, true, None) {
                Some((id, e)) => {
                    lemma_follower_members_bounds(s, v + 1, true, None);
                    lemma_ext_follower_members(s, t, v + 1, true, None);
                    crate::json::lemma_skip_ws_bounds(s, e);
                    lemma_ext_skip_ws(s, t, e);
                },
                None => {},
            }
        },
        None => {},
    }
}

/// A stream step that did not fail is unchanged by appending bytes.
pub proof fn lemma_ext_follower_step(s: Seq<u8>, t: Seq<u8>, i: int, first: bool)
    requires
        0 <= i <= s.len(),
        !(spec_follower_step(s, i, first) is Fail),
    ensures
        spec_follower_step(s + t, i, first) == spec_follower_step(s, i, first),
{
    lemma_ext_array_step(s, t, i, first);
    match spec_array_step(s, i, first) {
        ArrayStep::Elem(p) => {
            lemma_ext_follower_elem(s, t, p);
        },
        ArrayStep::End(e) => {},
        ArrayStep::Fail => {},
    }
}

/// A follower list that decodes inside `s` decodes the same after
/// appending bytes.
pub proof fn lemma_ext_follower_list(s: Seq<u8>, t: Seq<u8>, i: int, first: bool)
    requires
        spec_follower_list(s, i, first) is Some,
    ensures
        spec_follower_list(s + t, i, first) == spec_follower_list(s, i, first),
    decreases s.len() - i,
{
    lemma_ext_follower_step(s, t, i, first);
    match spec_follower_step(s, i, first) {
        FollowerStep::Yield(id, e) => {
            if i < e <= s.len() {
                lemma_ext_follower_list(s, t, e, false);
            }
        },
        FollowerStep::End(e) => {},
        FollowerStep::Fail => {},
    }
}

/// Bytes after the closing bracket are ignored: a follower entry that
/// decodes is decoded exactly the same however the input continues past
/// it.
pub proof fn lemma_followers_trailing_ignored(s: Seq<u8>, t: Seq<u8>)
    requires
        spec_followers(s) is Some,
    ensures
        spec_followers(s + t) == spec_followers(s),
{
    match spec_find_bracket(s, 0) {
        Some(b) => {
            lemma_ext_find_bracket(s, t, 0);
            lemma_ext_follower_list(s, t, b + 1, true);
        },
        None => {},
    }
}

/// Content members that decode inside `s` decode the same after
/// appending bytes.
pub proof fn lemma_ext_tweet_members(
    s: Seq<u8>,
    t: Seq<u8>,
    i: int,
    first: bool,
    aid: Option<u64>,
    atext: Option<Seq<u8>>,
)
    requires
        spec_tweet_members(s, i, first, aid, atext) is Some,
    ensures
        spec_tweet_members(s + t, i, first, aid, atext) == spec_tweet_members(s, i, first, aid, atext),
    decreases s.len() - i, 2int,
{
    let p = spec_skip_ws(s, i);
    lemma_ext_skip_ws(s, t, i);
    if !(s[p] == crate::json::RBRACE && first) {
        match spec_string_body(s, p + 1) {
            Some((key, k)) => {
                lemma_ext_string_body(s, t, p + 1);
                let c = spec_skip_ws(s, k);
                lemma_ext_skip_ws(s, t, k);
                let v = spec_skip_ws(s, c + 1);
                lemma_ext_skip_ws(s, t, c + 1);
                if key == crate::archive::key_id() {
                    match spec_string_body(s, v + 1) {
                        Some((digits, e)) => {
                            lemma_ext_string_body(s, t, v + 1);
                            match crate::json::spec_parse_u64(digits) {
                                Some(id) => {
                                    lemma_ext_tweet_member_tail(s, t, i, e, Some(id), atext);
                                },
                                None => {},
                            }
                        },
                        None => {},
                    }
                } else if key == crate::archive::key_full_text() {
                    match spec_string_body(s, v + 1) {
                        Some((text, e)) => {
                            lemma_ext_string_body(s, t, v + 1);
                            lemma_ext_tweet_member_tail(s, t, i, e, aid, Some(text));
                        },
                        None => {},
                    }
                } else {
                    match spec_skip_value(s, v) {
                        Some(e) => {
                            lemma_ext_tweet_member_tail(s, t, i, e, aid, atext);
                            crate::json::lemma_skip_ws_bounds(s, e);
                            lemma_ext_skip_value(s, t, v, e);
                        },
                        None => {},
                    }
                }
            },
            None => {},
        }
    }
}

/// The tail after one content member, likewise.
pub proof fn lemma_ext_tweet_member_tail(
    s: Seq<u8>,
    t: Seq<u8>,
    i: int,
    e: int,
    aid: Option<u64>,
    atext: Option<Seq<u8>>,
)
    requires
        spec_tweet_member_tail(s, i, e, aid, atext) is Some,
    ensures
        spec_tweet_member_tail(s + t, i, e, aid, atext) == spec_tweet_member_tail(s, i, e, aid, atext),
    decreases s.len() - i, 1int,
{
    let f = spec_skip_ws(s, e);
    lemma_ext_skip_ws(s, t, e);
    if s[f] == crate::json::COMMA {
        lemma_ext_tweet_members_again(s, t, i, f + 1, aid, atext);
    }
}

/// The clamped continuation, likewise.
pub proof fn lemma_ext_tweet_members_again(
    s: Seq<u8>,
    t: Seq<u8>,
    i: int,
    j: int,
    aid: Option<u64>,
    atext: Option<Seq<u8>>,
)
    requires
        spec_tweet_members_again(s, i, j, aid, atext) is Some,
    ensures
        spec_tweet_members_again(s + t, i, j, aid, atext) == spec_tweet_members_again(
            s,
            i,
            j,
            aid,
            atext,
        ),
    decreases s.len() - i, 0int,
{
    lemma_ext_tweet_members(s, t, j, false, aid, atext);
}

/// A content element that decodes inside `s` decodes the same after
/// appending bytes.
#[verifier::rlimit(100)]
pub proof fn lemma_ext_tweet_elem(s: Seq<u8>, t: Seq<u8>, i: int)
    requires
        spec_tweet_elem(s, i) is Some,
    ensures
        spec_tweet_elem(s + t, i) == spec_tweet_elem(s, i),
{
    let p = spec_skip_ws(s, i + 1);
    crate::json::lemma_skip_ws_bounds(s, i + 1);
    lemma_ext_skip_ws(s, t, i + 1);
    match spec_string_body(s, p + 1) {
        Some((key, k)) => {
            lemma_ext_string_body(s, t, p + 1);
            let c = spec_skip_ws(s, k);
            lemma_ext_skip_ws(s, t, k);
            let v = spec_skip_ws(s, c + 1);
            lemma_ext_skip_ws(s, t, c + 1);
            match spec_tweet_members(s, v + 1, true, None, None) {
                Some((id, text, e)) => {
                    lemma_tweet_members_bounds(s, v + 1, true, None, None);
                    lemma_ext_tweet_members(s, t, v + 1, true, None, None);
                    crate::json::lemma_skip_ws_bounds(s, e);
                    lemma_ext_skip_ws(s, t, e);
                },
                None => {},
            }
        },
        None => {},
    }
}

/// A stream step that did not fail is unchanged by appending bytes.
pub proof fn lemma_ext_tweet_step(s: Seq<u8>, t: Seq<u8>, i: int, first: bool)
    requires
        0 <= i <= s.len(),
        !(spec_tweet_step(s, i, first) is Fail),
    ensures
        spec_tweet_step(s + t, i, first) == spec_tweet_step(s, i, first),
{
    lemma_ext_array_step(s, t, i, first);
    match spec_array_step(s, i, first) {
        ArrayStep::Elem(p) => {
            lemma_ext_tweet_elem(s, t, p);
        },
        ArrayStep::End(e) => {},
        ArrayStep::Fail => {},
    }
}

/// A content list that decodes inside `s` decodes the same after
/// appending bytes.
pub proof fn lemma_ext_tweet_list(s: Seq<u8>, t: Seq<u8>, i: int, first: bool)
    requires
        spec_tweet_list(s, i, first) is Some,
    ensures
        spec_tweet_list(s + t, i, first) == spec_tweet_list(s, i, first),
    decreases s.len() - i,
{
    lemma_ext_tweet_step(s, t, i, first);
    match spec_tweet_step(s, i, first) {
        TweetStep::Yield(id, text, e) => {
            if i < e <= s.len() {
                lemma_ext_tweet_list(s, t, e, false);
            }
        },
        TweetStep::End(e) => {},
        TweetStep::Fail => {},
    }
}

/// Bytes after the closing bracket are ignored: a content entry that
/// decodes is decoded exactly the same however the input continues past
/// it.
pub proof fn lemma_tweets_trailing_ignored(s: Seq<u8>, t: Seq<u8>)
    requires
        spec_tweets(s) is Some,
    ensures
        spec_tweets(s + t) == spec_tweets(s),
{
    match spec_find_bracket(s, 0) {
        Some(b) => {
            lemma_ext_find_bracket(s, t, 0);
            lemma_ext_tweet_list(s, t, b + 1, true);
        },
        None => {},
    }
}

/// Bounds of a successful member walk: the end lies past the start and
/// inside the input.
pub proof fn lemma_follower_members_bounds(s: Seq<u8>, i: int, first: bool, acc: Option<u64>)
    requires
        spec_follower_members(s, i, first, acc) is Some,
    ensures
        spec_follower_members(s, i, first, acc) matches Some((id, e)) ==> i < e <= s.len(),
    decreases s.len() - i, 2int,
{
    let p = spec_skip_ws(s, i);
    if !(s[p] == crate::json::RBRACE && first) {
        match spec_string_body(s, p + 1) {
            Some((key, k)) => {
                let c = spec_skip_ws(s, k);
                let v = spec_skip_ws(s, c + 1);
                if key == crate::archive::key_account_id() {
                    match spec_string_body(s, v + 1) {
                        Some((digits, e)) => {
                            match crate::json::spec_parse_u64(digits) {
                                Some(id) => {
                                    lemma_follower_member_tail_bounds(s, i, e, Some(id));
                                },
                                None => {},
                            }
                        },
                        None => {},
                    }
                } else {
                    match spec_skip_value(s, v) {
                        Some(e) => {
                            lemma_follower_member_tail_bounds(s, i, e, acc);
                        },
                        None => {},
                    }
                }
            },
            None => {},
        }
    }
}

pub proof fn lemma_follower_member_tail_bounds(s: Seq<u8>, i: int, e: int, acc: Option<u64>)
    requires
        spec_follower_member_tail(s, i, e, acc) is Some,
    ensures
        spec_follower_member_tail(s, i, e, acc) matches Some((id, q)) ==> i < q <= s.len(),
    decreases s.len() - i, 1int,
{
    let f = spec_skip_ws(s, e);
    if s[f] == crate::json::COMMA {
        lemma_follower_members_bounds(s, f + 1, false, acc);
    }
}

/// Bounds of a successful member walk: the end lies past the start and
/// inside the input.
pub proof fn lemma_tweet_members_bounds(s: Seq<u8>, i: int, first: bool, aid: Option<u64>, atext: Option<Seq<u8>>)
    requires
        spec_tweet_members(s, i, first, aid, atext) is Some,
    ensures
        spec_tweet_members(s, i, first, aid, atext) matches Some((id, text, e)) ==> i < e
            <= s.len(),
    decreases s.len() - i, 2int,
{
    let p = spec_skip_ws(s, i);
    if !(s[p] == crate::json::RBRACE && first) {
        match spec_string_body(s, p + 1) {
            Some((key, k)) => {
                let c = spec_skip_ws(s, k);
                let v = spec_skip_ws(s, c + 1);
                if key == crate::archive::key_id() {
                    match spec_string_body(s, v + 1) {
                        Some((digits, e)) => {
                            match crate::json::spec_parse_u64(digits) {
                                Some(id) => {
                                    lemma_tweet_member_tail_bounds(s, i, e, Some(id), atext);
                                },
                                None => {},
                            }
                        },
                        None => {},
                    }
                } else if key == crate::archive::key_full_text() {
                    match spec_string_body(s, v + 1) {
                        Some((text, e)) => {
                            lemma_tweet_member_tail_bounds(s, i, e, aid, Some(text));
                        },
                        None => {},
                    }
                } else {
                    match spec_skip_value(s, v) {
                        Some(e) => {
                            lemma_tweet_member_tail_bounds(s, i, e, aid, atext);
                        },
                        None => {},
                    }
                }
            },
            None => {},
        }
    }
}

pub proof fn lemma_tweet_member_tail_bounds(s: Seq<u8>, i: int, e: int, aid: Option<u64>, atext: Option<Seq<u8>>)
    requires
        spec_tweet_member_tail(s, i, e, aid, atext) is Some,
    ensures
        spec_tweet_member_tail(s, i, e, aid, atext) matches Some((id, text, q)) ==> i < q
            <= s.len(),
    decreases s.len() - i, 1int,
{
    let f = spec_skip_ws(s, e);
    if s[f] == crate::json::COMMA {
        lemma_tweet_members_bounds(s, f + 1, false, aid, atext);
    }
}

} // verus!

//! The local callback interface: decoding the redirect's query string.
//!
//! The single-use callback route accepts either a success payload
//! (`code`, `state`) or a structured error payload (`error`,
//! `error_description?`, `error_uri?`, `state`) as
//! application/x-www-form-urlencoded query parameters. Pairs are split on
//! `&`, a pair splits at its first `=`, and both halves are
//! percent-decoded (`+` stands for a space). Each known parameter may
//! occur at most once; unknown parameters are ignored. A payload with
//! both `code` and `state` is the success payload, whatever else it
//! carries; otherwise a payload with `error` and `state` is the error
//! payload.

use vstd::prelude::*;

use crate::auth::Redirect;
use crate::errors::{AuthErrorKind, Error};
use crate::json::{bytes_eq, spec_hex_val};
use crate::text::utf8_to_string;

verus! {

use vstd::utf8::{decode_utf8, valid_utf8};

/// End of the pair starting at `i`: the next `&` or the end of the input.
pub open spec fn spec_pair_end(s: Seq<u8>, i: int) -> int
    decreases s.len() - i,
{
    if 0 <= i < s.len() && s[i] != 0x26 {
        spec_pair_end(s, i + 1)
    } else {
        i
    }
}

/// First `=` in `[i, hi)`, or `hi` when there is none.
pub open spec fn spec_eq_pos(s: Seq<u8>, i: int, hi: int) -> int
    decreases hi - i,
{
    if 0 <= i < hi <= s.len() && s[i] != 0x3D {
        spec_eq_pos(s, i + 1, hi)
    } else {
        i
    }
}

/// Percent-decoding of the component `[i, hi)`: `%XX` is the byte with
/// hexadecimal value `XX`, `+` is a space, anything else stands for
/// itself. A `%` without two hexadecimal digits behind it is rejected.
pub open spec fn spec_component(s: Seq<u8>, i: int, hi: int) -> Option<Seq<u8>>
    decreases hi - i,
{
    if !(0 <= i <= hi <= s.len()) {
        None
    } else if i == hi {
        Some(Seq::empty())
    } else if s[i] == 0x25 {
        if i + 3 <= hi {
            match (spec_hex_val(s[i + 1]), spec_hex_val(s[i + 2])) {
                (Some(h), Some(l)) => match spec_component(s, i + 3, hi) {
                    Some(rest) => Some(seq![(h * 16 + l) as u8] + rest),
                    None => None,
                },
                _ => None,
            }
        } else {
            None
        }
    } else if s[i] == 0x2B {
        match spec_component(s, i + 1, hi) {
            Some(rest) => Some(seq![0x20u8] + rest),
            None => None,
        }
    } else {
        match spec_component(s, i + 1, hi) {
            Some(rest) => Some(seq![s[i]] + rest),
            None => None,
        }
    }
}

pub open spec fn qkey_code() -> Seq<u8> {
    seq![0x63u8, 0x6F, 0x64, 0x65]
}

pub open spec fn qkey_state() -> Seq<u8> {
    seq![0x73u8, 0x74, 0x61, 0x74, 0x65]
}

pub open spec fn qkey_error() -> Seq<u8> {
    seq![0x65u8, 0x72, 0x72, 0x6F, 0x72]
}

pub open spec fn qkey_error_description() -> Seq<u8> {
    seq![0x65u8, 0x72, 0x72, 0x6F, 0x72, 0x5F, 0x64, 0x65, 0x73, 0x63, 0x72, 0x69, 0x70, 0x74,
        0x69, 0x6F, 0x6E]
}

pub open spec fn qkey_error_uri() -> Seq<u8> {
    seq![0x65u8, 0x72, 0x72, 0x6F, 0x72, 0x5F, 0x75, 0x72, 0x69]
}

/// The decoded fields of interest, in payload order: `code`, `state`,
/// `error`, `error_description`, `error_uri`.
pub type QueryFieldsS = (
    Option<Seq<u8>>,
    Option<Seq<u8>>,
    Option<Seq<u8>>,
    Option<Seq<u8>>,
    Option<Seq<u8>>,
);

/// Stores a decoded pair into the field record; a known parameter seen
/// twice rejects the payload, an unknown one changes nothing.
pub open spec fn spec_store_field(acc: QueryFieldsS, key: Seq<u8>, val: Seq<u8>) -> Option<
    QueryFieldsS,
> {
    if key == qkey_code() {
        if acc.0 is Some {
            None
        } else {
            Some((Some(val), acc.1, acc.2, acc.3, acc.4))
        }
    } else if key == qkey_state() {
        if acc.1 is Some {
            None
        } else {
            Some((acc.0, Some(val), acc.2, acc.3, acc.4))
        }
    } else if key == qkey_error() {
        if acc.2 is Some {
            None
        } else {
            Some((acc.0, acc.1, Some(val), acc.3, acc.4))
        }
    } else if key == qkey_error_description() {
        if acc.3 is Some {
            None
        } else {
            Some((acc.0, acc.1, acc.2, Some(val), acc.4))
        }
    } else if key == qkey_error_uri() {
        if acc.4 is Some {
            None
        } else {
            Some((acc.0, acc.1, acc.2, acc.3, Some(val)))
        }
    } else {
        Some(acc)
    }
}

/// Walks the pairs from position `i`, decoding and storing each. The
/// explicit bound checks only guard the termination measure and never
/// change the result.
pub open spec fn spec_query_walk(s: Seq<u8>, i: int, acc: QueryFieldsS) -> Option<QueryFieldsS>
    decreases s.len() - i,
{
    if !(0 <= i <= s.len()) {
        None
    } else if i == s.len() {
        Some(acc)
    } else {
        let hi = spec_pair_end(s, i);
        if !(i <= hi <= s.len()) {
            None
        } else {
            let eq = spec_eq_pos(s, i, hi);
            if !(i <= eq <= hi) {
                None
            } else {
                let vlo = if eq < hi {
                    eq + 1
                } else {
                    hi
                };
                match (spec_component(s, i, eq), spec_component(s, vlo, hi)) {
                    (Some(key), Some(val)) => match spec_store_field(acc, key, val) {
                        Some(acc2) => {
                            if hi == s.len() {
                                Some(acc2)
                            } else {
                                spec_query_walk(s, hi + 1, acc2)
                            }
                        },
                        None => None,
                    },
                    _ => None,
                }
            }
        }
    }
}

/// The fields of a whole query string.
pub open spec fn spec_query_fields(s: Seq<u8>) -> Option<QueryFieldsS> {
    spec_query_walk(s, 0, (None, None, None, None, None))
}

/// The OAuth error kind named by a decoded `error` value.
pub open spec fn spec_auth_kind(k: Seq<u8>) -> Option<AuthErrorKind> {
    if k == seq![0x69u8, 0x6E, 0x76, 0x61, 0x6C, 0x69, 0x64, 0x5F, 0x72, 0x65, 0x71, 0x75, 0x65,
        0x73, 0x74] {
        Some(AuthErrorKind::InvalidRequest)
    } else if k == seq![0x61u8, 0x63, 0x63, 0x65, 0x73, 0x73, 0x5F, 0x64, 0x65, 0x6E, 0x69, 0x65,
        0x64] {
        Some(AuthErrorKind::AccessDenied)
    } else if k == seq![0x75u8, 0x6E, 0x61, 0x75, 0x74, 0x68, 0x6F, 0x72, 0x69, 0x7A, 0x65, 0x64,
        0x5F, 0x63, 0x6C, 0x69, 0x65, 0x6E, 0x74] {
        Some(AuthErrorKind::UnauthorizedClient)
    } else if k == seq![0x75u8, 0x6E, 0x73, 0x75, 0x70, 0x70, 0x6F, 0x72, 0x74, 0x65, 0x64, 0x5F,
        0x72, 0x65, 0x73, 0x70, 0x6F, 0x6E, 0x73, 0x65, 0x5F, 0x74, 0x79, 0x70, 0x65] {
        Some(AuthErrorKind::UnsupportedResponseType)
    } else if k == seq![0x69u8, 0x6E, 0x76, 0x61, 0x6C, 0x69, 0x64, 0x5F, 0x73, 0x63, 0x6F, 0x70,
        0x65] {
        Some(AuthErrorKind::InvalidScope)
    } else if k == seq![0x73u8, 0x65, 0x72, 0x76, 0x65, 0x72, 0x5F, 0x65, 0x72, 0x72, 0x6F, 0x72] {
        Some(AuthErrorKind::ServerError)
    } else if k == seq![0x74u8, 0x65, 0x6D, 0x70, 0x6F, 0x72, 0x61, 0x72, 0x69, 0x6C, 0x79, 0x5F,
        0x75, 0x6E, 0x61, 0x76, 0x61, 0x69, 0x6C, 0x61, 0x62, 0x6C, 0x65] {
        Some(AuthErrorKind::TemporarilyUnavailable)
    } else {
        None
    }
}

/// An optional string field carries exactly the decoded bytes.
pub open spec fn opt_str_of(o: Option<String>, b: Option<Seq<u8>>) -> bool {
    match (o, b) {
        (Option::None, Option::None) => true,
        (Some(s), Some(bytes)) => valid_utf8(bytes) && s@ == decode_utf8(bytes),
        _ => false,
    }
}

/// What the decoded fields say the redirect is: the success payload when
/// `code` and `state` are both present, else the error payload when
/// `error` names a known kind and `state` is present, else nothing.
pub open spec fn redirect_of_fields(r: Redirect, f: QueryFieldsS) -> bool {
    match f {
        (Some(code), Some(state), _, _, _) => r matches Redirect::Authorized {
            code: c,
            state: st,
        } && opt_str_of(Some(c), Some(code)) && opt_str_of(Some(st), Some(state)),
        (Option::None, Some(state), Some(err), desc, uri) => r matches Redirect::Error {
            kind,
            description,
            uri: u,
            state: st,
        } && Some(kind) == spec_auth_kind(err) && opt_str_of(description, desc) && opt_str_of(
            u,
            uri,
        ) && opt_str_of(Some(st), Some(state)),
        _ => false,
    }
}

/// The decoded fields name a representable redirect: the payload shape is
/// there and every text field is valid UTF-8.
pub open spec fn fields_representable(f: QueryFieldsS) -> bool {
    match f {
        (Some(code), Some(state), _, _, _) => valid_utf8(code) && valid_utf8(state),
        (Option::None, Some(state), Some(err), desc, uri) => spec_auth_kind(err) is Some
            && valid_utf8(state) && (match desc {
            Some(d) => valid_utf8(d),
            Option::None => true,
        }) && (match uri {
            Some(u) => valid_utf8(u),
            Option::None => true,
        }),
        _ => false,
    }
}

fn pct_decode(s: &[u8], i: usize, hi: usize, out: &mut Vec<u8>) -> (r: bool)
    requires
        i <= hi <= s@.len(),
    ensures
        match spec_component(s@, i as int, hi as int) {
            Some(t) => r && final(out)@ == old(out)@ + t,
            None => !r,
        },
    decreases hi - i,
{
    if i == hi {
        proof {
            assert(out@ =~= out@ + Seq::<u8>::empty());
        }
        return true;
    }
    let b = s[i];
    if b == 0x25 {
        if hi - i < 3 {
            return false;
        }
        let h = match crate::json::hex_val(s[i + 1]) {
            Some(h) => h,
            None => {
                return false;
            },
        };
        let l = match crate::json::hex_val(s[i + 2]) {
            Some(l) => l,
            None => {
                return false;
            },
        };
        let decoded: u8 = (h * 16 + l) as u8;
        out.push(decoded);
        let ghost mid = out@;
        let r = pct_decode(s, i + 3, hi, out);
        proof {
            match spec_component(s@, i + 3, hi as int) {
                Some(t) => {
                    assert(out@ =~= old(out)@ + (seq![decoded] + t));
                },
                None => {},
            }
        }
        r
    } else if b == 0x2B {
        out.push(0x20);
        let r = pct_decode(s, i + 1, hi, out);
        proof {
            match spec_component(s@, i + 1, hi as int) {
                Some(t) => {
                    assert(out@ =~= old(out)@ + (seq![0x20u8] + t));
                },
                None => {},
            }
        }
        r
    } else {
        out.push(b);
        let r = pct_decode(s, i + 1, hi, out);
        proof {
            match spec_component(s@, i + 1, hi as int) {
                Some(t) => {
                    assert(out@ =~= old(out)@ + (seq![b] + t));
                },
                None => {},
            }
        }
        r
    }
}

fn pair_end(s: &[u8], i: usize) -> (r: usize)
    requires
        i <= s@.len(),
    ensures
        r == spec_pair_end(s@, i as int),
        i <= r <= s@.len(),
    decreases s@.len() - i,
{
    if i < s.len() && s[i] != 0x26 {
        pair_end(s, i + 1)
    } else {
        i
    }
}

fn eq_pos(s: &[u8], i: usize, hi: usize) -> (r: usize)
    requires
        i <= hi <= s@.len(),
    ensures
        r == spec_eq_pos(s@, i as int, hi as int),
        i <= r <= hi,
    decreases hi - i,
{
    if i < hi && s[i] != 0x3D {
        eq_pos(s, i + 1, hi)
    } else {
        i
    }
}

/// Decodes the callback's query string into a redirect payload. The query
/// must carry the success shape or the error shape, each parameter at
/// most once, with every text field valid UTF-8; anything else is
/// rejected as malformed.
pub fn parse_redirect_query(s: &[u8]) -> (r: Result<Redirect, Error>)
    ensures
        match spec_query_fields(s@) {
            Some(f) => {
                if fields_representable(f) {
                    r matches Ok(rd) && redirect_of_fields(rd, f)
                } else {
                    r matches Err(e) && e is DataFormat
                }
            },
            None => r matches Err(e) && e is DataFormat,
        },
{
    proof {
        assert(s@.len() == s.len());
    }
    let mut code: Option<Vec<u8>> = None;
    let mut state: Option<Vec<u8>> = None;
    let mut error: Option<Vec<u8>> = None;
    let mut description: Option<Vec<u8>> = None;
    let mut uri: Option<Vec<u8>> = None;
    let mut i: usize = 0;
    loop
        invariant_except_break
            0 <= i <= s@.len(),
            spec_query_fields(s@) == spec_query_walk(
                s@,
                i as int,
                (ov(code), ov(state), ov(error), ov(description), ov(uri)),
            ),
        ensures
            spec_query_fields(s@) == Some(
                (ov(code), ov(state), ov(error), ov(description), ov(uri)),
            ),
        decreases s@.len() + 1 - i,
    {
        if i == s.len() {
            break;
        }
        let hi = pair_end(s, i);
        let eq = eq_pos(s, i, hi);
        let vlo = if eq < hi {
            eq + 1
        } else {
            hi
        };
        let mut key: Vec<u8> = Vec::new();
        if !pct_decode(s, i, eq, &mut key) {
            return Err(malformed());
        }
        let mut val: Vec<u8> = Vec::new();
        if !pct_decode(s, vlo, hi, &mut val) {
            return Err(malformed());
        }
        proof {
            assert(key@ =~= Seq::<u8>::empty() + key@);
            assert(val@ =~= Seq::<u8>::empty() + val@);
        }
        let pat_code: Vec<u8> = vec![0x63u8, 0x6F, 0x64, 0x65];
        let pat_state: Vec<u8> = vec![0x73u8, 0x74, 0x61, 0x74, 0x65];
        let pat_error: Vec<u8> = vec![0x65u8, 0x72, 0x72, 0x6F, 0x72];
        let pat_desc: Vec<u8> = vec![0x65u8, 0x72, 0x72, 0x6F, 0x72, 0x5F, 0x64, 0x65, 0x73, 0x63,
            0x72, 0x69, 0x70, 0x74, 0x69, 0x6F, 0x6E];
        let pat_uri: Vec<u8> = vec![0x65u8, 0x72, 0x72, 0x6F, 0x72, 0x5F, 0x75, 0x72, 0x69];
        proof {
            assert(pat_code@ =~= qkey_code());
            assert(pat_state@ =~= qkey_state());
            assert(pat_error@ =~= qkey_error());
            assert(pat_desc@ =~= qkey_error_description());
            assert(pat_uri@ =~= qkey_error_uri());
        }
        if bytes_eq(key.as_slice(), pat_code.as_slice()) {
            if code.is_some() {
                return Err(malformed());
            }
            code = Some(val);
        } else if bytes_eq(key.as_slice(), pat_state.as_slice()) {
            if state.is_some() {
                return Err(malformed());
            }
            state = Some(val);
        } else if bytes_eq(key.as_slice(), pat_error.as_slice()) {
            if error.is_some() {
                return Err(malformed());
            }
            error = Some(val);
        } else if bytes_eq(key.as_slice(), pat_desc.as_slice()) {
            if description.is_some() {
                return Err(malformed());
            }
            description = Some(val);
        } else if bytes_eq(key.as_slice(), pat_uri.as_slice()) {
            if uri.is_some() {
                return Err(malformed());
            }
            uri = Some(val);
        }
        if hi == s.len() {
            break;
        }
        i = hi + 1;
    }
    let st = match state {
        Some(st) => st,
        None => {
            return Err(malformed());
        },
    };
    if let Some(c) = code {
        let c = match utf8_to_string(c) {
            Some(c) => c,
            None => {
                return Err(malformed());
            },
        };
        let st = match utf8_to_string(st) {
            Some(st) => st,
            None => {
                return Err(malformed());
            },
        };
        return Ok(Redirect::Authorized { code: c, state: st });
    }
    let err = match error {
        Some(err) => err,
        None => {
            return Err(malformed());
        },
    };
    let kind = match auth_kind(&err) {
        Some(kind) => kind,
        None => {
            return Err(malformed());
        },
    };
    let st = match utf8_to_string(st) {
        Some(st) => st,
        None => {
            return Err(malformed());
        },
    };
    let description = match opt_utf8(description) {
        Some(d) => d,
        None => {
            return Err(malformed());
        },
    };
    let uri = match opt_utf8(uri) {
        Some(u) => u,
        None => {
            return Err(malformed());
        },
    };
    Ok(Redirect::Error { kind, description, uri, state: st })
}

/// The byte-level view of an optional component.
pub open spec fn ov(o: Option<Vec<u8>>) -> Option<Seq<u8>> {
    match o {
        Some(v) => Some(v@),
        None => None,
    }
}

fn malformed() -> (e: Error)
    ensures
        e is DataFormat,
{
    crate::archive::invalid_data("malformed callback query")
}

/// Converts an optional component, failing on invalid UTF-8.
fn opt_utf8(o: Option<Vec<u8>>) -> (r: Option<Option<String>>)
    ensures
        match r {
            Some(rs) => opt_str_of(rs, ov(o)),
            None => ov(o) matches Some(b) && !valid_utf8(b),
        },
{
    match o {
        None => Some(None),
        Some(v) => match utf8_to_string(v) {
            Some(s) => Some(Some(s)),
            None => None,
        },
    }
}

/// Maps a decoded `error` value to its kind.
fn auth_kind(k: &Vec<u8>) -> (r: Option<AuthErrorKind>)
    ensures
        r == spec_auth_kind(k@),
{
    let p1: Vec<u8> = vec![0x69u8, 0x6E, 0x76, 0x61, 0x6C, 0x69, 0x64, 0x5F, 0x72, 0x65, 0x71,
        0x75, 0x65, 0x73, 0x74];
    let p2: Vec<u8> = vec![0x61u8, 0x63, 0x63, 0x65, 0x73, 0x73, 0x5F, 0x64, 0x65, 0x6E, 0x69,
        0x65, 0x64];
    let p3: Vec<u8> = vec![0x75u8, 0x6E, 0x61, 0x75, 0x74, 0x68, 0x6F, 0x72, 0x69, 0x7A, 0x65,
        0x64, 0x5F, 0x63, 0x6C, 0x69, 0x65, 0x6E, 0x74];
    let p4: Vec<u8> = vec![0x75u8, 0x6E, 0x73, 0x75, 0x70, 0x70, 0x6F, 0x72, 0x74, 0x65, 0x64,
        0x5F, 0x72, 0x65, 0x73, 0x70, 0x6F, 0x6E, 0x73, 0x65, 0x5F, 0x74, 0x79, 0x70, 0x65];
    let p5: Vec<u8> = vec![0x69u8, 0x6E, 0x76, 0x61, 0x6C, 0x69, 0x64, 0x5F, 0x73, 0x63, 0x6F,
        0x70, 0x65];
    let p6: Vec<u8> = vec![0x73u8, 0x65, 0x72, 0x76, 0x65, 0x72, 0x5F, 0x65, 0x72, 0x72, 0x6F,
        0x72];
    let p7: Vec<u8> = vec![0x74u8, 0x65, 0x6D, 0x70, 0x6F, 0x72, 0x61, 0x72, 0x69, 0x6C, 0x79,
        0x5F, 0x75, 0x6E, 0x61, 0x76, 0x61, 0x69, 0x6C, 0x61, 0x62, 0x6C, 0x65];
    if bytes_eq(k.as_slice(), p1.as_slice()) {
        Some(AuthErrorKind::InvalidRequest)
    } else if bytes_eq(k.as_slice(), p2.as_slice()) {
        Some(AuthErrorKind::AccessDenied)
    } else if bytes_eq(k.as_slice(), p3.as_slice()) {
        Some(AuthErrorKind::UnauthorizedClient)
    } else if bytes_eq(k.as_slice(), p4.as_slice()) {
        Some(AuthErrorKind::UnsupportedResponseType)
    } else if bytes_eq(k.as_slice(), p5.as_slice()) {
        Some(AuthErrorKind::InvalidScope)
    } else if bytes_eq(k.as_slice(), p6.as_slice()) {
        Some(AuthErrorKind::ServerError)
    } else if bytes_eq(k.as_slice(), p7.as_slice()) {
        Some(AuthErrorKind::TemporarilyUnavailable)
    } else {
        None
    }
}

} // verus!

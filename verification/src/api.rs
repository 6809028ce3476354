//! Typed records of the remote lookup API and the decoders of its response
//! envelopes.
//!
//! Every response has the shape `{"data": ..., "meta"?: ...}`; `meta` is
//! accepted but unused, since no cursor pagination is performed. A
//! structural mismatch is fatal and the error embeds the raw response body
//! text together with the request URL, so upstream schema drift can be
//! diagnosed without logs.

use vstd::prelude::*;

use crate::envelope::{
    spec_tweets_envelope, spec_users_envelope, spec_whoami_envelope, tweets_envelope,
    users_envelope, whoami_envelope, TweetRecS, UserRecS,
};
use crate::errors::Error;
use crate::json::{digit_run_end, is_digit, spec_skip_digits};
use crate::text::utf8_to_string;

verus! {

use vstd::string::StringSliceAdditionalSpecFns;
use vstd::utf8::{decode_utf8, valid_utf8};

/// The caller's identity, as the identity endpoint reports it.
#[derive(Debug, PartialEq, Eq)]
pub struct WhoAmI {
    pub id: String,
    pub username: String,
}

/// Public engagement counts of one content item.
#[derive(Clone, Copy, Debug, PartialEq, Eq, Structural)]
pub struct PublicTweetMetrics {
    pub retweets: usize,
    pub replies: usize,
    pub likes: usize,
    pub quotations: usize,
}

/// One fetched content item: its identifier, its creation time as RFC3339
/// text, and its public metrics.
#[derive(Clone, Debug, PartialEq, Eq)]
pub struct Tweet {
    pub id: u64,
    pub created: String,
    pub metrics: PublicTweetMetrics,
}

impl Tweet {
    /// Combined engagement score: likes weigh once, shares twice,
    /// quotations three times, and replies half.
    pub fn goodness(&self) -> (g: usize)
        requires
            self.metrics.likes + 2 * self.metrics.retweets + 3 * self.metrics.quotations
                + self.metrics.replies / 2 <= usize::MAX,
        ensures
            g == self.metrics.likes + 2 * self.metrics.retweets + 3 * self.metrics.quotations
                + self.metrics.replies / 2,
    {
        self.metrics.likes + 2 * self.metrics.retweets + 3 * self.metrics.quotations
            + self.metrics.replies / 2
    }
}

/// Public account counts of one account.
#[derive(Clone, Copy, Debug, PartialEq, Eq, Structural)]
pub struct PublicUserMetrics {
    pub followers: usize,
    pub following: usize,
}

/// One fetched account: its name and its public metrics.
#[derive(Clone, Debug, PartialEq, Eq)]
pub struct User {
    pub username: String,
    pub metrics: PublicUserMetrics,
}

/// Value of the two decimal digit bytes at `i`.
pub open spec fn two_digits(s: Seq<u8>, i: int) -> int {
    (s[i] - 0x30) * 10 + (s[i + 1] - 0x30)
}

/// The zone part of an RFC3339 date-time starting at `i`: `Z` (either
/// case) at the very end, or `+hh:mm` / `-hh:mm` filling the rest.
pub open spec fn is_rfc3339_zone(s: Seq<u8>, i: int) -> bool {
    if !(0 <= i < s.len()) {
        false
    } else if s[i] == 0x5A || s[i] == 0x7A {
        i + 1 == s.len()
    } else if s[i] == 0x2B || s[i] == 0x2D {
        &&& i + 6 == s.len()
        &&& is_digit(s[i + 1])
        &&& is_digit(s[i + 2])
        &&& two_digits(s, i + 1) <= 23
        &&& s[i + 3] == 0x3A
        &&& is_digit(s[i + 4])
        &&& is_digit(s[i + 5])
        &&& two_digits(s, i + 4) <= 59
    } else {
        false
    }
}

/// The RFC3339 date-time shape: `YYYY-MM-DDThh:mm:ss`, an optional
/// fraction `.d+`, and a zone `Z` or `±hh:mm`. Field ranges are checked
/// (month 1 to 12, day 1 to 31, hour to 23, minute to 59, second to 60
/// for a leap second, zone offset likewise); calendar validity beyond
/// that — the days a month really has — is not.
pub open spec fn is_rfc3339(s: Seq<u8>) -> bool {
    &&& s.len() >= 20
    &&& is_digit(s[0]) && is_digit(s[1]) && is_digit(s[2]) && is_digit(s[3])
    &&& s[4] == 0x2D
    &&& is_digit(s[5]) && is_digit(s[6]) && 1 <= two_digits(s, 5) <= 12
    &&& s[7] == 0x2D
    &&& is_digit(s[8]) && is_digit(s[9]) && 1 <= two_digits(s, 8) <= 31
    &&& (s[10] == 0x54 || s[10] == 0x74)
    &&& is_digit(s[11]) && is_digit(s[12]) && two_digits(s, 11) <= 23
    &&& s[13] == 0x3A
    &&& is_digit(s[14]) && is_digit(s[15]) && two_digits(s, 14) <= 59
    &&& s[16] == 0x3A
    &&& is_digit(s[17]) && is_digit(s[18]) && two_digits(s, 17) <= 60
    &&& ({
        let z = if s[19] == 0x2E {
            spec_skip_digits(s, 20)
        } else {
            19
        };
        &&& (s[19] == 0x2E ==> z > 20)
        &&& is_rfc3339_zone(s, z)
    })
}

/// Reads the value of the two decimal digit bytes at `i`.
fn two_digit_val(s: &[u8], i: usize) -> (v: u8)
    requires
        i + 2 <= s@.len(),
        is_digit(s@[i as int]),
        is_digit(s@[i + 1]),
    ensures
        v == two_digits(s@, i as int),
{
    (s[i] - 0x30) * 10 + (s[i + 1] - 0x30)
}

/// Checks the RFC3339 date-time shape.
pub fn rfc3339_shape(s: &[u8]) -> (r: bool)
    ensures
        r == is_rfc3339(s@),
{
    proof {
        assert(s@.len() == s.len());
    }
    if s.len() < 20 {
        return false;
    }
    let mut k: usize = 0;
    while k < 19
        invariant
            0 <= k <= 19,
            s@.len() >= 20,
            forall|m: int| 0 <= m < k && m != 4 && m != 7 && m != 10 && m != 13 && m != 16
                ==> is_digit(#[trigger] s@[m]),
        decreases 19 - k,
    {
        if k == 4 || k == 7 || k == 10 || k == 13 || k == 16 {
            k += 1;
            continue;
        }
        if s[k] < 0x30 || s[k] > 0x39 {
            return false;
        }
        k += 1;
    }
    if s[4] != 0x2D || s[7] != 0x2D || s[13] != 0x3A || s[16] != 0x3A {
        return false;
    }
    if s[10] != 0x54 && s[10] != 0x74 {
        return false;
    }
    let month = two_digit_val(s, 5);
    if month < 1 || month > 12 {
        return false;
    }
    let day = two_digit_val(s, 8);
    if day < 1 || day > 31 {
        return false;
    }
    if two_digit_val(s, 11) > 23 {
        return false;
    }
    if two_digit_val(s, 14) > 59 {
        return false;
    }
    if two_digit_val(s, 17) > 60 {
        return false;
    }
    let z = if s[19] == 0x2E {
        let e = digit_run_end(s, 20);
        if e <= 20 {
            return false;
        }
        e
    } else {
        19
    };
    if z >= s.len() {
        return false;
    }
    let b = s[z];
    if b == 0x5A || b == 0x7A {
        return z + 1 == s.len();
    }
    if b == 0x2B || b == 0x2D {
        if s.len() - z != 6 {
            return false;
        }
        if s[z + 1] < 0x30 || s[z + 1] > 0x39 || s[z + 2] < 0x30 || s[z + 2] > 0x39 {
            return false;
        }
        if two_digit_val(s, z + 1) > 23 {
            return false;
        }
        if s[z + 3] != 0x3A {
            return false;
        }
        if s[z + 4] < 0x30 || s[z + 4] > 0x39 || s[z + 5] < 0x30 || s[z + 5] > 0x39 {
            return false;
        }
        return two_digit_val(s, z + 4) <= 59;
    }
    false
}

/// A fetched content record is representable: its counts fit the metric
/// fields and its creation-time text is valid UTF-8 of the RFC3339 shape.
pub open spec fn tweet_rec_ok(rec: TweetRecS) -> bool {
    &&& valid_utf8(rec.1)
    &&& is_rfc3339(rec.1)
    &&& rec.2.0 <= usize::MAX
    &&& rec.2.1 <= usize::MAX
    &&& rec.2.2 <= usize::MAX
    &&& rec.2.3 <= usize::MAX
}

/// The decoded content item carries exactly the record's values.
pub open spec fn tweet_of_rec(t: Tweet, rec: TweetRecS) -> bool {
    &&& t.id == rec.0
    &&& t.created@ == decode_utf8(rec.1)
    &&& t.metrics.retweets == rec.2.0
    &&& t.metrics.replies == rec.2.1
    &&& t.metrics.likes == rec.2.2
    &&& t.metrics.quotations == rec.2.3
}

/// A fetched account record is representable.
pub open spec fn user_rec_ok(rec: UserRecS) -> bool {
    &&& valid_utf8(rec.0)
    &&& rec.1.0 <= usize::MAX
    &&& rec.1.1 <= usize::MAX
}

/// The decoded account carries exactly the record's values.
pub open spec fn user_of_rec(u: User, rec: UserRecS) -> bool {
    &&& u.username@ == decode_utf8(rec.0)
    &&& u.metrics.followers == rec.1.0
    &&& u.metrics.following == rec.1.1
}

/// The result is the decode failure embedding this request URL and raw
/// body text.
pub open spec fn decode_err<T>(r: Result<T, Error>, url: Seq<char>, body: Seq<char>) -> bool {
    r matches Err(e) && (e matches Error::Decode { url: u, body: b } && u@ == url && b@ == body)
}

/// Decodes a content-lookup response body. A well-shaped envelope yields
/// its records in order; anything else — broken shape, a count past the
/// metric range, creation text that is not UTF-8 of the RFC3339 shape —
/// fails with the raw body and the URL embedded.
pub fn parse_tweets(body: &str, url: &str) -> (r: Result<Vec<Tweet>, Error>)
    ensures
        match spec_tweets_envelope(body.spec_bytes()) {
            Some(recs) => if forall|k: int| 0 <= k < recs.len() ==> tweet_rec_ok(
                #[trigger] recs[k],
            ) {
                r matches Ok(v) && v@.len() == recs.len() && (forall|k: int|
                    0 <= k < recs.len() ==> tweet_of_rec(#[trigger] v@[k], recs[k]))
            } else {
                decode_err(r, url@, body@)
            },
            None => decode_err(r, url@, body@),
        },
{
    let recs = match tweets_envelope(body.as_bytes()) {
        Some(recs) => recs,
        None => {
            return Err(Error::Decode { url: url.to_owned(), body: body.to_owned() });
        },
    };
    let ghost rspec = crate::envelope::trecs_view(recs@);
    let mut out: Vec<Tweet> = Vec::new();
    let n = recs.len();
    let mut i: usize = 0;
    while i < n
        invariant
            0 <= i <= n,
            n == recs@.len(),
            rspec == crate::envelope::trecs_view(recs@),
            rspec == spec_tweets_envelope(body.spec_bytes())->0,
            spec_tweets_envelope(body.spec_bytes()) is Some,
            out@.len() == i,
            forall|k: int| 0 <= k < i ==> tweet_rec_ok(#[trigger] rspec[k]),
            forall|k: int| 0 <= k < i ==> tweet_of_rec(#[trigger] out@[k], rspec[k]),
        decreases n - i,
    {
        let id = recs[i].0;
        let m = recs[i].2;
        let umax = usize::MAX as u64;
        if m.0 > umax || m.1 > umax || m.2 > umax || m.3 > umax {
            proof {
                assert(!tweet_rec_ok(rspec[i as int]));
            }
            return Err(Error::Decode { url: url.to_owned(), body: body.to_owned() });
        }
        let mut cbytes: Vec<u8> = Vec::new();
        cbytes.extend_from_slice(recs[i].1.as_slice());
        proof {
            assert(cbytes@ =~= recs@[i as int].1@);
        }
        if !rfc3339_shape(cbytes.as_slice()) {
            proof {
                assert(!tweet_rec_ok(rspec[i as int]));
            }
            return Err(Error::Decode { url: url.to_owned(), body: body.to_owned() });
        }
        let created = match utf8_to_string(cbytes) {
            Some(created) => created,
            None => {
                proof {
                    assert(!tweet_rec_ok(rspec[i as int]));
                }
                return Err(Error::Decode { url: url.to_owned(), body: body.to_owned() });
            },
        };
        let metrics = PublicTweetMetrics {
            retweets: m.0 as usize,
            replies: m.1 as usize,
            likes: m.2 as usize,
            quotations: m.3 as usize,
        };
        out.push(Tweet { id, created, metrics });
        i += 1;
    }
    Ok(out)
}

/// Decodes an account-lookup response body, in the same way.
pub fn parse_users(body: &str, url: &str) -> (r: Result<Vec<User>, Error>)
    ensures
        match spec_users_envelope(body.spec_bytes()) {
            Some(recs) => if forall|k: int| 0 <= k < recs.len() ==> user_rec_ok(
                #[trigger] recs[k],
            ) {
                r matches Ok(v) && v@.len() == recs.len() && (forall|k: int|
                    0 <= k < recs.len() ==> user_of_rec(#[trigger] v@[k], recs[k]))
            } else {
                decode_err(r, url@, body@)
            },
            None => decode_err(r, url@, body@),
        },
{
    let recs = match users_envelope(body.as_bytes()) {
        Some(recs) => recs,
        None => {
            return Err(Error::Decode { url: url.to_owned(), body: body.to_owned() });
        },
    };
    let ghost rspec = crate::envelope::urecs_view(recs@);
    let mut out: Vec<User> = Vec::new();
    let n = recs.len();
    let mut i: usize = 0;
    while i < n
        invariant
            0 <= i <= n,
            n == recs@.len(),
            rspec == crate::envelope::urecs_view(recs@),
            rspec == spec_users_envelope(body.spec_bytes())->0,
            spec_users_envelope(body.spec_bytes()) is Some,
            out@.len() == i,
            forall|k: int| 0 <= k < i ==> user_rec_ok(#[trigger] rspec[k]),
            forall|k: int| 0 <= k < i ==> user_of_rec(#[trigger] out@[k], rspec[k]),
        decreases n - i,
    {
        let m = recs[i].1;
        let umax = usize::MAX as u64;
        if m.0 > umax || m.1 > umax {
            proof {
                assert(!user_rec_ok(rspec[i as int]));
            }
            return Err(Error::Decode { url: url.to_owned(), body: body.to_owned() });
        }
        let mut ubytes: Vec<u8> = Vec::new();
        ubytes.extend_from_slice(recs[i].0.as_slice());
        proof {
            assert(ubytes@ =~= recs@[i as int].0@);
        }
        let username = match utf8_to_string(ubytes) {
            Some(username) => username,
            None => {
                proof {
                    assert(!user_rec_ok(rspec[i as int]));
                }
                return Err(Error::Decode { url: url.to_owned(), body: body.to_owned() });
            },
        };
        let metrics = PublicUserMetrics { followers: m.0 as usize, following: m.1 as usize };
        out.push(User { username, metrics });
        i += 1;
    }
    Ok(out)
}

/// Decodes the caller-identity response body.
pub fn parse_whoami(body: &str, url: &str) -> (r: Result<WhoAmI, Error>)
    ensures
        match spec_whoami_envelope(body.spec_bytes()) {
            Some(p) => if valid_utf8(p.0) && valid_utf8(p.1) {
                r matches Ok(w) && w.id@ == decode_utf8(p.0) && w.username@ == decode_utf8(p.1)
            } else {
                decode_err(r, url@, body@)
            },
            None => decode_err(r, url@, body@),
        },
{
    let (idb, unb) = match whoami_envelope(body.as_bytes()) {
        Some(p) => p,
        None => {
            return Err(Error::Decode { url: url.to_owned(), body: body.to_owned() });
        },
    };
    let id = match utf8_to_string(idb) {
        Some(id) => id,
        None => {
            return Err(Error::Decode { url: url.to_owned(), body: body.to_owned() });
        },
    };
    let username = match utf8_to_string(unb) {
        Some(username) => username,
        None => {
            return Err(Error::Decode { url: url.to_owned(), body: body.to_owned() });
        },
    };
    Ok(WhoAmI { id, username })
}

} // verus!

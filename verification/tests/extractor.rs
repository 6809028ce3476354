use ornithology::archive::{
    extract_followers, extract_tweets, route_tweets, Follower, FollowerStream, Tweet,
};
use ornithology::errors::Error;

fn follower_entry(body: &str) -> String {
    format!("window.YTD.follower.part0 = {}", body)
}

#[test]
fn followers_in_order() {
    let s = follower_entry(
        r#"[
  {"follower": {"accountId": "101", "userLink": "https://example.test/101"}},
  {"follower": {"accountId": "202"}},
  {"follower": {"accountId": "303"}}
]"#,
    );
    let ids = extract_followers(s.as_bytes()).unwrap();
    assert_eq!(ids, vec![101, 202, 303]);
}

#[test]
fn empty_array_yields_zero_elements() {
    let s = follower_entry("[ ]");
    let ids = extract_followers(s.as_bytes()).unwrap();
    assert!(ids.is_empty());
}

#[test]
fn missing_bracket_is_data_format_error() {
    let r = extract_followers(b"window.YTD.follower.part0 = nothing here");
    assert!(matches!(r, Err(Error::DataFormat { .. })));
}

#[test]
fn trailing_bytes_after_bracket_are_ignored() {
    let clean = follower_entry(r#"[{"follower": {"accountId": "7"}}]"#);
    let noisy = format!("{} ;; trailing garbage {{]", clean);
    assert_eq!(
        extract_followers(clean.as_bytes()).unwrap(),
        extract_followers(noisy.as_bytes()).unwrap(),
    );
}

#[test]
fn malformed_element_surfaces_when_reached() {
    let s = follower_entry(r#"[{"follower": {"accountId": "1"}}, {"oops": 3}]"#);
    let mut st = FollowerStream::new(s.as_bytes()).unwrap();
    let first = st.next(s.as_bytes()).unwrap();
    assert_eq!(first, Some(Follower::One { id: 1 }));
    assert!(st.next(s.as_bytes()).is_err());
}

#[test]
fn missing_comma_is_rejected() {
    let s = follower_entry(r#"[{"follower": {"accountId": "1"}} {"follower": {"accountId": "2"}}]"#);
    assert!(matches!(extract_followers(s.as_bytes()), Err(Error::DataFormat { .. })));
}

#[test]
fn oversized_account_id_is_rejected() {
    let s = follower_entry(r#"[{"follower": {"accountId": "18446744073709551616"}}]"#);
    assert!(extract_followers(s.as_bytes()).is_err());
    let max = follower_entry(r#"[{"follower": {"accountId": "18446744073709551615"}}]"#);
    assert_eq!(extract_followers(max.as_bytes()).unwrap(), vec![u64::MAX]);
}

#[test]
fn tweets_decode_with_unknown_members_and_escapes() {
    let s = format!(
        "window.YTD.tweet.part0 = {}",
        r#"[
  {"tweet": {"edit_info": {"initial": {"editTweetIds": ["9"]}}, "id": "9", "full_text": "a\nbé\"c", "favorited": false}},
  {"tweet": {"id": "10", "full_text": "RT @someone: old news", "retweeted": true}}
]"#,
    );
    let tweets = extract_tweets(s.as_bytes()).unwrap();
    assert_eq!(tweets.len(), 2);
    assert_eq!(
        tweets[0],
        Tweet::One { id: 9, text: "a\nbé\"c".as_bytes().to_vec() },
    );
    let (kept, old_rts) = route_tweets(&tweets);
    assert_eq!(kept, vec![9]);
    assert_eq!(old_rts, vec![10]);
}

#[test]
fn surrogate_pair_escape_decodes() {
    let s = format!(
        "window.YTD.tweet.part0 = {}",
        "[{\"tweet\": {\"id\": \"1\", \"full_text\": \"\\ud83d\\ude00\"}}]",
    );
    let tweets = extract_tweets(s.as_bytes()).unwrap();
    assert_eq!(tweets[0], Tweet::One { id: 1, text: "\u{1F600}".as_bytes().to_vec() });
}

#[test]
fn lone_surrogate_escape_is_rejected() {
    let s = format!(
        "window.YTD.tweet.part0 = {}",
        r#"[{"tweet": {"id": "1", "full_text": "\ud83d"}}]"#,
    );
    assert!(extract_tweets(s.as_bytes()).is_err());
}

#[test]
fn duplicate_account_id_is_rejected() {
    let s = follower_entry(r#"[{"follower": {"accountId": "1", "accountId": "2"}}]"#);
    assert!(extract_followers(s.as_bytes()).is_err());
}

use ornithology::api::{parse_tweets, parse_users, parse_whoami, PublicTweetMetrics, Tweet};
use ornithology::errors::Error;

#[test]
fn whoami_envelope_decodes() {
    let body = r#"{"data": {"id": "2244994945", "username": "somebody"}}"#;
    let w = parse_whoami(body, "https://api.example.test/2/users/me").unwrap();
    assert_eq!(w.id, "2244994945");
    assert_eq!(w.username, "somebody");
}

#[test]
fn tweets_envelope_decodes_in_order_with_meta_ignored() {
    let body = r#"{
      "data": [
        {"id": "20", "created_at": "2006-03-21T20:50:14.000Z",
         "public_metrics": {"retweet_count": 2, "reply_count": 5, "like_count": 10, "quote_count": 1},
         "possibly_sensitive": false},
        {"id": "21", "created_at": "2006-03-21T21:00:54.000Z",
         "public_metrics": {"retweet_count": 0, "reply_count": 0, "like_count": 3, "quote_count": 0}}
      ],
      "meta": {"result_count": 2}
    }"#;
    let tweets = parse_tweets(body, "https://api.example.test/2/tweets?ids=20,21").unwrap();
    assert_eq!(tweets.len(), 2);
    assert_eq!(
        tweets[0],
        Tweet {
            id: 20,
            created: "2006-03-21T20:50:14.000Z".to_owned(),
            metrics: PublicTweetMetrics { retweets: 2, replies: 5, likes: 10, quotations: 1 },
        },
    );
    assert_eq!(tweets[1].id, 21);
    assert_eq!(tweets[1].metrics.likes, 3);
}

#[test]
fn goodness_weighs_engagement() {
    let t = Tweet {
        id: 1,
        created: "2006-03-21T20:50:14.000Z".to_owned(),
        metrics: PublicTweetMetrics { retweets: 2, replies: 5, likes: 10, quotations: 1 },
    };
    assert_eq!(t.goodness(), 10 + 2 * 2 + 3 * 1 + 5 / 2);
}

#[test]
fn users_envelope_decodes() {
    let body = r#"{"data": [
      {"username": "alpha", "public_metrics": {"followers_count": 12, "following_count": 34}},
      {"username": "bêta", "public_metrics": {"followers_count": 1000000, "following_count": 1}}
    ]}"#;
    let users = parse_users(body, "https://api.example.test/2/users?ids=1,2").unwrap();
    assert_eq!(users.len(), 2);
    assert_eq!(users[0].username, "alpha");
    assert_eq!(users[0].metrics.followers, 12);
    assert_eq!(users[0].metrics.following, 34);
    assert_eq!(users[1].username, "bêta");
    assert_eq!(users[1].metrics.followers, 1000000);
}

#[test]
fn empty_data_array_yields_no_records() {
    let body = r#"{"data": []}"#;
    let tweets = parse_tweets(body, "u").unwrap();
    assert!(tweets.is_empty());
}

#[test]
fn missing_data_member_embeds_body_and_url() {
    let body = r#"{"errors": [{"message": "broken"}]}"#;
    let url = "https://api.example.test/2/tweets?ids=20";
    match parse_tweets(body, url) {
        Err(Error::Decode { url: u, body: b }) => {
            assert_eq!(u, url);
            assert_eq!(b, body);
        },
        other => panic!("expected a decode failure, got {:?}", other),
    }
}

#[test]
fn trailing_garbage_after_envelope_is_rejected() {
    let body = r#"{"data": []} extra"#;
    assert!(parse_tweets(body, "u").is_err());
}

#[test]
fn missing_metric_field_is_rejected() {
    let body = r#"{"data": [
      {"id": "20", "created_at": "t", "public_metrics": {"retweet_count": 2, "reply_count": 5, "like_count": 10}}
    ]}"#;
    assert!(parse_tweets(body, "u").is_err());
}

#[test]
fn non_numeric_count_is_rejected() {
    let body = r#"{"data": [
      {"username": "a", "public_metrics": {"followers_count": "12", "following_count": 34}}
    ]}"#;
    assert!(parse_users(body, "u").is_err());
}

#[test]
fn creation_time_must_have_the_rfc3339_shape() {
    let bad = r#"{"data": [
      {"id": "20", "created_at": "not-a-date",
       "public_metrics": {"retweet_count": 0, "reply_count": 0, "like_count": 0, "quote_count": 0}}
    ]}"#;
    let url = "https://api.example.test/2/tweets?ids=20";
    match parse_tweets(bad, url) {
        Err(Error::Decode { url: u, .. }) => assert_eq!(u, url),
        other => panic!("expected a decode failure, got {other:?}"),
    }
    let bad_month = bad.replace("not-a-date", "2006-13-21T20:50:14Z");
    assert!(parse_tweets(&bad_month, url).is_err());
}

#[test]
fn creation_time_accepts_fraction_and_offset_zones() {
    let body = r#"{"data": [
      {"id": "1", "created_at": "2006-03-21T20:50:14.250+01:00",
       "public_metrics": {"retweet_count": 0, "reply_count": 0, "like_count": 0, "quote_count": 0}},
      {"id": "2", "created_at": "2006-03-21T20:50:14Z",
       "public_metrics": {"retweet_count": 0, "reply_count": 0, "like_count": 0, "quote_count": 0}}
    ]}"#;
    let tweets = parse_tweets(body, "u").unwrap();
    assert_eq!(tweets[0].created, "2006-03-21T20:50:14.250+01:00");
    assert_eq!(tweets[1].created, "2006-03-21T20:50:14Z");
}

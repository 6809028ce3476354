use ornithology::archive::invalid_data;
use ornithology::auth::str_eq;
use ornithology::errors::{AuthFailure, Error};
use ornithology::json::{bytes_eq, read_skipping_ws, u64_from_digits};

#[test]
fn read_skipping_ws_finds_the_next_token() {
    let s = b"  \t\r\n [x";
    assert_eq!(read_skipping_ws(s, 0), Some((b'[', 7)));
    assert_eq!(read_skipping_ws(s, 7), Some((b'x', 8)));
    assert_eq!(read_skipping_ws(b"   ", 0), None);
}

#[test]
fn u64_digit_strings_decode_exactly() {
    assert_eq!(u64_from_digits(b"0"), Some(0));
    assert_eq!(u64_from_digits(b"007"), Some(7));
    assert_eq!(u64_from_digits(b"18446744073709551615"), Some(u64::MAX));
    assert_eq!(u64_from_digits(b"18446744073709551616"), None);
    assert_eq!(u64_from_digits(b""), None);
    assert_eq!(u64_from_digits(b"12a"), None);
    assert_eq!(u64_from_digits(b"-1"), None);
}

#[test]
fn invalid_data_carries_its_context() {
    match invalid_data("`[` not found") {
        Error::DataFormat { context } => assert_eq!(context, "`[` not found"),
        other => panic!("unexpected error {other:?}"),
    }
}

#[test]
fn byte_and_string_equality() {
    assert!(bytes_eq(b"abc", b"abc"));
    assert!(!bytes_eq(b"abc", b"abd"));
    assert!(!bytes_eq(b"abc", b"ab"));
    assert!(str_eq("bébé", "bébé"));
    assert!(!str_eq("bébé", "bebe"));
}

#[test]
fn authorization_and_transport_errors_carry_their_cause() {
    let e = Error::from_auth(AuthFailure::CsrfMismatch);
    assert_eq!(e, Error::Authorization { failure: AuthFailure::CsrfMismatch });
    assert_eq!(e.message(), "bad csrf token");
    let t = Error::from_transport("request");
    assert_eq!(t, Error::Transport { context: "request".to_owned() });
    assert_eq!(t.message(), "request transport failed");
}

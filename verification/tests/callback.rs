use ornithology::auth::Redirect;
use ornithology::errors::{AuthErrorKind, Error};
use ornithology::query::parse_redirect_query;

#[test]
fn success_payload_decodes_with_percent_escapes() {
    let r = parse_redirect_query(b"state=abc%20def&code=xyz-123").unwrap();
    assert_eq!(
        r,
        Redirect::Authorized { code: "xyz-123".to_owned(), state: "abc def".to_owned() },
    );
}

#[test]
fn plus_stands_for_a_space() {
    let r = parse_redirect_query(b"code=c&state=a+b").unwrap();
    assert_eq!(r, Redirect::Authorized { code: "c".to_owned(), state: "a b".to_owned() });
}

#[test]
fn error_payload_decodes_with_optional_fields() {
    let r = parse_redirect_query(
        b"error=access_denied&error_description=denied+by+user&state=tok",
    )
    .unwrap();
    assert_eq!(
        r,
        Redirect::Error {
            kind: AuthErrorKind::AccessDenied,
            description: Some("denied by user".to_owned()),
            uri: None,
            state: "tok".to_owned(),
        },
    );
}

#[test]
fn every_error_kind_is_recognised() {
    for (name, kind) in [
        ("invalid_request", AuthErrorKind::InvalidRequest),
        ("access_denied", AuthErrorKind::AccessDenied),
        ("unauthorized_client", AuthErrorKind::UnauthorizedClient),
        ("unsupported_response_type", AuthErrorKind::UnsupportedResponseType),
        ("invalid_scope", AuthErrorKind::InvalidScope),
        ("server_error", AuthErrorKind::ServerError),
        ("temporarily_unavailable", AuthErrorKind::TemporarilyUnavailable),
    ] {
        let q = format!("error={name}&state=s");
        match parse_redirect_query(q.as_bytes()).unwrap() {
            Redirect::Error { kind: k, .. } => assert_eq!(k, kind),
            other => panic!("expected an error payload, got {other:?}"),
        }
    }
}

#[test]
fn the_success_shape_wins_over_a_stray_error_parameter() {
    let r = parse_redirect_query(b"code=c&state=s&error=access_denied").unwrap();
    assert!(matches!(r, Redirect::Authorized { .. }));
}

#[test]
fn missing_state_is_rejected() {
    assert!(matches!(
        parse_redirect_query(b"code=c"),
        Err(Error::DataFormat { .. }),
    ));
}

#[test]
fn duplicate_parameter_is_rejected() {
    assert!(parse_redirect_query(b"code=a&code=b&state=s").is_err());
}

#[test]
fn unknown_error_kind_is_rejected() {
    assert!(parse_redirect_query(b"error=mystery&state=s").is_err());
}

#[test]
fn malformed_percent_escape_is_rejected() {
    assert!(parse_redirect_query(b"code=c&state=a%2").is_err());
    assert!(parse_redirect_query(b"code=c&state=a%zz").is_err());
}

#[test]
fn unknown_parameters_are_ignored() {
    let r = parse_redirect_query(b"foo=bar&code=c&state=s&extra=1").unwrap();
    assert_eq!(r, Redirect::Authorized { code: "c".to_owned(), state: "s".to_owned() });
}

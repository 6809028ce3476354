use ornithology::auth::{
    negotiation_step, CallbackSlot, NegotiationAction, NegotiationEvent, NegotiationState,
    Redirect,
};
use ornithology::errors::{AuthErrorKind, AuthFailure};
use ornithology::rate::RateGate;
use ornithology::retry::{
    retry_decision, service_step, RequestOutcome, RetryDecision, ServiceCall, ServiceStep,
};

#[test]
fn rate_limit_reset_five_ahead_waits_five() {
    let now = 1000;
    let outcome = RequestOutcome::Status { code: 429, reset: Some(now + 5) };
    assert_eq!(retry_decision(&outcome, now), RetryDecision::RetryAfter { wait: 5 });
}

#[test]
fn rate_limit_reset_at_most_one_ahead_retries_immediately() {
    let now = 1000;
    let at_one = RequestOutcome::Status { code: 429, reset: Some(now + 1) };
    assert_eq!(retry_decision(&at_one, now), RetryDecision::RetryAfter { wait: 0 });
    let past = RequestOutcome::Status { code: 429, reset: Some(now - 3) };
    assert_eq!(retry_decision(&past, now), RetryDecision::RetryAfter { wait: 0 });
}

#[test]
fn only_rate_limit_outcomes_are_retried() {
    let now = 1000;
    let ok = RequestOutcome::Status { code: 200, reset: None };
    assert_eq!(retry_decision(&ok, now), RetryDecision::Finish);
    let server_err = RequestOutcome::Status { code: 500, reset: Some(now + 60) };
    assert_eq!(retry_decision(&server_err, now), RetryDecision::Finish);
    assert_eq!(retry_decision(&RequestOutcome::Failed, now), RetryDecision::Finish);
}

#[test]
fn retry_reissues_the_identical_request() {
    let call = ServiceCall { url: b"https://api.example.test/2/tweets?ids=1,2".to_vec() };
    let outcome = RequestOutcome::Status { code: 429, reset: Some(1005) };
    match service_step(&call, &outcome, 1000) {
        ServiceStep::Resend { wait, url } => {
            assert_eq!(wait, 5);
            assert_eq!(url, call.url);
        },
        ServiceStep::Done => panic!("a rate-limited call must be reissued"),
    }
}

#[test]
fn gate_refuses_past_budget_and_opens_as_the_window_slides() {
    let mut gate = RateGate::new(2, 10);
    assert!(gate.try_admit(0));
    assert!(gate.try_admit(1));
    assert!(!gate.try_admit(5));
    assert!(!gate.try_admit(9));
    assert!(gate.try_admit(11));
}

#[test]
fn negotiation_happy_path_reaches_authorized() {
    let (s, a) = negotiation_step(NegotiationState::Idle, NegotiationEvent::ListenerBound);
    assert_eq!(s, NegotiationState::ServerListening);
    assert_eq!(a, NegotiationAction::Wait);
    let (s, _) = negotiation_step(
        s,
        NegotiationEvent::UrlIssued {
            csrf: "csrf-token-one".to_owned(),
            verifier: "pkce-verifier-one".to_owned(),
        },
    );
    let (s, a) = negotiation_step(
        s,
        NegotiationEvent::RedirectReceived {
            redirect: Redirect::Authorized {
                code: "onetime".to_owned(),
                state: "csrf-token-one".to_owned(),
            },
        },
    );
    assert_eq!(
        a,
        NegotiationAction::Exchange {
            code: "onetime".to_owned(),
            verifier: "pkce-verifier-one".to_owned(),
        },
    );
    let (s, a) = negotiation_step(
        s,
        NegotiationEvent::ExchangeSucceeded { token: "bearer-token-one".to_owned() },
    );
    assert_eq!(s, NegotiationState::Authorized { token: "bearer-token-one".to_owned() });
    assert_eq!(a, NegotiationAction::Finished);
}

#[test]
fn csrf_mismatch_is_rejected_before_exchange() {
    let s = NegotiationState::AwaitingRedirect {
        csrf: "expected-token".to_owned(),
        verifier: "v".to_owned(),
    };
    let (s, a) = negotiation_step(
        s,
        NegotiationEvent::RedirectReceived {
            redirect: Redirect::Authorized {
                code: "onetime".to_owned(),
                state: "other-token".to_owned(),
            },
        },
    );
    assert_eq!(s, NegotiationState::Failed { reason: AuthFailure::CsrfMismatch });
    assert_eq!(a, NegotiationAction::Finished);
}

#[test]
fn error_redirect_carries_the_remote_reason() {
    let s = NegotiationState::AwaitingRedirect { csrf: "c".to_owned(), verifier: "v".to_owned() };
    let (s, a) = negotiation_step(
        s,
        NegotiationEvent::RedirectReceived {
            redirect: Redirect::Error {
                kind: AuthErrorKind::AccessDenied,
                description: Some("the user said no".to_owned()),
                uri: None,
                state: "c".to_owned(),
            },
        },
    );
    assert_eq!(
        s,
        NegotiationState::Failed { reason: AuthFailure::Remote(AuthErrorKind::AccessDenied) },
    );
    assert_eq!(a, NegotiationAction::Finished);
}

#[test]
fn exchange_failure_is_terminal() {
    let s = NegotiationState::Exchanging { code: "c".to_owned(), verifier: "v".to_owned() };
    let (s, _) =
        negotiation_step(s, NegotiationEvent::ExchangeFailed { reason: AuthFailure::Decode });
    assert_eq!(s, NegotiationState::Failed { reason: AuthFailure::Decode });
}

#[test]
fn callback_slot_takes_exactly_one_delivery() {
    let mut slot = CallbackSlot::new();
    let first = Redirect::Authorized { code: "a".to_owned(), state: "s".to_owned() };
    let second = Redirect::Authorized { code: "b".to_owned(), state: "s".to_owned() };
    assert!(slot.deliver(first.clone()));
    assert!(!slot.deliver(second));
    assert_eq!(slot.value, Some(first));
}

#[test]
fn auth_error_messages_name_the_cause() {
    assert_eq!(AuthErrorKind::AccessDenied.message(), "you didn't allow access");
    assert_eq!(AuthErrorKind::InvalidScope.message(), "the code is wrong");
    assert_eq!(AuthErrorKind::ServerError.message(), "the twitter api broke");
    assert_eq!(AuthErrorKind::TemporarilyUnavailable.message(), "the twitter api is down");
    assert_eq!(AuthFailure::CsrfMismatch.message(), "bad csrf token");
}

//! The authorization negotiator: the decision core of the interactive
//! OAuth2 authorization-code-with-PKCE flow.
//!
//! The machine starts `Idle`, binds a single-use loopback callback
//! listener, issues the authorize URL with a freshly generated CSRF token
//! and PKCE verifier, and then waits for exactly one redirect. A success
//! payload is validated by a byte-exact comparison of its returned state
//! against the generated token — a mismatch fails as a CSRF mismatch
//! before any token exchange is attempted — and only then is the one-time
//! code exchanged for the bearer credential. The caller performs the I/O
//! (binding, browsing, posting the exchange) and feeds the outcomes back
//! in as events; redirect delivery and state validation happen in one
//! step, so no other event can fall in between.

use vstd::prelude::*;

use crate::errors::{AuthErrorKind, AuthFailure};
use crate::json::bytes_eq;

verus! {

/// Whether two strings hold exactly the same characters.
pub fn str_eq(a: &str, b: &str) -> (r: bool)
    ensures
        r == (a@ == b@),
{
    let r = bytes_eq(a.as_bytes(), b.as_bytes());
    proof {
        vstd::utf8::encode_utf8_decode_utf8(a@);
        vstd::utf8::encode_utf8_decode_utf8(b@);
    }
    r
}

/// The data passed along with an OAuth authorization redirect.
#[derive(Clone, Debug, PartialEq, Eq)]
pub enum Redirect {
    /// The success payload: the one-time code and the returned state.
    Authorized { code: String, state: String },
    /// The structured error payload: the error kind, the optional
    /// human-readable description and reference URL, and the returned
    /// state.
    Error { kind: AuthErrorKind, description: Option<String>, uri: Option<String>, state: String },
}

/// The single-use callback cell. The redirect payload is delivered at most
/// once: the first delivery wins and permanently consumes the cell; a
/// second delivery is refused, which the caller treats as a fatal
/// internal-consistency error, not a retryable one.
pub struct CallbackSlot {
    /// A delivery has already happened.
    pub consumed: bool,
    /// The delivered payload, if any.
    pub value: Option<Redirect>,
}

impl CallbackSlot {
    /// An empty, unconsumed cell.
    pub fn new() -> (s: CallbackSlot)
        ensures
            !s.consumed,
            s.value is None,
    {
        CallbackSlot { consumed: false, value: None }
    }

    /// Delivers the redirect payload. The first delivery is accepted and
    /// consumes the cell; any later one is refused and changes nothing.
    pub fn deliver(&mut self, r: Redirect) -> (ok: bool)
        ensures
            old(self).consumed ==> (!ok && *final(self) == *old(self)),
            !old(self).consumed ==> (ok && final(self).consumed && final(self).value == Some(r)),
    {
        if self.consumed {
            false
        } else {
            self.consumed = true;
            self.value = Some(r);
            true
        }
    }
}

/// Where the negotiation stands. The machine never moves backwards;
/// `Authorized` and `Failed` are terminal.
#[derive(Debug, PartialEq, Eq)]
pub enum NegotiationState {
    /// Nothing has started.
    Idle,
    /// The single-use loopback callback listener is bound.
    ServerListening,
    /// The authorize URL is in the user's hands; holds the CSRF token and
    /// the PKCE verifier generated for this one attempt.
    AwaitingRedirect { csrf: String, verifier: String },
    /// The redirect arrived and its state matched the token: the one-time
    /// code is being exchanged.
    Exchanging { code: String, verifier: String },
    /// The negotiation produced this bearer credential.
    Authorized { token: String },
    /// The negotiation failed for this reason.
    Failed { reason: AuthFailure },
}

/// What happened outside the machine. The caller performs the I/O and
/// reports it here.
#[derive(Debug, PartialEq, Eq)]
pub enum NegotiationEvent {
    /// The callback listener is bound to its ephemeral loopback port.
    ListenerBound,
    /// The authorize URL was built with this freshly generated CSRF token
    /// and PKCE verifier and handed to the user's agent.
    UrlIssued { csrf: String, verifier: String },
    /// The callback fired with this payload; the listener is now shut.
    RedirectReceived { redirect: Redirect },
    /// The token endpoint accepted the exchange and returned this bearer
    /// credential.
    ExchangeSucceeded { token: String },
    /// The exchange failed for this reason.
    ExchangeFailed { reason: AuthFailure },
}

/// What the machine asks the caller to do next.
#[derive(Debug, PartialEq, Eq)]
pub enum NegotiationAction {
    /// Wait for the next event.
    Wait,
    /// Submit `code`, the PKCE `verifier` and the client id to the token
    /// endpoint.
    Exchange { code: String, verifier: String },
    /// The negotiation is over; read the terminal state.
    Finished,
}

/// The transition relation. `None` marks an event that cannot occur in the
/// given state under the protocol.
pub open spec fn spec_negotiation_step(s: NegotiationState, e: NegotiationEvent) -> Option<
    (NegotiationState, NegotiationAction),
> {
    match (s, e) {
        (NegotiationState::Idle, NegotiationEvent::ListenerBound) => Some(
            (NegotiationState::ServerListening, NegotiationAction::Wait),
        ),
        (
            NegotiationState::ServerListening,
            NegotiationEvent::UrlIssued { csrf, verifier },
        ) => Some((NegotiationState::AwaitingRedirect { csrf, verifier }, NegotiationAction::Wait)),
        (
            NegotiationState::AwaitingRedirect { csrf, verifier },
            NegotiationEvent::RedirectReceived { redirect },
        ) => match redirect {
            Redirect::Authorized { code, state } => {
                if state@ == csrf@ {
                    Some(
                        (
                            NegotiationState::Exchanging { code, verifier },
                            NegotiationAction::Exchange { code, verifier },
                        ),
                    )
                } else {
                    Some(
                        (
                            NegotiationState::Failed { reason: AuthFailure::CsrfMismatch },
                            NegotiationAction::Finished,
                        ),
                    )
                }
            },
            Redirect::Error { kind, description, uri, state } => Some(
                (
                    NegotiationState::Failed { reason: AuthFailure::Remote(kind) },
                    NegotiationAction::Finished,
                ),
            ),
        },
        (
            NegotiationState::Exchanging { code, verifier },
            NegotiationEvent::ExchangeSucceeded { token },
        ) => Some((NegotiationState::Authorized { token }, NegotiationAction::Finished)),
        (
            NegotiationState::Exchanging { code, verifier },
            NegotiationEvent::ExchangeFailed { reason },
        ) => Some((NegotiationState::Failed { reason }, NegotiationAction::Finished)),
        _ => None,
    }
}

/// Whether `e` can occur in state `s` under the protocol.
pub open spec fn event_fits(s: NegotiationState, e: NegotiationEvent) -> bool {
    spec_negotiation_step(s, e) is Some
}

/// Advances the negotiation by one event and says what to do next.
///
/// Validation is part of this step: a success redirect is compared byte
/// for byte against the CSRF token generated for this attempt, and only a
/// match leads to the `Exchange` action; a mismatch is terminal
/// (`CsrfMismatch`) with no exchange. An error redirect carries the
/// remote's reason into the terminal state.
pub fn negotiation_step(s: NegotiationState, e: NegotiationEvent) -> (r: (
    NegotiationState,
    NegotiationAction,
))
    requires
        event_fits(s, e),
    ensures
        Some(r) == spec_negotiation_step(s, e),
{
    match (s, e) {
        (NegotiationState::Idle, NegotiationEvent::ListenerBound) => (
            NegotiationState::ServerListening,
            NegotiationAction::Wait,
        ),
        (
            NegotiationState::ServerListening,
            NegotiationEvent::UrlIssued { csrf, verifier },
        ) => (NegotiationState::AwaitingRedirect { csrf, verifier }, NegotiationAction::Wait),
        (
            NegotiationState::AwaitingRedirect { csrf, verifier },
            NegotiationEvent::RedirectReceived { redirect },
        ) => match redirect {
            Redirect::Authorized { code, state } => {
                if str_eq(state.as_str(), csrf.as_str()) {
                    (
                        NegotiationState::Exchanging {
                            code: code.clone(),
                            verifier: verifier.clone(),
                        },
                        NegotiationAction::Exchange { code, verifier },
                    )
                } else {
                    (
                        NegotiationState::Failed { reason: AuthFailure::CsrfMismatch },
                        NegotiationAction::Finished,
                    )
                }
            },
            Redirect::Error { kind, description: _, uri: _, state: _ } => (
                NegotiationState::Failed { reason: AuthFailure::Remote(kind) },
                NegotiationAction::Finished,
            ),
        },
        (
            NegotiationState::Exchanging { code: _, verifier: _ },
            NegotiationEvent::ExchangeSucceeded { token },
        ) => (NegotiationState::Authorized { token }, NegotiationAction::Finished),
        (
            NegotiationState::Exchanging { code: _, verifier: _ },
            NegotiationEvent::ExchangeFailed { reason },
        ) => (NegotiationState::Failed { reason }, NegotiationAction::Finished),
        _ => {
            proof {
                assert(false);
            }
            (NegotiationState::Idle, NegotiationAction::Wait)
        },
    }
}

/// A redirect whose state differs from the token generated for this
/// attempt is rejected as a CSRF mismatch before any token exchange is
/// attempted: the machine goes straight to `Failed` and never asks for an
/// `Exchange`.
pub proof fn lemma_csrf_mismatch_rejected(
    csrf: String,
    verifier: String,
    code: String,
    returned: String,
)
    requires
        returned@ != csrf@,
    ensures
        ({
            let r = spec_negotiation_step(
                NegotiationState::AwaitingRedirect { csrf, verifier },
                NegotiationEvent::RedirectReceived {
                    redirect: Redirect::Authorized { code, state: returned },
                },
            );
            &&& r matches Some((ns, act))
            &&& ns == (NegotiationState::Failed { reason: AuthFailure::CsrfMismatch })
            &&& act is Finished
        }),
{
}

/// In the whole machine, the only transition that asks for a token
/// exchange is a success redirect whose returned state equals, byte for
/// byte, the CSRF token that was generated for this very attempt.
pub proof fn lemma_exchange_needs_matching_state(s: NegotiationState, e: NegotiationEvent)
    requires
        spec_negotiation_step(s, e) matches Some((ns, act)) && act matches
            NegotiationAction::Exchange { code, verifier },
    ensures
        s matches NegotiationState::AwaitingRedirect { csrf, verifier: v2 } && (e matches
            NegotiationEvent::RedirectReceived { redirect } && (redirect matches
            Redirect::Authorized { code: c2, state } && state@ == csrf@)),
{
}

} // verus!

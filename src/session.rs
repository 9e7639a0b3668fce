//! The life of one proxied connection as a state machine: the caller performs
//! each action and reports back what came of it.
use vstd::prelude::*;

verus! {

/// Where a session stands.
#[derive(Debug, PartialEq, Eq, Structural, Clone, Copy)]
pub enum Phase {
    /// Accepted, nothing done yet.
    Start,
    /// TLS handshake under way; no HTTP context exists yet.
    Handshake,
    /// Choosing a backend and building its peer descriptor.
    SelectPeer,
    /// Rewriting the outbound request headers.
    RewriteRequest,
    /// Connecting to the backend and sending the request; no response byte
    /// has reached the client yet.
    Forward,
    /// Streaming the backend's response to the client.
    Relay,
    /// Writing a synthetic error response to the client.
    RespondError,
    /// Torn down.
    End,
}

/// What the caller reports.
#[derive(Debug, PartialEq, Eq, Structural, Clone, Copy)]
pub enum Event {
    /// The connection was accepted, on a TLS listener or a plaintext one.
    Accepted { tls: bool },
    /// The step of the current phase succeeded.
    Succeeded,
    /// The step of the current phase failed (an I/O error, a refused
    /// connection, a refused handshake, an invalid header).
    Failed,
    /// The step of the current phase ran out of time; treated as a failure.
    TimedOut,
    /// The client closed its connection.
    ClientClosed,
}

/// What the caller is to do next.
#[derive(Debug, PartialEq, Eq, Structural, Clone, Copy)]
pub enum Action {
    /// Run the TLS handshake, picking the identity by server name.
    Handshake,
    /// Select a backend and build its peer descriptor.
    SelectPeer,
    /// Rewrite the outbound request headers.
    RewriteRequest,
    /// Connect to the peer and send the rewritten request.
    Forward,
    /// Stream the response back to the client.
    Relay,
    /// Write an error response with this status to the client.
    SendError { status: u16 },
    /// Close the client connection and release any backend connection.
    Close,
    /// Nothing: the event does not apply in this phase.
    Ignore,
}

/// Status for an internal failure: no backend could be selected, or the
/// request could not be rewritten.
pub const STATUS_SERVER_ERROR: u16 = 500;

/// Status for a backend that could not be reached or failed before any
/// response byte was sent.
pub const STATUS_BAD_GATEWAY: u16 = 502;

pub open spec fn is_failure(e: Event) -> bool {
    e == Event::Failed || e == Event::TimedOut
}

/// The next phase and action for `event` in phase `p`.
pub open spec fn transition(p: Phase, e: Event) -> (Phase, Action) {
    if p == Phase::End {
        (Phase::End, Action::Ignore)
    } else if e == Event::ClientClosed {
        (Phase::End, Action::Close)
    } else {
        match p {
            Phase::Start => match e {
                Event::Accepted { tls } => if tls {
                    (Phase::Handshake, Action::Handshake)
                } else {
                    (Phase::SelectPeer, Action::SelectPeer)
                },
                _ => (Phase::Start, Action::Ignore),
            },
            Phase::Handshake => if e == Event::Succeeded {
                (Phase::SelectPeer, Action::SelectPeer)
            } else if is_failure(e) {
                (Phase::End, Action::Close)
            } else {
                (Phase::Handshake, Action::Ignore)
            },
            Phase::SelectPeer => if e == Event::Succeeded {
                (Phase::RewriteRequest, Action::RewriteRequest)
            } else if is_failure(e) {
                (Phase::RespondError, Action::SendError { status: STATUS_SERVER_ERROR })
            } else {
                (Phase::SelectPeer, Action::Ignore)
            },
            Phase::RewriteRequest => if e == Event::Succeeded {
                (Phase::Forward, Action::Forward)
            } else if is_failure(e) {
                (Phase::RespondError, Action::SendError { status: STATUS_SERVER_ERROR })
            } else {
                (Phase::RewriteRequest, Action::Ignore)
            },
            Phase::Forward => if e == Event::Succeeded {
                (Phase::Relay, Action::Relay)
            } else if is_failure(e) {
                (Phase::RespondError, Action::SendError { status: STATUS_BAD_GATEWAY })
            } else {
                (Phase::Forward, Action::Ignore)
            },
            Phase::Relay => if e == Event::Succeeded || is_failure(e) {
                (Phase::End, Action::Close)
            } else {
                (Phase::Relay, Action::Ignore)
            },
            _ => if e == Event::Succeeded || is_failure(e) {
                (Phase::End, Action::Close)
            } else {
                (Phase::RespondError, Action::Ignore)
            },
        }
    }
}

/// Computes `transition(p, e)`.
pub fn next_step(p: Phase, e: Event) -> (r: (Phase, Action))
    ensures
        r == transition(p, e),
{
    if p == Phase::End {
        return (Phase::End, Action::Ignore);
    }
    if e == Event::ClientClosed {
        return (Phase::End, Action::Close);
    }
    let failed = e == Event::Failed || e == Event::TimedOut;
    let ok = e == Event::Succeeded;
    match p {
        Phase::Start => match e {
            Event::Accepted { tls } => if tls {
                (Phase::Handshake, Action::Handshake)
            } else {
                (Phase::SelectPeer, Action::SelectPeer)
            },
            _ => (Phase::Start, Action::Ignore),
        },
        Phase::Handshake => if ok {
            (Phase::SelectPeer, Action::SelectPeer)
        } else if failed {
            (Phase::End, Action::Close)
        } else {
            (Phase::Handshake, Action::Ignore)
        },
        Phase::SelectPeer => if ok {
            (Phase::RewriteRequest, Action::RewriteRequest)
        } else if failed {
            (Phase::RespondError, Action::SendError { status: STATUS_SERVER_ERROR })
        } else {
            (Phase::SelectPeer, Action::Ignore)
        },
        Phase::RewriteRequest => if ok {
            (Phase::Forward, Action::Forward)
        } else if failed {
            (Phase::RespondError, Action::SendError { status: STATUS_SERVER_ERROR })
        } else {
            (Phase::RewriteRequest, Action::Ignore)
        },
        Phase::Forward => if ok {
            (Phase::Relay, Action::Relay)
        } else if failed {
            (Phase::RespondError, Action::SendError { status: STATUS_BAD_GATEWAY })
        } else {
            (Phase::Forward, Action::Ignore)
        },
        Phase::Relay => if ok || failed {
            (Phase::End, Action::Close)
        } else {
            (Phase::Relay, Action::Ignore)
        },
        _ => if ok || failed {
            (Phase::End, Action::Close)
        } else {
            (Phase::RespondError, Action::Ignore)
        },
    }
}

/// Per-connection state threaded through one request: the phase, and the
/// request-scoped data that earlier steps attach.
pub struct SessionContext {
    pub phase: Phase,
    /// Index of the TLS identity the handshake completed with, if any.
    pub identity: Option<usize>,
    /// A trace id attached by the caller, if any.
    pub trace_id: Option<u64>,
}

impl SessionContext {
    /// A fresh context for a connection just accepted.
    pub fn new() -> (r: SessionContext)
        ensures
            r.phase == Phase::Start,
            r.identity is None,
            r.trace_id is None,
    {
        SessionContext { phase: Phase::Start, identity: None, trace_id: None }
    }

    /// Moves the session on by `e` and returns what to do next.
    pub fn advance(&mut self, e: Event) -> (r: Action)
        ensures
            (final(self).phase, r) == transition(old(self).phase, e),
            final(self).identity == old(self).identity,
            final(self).trace_id == old(self).trace_id,
    {
        let (p, a) = next_step(self.phase, e);
        self.phase = p;
        a
    }
}

/// A failed TLS handshake closes the connection without any HTTP response:
/// no session exists to answer on.
pub proof fn lemma_handshake_failure_closes_silently(e: Event)
    requires
        is_failure(e),
    ensures
        transition(Phase::Handshake, e) == (Phase::End, Action::Close),
{
}

/// A failure before any response byte reached the client is answered with an
/// error status: a server error while selecting or rewriting, a gateway
/// error while forwarding; the session then ends on the next event.
pub proof fn lemma_failure_before_relay_answers(p: Phase, e: Event)
    requires
        p == Phase::SelectPeer || p == Phase::RewriteRequest || p == Phase::Forward,
        is_failure(e),
    ensures
        transition(p, e).0 == Phase::RespondError,
        transition(p, e).1 == (Action::SendError {
            status: if p == Phase::Forward { STATUS_BAD_GATEWAY } else { STATUS_SERVER_ERROR },
        }),
        transition(Phase::RespondError, Event::Succeeded) == (Phase::End, Action::Close),
        transition(Phase::RespondError, Event::Failed) == (Phase::End, Action::Close),
{
}

/// Once its handshake succeeds, a TLS session stands where a plaintext one
/// stands right after it is accepted: the request goes through the same steps.
pub proof fn lemma_tls_joins_plain_path()
    ensures
        transition(transition(Phase::Start, Event::Accepted { tls: true }).0, Event::Succeeded)
            == transition(Phase::Start, Event::Accepted { tls: false }),
{
}

/// A session that has ended stays ended, whatever is reported.
pub proof fn lemma_end_is_final(e: Event)
    ensures
        transition(Phase::End, e) == (Phase::End, Action::Ignore),
{
}

/// A closed client connection ends any live session at once.
pub proof fn lemma_client_close_ends(p: Phase)
    requires
        p != Phase::End,
    ensures
        transition(p, Event::ClientClosed) == (Phase::End, Action::Close),
{
}

} // verus!

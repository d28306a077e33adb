//! The per-request lifecycle of the proxy service.
//!
//! Every request walks one state machine: it arrives, is classified by the
//! policy evaluator, and is then forwarded, held for approval, or rejected;
//! an approved request is forwarded like a permitted one; a forwarded
//! request streams until it completes or fails. The runtime performs the
//! I/O between transitions and feeds the outcomes back as events. A denied,
//! expired, or rejected request is never silently retried: every such phase
//! is terminal.

use vstd::prelude::*;
use crate::approval::Verdict;
use crate::errors::ProxyError;
use crate::policy::PolicyAction;

verus! {

/// Where a request stands in its lifecycle.
#[derive(Debug, Clone, Copy, PartialEq, Eq, Structural)]
pub enum RequestPhase {
    /// Arrived; identity extracted; awaiting classification.
    Received,
    /// Classified Forward or granted approval; opening the upstream call.
    Forwarding,
    /// Streaming the upstream response to the client.
    Streaming,
    /// Held until an approval verdict or the deadline.
    Awaiting,
    /// Terminal: the response was streamed whole.
    Completed,
    /// Terminal: opening or streaming failed.
    ForwardingError,
    /// Terminal: rejected by policy.
    Rejected,
    /// Terminal: the approver denied the request.
    Denied,
    /// Terminal: the approval deadline passed without a verdict.
    Expired,
    /// Terminal: the client went away.
    Cancelled,
}

impl RequestPhase {
    /// Whether the request's lifecycle has ended.
    pub open spec fn is_terminal(&self) -> bool {
        match *self {
            RequestPhase::Received => false,
            RequestPhase::Forwarding => false,
            RequestPhase::Streaming => false,
            RequestPhase::Awaiting => false,
            _ => true,
        }
    }
}

/// An event the runtime reports back to the lifecycle.
#[derive(Debug, Clone, Copy, PartialEq, Eq, Structural)]
pub enum RequestEvent {
    /// The policy decision arrived: forward, approve, or reject.
    ClassifiedForward,
    /// The policy asked for approval.
    ClassifiedApprove,
    /// The policy rejected the request.
    ClassifiedReject,
    /// The approval ticket terminated with this verdict.
    VerdictReached {
        /// The verdict that decided the ticket.
        verdict: Verdict,
    },
    /// The upstream call opened; the response can stream.
    UpstreamOpened,
    /// The upstream call failed to open, or streaming failed.
    UpstreamFailed,
    /// The stream ended normally.
    StreamEnded,
    /// The client disconnected.
    ClientCancelled,
}

/// The lifecycle's answer to one event. An event that does not apply to
/// the current phase changes nothing; a terminal phase absorbs everything.
pub open spec fn spec_request_step(s: RequestPhase, ev: RequestEvent) -> RequestPhase {
    if s.is_terminal() {
        s
    } else {
        match (s, ev) {
            (RequestPhase::Received, RequestEvent::ClassifiedForward) => RequestPhase::Forwarding,
            (RequestPhase::Received, RequestEvent::ClassifiedApprove) => RequestPhase::Awaiting,
            (RequestPhase::Received, RequestEvent::ClassifiedReject) => RequestPhase::Rejected,
            (RequestPhase::Awaiting, RequestEvent::VerdictReached { verdict }) => match verdict {
                Verdict::Granted => RequestPhase::Forwarding,
                Verdict::Denied => RequestPhase::Denied,
                Verdict::Expired => RequestPhase::Expired,
            },
            (RequestPhase::Forwarding, RequestEvent::UpstreamOpened) => RequestPhase::Streaming,
            (RequestPhase::Forwarding, RequestEvent::UpstreamFailed) => RequestPhase::ForwardingError,
            (RequestPhase::Streaming, RequestEvent::StreamEnded) => RequestPhase::Completed,
            (RequestPhase::Streaming, RequestEvent::UpstreamFailed) => RequestPhase::ForwardingError,
            (_, RequestEvent::ClientCancelled) => RequestPhase::Cancelled,
            _ => s,
        }
    }
}

/// The phase a sequence of events leaves a request in.
pub open spec fn spec_request_run(s: RequestPhase, evs: Seq<RequestEvent>) -> RequestPhase
    decreases evs.len(),
{
    if evs.len() == 0 {
        s
    } else {
        spec_request_run(spec_request_step(s, evs[0]), evs.drop_first())
    }
}

/// One request's lifecycle.
#[derive(Debug, Clone, Copy, PartialEq, Eq, Structural)]
pub struct RequestLifecycle {
    /// Where the request stands.
    pub phase: RequestPhase,
}

impl RequestLifecycle {
    /// A request that has just arrived.
    pub fn new() -> (r: Self)
        ensures
            r.phase == RequestPhase::Received,
    {
        RequestLifecycle { phase: RequestPhase::Received }
    }

    /// Feeds one event to the lifecycle and reports the phase it moves to,
    /// per [`spec_request_step`].
    pub fn step(&mut self, ev: RequestEvent) -> (phase: RequestPhase)
        ensures
            final(self).phase == spec_request_step(old(self).phase, ev),
            phase == final(self).phase,
    {
        let current = self.phase;
        let next = if matches!(current, RequestPhase::Received) {
            match ev {
                RequestEvent::ClassifiedForward => RequestPhase::Forwarding,
                RequestEvent::ClassifiedApprove => RequestPhase::Awaiting,
                RequestEvent::ClassifiedReject => RequestPhase::Rejected,
                RequestEvent::ClientCancelled => RequestPhase::Cancelled,
                _ => current,
            }
        } else if matches!(current, RequestPhase::Awaiting) {
            match ev {
                RequestEvent::VerdictReached { verdict } => match verdict {
                    Verdict::Granted => RequestPhase::Forwarding,
                    Verdict::Denied => RequestPhase::Denied,
                    Verdict::Expired => RequestPhase::Expired,
                },
                RequestEvent::ClientCancelled => RequestPhase::Cancelled,
                _ => current,
            }
        } else if matches!(current, RequestPhase::Forwarding) {
            match ev {
                RequestEvent::UpstreamOpened => RequestPhase::Streaming,
                RequestEvent::UpstreamFailed => RequestPhase::ForwardingError,
                RequestEvent::ClientCancelled => RequestPhase::Cancelled,
                _ => current,
            }
        } else if matches!(current, RequestPhase::Streaming) {
            match ev {
                RequestEvent::StreamEnded => RequestPhase::Completed,
                RequestEvent::UpstreamFailed => RequestPhase::ForwardingError,
                RequestEvent::ClientCancelled => RequestPhase::Cancelled,
                _ => current,
            }
        } else {
            current
        };
        self.phase = next;
        next
    }

    /// Turns a policy action into the classification event it stands for.
    pub fn classification_event(action: &PolicyAction) -> (ev: RequestEvent)
        ensures
            action is Forward ==> ev == RequestEvent::ClassifiedForward,
            action is Approve ==> ev == RequestEvent::ClassifiedApprove,
            action is Reject ==> ev == RequestEvent::ClassifiedReject,
    {
        match action {
            PolicyAction::Forward => RequestEvent::ClassifiedForward,
            PolicyAction::Approve { .. } => RequestEvent::ClassifiedApprove,
            PolicyAction::Reject { .. } => RequestEvent::ClassifiedReject,
        }
    }
}

/// The error a terminal phase surfaces as, if any: a completed request
/// surfaces none, a cancelled one produces no response either, and every
/// failed one maps onto the taxonomy of [`crate::errors`]. The internal
/// rejection reason is supplied by the caller and stays out of the client
/// message by the laws of that module.
pub fn terminal_error(phase: &RequestPhase, reason: String) -> (r: Option<ProxyError>)
    ensures
        match *phase {
            RequestPhase::Rejected => r matches Some(e) && e == (ProxyError::PolicyDenied {
                reason,
            }),
            RequestPhase::Denied => r == Some(ProxyError::ApprovalDenied),
            RequestPhase::Expired => r == Some(ProxyError::ApprovalTimeout),
            RequestPhase::Cancelled => r == Some(ProxyError::ApprovalCancelled),
            RequestPhase::ForwardingError => r == Some(ProxyError::UpstreamTransport),
            _ => r is None,
        },
{
    match phase {
        RequestPhase::Rejected => Some(ProxyError::PolicyDenied { reason }),
        RequestPhase::Denied => Some(ProxyError::ApprovalDenied),
        RequestPhase::Expired => Some(ProxyError::ApprovalTimeout),
        RequestPhase::Cancelled => Some(ProxyError::ApprovalCancelled),
        RequestPhase::ForwardingError => Some(ProxyError::UpstreamTransport),
        _ => None,
    }
}

/// Law: a terminal phase is final. Once a request has completed, failed,
/// been rejected, denied, expired, or cancelled, no sequence of events
/// moves it.
pub proof fn lemma_request_terminal_is_final(s: RequestPhase, evs: Seq<RequestEvent>)
    requires
        s.is_terminal(),
    ensures
        spec_request_run(s, evs) == s,
    decreases evs.len(),
{
    if evs.len() > 0 {
        lemma_request_terminal_is_final(spec_request_step(s, evs[0]), evs.drop_first());
    }
}

/// Law: no silent retry. A rejected, denied, or expired request never
/// reaches the forward path again, whatever events follow.
pub proof fn lemma_no_silent_retry(s: RequestPhase, evs: Seq<RequestEvent>)
    requires
        s is Rejected || s is Denied || s is Expired,
    ensures
        !(spec_request_run(s, evs) is Forwarding),
        !(spec_request_run(s, evs) is Streaming),
        !(spec_request_run(s, evs) is Completed),
{
    lemma_request_terminal_is_final(s, evs);
}

} // verus!

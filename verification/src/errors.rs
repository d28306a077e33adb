//! The error taxonomy and how each error surfaces to the client.
//!
//! Rejections carry JSON-RPC error objects: policy denials are code -32003,
//! approval timeouts and denials are both -32004 (kept indistinguishable so
//! the client learns nothing about the approver), upstream timeouts are
//! -32005 naming which deadline fired, and upstream transport failures are
//! -32010. A cancellation produces no response at all. Internal reasons
//! stay in logs; the client sees only the generic messages here.

use vstd::prelude::*;

verus! {

/// Which streaming deadline fired.
#[derive(Debug, Clone, Copy, PartialEq, Eq, Structural)]
pub enum TimeoutKind {
    /// The per-frame deadline.
    Chunk,
    /// The whole-stream deadline.
    Total,
}

/// Everything that can end a request without a forwarded response.
#[derive(Debug, Clone, PartialEq, Eq)]
pub enum ProxyError {
    /// The policy rejected the request; the reason stays in logs.
    PolicyDenied {
        /// Why the policy rejected it; never sent to the client.
        reason: String,
    },
    /// No approval verdict arrived within the allotted time.
    ApprovalTimeout,
    /// The approver denied the request.
    ApprovalDenied,
    /// The client cancelled while awaiting approval.
    ApprovalCancelled,
    /// A streaming deadline fired while forwarding.
    UpstreamTimeout {
        /// Which deadline fired.
        which: TimeoutKind,
    },
    /// The upstream connection failed.
    UpstreamTransport,
}

/// The JSON-RPC error code an error surfaces as; `None` for a cancellation,
/// which produces no response.
pub open spec fn spec_client_code(e: ProxyError) -> Option<int> {
    match e {
        ProxyError::PolicyDenied { .. } => Some(-32003int),
        ProxyError::ApprovalTimeout => Some(-32004int),
        ProxyError::ApprovalDenied => Some(-32004int),
        ProxyError::ApprovalCancelled => None,
        ProxyError::UpstreamTimeout { .. } => Some(-32005int),
        ProxyError::UpstreamTransport => Some(-32010int),
    }
}

/// The user-safe message an error surfaces with; `None` for a cancellation.
/// No internal reason appears here.
pub open spec fn spec_client_message(e: ProxyError) -> Option<Seq<char>> {
    match e {
        ProxyError::PolicyDenied { .. } => Some("request denied by policy"@),
        ProxyError::ApprovalTimeout => Some("approval not received within allotted time"@),
        ProxyError::ApprovalDenied => Some("approval not received within allotted time"@),
        ProxyError::ApprovalCancelled => None,
        ProxyError::UpstreamTimeout { which } => match which {
            TimeoutKind::Chunk => Some("upstream timeout: chunk deadline exceeded"@),
            TimeoutKind::Total => Some("upstream timeout: total deadline exceeded"@),
        },
        ProxyError::UpstreamTransport => Some("upstream transport failure"@),
    }
}

/// The JSON-RPC error response an error surfaces as: its code and a
/// user-safe message, or nothing for a cancellation.
pub fn client_response(e: &ProxyError) -> (r: Option<(i32, &'static str)>)
    ensures
        r is Some <==> spec_client_code(*e) is Some,
        r matches Some((code, message)) ==> Some(code as int) == spec_client_code(*e) && Some(
            message@) == spec_client_message(*e),
{
    match e {
        ProxyError::PolicyDenied { .. } => Some((-32003, "request denied by policy")),
        ProxyError::ApprovalTimeout => Some(
            (-32004, "approval not received within allotted time"),
        ),
        ProxyError::ApprovalDenied => Some(
            (-32004, "approval not received within allotted time"),
        ),
        ProxyError::ApprovalCancelled => None,
        ProxyError::UpstreamTimeout { which } => match which {
            TimeoutKind::Chunk => Some((-32005, "upstream timeout: chunk deadline exceeded")),
            TimeoutKind::Total => Some((-32005, "upstream timeout: total deadline exceeded")),
        },
        ProxyError::UpstreamTransport => Some((-32010, "upstream transport failure")),
    }
}

/// Law: approval timeouts and denials are indistinguishable to the client,
/// in code and in message, so the response is no oracle on the approver's
/// behaviour.
pub proof fn lemma_timeout_denied_merged()
    ensures
        spec_client_code(ProxyError::ApprovalTimeout) == spec_client_code(
            ProxyError::ApprovalDenied),
        spec_client_message(ProxyError::ApprovalTimeout) == spec_client_message(
            ProxyError::ApprovalDenied),
{
}

/// Law: the internal denial reason never reaches the client. Two policy
/// denials with different reasons surface with the same code and the same
/// message.
pub proof fn lemma_reason_not_disclosed(r1: String, r2: String)
    ensures
        spec_client_code(ProxyError::PolicyDenied { reason: r1 }) == spec_client_code(
            ProxyError::PolicyDenied { reason: r2 }),
        spec_client_message(ProxyError::PolicyDenied { reason: r1 }) == spec_client_message(
            ProxyError::PolicyDenied { reason: r2 }),
{
}

} // verus!

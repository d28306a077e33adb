//! Actions a policy evaluation can select for a request.
//!
//! The evaluator maps every classified request to exactly one of three
//! actions: forward it at once, hold it for human approval, or reject it.
//! Durations are carried as whole milliseconds.

use vstd::prelude::*;

verus! {

/// The action selected for a request by policy evaluation.
#[derive(Debug, Clone, PartialEq, Eq)]
pub enum PolicyAction {
    /// Forward the request to the upstream immediately.
    Forward,
    /// Hold the request until an approval verdict arrives, or until
    /// `timeout` milliseconds pass, whichever is first.
    Approve {
        /// Milliseconds the approval workflow may take before the request
        /// fails with an approval timeout.
        timeout: u64,
    },
    /// Deny the request. The reason is safe for logging and is never sent
    /// to the client verbatim.
    Reject {
        /// Why the request was denied.
        reason: String,
    },
}

impl PolicyAction {
    /// True iff this action forwards the request immediately.
    pub fn is_forward(&self) -> (r: bool)
        ensures
            r == (self is Forward),
    {
        matches!(self, PolicyAction::Forward)
    }

    /// True iff this action requires approval.
    pub fn is_approve(&self) -> (r: bool)
        ensures
            r == (self is Approve),
    {
        matches!(self, PolicyAction::Approve { .. })
    }

    /// True iff this action rejects the request.
    pub fn is_reject(&self) -> (r: bool)
        ensures
            r == (self is Reject),
    {
        matches!(self, PolicyAction::Reject { .. })
    }

    /// The approval timeout in milliseconds, if this action requires
    /// approval.
    pub fn timeout(&self) -> (r: Option<u64>)
        ensures
            r == (if self is Approve {
                Some(self->timeout)
            } else {
                None::<u64>
            }),
    {
        match self {
            PolicyAction::Approve { timeout } => Some(*timeout),
            _ => None,
        }
    }
}

impl Default for PolicyAction {
    /// The default action fails closed: with no policy permitting the
    /// request, it is rejected.
    fn default() -> (r: Self)
        ensures
            r is Reject,
            r->reason@ == "No policy permits this action"@,
    {
        PolicyAction::Reject { reason: "No policy permits this action".to_owned() }
    }
}

} // verus!

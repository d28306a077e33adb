//! Data model of policy evaluation: who asks, what they ask for, what the
//! evaluator can answer, and how the policy store reports itself.
//!
//! Instants are unix milliseconds and durations whole milliseconds.

use vstd::prelude::*;

verus! {

/// The four routing decisions the classifier distinguishes.
#[derive(Debug, Clone, PartialEq, Eq)]
pub enum PolicyDecision {
    /// Stream through without buffering.
    Green,
    /// Buffer and inspect before forwarding.
    Amber,
    /// Require an approval verdict before proceeding.
    Approval {
        /// Milliseconds the approval decision may take.
        timeout: u64,
    },
    /// Deny the request.
    Red {
        /// Why it was denied; safe for logging, not user-facing.
        reason: String,
    },
}

/// A request put to the policy evaluator.
#[derive(Debug, Clone)]
pub struct PolicyRequest {
    /// The principal making the request.
    pub principal: Principal,
    /// The resource being accessed.
    pub resource: Resource,
    /// Context for re-evaluating after an approval, if any.
    pub context: Option<PolicyContext>,
}

/// The identified caller: the app or service making the request.
#[derive(Debug, Clone, PartialEq, Eq)]
pub struct Principal {
    /// Application name.
    pub app_name: String,
    /// Namespace the workload runs in.
    pub namespace: String,
    /// Service-account name.
    pub service_account: String,
    /// Roles held; duplicates have no effect.
    pub roles: Vec<String>,
}

/// The operation a principal asks for on an upstream.
#[derive(Debug, Clone, PartialEq, Eq)]
pub enum Resource {
    /// A tool call.
    ToolCall {
        /// Tool name.
        name: String,
        /// Upstream server identifier.
        server: String,
    },
    /// A generic upstream method.
    McpMethod {
        /// Method name.
        method: String,
        /// Upstream server identifier.
        server: String,
    },
}

/// Context for policy evaluation.
#[derive(Debug, Clone)]
pub struct PolicyContext {
    /// Approval grant for post-approval re-evaluation, if any.
    pub approval_grant: Option<ApprovalGrant>,
}

/// An approval grant recorded when a verdict was given.
#[derive(Debug, Clone, PartialEq, Eq)]
pub struct ApprovalGrant {
    /// Task that was approved.
    pub task_id: String,
    /// Who approved it.
    pub approved_by: String,
    /// Unix timestamp of the approval, in seconds.
    pub approved_at: i64,
}

/// Errors the policy evaluator can meet. At the evaluation boundary each
/// is demoted to a rejection with a generic reason; none escapes further.
#[derive(Debug, Clone, PartialEq, Eq)]
pub enum PolicyError {
    /// The policy file was not found.
    FileNotFound {
        /// Path that was not found.
        path: String,
    },
    /// The policy text did not parse.
    ParseError {
        /// What went wrong.
        details: String,
        /// Line number, if known.
        line: Option<usize>,
    },
    /// The policy did not match its schema.
    SchemaValidation {
        /// What went wrong.
        details: String,
    },
    /// The caller's identity could not be inferred.
    IdentityError {
        /// What went wrong.
        details: String,
    },
    /// The underlying policy engine failed.
    CedarError {
        /// What went wrong.
        details: String,
    },
}

/// Where the active policy set was loaded from.
#[derive(Debug, Clone)]
pub enum PolicySource {
    /// Loaded from a mounted configuration file.
    ConfigMap {
        /// File path.
        path: String,
        /// Unix milliseconds when it was loaded.
        loaded_at: u64,
    },
    /// Loaded from an environment variable.
    Environment {
        /// Unix milliseconds when it was loaded.
        loaded_at: u64,
    },
    /// Built-in default policies.
    Embedded,
}

/// Counters the policy store keeps. All are non-decreasing; they saturate
/// rather than wrap.
#[derive(Debug, Clone, PartialEq, Eq)]
pub struct PolicyStats {
    /// Number of policies loaded.
    pub policy_count: usize,
    /// Unix milliseconds of the last successful reload, if any.
    pub last_reload: Option<u64>,
    /// Successful reloads so far.
    pub reload_count: u64,
    /// Evaluations so far.
    pub evaluation_count: u64,
}

impl Default for PolicyStats {
    /// Fresh statistics: nothing loaded, nothing counted.
    fn default() -> (s: Self)
        ensures
            s == (PolicyStats {
                policy_count: 0,
                last_reload: None,
                reload_count: 0,
                evaluation_count: 0,
            }),
    {
        PolicyStats { policy_count: 0, last_reload: None, reload_count: 0, evaluation_count: 0 }
    }
}

} // verus!

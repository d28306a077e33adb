//! The policy evaluator: maps a classified request to one of
//! {Forward, Approve, Reject}.
//!
//! A policy set is a list of rules, each granting Forward or Approve to the
//! requests it matches. Evaluation follows a fixed precedence: if any rule
//! permits Forward, the request is forwarded; otherwise, if any permits
//! Approve, it is held for approval with the minimum timeout those rules
//! ask; otherwise it is rejected. The decision is a pure function of the
//! request and the rule set, and reloading swaps the whole set at once.

use vstd::prelude::*;
use crate::policy::PolicyAction;
use crate::policy_data::{PolicyError, PolicyRequest, PolicyStats, Principal, Resource};

verus! {

/// The effect a rule grants to the requests it matches.
#[derive(Debug, Clone, PartialEq, Eq)]
pub enum RuleEffect {
    /// Forward matching requests immediately.
    Forward,
    /// Hold matching requests for approval.
    Approve {
        /// Milliseconds the approval may take.
        timeout: u64,
    },
}

/// One policy rule: an effect and the conditions a request must meet.
/// A condition left as `None` matches anything.
#[derive(Debug, Clone, PartialEq, Eq)]
pub struct PolicyRule {
    /// What matching requests are granted.
    pub effect: RuleEffect,
    /// Namespace the principal must run in.
    pub namespace: Option<String>,
    /// A role the principal must hold.
    pub role: Option<String>,
    /// Server the resource must live on.
    pub server: Option<String>,
    /// Tool or method name the resource must carry.
    pub name: Option<String>,
}

/// The server a resource lives on.
pub open spec fn spec_resource_server(r: Resource) -> Seq<char> {
    match r {
        Resource::ToolCall { server, .. } => server@,
        Resource::McpMethod { server, .. } => server@,
    }
}

/// The tool or method name a resource carries.
pub open spec fn spec_resource_name(r: Resource) -> Seq<char> {
    match r {
        Resource::ToolCall { name, .. } => name@,
        Resource::McpMethod { method, .. } => method@,
    }
}

/// Whether the principal holds the given role.
pub open spec fn spec_has_role(p: Principal, role: Seq<char>) -> bool {
    exists|i: int| 0 <= i < p.roles@.len() && (#[trigger] p.roles@[i])@ == role
}

/// Whether a rule's conditions all hold of a request.
pub open spec fn spec_rule_matches(rule: PolicyRule, req: PolicyRequest) -> bool {
    &&& match rule.namespace {
        Some(ns) => ns@ == req.principal.namespace@,
        None => true,
    }
    &&& match rule.role {
        Some(role) => spec_has_role(req.principal, role@),
        None => true,
    }
    &&& match rule.server {
        Some(s) => s@ == spec_resource_server(req.resource),
        None => true,
    }
    &&& match rule.name {
        Some(n) => n@ == spec_resource_name(req.resource),
        None => true,
    }
}

/// Whether a rule grants Forward to this request.
pub open spec fn spec_rule_forwards(rule: PolicyRule, req: PolicyRequest) -> bool {
    spec_rule_matches(rule, req) && rule.effect is Forward
}

/// Whether any rule in the set grants Forward to this request.
pub open spec fn spec_any_forward(rules: Seq<PolicyRule>, req: PolicyRequest) -> bool {
    exists|i: int| 0 <= i < rules.len() && spec_rule_forwards(#[trigger] rules[i], req)
}

/// The minimum timeout among the Approve rules matching this request, if
/// any matches.
pub open spec fn spec_approve_timeout(rules: Seq<PolicyRule>, req: PolicyRequest) -> Option<u64>
    decreases rules.len(),
{
    if rules.len() == 0 {
        None
    } else {
        let prev = spec_approve_timeout(rules.drop_last(), req);
        let last = rules.last();
        if spec_rule_matches(last, req) && last.effect matches RuleEffect::Approve { timeout } {
            match prev {
                Some(t0) => if last.effect->timeout < t0 {
                    Some(last.effect->timeout)
                } else {
                    Some(t0)
                },
                None => Some(last.effect->timeout),
            }
        } else {
            prev
        }
    }
}

/// The decision a rule set yields for a request, before it is put into
/// words: forward first, else approve with the minimum requested timeout,
/// else reject.
pub enum EvalOutcome {
    /// Some rule grants Forward.
    Forward,
    /// No rule grants Forward; one or more grant Approve.
    Approve {
        /// The minimum timeout those rules ask, in milliseconds.
        timeout: u64,
    },
    /// No rule grants anything.
    Reject,
}

/// What evaluating a request under a rule set yields. The decision is a
/// function of the request and the rule set alone.
pub open spec fn spec_evaluate(rules: Seq<PolicyRule>, req: PolicyRequest) -> EvalOutcome {
    if spec_any_forward(rules, req) {
        EvalOutcome::Forward
    } else {
        match spec_approve_timeout(rules, req) {
            Some(t) => EvalOutcome::Approve { timeout: t },
            None => EvalOutcome::Reject,
        }
    }
}

fn string_opt_matches(cond: &Option<String>, value: &String) -> (r: bool)
    ensures
        r == match cond {
            Some(s) => s@ == value@,
            None => true,
        },
{
    match cond {
        Some(s) => s.eq(value),
        None => true,
    }
}

fn has_role(principal: &Principal, role: &String) -> (r: bool)
    ensures
        r == spec_has_role(*principal, role@),
{
    let n = principal.roles.len();
    let mut i: usize = 0;
    while i < n
        invariant
            0 <= i <= n,
            n == principal.roles@.len(),
            forall|j: int| 0 <= j < i ==> (#[trigger] principal.roles@[j])@ != role@,
        decreases n - i,
    {
        if principal.roles[i].eq(role) {
            return true;
        }
        i = i + 1;
    }
    false
}

/// Whether a rule's conditions all hold of a request.
pub fn rule_matches(rule: &PolicyRule, req: &PolicyRequest) -> (r: bool)
    ensures
        r == spec_rule_matches(*rule, *req),
{
    let ns_ok = string_opt_matches(&rule.namespace, &req.principal.namespace);
    let role_ok = match &rule.role {
        Some(role) => has_role(&req.principal, role),
        None => true,
    };
    let server = match &req.resource {
        Resource::ToolCall { server, .. } => server,
        Resource::McpMethod { server, .. } => server,
    };
    let server_ok = string_opt_matches(&rule.server, server);
    let name = match &req.resource {
        Resource::ToolCall { name, .. } => name,
        Resource::McpMethod { method, .. } => method,
    };
    let name_ok = string_opt_matches(&rule.name, name);
    ns_ok && role_ok && server_ok && name_ok
}

/// The policy evaluator: the active rule set and its statistics.
#[derive(Debug, Clone)]
pub struct PolicyEngine {
    /// The active rule set.
    pub rules: Vec<PolicyRule>,
    /// Counters over this evaluator's lifetime.
    pub stats: PolicyStats,
}

impl PolicyEngine {
    /// An evaluator over the given rule set, with fresh statistics.
    pub fn new(rules: Vec<PolicyRule>) -> (e: Self)
        ensures
            e.rules@ == rules@,
            e.stats == (PolicyStats {
                policy_count: rules@.len() as usize,
                last_reload: None::<u64>,
                reload_count: 0,
                evaluation_count: 0,
            }),
    {
        let n = rules.len();
        PolicyEngine {
            rules,
            stats: PolicyStats {
                policy_count: n,
                last_reload: None,
                reload_count: 0,
                evaluation_count: 0,
            },
        }
    }

    /// Evaluates a request against the active rule set, counting the
    /// evaluation. The action follows [`spec_evaluate`]: Forward if any
    /// rule forwards, else Approve with the minimum requested timeout, else
    /// Reject with the fail-closed reason.
    pub fn evaluate(&mut self, req: &PolicyRequest) -> (action: PolicyAction)
        ensures
            (match spec_evaluate(old(self).rules@, *req) {
                EvalOutcome::Forward => action == PolicyAction::Forward,
                EvalOutcome::Approve { timeout } => action == (PolicyAction::Approve { timeout }),
                EvalOutcome::Reject => action is Reject && action->reason@
                    == "No policy permits this action"@,
            }),
            final(self).rules@ == old(self).rules@,
            final(self).stats == (PolicyStats {
                evaluation_count: old(self).stats.evaluation_count.saturating_add(1),
                ..old(self).stats
            }),
    {
        self.stats.evaluation_count = self.stats.evaluation_count.saturating_add(1);
        let n = self.rules.len();
        let mut i: usize = 0;
        while i < n
            invariant
                0 <= i <= n,
                n == self.rules@.len(),
                self.rules@ == old(self).rules@,
                self.stats == (PolicyStats {
                    evaluation_count: old(self).stats.evaluation_count.saturating_add(1),
                    ..old(self).stats
                }),
                forall|j: int| 0 <= j < i ==> !spec_rule_forwards(#[trigger] self.rules@[j], *req),
            decreases n - i,
        {
            let rule = &self.rules[i];
            if rule_matches(rule, req) && matches!(rule.effect, RuleEffect::Forward) {
                proof {
                    assert(spec_rule_forwards(self.rules@[i as int], *req));
                }
                return PolicyAction::Forward;
            }
            i = i + 1;
        }
        let mut best: Option<u64> = None;
        let mut k: usize = 0;
        while k < n
            invariant
                0 <= k <= n,
                n == self.rules@.len(),
                self.rules@ == old(self).rules@,
                self.stats == (PolicyStats {
                    evaluation_count: old(self).stats.evaluation_count.saturating_add(1),
                    ..old(self).stats
                }),
                !spec_any_forward(self.rules@, *req),
                best == spec_approve_timeout(self.rules@.take(k as int), *req),
            decreases n - k,
        {
            proof {
                assert(self.rules@.take(k + 1).drop_last() =~= self.rules@.take(k as int));
                assert(self.rules@.take(k + 1).last() == self.rules@[k as int]);
            }
            let rule = &self.rules[k];
            if rule_matches(rule, req) {
                match rule.effect {
                    RuleEffect::Approve { timeout } => {
                        best = match best {
                            Some(t0) => if timeout < t0 {
                                Some(timeout)
                            } else {
                                Some(t0)
                            },
                            None => Some(timeout),
                        };
                    },
                    RuleEffect::Forward => {},
                }
            }
            k = k + 1;
        }
        proof {
            assert(self.rules@.take(n as int) =~= self.rules@);
        }
        match best {
            Some(timeout) => PolicyAction::Approve { timeout },
            None => PolicyAction::Reject {
                reason: "No policy permits this action".to_owned(),
            },
        }
    }

    /// Demotes an evaluation error to a rejection with a generic reason:
    /// errors never escape the evaluation boundary.
    pub fn reject_on_error(err: &PolicyError) -> (action: PolicyAction)
        ensures
            action is Reject,
            action->reason@ == "policy evaluation failed"@,
    {
        let _ = err;
        PolicyAction::Reject { reason: "policy evaluation failed".to_owned() }
    }

    /// Swaps in a newly parsed rule set, or keeps the old one whole if the
    /// parse failed. Counters move only on success, and the set is replaced
    /// as one: no evaluation can see a mixture.
    pub fn reload(&mut self, parsed: Result<Vec<PolicyRule>, PolicyError>, now: u64) -> (r: Result<
        (),
        PolicyError,
    >)
        ensures
            parsed matches Ok(rules) ==> r is Ok && final(self).rules@ == rules@ && final(
                self).stats == (PolicyStats {
                policy_count: rules@.len() as usize,
                last_reload: Some(now),
                reload_count: old(self).stats.reload_count.saturating_add(1),
                evaluation_count: old(self).stats.evaluation_count,
            }),
            parsed matches Err(e) ==> r == Err::<(), PolicyError>(e) && *final(self) == *old(self),
    {
        match parsed {
            Ok(rules) => {
                let n = rules.len();
                self.rules = rules;
                self.stats = PolicyStats {
                    policy_count: n,
                    last_reload: Some(now),
                    reload_count: self.stats.reload_count.saturating_add(1),
                    evaluation_count: self.stats.evaluation_count,
                };
                Ok(())
            },
            Err(e) => Err(e),
        }
    }
}

/// Law: policy decisions are a pure function of the request and the rule
/// set. Two evaluations over equal rule sets and equal requests yield the
/// same outcome, whatever else differs between the evaluators.
pub proof fn lemma_evaluate_pure(
    rules1: Seq<PolicyRule>,
    rules2: Seq<PolicyRule>,
    req1: PolicyRequest,
    req2: PolicyRequest,
)
    requires
        rules1 == rules2,
        req1 == req2,
    ensures
        spec_evaluate(rules1, req1) == spec_evaluate(rules2, req2),
{
}

/// Law: reload is idempotent for evaluation. Reloading with an unchanged
/// rule set leaves every evaluation outcome as it was.
pub proof fn lemma_reload_same_rules_same_decisions(
    before: Seq<PolicyRule>,
    after: Seq<PolicyRule>,
    req: PolicyRequest,
)
    requires
        after == before,
    ensures
        spec_evaluate(after, req) == spec_evaluate(before, req),
{
}

} // verus!

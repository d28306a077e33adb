use thoughtgate::engine::{PolicyEngine, PolicyRule, RuleEffect};
use thoughtgate::policy::PolicyAction;
use thoughtgate::policy_data::{PolicyError, PolicyRequest, Principal, Resource};

fn principal() -> Principal {
    Principal {
        app_name: "agent".to_string(),
        namespace: "production".to_string(),
        service_account: "default".to_string(),
        roles: vec!["user".to_string(), "operator".to_string()],
    }
}

fn tool_request(name: &str, server: &str) -> PolicyRequest {
    PolicyRequest {
        principal: principal(),
        resource: Resource::ToolCall {
            name: name.to_string(),
            server: server.to_string(),
        },
        context: None,
    }
}

fn rule(effect: RuleEffect) -> PolicyRule {
    PolicyRule {
        effect,
        namespace: None,
        role: None,
        server: None,
        name: None,
    }
}

#[test]
fn test_forward_rule_forwards() {
    let mut engine = PolicyEngine::new(vec![PolicyRule {
        name: Some("read_file".to_string()),
        ..rule(RuleEffect::Forward)
    }]);
    let action = engine.evaluate(&tool_request("read_file", "files"));
    assert_eq!(action, PolicyAction::Forward);
}

#[test]
fn test_no_matching_rule_rejects() {
    let mut engine = PolicyEngine::new(vec![PolicyRule {
        name: Some("read_file".to_string()),
        ..rule(RuleEffect::Forward)
    }]);
    let action = engine.evaluate(&tool_request("delete_user", "admin"));
    assert!(action.is_reject());
}

#[test]
fn test_empty_policy_set_fails_closed() {
    let mut engine = PolicyEngine::new(vec![]);
    let action = engine.evaluate(&tool_request("anything", "anywhere"));
    match action {
        PolicyAction::Reject { reason } => {
            assert_eq!(reason, "No policy permits this action");
        }
        _ => panic!("an empty policy set must reject"),
    }
}

#[test]
fn test_forward_takes_precedence_over_approve() {
    let mut engine = PolicyEngine::new(vec![
        rule(RuleEffect::Approve { timeout: 5_000 }),
        rule(RuleEffect::Forward),
    ]);
    let action = engine.evaluate(&tool_request("read_file", "files"));
    assert_eq!(action, PolicyAction::Forward);
}

#[test]
fn test_approve_uses_minimum_timeout() {
    let mut engine = PolicyEngine::new(vec![
        rule(RuleEffect::Approve { timeout: 5_000 }),
        rule(RuleEffect::Approve { timeout: 3_000 }),
        rule(RuleEffect::Approve { timeout: 8_000 }),
    ]);
    let action = engine.evaluate(&tool_request("delete_user", "admin"));
    assert_eq!(action, PolicyAction::Approve { timeout: 3_000 });
}

#[test]
fn test_rule_conditions_all_must_hold() {
    let matching = PolicyRule {
        namespace: Some("production".to_string()),
        role: Some("operator".to_string()),
        server: Some("files".to_string()),
        name: Some("read_file".to_string()),
        ..rule(RuleEffect::Forward)
    };
    let mut engine = PolicyEngine::new(vec![matching]);
    assert!(engine.evaluate(&tool_request("read_file", "files")).is_forward());
    assert!(engine.evaluate(&tool_request("read_file", "admin")).is_reject());
    assert!(engine.evaluate(&tool_request("write_file", "files")).is_reject());
}

#[test]
fn test_role_must_be_held() {
    let needs_admin = PolicyRule {
        role: Some("admin".to_string()),
        ..rule(RuleEffect::Forward)
    };
    let mut engine = PolicyEngine::new(vec![needs_admin]);
    assert!(engine.evaluate(&tool_request("read_file", "files")).is_reject());
}

#[test]
fn test_mcp_method_matches_name_condition() {
    let mut engine = PolicyEngine::new(vec![PolicyRule {
        name: Some("resources/read".to_string()),
        ..rule(RuleEffect::Forward)
    }]);
    let request = PolicyRequest {
        principal: principal(),
        resource: Resource::McpMethod {
            method: "resources/read".to_string(),
            server: "mcp".to_string(),
        },
        context: None,
    };
    assert!(engine.evaluate(&request).is_forward());
}

#[test]
fn test_evaluation_is_pure() {
    // Two evaluators over the same rule set answer the same request the
    // same way, however many evaluations either has already counted.
    let rules = vec![
        rule(RuleEffect::Approve { timeout: 4_000 }),
    ];
    let mut first = PolicyEngine::new(rules.clone());
    let mut second = PolicyEngine::new(rules);
    let request = tool_request("read_file", "files");
    let _ = first.evaluate(&request);
    let _ = first.evaluate(&request);
    assert_eq!(first.evaluate(&request), second.evaluate(&request));
}

#[test]
fn test_evaluation_counts() {
    let mut engine = PolicyEngine::new(vec![]);
    assert_eq!(engine.stats.evaluation_count, 0);
    let _ = engine.evaluate(&tool_request("a", "b"));
    let _ = engine.evaluate(&tool_request("a", "b"));
    assert_eq!(engine.stats.evaluation_count, 2);
}

#[test]
fn test_reload_swaps_rules() {
    let mut engine = PolicyEngine::new(vec![rule(RuleEffect::Forward)]);
    assert!(engine.evaluate(&tool_request("a", "b")).is_forward());
    let result = engine.reload(Ok(vec![]), 1_700_000_000_000);
    assert!(result.is_ok());
    assert!(engine.evaluate(&tool_request("a", "b")).is_reject());
    assert_eq!(engine.stats.reload_count, 1);
    assert_eq!(engine.stats.last_reload, Some(1_700_000_000_000));
    assert_eq!(engine.stats.policy_count, 0);
}

#[test]
fn test_reload_failure_keeps_old_rules() {
    let mut engine = PolicyEngine::new(vec![rule(RuleEffect::Forward)]);
    let parse_failure = PolicyError::ParseError {
        details: "unexpected token".to_string(),
        line: Some(3),
    };
    let result = engine.reload(Err(parse_failure.clone()), 42);
    assert_eq!(result, Err(parse_failure));
    assert!(engine.evaluate(&tool_request("a", "b")).is_forward());
    assert_eq!(engine.stats.reload_count, 0);
    assert_eq!(engine.stats.last_reload, None);
}

#[test]
fn test_reload_unchanged_rules_same_decisions() {
    // Reloading the same rule set changes no decision.
    let rules = vec![rule(RuleEffect::Approve { timeout: 2_000 })];
    let mut engine = PolicyEngine::new(rules.clone());
    let before = engine.evaluate(&tool_request("x", "y"));
    assert!(engine.reload(Ok(rules), 99).is_ok());
    let after = engine.evaluate(&tool_request("x", "y"));
    assert_eq!(before, after);
}

#[test]
fn test_errors_demote_to_generic_rejection() {
    let err = PolicyError::CedarError {
        details: "internal engine state leaked".to_string(),
    };
    match PolicyEngine::reject_on_error(&err) {
        PolicyAction::Reject { reason } => {
            assert_eq!(reason, "policy evaluation failed");
        }
        _ => panic!("errors must demote to rejection"),
    }
}

use thoughtgate::errors::{client_response, ProxyError, TimeoutKind};

#[test]
fn test_policy_denied_code_and_generic_message() {
    let error = ProxyError::PolicyDenied { reason: "principal lacks role admin".to_string() };
    let (code, message) = client_response(&error).unwrap();
    assert_eq!(code, -32003);
    assert_eq!(message, "request denied by policy");
    assert!(!message.contains("admin"));
}

#[test]
fn test_approval_timeout_code() {
    let (code, message) = client_response(&ProxyError::ApprovalTimeout).unwrap();
    assert_eq!(code, -32004);
    assert_eq!(message, "approval not received within allotted time");
}

#[test]
fn test_denied_indistinguishable_from_timeout() {
    // The client must not learn whether the approver said no or stayed
    // silent.
    assert_eq!(
        client_response(&ProxyError::ApprovalDenied),
        client_response(&ProxyError::ApprovalTimeout)
    );
}

#[test]
fn test_cancellation_has_no_response() {
    assert_eq!(client_response(&ProxyError::ApprovalCancelled), None);
}

#[test]
fn test_upstream_timeout_names_deadline() {
    let (code, message) =
        client_response(&ProxyError::UpstreamTimeout { which: TimeoutKind::Chunk }).unwrap();
    assert_eq!(code, -32005);
    assert_eq!(message, "upstream timeout: chunk deadline exceeded");
    let (code, message) =
        client_response(&ProxyError::UpstreamTimeout { which: TimeoutKind::Total }).unwrap();
    assert_eq!(code, -32005);
    assert_eq!(message, "upstream timeout: total deadline exceeded");
}

#[test]
fn test_upstream_transport_code() {
    let (code, message) = client_response(&ProxyError::UpstreamTransport).unwrap();
    assert_eq!(code, -32010);
    assert_eq!(message, "upstream transport failure");
}

use thoughtgate::approval::{ApprovalTicket, Coordinator, TicketState, Verdict};

#[test]
fn test_ticket_new_is_waiting() {
    let ticket = ApprovalTicket::new("task-1".to_string(), 1_000, 5_000);
    assert_eq!(ticket.state, TicketState::Waiting);
    assert_eq!(ticket.deadline, 6_000);
    assert_eq!(ticket.created_at, 1_000);
}

#[test]
fn test_deliver_decides_once() {
    // The first delivery wins; the second, with any verdict, is a no-op.
    let mut ticket = ApprovalTicket::new("task-1".to_string(), 0, 5_000);
    assert!(ticket.deliver(Verdict::Granted));
    assert_eq!(ticket.state, TicketState::Granted);
    assert!(!ticket.deliver(Verdict::Denied));
    assert_eq!(ticket.state, TicketState::Granted);
    assert!(!ticket.deliver(Verdict::Granted));
    assert_eq!(ticket.state, TicketState::Granted);
}

#[test]
fn test_deliver_denied() {
    let mut ticket = ApprovalTicket::new("task-1".to_string(), 0, 5_000);
    assert!(ticket.deliver(Verdict::Denied));
    assert_eq!(ticket.state, TicketState::Denied);
}

#[test]
fn test_deadline_expires_waiting_ticket() {
    // No verdict by the deadline: the ticket expires, and a verdict
    // arriving later is a no-op.
    let mut ticket = ApprovalTicket::new("task-1".to_string(), 0, 1_000);
    assert!(!ticket.check_deadline(999));
    assert_eq!(ticket.state, TicketState::Waiting);
    assert!(ticket.check_deadline(1_000));
    assert_eq!(ticket.state, TicketState::Expired);
    assert!(!ticket.deliver(Verdict::Granted));
    assert_eq!(ticket.state, TicketState::Expired);
}

#[test]
fn test_verdict_beats_deadline() {
    // A verdict in time claims the ticket; the deadline then fires as a
    // no-op.
    let mut ticket = ApprovalTicket::new("task-1".to_string(), 0, 5_000);
    assert!(ticket.deliver(Verdict::Granted));
    assert!(!ticket.check_deadline(10_000));
    assert_eq!(ticket.state, TicketState::Granted);
}

#[test]
fn test_cancel_wins_only_while_waiting() {
    let mut ticket = ApprovalTicket::new("task-1".to_string(), 0, 5_000);
    assert!(ticket.cancel());
    assert_eq!(ticket.state, TicketState::Cancelled);
    assert!(!ticket.deliver(Verdict::Granted));
    assert_eq!(ticket.state, TicketState::Cancelled);
}

#[test]
fn test_coordinator_registers_and_delivers() {
    let mut coordinator = Coordinator::new();
    assert!(coordinator.submit(ApprovalTicket::new("task-1".to_string(), 0, 5_000)));
    assert!(coordinator.submit(ApprovalTicket::new("task-2".to_string(), 0, 5_000)));
    assert!(coordinator.deliver(&"task-2".to_string(), Verdict::Granted));
    assert_eq!(coordinator.tickets[1].state, TicketState::Granted);
    assert_eq!(coordinator.tickets[0].state, TicketState::Waiting);
}

#[test]
fn test_coordinator_refuses_duplicate_task_id() {
    let mut coordinator = Coordinator::new();
    assert!(coordinator.submit(ApprovalTicket::new("task-1".to_string(), 0, 5_000)));
    assert!(!coordinator.submit(ApprovalTicket::new("task-1".to_string(), 100, 9_000)));
    assert_eq!(coordinator.tickets.len(), 1);
    assert_eq!(coordinator.tickets[0].created_at, 0);
}

#[test]
fn test_coordinator_deliver_unknown_id_is_noop() {
    let mut coordinator = Coordinator::new();
    assert!(coordinator.submit(ApprovalTicket::new("task-1".to_string(), 0, 5_000)));
    assert!(!coordinator.deliver(&"task-9".to_string(), Verdict::Granted));
    assert_eq!(coordinator.tickets[0].state, TicketState::Waiting);
}

#[test]
fn test_coordinator_deliver_is_idempotent() {
    let mut coordinator = Coordinator::new();
    assert!(coordinator.submit(ApprovalTicket::new("task-1".to_string(), 0, 5_000)));
    assert!(coordinator.deliver(&"task-1".to_string(), Verdict::Denied));
    assert!(!coordinator.deliver(&"task-1".to_string(), Verdict::Granted));
    assert_eq!(coordinator.tickets[0].state, TicketState::Denied);
}

#[test]
fn test_coordinator_expires_due_tickets() {
    // After the sweep, no ticket remains waiting past its deadline, and
    // decided or not-yet-due tickets are untouched.
    let mut coordinator = Coordinator::new();
    assert!(coordinator.submit(ApprovalTicket::new("due".to_string(), 0, 1_000)));
    assert!(coordinator.submit(ApprovalTicket::new("later".to_string(), 0, 60_000)));
    assert!(coordinator.submit(ApprovalTicket::new("decided".to_string(), 0, 1_000)));
    assert!(coordinator.deliver(&"decided".to_string(), Verdict::Granted));
    coordinator.expire_due(5_000);
    assert_eq!(coordinator.tickets[0].state, TicketState::Expired);
    assert_eq!(coordinator.tickets[1].state, TicketState::Waiting);
    assert_eq!(coordinator.tickets[2].state, TicketState::Granted);
}

#[test]
fn test_coordinator_cancel() {
    let mut coordinator = Coordinator::new();
    assert!(coordinator.submit(ApprovalTicket::new("task-1".to_string(), 0, 5_000)));
    assert!(coordinator.cancel(&"task-1".to_string()));
    assert_eq!(coordinator.tickets[0].state, TicketState::Cancelled);
    assert!(!coordinator.cancel(&"task-1".to_string()));
}

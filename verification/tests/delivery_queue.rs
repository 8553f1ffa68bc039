use chat::model::{ChatMessage, MessageType};
use chat::queue::DeliveryQueue;
use chat::status::MessageStatus;
use chat::wire::Effect;

fn msg(id: &str, content: &str) -> ChatMessage {
    ChatMessage {
        id: id.to_string(),
        sender: "alice.os".to_string(),
        content: content.to_string(),
        timestamp: 7,
        status: MessageStatus::Sending,
        reply_to: None,
        reactions: Vec::new(),
        message_type: MessageType::Text,
        file_info: None,
    }
}

#[test]
fn a_fresh_queue_is_empty() {
    let q = DeliveryQueue::new();
    assert!(q.is_empty());
    assert_eq!(q.len(), 0);
    assert_eq!(q.drain_attempt("bob.os"), None);
    assert!(q.sweep().is_empty());
    assert_eq!(q, DeliveryQueue::default());
}

#[test]
fn enqueue_appends_without_deduplication() {
    let mut q = DeliveryQueue::new();
    q.enqueue("bob.os", msg("1:1", "hi"));
    q.enqueue("bob.os", msg("1:2", "again"));
    q.enqueue("bob.os", msg("1:1", "hi"));
    assert_eq!(q.len(), 1);
    assert_eq!(q.entries[0].counterparty, "bob.os");
    assert_eq!(q.entries[0].messages, vec![msg("1:1", "hi"), msg("1:2", "again"), msg("1:1", "hi")]);
}

#[test]
fn drain_attempt_peeks_the_oldest_and_removes_nothing() {
    let mut q = DeliveryQueue::new();
    q.enqueue("bob.os", msg("1:1", "first"));
    q.enqueue("bob.os", msg("1:2", "second"));
    q.enqueue("carol.os", msg("2:1", "other"));
    assert_eq!(q.drain_attempt("bob.os"), Some(msg("1:1", "first")));
    assert_eq!(q.drain_attempt("bob.os"), Some(msg("1:1", "first")));
    assert_eq!(q.drain_attempt("carol.os"), Some(msg("2:1", "other")));
    assert_eq!(q.drain_attempt("dave.os"), None);
    assert_eq!(q.len(), 2);
}

#[test]
fn enqueue_then_success_removes_exactly_that_message() {
    let mut q = DeliveryQueue::new();
    q.enqueue("bob.os", msg("1:1", "first"));
    q.enqueue("carol.os", msg("2:1", "other"));
    let before = q.clone();
    q.enqueue("bob.os", msg("1:2", "second"));
    q.remove_on_success("bob.os", "1:2");
    assert_eq!(q, before);
    assert_eq!(q.drain_attempt("bob.os"), Some(msg("1:1", "first")));
}

#[test]
fn the_last_message_takes_the_entry_with_it() {
    let mut q = DeliveryQueue::new();
    q.enqueue("carol.os", msg("2:1", "other"));
    q.enqueue("bob.os", msg("1:1", "only"));
    q.remove_on_success("bob.os", "1:1");
    assert_eq!(q.len(), 1);
    assert_eq!(q.pending_counterparties(), vec!["carol.os".to_string()]);
    assert_eq!(q.drain_attempt("bob.os"), None);
    q.remove_on_success("carol.os", "2:1");
    assert!(q.is_empty());
}

#[test]
fn removing_what_is_not_there_changes_nothing() {
    let mut q = DeliveryQueue::new();
    q.enqueue("bob.os", msg("1:1", "first"));
    let before = q.clone();
    q.remove_on_success("bob.os", "9:9");
    assert_eq!(q, before);
    q.remove_on_success("nobody.os", "1:1");
    assert_eq!(q, before);
}

#[test]
fn removal_takes_every_message_of_that_id() {
    let mut q = DeliveryQueue::new();
    q.enqueue("bob.os", msg("1:1", "a"));
    q.enqueue("bob.os", msg("1:2", "b"));
    q.enqueue("bob.os", msg("1:1", "a"));
    q.remove_on_success("bob.os", "1:1");
    assert_eq!(q.entries[0].messages, vec![msg("1:2", "b")]);
}

#[test]
fn a_sweep_attempts_the_head_of_every_entry() {
    let mut q = DeliveryQueue::new();
    q.enqueue("bob.os", msg("1:1", "first"));
    q.enqueue("bob.os", msg("1:2", "second"));
    q.enqueue("carol.os", msg("2:1", "other"));
    assert_eq!(
        q.sweep(),
        vec![
            Effect::Deliver { target: "bob.os".to_string(), message: msg("1:1", "first") },
            Effect::Deliver { target: "carol.os".to_string(), message: msg("2:1", "other") },
        ]
    );
}

#[test]
fn a_failed_attempt_leaves_the_head_in_place() {
    let mut q = DeliveryQueue::new();
    q.enqueue("bob.os", msg("1:1", "first"));
    q.enqueue("bob.os", msg("1:2", "second"));
    let before = q.clone();
    assert!(!q.report_attempt("bob.os", "1:1", false));
    assert_eq!(q, before);
    assert!(q.report_attempt("bob.os", "1:1", true));
    assert_eq!(q.drain_attempt("bob.os"), Some(msg("1:2", "second")));
}

#[test]
fn pending_shows_what_waits_and_removes_nothing() {
    let mut q = DeliveryQueue::new();
    q.enqueue("bob.os", msg("1:1", "first"));
    q.enqueue("carol.os", msg("2:1", "other"));
    q.enqueue("bob.os", msg("1:2", "second"));
    let before = q.clone();
    assert_eq!(q.pending("bob.os"), vec![msg("1:1", "first"), msg("1:2", "second")]);
    assert_eq!(q.pending("dave.os"), Vec::new());
    assert_eq!(q, before);
}

#[test]
fn a_failed_flush_attempt_leaves_everything_in_line() {
    let mut q = DeliveryQueue::new();
    q.enqueue("bob.os", msg("1:1", "first"));
    q.enqueue("bob.os", msg("1:2", "second"));
    q.enqueue("bob.os", msg("1:3", "third"));
    let flushed = q.pending("bob.os");
    assert!(q.report_attempt("bob.os", &flushed[0].id, true));
    assert!(!q.report_attempt("bob.os", &flushed[1].id, false));
    assert_eq!(q.pending("bob.os"), vec![msg("1:2", "second"), msg("1:3", "third")]);
    assert_eq!(q.len(), 1);
}

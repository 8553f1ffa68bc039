use chat::status::{safe_update_message_status, MessageStatus};

fn all() -> Vec<MessageStatus> {
    vec![MessageStatus::Sending, MessageStatus::Sent, MessageStatus::Delivered, MessageStatus::Failed]
}

#[test]
fn sending_moves_to_every_later_status() {
    assert_eq!(safe_update_message_status(&MessageStatus::Sending, MessageStatus::Sent), MessageStatus::Sent);
    assert_eq!(
        safe_update_message_status(&MessageStatus::Sending, MessageStatus::Delivered),
        MessageStatus::Delivered
    );
    assert_eq!(safe_update_message_status(&MessageStatus::Sending, MessageStatus::Failed), MessageStatus::Failed);
}

#[test]
fn sending_to_sending_changes_nothing() {
    assert_eq!(safe_update_message_status(&MessageStatus::Sending, MessageStatus::Sending), MessageStatus::Sending);
}

#[test]
fn sent_moves_to_a_terminal_status_only() {
    assert_eq!(safe_update_message_status(&MessageStatus::Sent, MessageStatus::Delivered), MessageStatus::Delivered);
    assert_eq!(safe_update_message_status(&MessageStatus::Sent, MessageStatus::Failed), MessageStatus::Failed);
    assert_eq!(safe_update_message_status(&MessageStatus::Sent, MessageStatus::Sending), MessageStatus::Sent);
    assert_eq!(safe_update_message_status(&MessageStatus::Sent, MessageStatus::Sent), MessageStatus::Sent);
}

#[test]
fn terminal_statuses_absorb_every_request() {
    for requested in all() {
        assert_eq!(safe_update_message_status(&MessageStatus::Delivered, requested), MessageStatus::Delivered);
    }
    for requested in all() {
        assert_eq!(safe_update_message_status(&MessageStatus::Failed, requested), MessageStatus::Failed);
    }
}

#[test]
fn a_late_acknowledgment_does_not_revive_a_failed_message() {
    let failed = safe_update_message_status(&MessageStatus::Sending, MessageStatus::Failed);
    assert_eq!(safe_update_message_status(&failed, MessageStatus::Delivered), MessageStatus::Failed);
}

use chat::model::{Chat, ChatMessage, FileInfo, MessageReaction, MessageType};
use chat::requests::{CreateChatReq, SendMessageReq};
use chat::state::{ChatState, Receipt};
use chat::status::MessageStatus;
use chat::wire::{Effect, WsClientMessage, WsServerMessage};
use chat::multiplexer::WsEvent;

fn incoming(id: &str, sender: &str, content: &str, ts: u64) -> ChatMessage {
    ChatMessage {
        id: id.to_string(),
        sender: sender.to_string(),
        content: content.to_string(),
        timestamp: ts,
        status: MessageStatus::Sending,
        reply_to: None,
        reactions: Vec::new(),
        message_type: MessageType::Text,
        file_info: None,
    }
}

fn node_session(state: &mut ChatState, channel: u32) {
    state.websocket(channel, WsEvent::Message(WsClientMessage::Heartbeat), "alice.os", 1, 1);
}

#[test]
fn announcing_a_chat_creates_it_once() {
    let mut state = ChatState::default();
    let first = state.receive_chat_creation("bob.os", "alice.os", 10);
    assert!(first.is_empty());
    assert_eq!(state.chats.len(), 1);
    assert_eq!(state.chats[0].id, "alice.os:bob.os");
    assert_eq!(state.chats[0].counterparty, "bob.os");
    assert_eq!(state.chats[0].last_activity, 10);
    assert_eq!(state.chats[0].unread_count, 0);
    assert!(state.chats[0].notify);
    assert!(!state.chats[0].is_blocked);
    let after_first = state.chats.clone();
    let second = state.receive_chat_creation("bob.os", "alice.os", 99);
    assert!(second.is_empty());
    assert_eq!(state.chats, after_first);
    assert_eq!(state.chats.iter().filter(|c| c.id == "alice.os:bob.os").count(), 1);
}

#[test]
fn a_new_chat_is_shown_to_every_node_session() {
    let mut state = ChatState::default();
    node_session(&mut state, 3);
    node_session(&mut state, 8);
    let effects = state.receive_chat_creation("bob.os", "alice.os", 10);
    let chat = Chat::fresh("alice.os:bob.os".to_string(), "bob.os".to_string(), 10);
    assert_eq!(
        effects,
        vec![
            Effect::Push { channel_id: 3, frame: WsServerMessage::ChatUpdate(chat.clone()) },
            Effect::Push { channel_id: 8, frame: WsServerMessage::ChatUpdate(chat) },
        ]
    );
    assert!(state.receive_chat_creation("bob.os", "alice.os", 11).is_empty());
}

#[test]
fn local_and_remote_creation_converge() {
    let mut state = ChatState::default();
    let (chat, effects) = state.create_chat(CreateChatReq { counterparty: "bob.os".to_string() }, "alice.os", 5);
    assert_eq!(chat.id, "alice.os:bob.os");
    assert_eq!(
        effects,
        vec![Effect::AnnounceChat { target: "bob.os".to_string(), our_node: "alice.os".to_string() }]
    );
    state.receive_chat_creation("bob.os", "alice.os", 6);
    state.receive_message(incoming("6:1", "bob.os", "hello", 6), "alice.os", None);
    assert_eq!(state.chats.len(), 1);
    assert_eq!(state.chats[0].messages.len(), 1);
    let (again, _) = state.create_chat(CreateChatReq { counterparty: "bob.os".to_string() }, "alice.os", 7);
    assert_eq!(again.messages.len(), 1);
    assert_eq!(state.chats.len(), 1);
}

#[test]
fn an_unreachable_peer_gets_its_message_when_it_announces_itself() {
    let mut state = ChatState::default();
    state.create_chat(CreateChatReq { counterparty: "bob.os".to_string() }, "alice.os", 5);
    let req = SendMessageReq {
        chat_id: "alice.os:bob.os".to_string(),
        content: "hi".to_string(),
        reply_to: None,
        file_info: None,
    };
    let (sent, effects) = state.send_message(req, "alice.os", 100, 42);
    assert_eq!(sent.id, "100:42");
    assert_eq!(sent.status, MessageStatus::Sent);
    let (target, message) = match effects.last() {
        Some(Effect::Deliver { target, message }) => (target.clone(), message.clone()),
        other => panic!("no delivery: {:?}", other),
    };
    assert_eq!(target, "bob.os");
    assert_eq!(message.content, "hi");
    assert_eq!(message.status, MessageStatus::Sending);

    state.record_send_outcome("alice.os:bob.os", &target, message.clone(), false);
    assert_eq!(state.chats[0].messages[0].status, MessageStatus::Failed);
    assert_eq!(state.delivery_queue.drain_attempt("bob.os"), Some(message.clone()));

    let effects = state.receive_chat_creation("bob.os", "alice.os", 200);
    assert_eq!(effects, vec![Effect::Flush { target: "bob.os".to_string(), messages: vec![message.clone()] }]);
    // The message stays queued until its delivery is reported.
    assert_eq!(state.delivery_queue.drain_attempt("bob.os"), Some(message.clone()));
    assert!(state.delivery_queue.report_attempt("bob.os", &message.id, true));
    assert!(state.delivery_queue.is_empty());
    assert_eq!(state.chats[0].messages[0].status, MessageStatus::Failed);
}

#[test]
fn a_delivered_message_is_marked_sent_and_not_queued() {
    let mut state = ChatState::default();
    let req = SendMessageReq {
        chat_id: "alice.os:bob.os".to_string(),
        content: "hi".to_string(),
        reply_to: Some("7:7".to_string()),
        file_info: None,
    };
    let (sent, _) = state.send_message(req, "alice.os", 100, 42);
    assert_eq!(sent.reply_to, Some("7:7".to_string()));
    assert_eq!(state.chats[0].counterparty, "bob.os");
    let effects = state.record_send_outcome("alice.os:bob.os", "bob.os", sent.clone(), true);
    assert!(effects.is_empty());
    assert_eq!(state.chats[0].messages[0].status, MessageStatus::Sent);
    assert!(state.delivery_queue.is_empty());
}

#[test]
fn a_message_for_an_unknown_chat_shows_the_chat_before_the_message() {
    let mut state = ChatState::default();
    node_session(&mut state, 1);
    node_session(&mut state, 2);
    let effects = state.receive_message(incoming("50:9", "bob.os", "hello", 50), "alice.os", None);
    let mut kept = incoming("50:9", "bob.os", "hello", 50);
    kept.status = MessageStatus::Delivered;
    let chat = Chat {
        id: "alice.os:bob.os".to_string(),
        counterparty: "bob.os".to_string(),
        messages: vec![kept.clone()],
        last_activity: 50,
        unread_count: 1,
        is_blocked: false,
        notify: true,
    };
    assert_eq!(
        effects,
        vec![
            Effect::Push { channel_id: 1, frame: WsServerMessage::ChatUpdate(chat.clone()) },
            Effect::Push { channel_id: 1, frame: WsServerMessage::NewMessage(kept.clone()) },
            Effect::Push { channel_id: 2, frame: WsServerMessage::ChatUpdate(chat.clone()) },
            Effect::Push { channel_id: 2, frame: WsServerMessage::NewMessage(kept.clone()) },
            Effect::Notify {
                sender: "bob.os".to_string(),
                content: "hello".to_string(),
                chat_id: "alice.os:bob.os".to_string(),
            },
            Effect::Acknowledge { target: "bob.os".to_string(), message_id: "50:9".to_string() },
        ]
    );
    assert_eq!(state.chats, vec![chat]);
}

#[test]
fn a_message_for_a_known_chat_is_shown_alone() {
    let mut state = ChatState::default();
    node_session(&mut state, 1);
    state.receive_chat_creation("bob.os", "alice.os", 10);
    state.websocket(1, WsEvent::Message(WsClientMessage::UpdateStatus { status: "active".to_string() }), "alice.os", 11, 1);
    let effects = state.receive_message(incoming("50:9", "bob.os", "hello", 50), "alice.os", None);
    let mut kept = incoming("50:9", "bob.os", "hello", 50);
    kept.status = MessageStatus::Delivered;
    assert_eq!(
        effects,
        vec![
            Effect::Push { channel_id: 1, frame: WsServerMessage::NewMessage(kept) },
            Effect::Acknowledge { target: "bob.os".to_string(), message_id: "50:9".to_string() },
        ]
    );
    assert_eq!(state.chats[0].unread_count, 1);
    assert_eq!(state.chats[0].last_activity, 50);
}

#[test]
fn an_arriving_message_cannot_leave_a_terminal_status() {
    let mut state = ChatState::default();
    let mut failed = incoming("50:9", "bob.os", "hello", 50);
    failed.status = MessageStatus::Failed;
    state.receive_message(failed, "alice.os", None);
    assert_eq!(state.chats[0].messages[0].status, MessageStatus::Failed);
    let mut sent = incoming("50:10", "bob.os", "hello", 51);
    sent.status = MessageStatus::Sent;
    state.receive_message(sent, "alice.os", None);
    assert_eq!(state.chats[0].messages[1].status, MessageStatus::Delivered);
    assert_eq!(state.chats[0].unread_count, 2);
}

#[test]
fn a_stored_file_points_at_the_local_copy() {
    let mut state = ChatState::default();
    let mut with_file = incoming("50:9", "bob.os", "report.pdf", 50);
    with_file.message_type = MessageType::File;
    with_file.file_info = Some(FileInfo {
        filename: "report.pdf".to_string(),
        mime_type: "application/pdf".to_string(),
        size: 3,
        url: "compressed:xyz".to_string(),
    });
    state.receive_message(with_file.clone(), "alice.os", Some("50_77"));
    assert_eq!(
        state.chats[0].messages[0].file_info.as_ref().unwrap().url,
        "/files/alice.os_bob.os/50_77"
    );
    let mut image = with_file.clone();
    image.id = "51:1".to_string();
    image.message_type = MessageType::Image;
    image.file_info.as_mut().unwrap().url = "data:image/png;base64,AAAA".to_string();
    state.receive_message(image, "alice.os", Some("51_78"));
    assert_eq!(state.chats[0].messages[1].file_info.as_ref().unwrap().url, "data:image/png;base64,AAAA");
    let mut unsaved = with_file;
    unsaved.id = "52:1".to_string();
    state.receive_message(unsaved, "alice.os", None);
    assert_eq!(state.chats[0].messages[2].file_info.as_ref().unwrap().url, "compressed:xyz");
}

#[test]
fn an_acknowledgment_for_an_unknown_message_changes_nothing() {
    let mut state = ChatState::default();
    node_session(&mut state, 1);
    state.receive_message(incoming("50:9", "bob.os", "hello", 50), "alice.os", None);
    let before = state.chats.clone();
    let (receipt, effects) = state.receive_message_ack("999:1", "alice.os");
    assert_eq!(receipt, Receipt::NotFound);
    assert!(effects.is_empty());
    assert_eq!(state.chats, before);
    // A message that somebody else sent cannot be acknowledged either.
    let (receipt, effects) = state.receive_message_ack("50:9", "alice.os");
    assert_eq!(receipt, Receipt::NotFound);
    assert!(effects.is_empty());
    assert_eq!(state.chats, before);
}

#[test]
fn an_acknowledgment_marks_our_message_delivered() {
    let mut state = ChatState::default();
    node_session(&mut state, 4);
    let req = SendMessageReq {
        chat_id: "alice.os:bob.os".to_string(),
        content: "hi".to_string(),
        reply_to: None,
        file_info: None,
    };
    state.send_message(req, "alice.os", 100, 42);
    let (receipt, effects) = state.receive_message_ack("100:42", "alice.os");
    assert_eq!(receipt, Receipt::Applied);
    assert_eq!(state.chats[0].messages[0].status, MessageStatus::Delivered);
    assert_eq!(
        effects,
        vec![Effect::Push { channel_id: 4, frame: WsServerMessage::ChatUpdate(state.chats[0].clone()) }]
    );
    let (receipt, _) = state.receive_message_ack("100:42", "alice.os");
    assert_eq!(receipt, Receipt::Applied);
    assert_eq!(state.chats[0].messages[0].status, MessageStatus::Delivered);
}

#[test]
fn the_same_reaction_is_recorded_once() {
    let mut state = ChatState::default();
    node_session(&mut state, 4);
    state.receive_message(incoming("50:9", "bob.os", "hello", 50), "alice.os", None);
    let (receipt, effects) = state.receive_reaction("50:9", "\u{1f44d}", "bob.os", 60);
    assert_eq!(receipt, Receipt::Applied);
    assert_eq!(effects.len(), 1);
    let (receipt, effects) = state.receive_reaction("50:9", "\u{1f44d}", "bob.os", 61);
    assert_eq!(receipt, Receipt::NotFound);
    assert!(effects.is_empty());
    assert_eq!(
        state.chats[0].messages[0].reactions,
        vec![MessageReaction { emoji: "\u{1f44d}".to_string(), user: "bob.os".to_string(), timestamp: 60 }]
    );
    state.receive_reaction("50:9", "\u{2764}", "bob.os", 62);
    state.receive_reaction("50:9", "\u{1f44d}", "carol.os", 63);
    assert_eq!(state.chats[0].messages[0].reactions.len(), 3);
}

#[test]
fn a_reaction_to_an_unknown_message_is_ignored() {
    let mut state = ChatState::default();
    state.receive_message(incoming("50:9", "bob.os", "hello", 50), "alice.os", None);
    let before = state.chats.clone();
    let (receipt, effects) = state.receive_reaction("1:1", "x", "bob.os", 60);
    assert_eq!(receipt, Receipt::NotFound);
    assert!(effects.is_empty());
    assert_eq!(state.chats, before);
}

#[test]
fn a_deletion_removes_the_message_if_it_is_there() {
    let mut state = ChatState::default();
    node_session(&mut state, 4);
    state.receive_message(incoming("50:9", "bob.os", "hello", 50), "alice.os", None);
    state.receive_message(incoming("51:9", "bob.os", "again", 51), "alice.os", None);
    let (receipt, _) = state.receive_message_deletion("50:9", "wrong:chat");
    assert_eq!(receipt, Receipt::NotFound);
    let (receipt, _) = state.receive_message_deletion("1:1", "alice.os:bob.os");
    assert_eq!(receipt, Receipt::NotFound);
    assert_eq!(state.chats[0].messages.len(), 2);
    let (receipt, effects) = state.receive_message_deletion("50:9", "alice.os:bob.os");
    assert_eq!(receipt, Receipt::Applied);
    assert_eq!(state.chats[0].messages.len(), 1);
    assert_eq!(state.chats[0].messages[0].id, "51:9");
    assert_eq!(
        effects,
        vec![Effect::Push { channel_id: 4, frame: WsServerMessage::ChatUpdate(state.chats[0].clone()) }]
    );
}

#[test]
fn a_flush_that_fails_part_way_keeps_what_was_not_delivered() {
    let mut state = ChatState::default();
    state.receive_chat_creation("bob.os", "alice.os", 1);
    for (content, now, nonce) in [("one", 10, 1), ("two", 11, 2), ("three", 12, 3), ("four", 13, 4)] {
        state.send_from_session(1, "alice.os:bob.os", content.to_string(), None, "alice.os", now, nonce);
    }
    state.send_from_session(1, "alice.os:carol.os", "x".to_string(), None, "alice.os", 14, 5);
    let before = state.delivery_queue.clone();
    let effects = state.receive_chat_creation("bob.os", "alice.os", 20);
    assert_eq!(state.delivery_queue, before);
    let messages = match &effects[..] {
        [Effect::Flush { target, messages }] => {
            assert_eq!(target, "bob.os");
            messages.clone()
        }
        other => panic!("unexpected: {:?}", other),
    };
    let ids: Vec<&str> = messages.iter().map(|m| m.id.as_str()).collect();
    assert_eq!(ids, vec!["10:1", "11:2", "12:3", "13:4"]);
    // The first is delivered, the second fails: the flush ends there.
    assert!(state.delivery_queue.report_attempt("bob.os", "10:1", true));
    assert!(!state.delivery_queue.report_attempt("bob.os", "11:2", false));
    let left: Vec<String> = state.delivery_queue.pending("bob.os").into_iter().map(|m| m.id).collect();
    assert_eq!(left, vec!["11:2", "12:3", "13:4"]);
    assert_eq!(state.delivery_queue.pending("carol.os").len(), 0);
    assert_eq!(state.delivery_queue.pending("alice.os:carol.os").len(), 0);
}

#[test]
fn the_unread_count_stays_at_its_limit() {
    let mut state = ChatState::default();
    state.receive_message(incoming("50:9", "bob.os", "hello", 50), "alice.os", None);
    state.chats[0].unread_count = u32::MAX - 1;
    state.receive_message(incoming("51:9", "bob.os", "again", 51), "alice.os", None);
    assert_eq!(state.chats[0].unread_count, u32::MAX);
    let effects = state.receive_message(incoming("52:9", "bob.os", "more", 52), "alice.os", None);
    assert_eq!(state.chats[0].unread_count, u32::MAX);
    assert_eq!(state.chats[0].messages.len(), 3);
    assert_eq!(state.chats[0].messages[2].id, "52:9");
    assert!(effects.contains(&Effect::Acknowledge { target: "bob.os".to_string(), message_id: "52:9".to_string() }));
}

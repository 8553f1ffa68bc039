use chat::model::{Chat, ChatMessage, MessageType};
use std::collections::HashSet;
use chat::multiplexer::WsEvent;
use chat::requests::{CreateChatLinkReq, RevokeChatKeyReq};
use chat::state::ChatState;
use chat::status::MessageStatus;
use chat::wire::{BrowserConnection, Effect, WsClientMessage, WsConnection, WsServerMessage};

fn incoming(id: &str, sender: &str, content: &str, ts: u64) -> ChatMessage {
    ChatMessage {
        id: id.to_string(),
        sender: sender.to_string(),
        content: content.to_string(),
        timestamp: ts,
        status: MessageStatus::Sending,
        reply_to: None,
        reactions: Vec::new(),
        message_type: MessageType::Text,
        file_info: None,
    }
}

fn with_key(state: &mut ChatState, chat_id: &str) -> String {
    let link = state.create_chat_link(
        CreateChatLinkReq { chat_id: chat_id.to_string(), single_use: false },
        "alice.os",
        1000,
        0xabc123,
        12345,
    );
    assert_eq!(link, "http://alice.os/public/join-abc123");
    "abc123".to_string()
}

fn auth(key: &str) -> WsEvent {
    WsEvent::Message(WsClientMessage::AuthWithKey { chat_key: key.to_string() })
}

fn push(channel_id: u32, frame: WsServerMessage) -> Effect {
    Effect::Push { channel_id, frame }
}

#[test]
fn a_revoked_key_is_refused_and_binds_nothing() {
    let mut state = ChatState::default();
    let key = with_key(&mut state, "browser:abc123");
    assert_eq!(state.revoke_chat_key(RevokeChatKeyReq { key: key.clone() }), Ok("Chat key revoked".to_string()));
    let before = state.browser_connections.clone();
    let effects = state.websocket(9, auth(&key), "alice.os", 2000, 1);
    assert_eq!(
        effects,
        vec![push(9, WsServerMessage::AuthFailed { reason: "Chat key has been revoked".to_string() })]
    );
    assert_eq!(state.browser_connections, before);
    assert!(state.browser_connections.is_empty());
    assert!(state.ws_connections.is_empty());
    // The connection stays usable: a heartbeat is still answered.
    let effects = state.websocket(9, WsEvent::Message(WsClientMessage::Heartbeat), "alice.os", 2001, 1);
    assert_eq!(effects.last(), Some(&push(9, WsServerMessage::Heartbeat)));
}

#[test]
fn an_unknown_key_is_refused() {
    let mut state = ChatState::default();
    let effects = state.websocket(9, auth("nope"), "alice.os", 2000, 1);
    assert_eq!(effects, vec![push(9, WsServerMessage::AuthFailed { reason: "Invalid chat key".to_string() })]);
    assert!(state.browser_connections.is_empty());
    assert!(state.ws_connections.is_empty());
}

#[test]
fn a_valid_key_binds_the_channel_and_gets_the_history() {
    let mut state = ChatState::default();
    let key = with_key(&mut state, "browser:abc123");
    let effects = state.websocket(9, auth(&key), "alice.os", 2000, 1);
    assert_eq!(
        effects,
        vec![push(9, WsServerMessage::AuthSuccess { chat_id: "browser:abc123".to_string(), history: vec![] })]
    );
    assert_eq!(state.browser_connections, vec![BrowserConnection { chat_key: key.clone(), channel_id: 9 }]);
    assert!(state.ws_connections.is_empty());
    assert!(state.is_guest_channel(9));
    assert!(!state.is_guest_channel(10));

    let effects = state.websocket(
        9,
        WsEvent::Message(WsClientMessage::BrowserMessage { content: "hello host".to_string() }),
        "alice.os",
        2001,
        77,
    );
    let message = ChatMessage {
        id: "2001:77".to_string(),
        sender: "Guest-2345".to_string(),
        content: "hello host".to_string(),
        timestamp: 2001,
        status: MessageStatus::Sent,
        reply_to: None,
        reactions: Vec::new(),
        message_type: MessageType::Text,
        file_info: None,
    };
    assert_eq!(effects, vec![push(9, WsServerMessage::NewMessage(message.clone()))]);
    assert_eq!(
        state.chats,
        vec![Chat {
            id: "browser:abc123".to_string(),
            counterparty: "Guest-2345".to_string(),
            messages: vec![message.clone()],
            last_activity: 2001,
            unread_count: 1,
            is_blocked: false,
            notify: true,
        }]
    );

    // Authenticating again on another channel moves the key and returns the history.
    let effects = state.websocket(12, auth(&key), "alice.os", 2002, 1);
    assert_eq!(
        effects,
        vec![push(
            12,
            WsServerMessage::AuthSuccess { chat_id: "browser:abc123".to_string(), history: vec![message] }
        )]
    );
    assert_eq!(state.browser_connections, vec![BrowserConnection { chat_key: key, channel_id: 12 }]);
}

#[test]
fn a_guest_message_is_shown_to_the_node_sessions() {
    let mut state = ChatState::default();
    let key = with_key(&mut state, "browser:abc123");
    state.websocket(1, WsEvent::Message(WsClientMessage::Heartbeat), "alice.os", 1, 1);
    state.websocket(9, auth(&key), "alice.os", 2000, 1);
    let effects = state.websocket(
        9,
        WsEvent::Message(WsClientMessage::BrowserMessage { content: "hi".to_string() }),
        "alice.os",
        2001,
        5,
    );
    assert_eq!(effects.len(), 2);
    match (&effects[0], &effects[1]) {
        (
            Effect::Push { channel_id: 9, frame: WsServerMessage::NewMessage(a) },
            Effect::Push { channel_id: 1, frame: WsServerMessage::NewMessage(b) },
        ) => {
            assert_eq!(a, b);
            assert_eq!(a.content, "hi");
        }
        other => panic!("unexpected: {:?}", other),
    }
}

#[test]
fn a_message_from_a_channel_that_is_no_guest_is_ignored_as_guest_traffic() {
    let mut state = ChatState::default();
    let effects = state.handle_browser_message(
        4,
        WsClientMessage::BrowserMessage { content: "hi".to_string() },
        10,
        1,
    );
    assert!(effects.is_empty());
    assert!(state.chats.is_empty());
    let effects = state.handle_browser_message(4, WsClientMessage::MarkRead { chat_id: "x".to_string() }, 10, 1);
    assert!(effects.is_empty());
    let effects = state.handle_browser_message(4, WsClientMessage::Heartbeat, 10, 1);
    assert_eq!(effects, vec![push(4, WsServerMessage::Heartbeat)]);
}

#[test]
fn the_first_message_makes_a_node_session_and_brings_every_chat() {
    let mut state = ChatState::default();
    state.receive_message(incoming("50:9", "bob.os", "hello", 50), "alice.os", None);
    state.receive_message(incoming("51:9", "carol.os", "hey", 51), "alice.os", None);
    let effects = state.websocket(7, WsEvent::Message(WsClientMessage::Heartbeat), "alice.os", 60, 1);
    assert_eq!(
        effects,
        vec![
            push(7, WsServerMessage::ChatUpdate(state.chats[0].clone())),
            push(7, WsServerMessage::ChatUpdate(state.chats[1].clone())),
            push(7, WsServerMessage::Heartbeat),
        ]
    );
    assert_eq!(state.ws_connections, vec![WsConnection { channel_id: 7, node: "alice.os".to_string() }]);
    // The second message brings no snapshot.
    let effects = state.websocket(7, WsEvent::Message(WsClientMessage::Heartbeat), "alice.os", 61, 1);
    assert_eq!(effects, vec![push(7, WsServerMessage::Heartbeat)]);
    assert_eq!(state.ws_connections.len(), 1);
}

#[test]
fn a_malformed_frame_gets_an_error_and_changes_nothing() {
    let mut state = ChatState::default();
    let effects =
        state.websocket(7, WsEvent::Malformed { reason: "expected value at line 1".to_string() }, "alice.os", 60, 1);
    assert_eq!(
        effects,
        vec![push(
            7,
            WsServerMessage::Error { message: "Invalid message format: expected value at line 1".to_string() }
        )]
    );
    assert_eq!(state, ChatState::default());
}

#[test]
fn other_frames_are_accepted_and_ignored() {
    let mut state = ChatState::default();
    for event in [WsEvent::Binary, WsEvent::Ping, WsEvent::Pong] {
        assert!(state.websocket(7, event, "alice.os", 60, 1).is_empty());
    }
    assert_eq!(state, ChatState::default());
}

#[test]
fn closing_a_node_session_tells_the_others() {
    let mut state = ChatState::default();
    state.websocket(1, WsEvent::Message(WsClientMessage::Heartbeat), "alice.os", 1, 1);
    state.websocket(2, WsEvent::Message(WsClientMessage::Heartbeat), "alice.os", 1, 1);
    state.websocket(3, WsEvent::Message(WsClientMessage::Heartbeat), "alice.os", 1, 1);
    state.websocket(2, WsEvent::Message(WsClientMessage::UpdateStatus { status: "active".to_string() }), "alice.os", 2, 1);
    assert_eq!(state.active_connections, HashSet::from([2]));
    let effects = state.websocket(2, WsEvent::Close, "alice.os", 3, 1);
    let offline = WsServerMessage::StatusUpdate { node: "alice.os".to_string(), status: "offline".to_string() };
    assert_eq!(effects, vec![push(1, offline.clone()), push(3, offline)]);
    assert_eq!(
        state.ws_connections,
        vec![
            WsConnection { channel_id: 1, node: "alice.os".to_string() },
            WsConnection { channel_id: 3, node: "alice.os".to_string() },
        ]
    );
    assert!(state.active_connections.is_empty());
    assert!(state.websocket(2, WsEvent::Close, "alice.os", 4, 1).is_empty());
}

#[test]
fn closing_a_guest_session_unbinds_its_key() {
    let mut state = ChatState::default();
    let key = with_key(&mut state, "browser:abc123");
    state.websocket(9, auth(&key), "alice.os", 2000, 1);
    assert_eq!(state.browser_connections.len(), 1);
    let effects = state.websocket(9, WsEvent::Close, "alice.os", 2001, 1);
    assert!(effects.is_empty());
    assert!(state.browser_connections.is_empty());
    assert_eq!(state.chat_keys.len(), 1);
}

#[test]
fn presence_is_tracked_per_channel() {
    let mut state = ChatState::default();
    state.websocket(1, WsEvent::Message(WsClientMessage::Heartbeat), "alice.os", 1, 1);
    let effects = state.handle_client_message(
        1,
        WsClientMessage::UpdateStatus { status: "active".to_string() },
        "alice.os",
        2,
        1,
    );
    assert_eq!(
        effects,
        vec![push(1, WsServerMessage::StatusUpdate { node: "alice.os".to_string(), status: "active".to_string() })]
    );
    state.handle_client_message(1, WsClientMessage::UpdateStatus { status: "active".to_string() }, "alice.os", 2, 1);
    assert_eq!(state.active_connections, HashSet::from([1]));
    state.handle_client_message(5, WsClientMessage::UpdateStatus { status: "active".to_string() }, "alice.os", 2, 1);
    assert_eq!(state.active_connections, HashSet::from([1, 5]));
    let effects =
        state.handle_client_message(1, WsClientMessage::UpdateStatus { status: "away".to_string() }, "alice.os", 2, 1);
    assert_eq!(state.active_connections, HashSet::from([1, 5]));
    assert_eq!(effects.len(), 1);
    state.handle_client_message(1, WsClientMessage::UpdateStatus { status: "inactive".to_string() }, "alice.os", 2, 1);
    assert_eq!(state.active_connections, HashSet::from([5]));
}

#[test]
fn an_active_session_suppresses_the_notification() {
    let mut state = ChatState::default();
    let quiet = state.receive_message(incoming("50:9", "bob.os", "hello", 50), "alice.os", None);
    assert!(quiet.iter().any(|e| matches!(e, Effect::Notify { .. })));
    state.websocket(1, WsEvent::Message(WsClientMessage::UpdateStatus { status: "active".to_string() }), "alice.os", 2, 1);
    let seen = state.receive_message(incoming("51:9", "bob.os", "again", 51), "alice.os", None);
    assert!(!seen.iter().any(|e| matches!(e, Effect::Notify { .. })));
    state.settings.notify_chats = false;
    state.active_connections.clear();
    let off = state.receive_message(incoming("52:9", "bob.os", "again", 52), "alice.os", None);
    assert!(!off.iter().any(|e| matches!(e, Effect::Notify { .. })));
}

#[test]
fn a_session_sends_a_message_into_a_chat() {
    let mut state = ChatState::default();
    state.receive_chat_creation("bob.os", "alice.os", 10);
    state.websocket(1, WsEvent::Message(WsClientMessage::Heartbeat), "alice.os", 11, 1);
    let effects = state.websocket(
        1,
        WsEvent::Message(WsClientMessage::SendMessage {
            chat_id: "alice.os:bob.os".to_string(),
            content: "hi".to_string(),
            reply_to: None,
        }),
        "alice.os",
        100,
        3,
    );
    let mut queued = incoming("100:3", "alice.os", "hi", 100);
    assert_eq!(state.delivery_queue.drain_attempt("bob.os"), Some(queued.clone()));
    queued.status = MessageStatus::Sent;
    assert_eq!(state.chats[0].messages, vec![queued]);
    assert_eq!(state.chats[0].last_activity, 100);
    assert_eq!(
        effects,
        vec![
            push(1, WsServerMessage::ChatUpdate(state.chats[0].clone())),
            push(1, WsServerMessage::MessageAck { message_id: "100:3".to_string() }),
        ]
    );
}

#[test]
fn a_session_message_for_an_unknown_chat_is_only_confirmed() {
    let mut state = ChatState::default();
    let effects = state.handle_client_message(
        1,
        WsClientMessage::SendMessage { chat_id: "nope".to_string(), content: "hi".to_string(), reply_to: None },
        "alice.os",
        100,
        3,
    );
    assert_eq!(effects, vec![push(1, WsServerMessage::MessageAck { message_id: "100:3".to_string() })]);
    assert!(state.chats.is_empty());
    assert!(state.delivery_queue.is_empty());
}

#[test]
fn an_online_counterparty_gets_the_message_on_its_own_session() {
    let mut state = ChatState::default();
    state.receive_chat_creation("bob.os", "alice.os", 10);
    state.ws_connections.push(WsConnection { channel_id: 4, node: "bob.os".to_string() });
    state.online_nodes.push("bob.os".to_string());
    let effects = state.send_from_session(1, "alice.os:bob.os", "hi".to_string(), None, "alice.os", 100, 3);
    assert_eq!(effects.len(), 3);
    assert_eq!(effects[0], push(4, WsServerMessage::NewMessage(incoming("100:3", "alice.os", "hi", 100))));
    assert!(state.delivery_queue.is_empty());
}

#[test]
fn confirming_and_reading_over_a_session() {
    let mut state = ChatState::default();
    state.receive_message(incoming("50:9", "bob.os", "hello", 50), "alice.os", None);
    state.chats[0].messages[0].status = MessageStatus::Sent;
    assert!(state
        .handle_client_message(1, WsClientMessage::Ack { message_id: "50:9".to_string() }, "alice.os", 60, 1)
        .is_empty());
    assert_eq!(state.chats[0].messages[0].status, MessageStatus::Delivered);
    assert_eq!(state.chats[0].unread_count, 1);
    assert!(state
        .handle_client_message(1, WsClientMessage::MarkRead { chat_id: "alice.os:bob.os".to_string() }, "alice.os", 60, 1)
        .is_empty());
    assert_eq!(state.chats[0].unread_count, 0);
    state.mark_read("unknown");
    state.confirm_from_session("unknown");
    assert_eq!(state.chats.len(), 1);
    // What only guests send is ignored by a node session.
    assert!(state
        .handle_client_message(1, WsClientMessage::BrowserMessage { content: "x".to_string() }, "alice.os", 60, 1)
        .is_empty());
}

#[test]
fn a_frame_that_is_no_text_gets_an_error_too() {
    let mut state = ChatState::default();
    state.websocket(1, WsEvent::Message(WsClientMessage::Heartbeat), "alice.os", 1, 1);
    let before_connections = state.ws_connections.clone();
    let reason = String::from_utf8(vec![0xff, 0xfe]).unwrap_err().to_string();
    let effects = state.websocket(7, WsEvent::Malformed { reason: reason.clone() }, "alice.os", 60, 1);
    assert_eq!(
        effects,
        vec![push(7, WsServerMessage::Error { message: format!("Invalid message format: {}", reason) })]
    );
    assert_eq!(state.ws_connections, before_connections);
    assert!(state.browser_connections.is_empty());
    assert!(state.active_connections.is_empty());
    assert!(state.chats.is_empty());
}

#[test]
fn a_guest_message_at_the_limit_of_the_unread_count() {
    let mut state = ChatState::default();
    let key = with_key(&mut state, "browser:abc123");
    state.websocket(9, auth(&key), "alice.os", 2000, 1);
    state.websocket(9, WsEvent::Message(WsClientMessage::BrowserMessage { content: "a".to_string() }), "alice.os", 2001, 1);
    state.chats[0].unread_count = u32::MAX;
    let effects = state.websocket(
        9,
        WsEvent::Message(WsClientMessage::BrowserMessage { content: "b".to_string() }),
        "alice.os",
        2002,
        2,
    );
    assert_eq!(effects.len(), 1);
    assert_eq!(state.chats[0].messages.len(), 2);
    assert_eq!(state.chats[0].unread_count, u32::MAX);
}

#[test]
fn a_full_chat_does_not_stand_in_the_way_of_a_new_session() {
    let mut state = ChatState::default();
    state.receive_message(incoming("50:9", "bob.os", "hello", 50), "alice.os", None);
    state.chats[0].unread_count = u32::MAX;
    let effects = state.websocket(
        5,
        WsEvent::Message(WsClientMessage::BrowserMessage { content: "not a guest".to_string() }),
        "alice.os",
        60,
        1,
    );
    assert_eq!(effects, vec![push(5, WsServerMessage::ChatUpdate(state.chats[0].clone()))]);
    assert_eq!(state.ws_connections, vec![WsConnection { channel_id: 5, node: "alice.os".to_string() }]);
    assert_eq!(state.chats[0].unread_count, u32::MAX);
    assert_eq!(state.chats[0].messages.len(), 1);
}

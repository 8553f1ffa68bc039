use chat::model::{ChatMessage, MessageReaction, MessageType};
use chat::requests::{
    AddReactionReq, CreateChatReq, DeleteChatReq, DeleteMessageReq, EditMessageReq, ForwardMessageReq,
    GetChatReq, GetMessagesReq, RemoveReactionReq, SearchChatsReq, SendMessageReq,
};
use chat::state::ChatState;
use chat::status::MessageStatus;
use chat::wire::Effect;

fn incoming(id: &str, sender: &str, content: &str, ts: u64) -> ChatMessage {
    ChatMessage {
        id: id.to_string(),
        sender: sender.to_string(),
        content: content.to_string(),
        timestamp: ts,
        status: MessageStatus::Sending,
        reply_to: None,
        reactions: Vec::new(),
        message_type: MessageType::Text,
        file_info: None,
    }
}

fn two_chats() -> ChatState {
    let mut state = ChatState::default();
    state.receive_message(incoming("50:1", "bob.os", "Hello Alice", 50), "alice.os", None);
    state.receive_message(incoming("60:1", "carol.os", "lunch?", 60), "alice.os", None);
    state.receive_message(incoming("70:1", "bob.os", "are you there", 70), "alice.os", None);
    state
}

fn react(chat: &str, message: &str, emoji: &str) -> AddReactionReq {
    AddReactionReq { chat_id: chat.to_string(), message_id: message.to_string(), emoji: emoji.to_string() }
}

#[test]
fn getting_and_deleting_a_chat() {
    let mut state = two_chats();
    let chat = state.get_chat(GetChatReq { chat_id: "alice.os:carol.os".to_string() }).unwrap();
    assert_eq!(chat.counterparty, "carol.os");
    assert_eq!(
        state.get_chat(GetChatReq { chat_id: "nope".to_string() }),
        Err("Chat not found".to_string())
    );
    assert_eq!(state.delete_chat(DeleteChatReq { chat_id: "nope".to_string() }), Err("Chat not found".to_string()));
    assert_eq!(
        state.delete_chat(DeleteChatReq { chat_id: "alice.os:bob.os".to_string() }),
        Ok("Chat deleted".to_string())
    );
    assert_eq!(state.chats.len(), 1);
    assert_eq!(state.chats[0].id, "alice.os:carol.os");
}

#[test]
fn chats_come_with_the_latest_activity_first() {
    let mut state = two_chats();
    state.create_chat(CreateChatReq { counterparty: "dave.os".to_string() }, "alice.os", 60);
    state.create_chat(CreateChatReq { counterparty: "erin.os".to_string() }, "alice.os", 5);
    let ids: Vec<String> = state.get_chats().into_iter().map(|c| c.id).collect();
    assert_eq!(ids, vec!["alice.os:bob.os", "alice.os:carol.os", "alice.os:dave.os", "alice.os:erin.os"]);
    assert!(ChatState::default().get_chats().is_empty());
}

#[test]
fn a_page_holds_the_newest_messages_oldest_first() {
    let mut state = ChatState::default();
    for (id, ts) in [("a", 30), ("b", 10), ("c", 20), ("d", 20), ("e", 40)] {
        state.receive_message(incoming(id, "bob.os", id, ts), "alice.os", None);
    }
    let page = |before: Option<u64>, limit: Option<u64>| -> Vec<String> {
        state
            .get_messages(GetMessagesReq { chat_id: "alice.os:bob.os".to_string(), before_timestamp: before, limit })
            .unwrap()
            .into_iter()
            .map(|m| m.id)
            .collect()
    };
    assert_eq!(page(None, None), vec!["b", "d", "c", "a", "e"]);
    assert_eq!(page(None, Some(2)), vec!["a", "e"]);
    assert_eq!(page(None, Some(3)), vec!["c", "a", "e"]);
    assert_eq!(page(Some(40), Some(3)), vec!["d", "c", "a"]);
    assert_eq!(page(Some(20), None), vec!["b"]);
    assert_eq!(page(Some(10), None), Vec::<String>::new());
    assert_eq!(page(None, Some(0)), Vec::<String>::new());
    assert_eq!(page(None, Some(u64::MAX)), vec!["b", "d", "c", "a", "e"]);
    assert_eq!(
        state.get_messages(GetMessagesReq { chat_id: "nope".to_string(), before_timestamp: None, limit: None }),
        Err("Chat not found".to_string())
    );
}

#[test]
fn a_page_holds_fifty_messages_by_default() {
    let mut state = ChatState::default();
    for i in 0..60u64 {
        state.receive_message(incoming(&format!("m{}", i), "bob.os", "x", i), "alice.os", None);
    }
    let page = state
        .get_messages(GetMessagesReq { chat_id: "alice.os:bob.os".to_string(), before_timestamp: None, limit: None })
        .unwrap();
    assert_eq!(page.len(), 50);
    assert_eq!(page[0].id, "m10");
    assert_eq!(page[49].id, "m59");
}

#[test]
fn sending_creates_the_chat_named_by_the_id() {
    let mut state = ChatState::default();
    let req = SendMessageReq {
        chat_id: "alice.os:zed.os".to_string(),
        content: "first".to_string(),
        reply_to: None,
        file_info: None,
    };
    let (sent, effects) = state.send_message(req, "alice.os", 1700000000, 4294967295);
    assert_eq!(sent.id, "1700000000:4294967295");
    assert_eq!(sent.sender, "alice.os");
    assert_eq!(sent.status, MessageStatus::Sent);
    assert_eq!(state.chats[0].counterparty, "zed.os");
    assert_eq!(state.chats[0].last_activity, 1700000000);
    assert_eq!(state.chats[0].unread_count, 0);
    assert_eq!(effects.len(), 1);
    let req = SendMessageReq { chat_id: "odd".to_string(), content: "x".to_string(), reply_to: None, file_info: None };
    state.send_message(req, "alice.os", 0, 0);
    assert_eq!(state.chats[1].counterparty, "unknown");
    assert_eq!(state.chats[1].messages[0].id, "0:0");
}

#[test]
fn editing_a_message() {
    let mut state = two_chats();
    let edit = |chat: &str, message: &str| EditMessageReq {
        chat_id: chat.to_string(),
        message_id: message.to_string(),
        new_content: "edited".to_string(),
    };
    assert_eq!(state.edit_message(edit("alice.os:bob.os", "70:1")), Ok("Message edited".to_string()));
    assert_eq!(state.chats[0].messages[1].content, "edited");
    assert_eq!(state.chats[0].messages[0].content, "Hello Alice");
    assert_eq!(state.edit_message(edit("alice.os:bob.os", "60:1")), Err("Message not found".to_string()));
    assert_eq!(state.edit_message(edit("nope", "70:1")), Err("Message not found".to_string()));
}

#[test]
fn deleting_a_message_here_or_on_both_sides() {
    let mut state = two_chats();
    let del = |message: &str, both: Option<bool>| DeleteMessageReq {
        chat_id: "alice.os:bob.os".to_string(),
        message_id: message.to_string(),
        delete_for_both: both,
    };
    assert_eq!(state.delete_message(del("50:1", None)), Ok(("Message deleted".to_string(), vec![])));
    assert_eq!(state.delete_message(del("50:1", None)), Err("Message not found".to_string()));
    assert_eq!(
        state.delete_message(del("70:1", Some(true))),
        Ok((
            "Message deleted".to_string(),
            vec![Effect::Delete {
                target: "bob.os".to_string(),
                message_id: "70:1".to_string(),
                chat_id: "alice.os:bob.os".to_string(),
            }]
        ))
    );
    assert!(state.chats[0].messages.is_empty());
    state.receive_message(incoming("80:1", "bob.os", "x", 80), "alice.os", None);
    assert_eq!(state.delete_message(del("80:1", Some(false))), Ok(("Message deleted".to_string(), vec![])));
}

#[test]
fn reacting_twice_leaves_one_reaction() {
    let mut state = two_chats();
    let (text, effects) = state.add_reaction(react("alice.os:bob.os", "50:1", "+1"), "alice.os", 90).unwrap();
    assert_eq!(text, "Reaction added");
    assert_eq!(
        effects,
        vec![Effect::React {
            target: "bob.os".to_string(),
            message_id: "50:1".to_string(),
            emoji: "+1".to_string(),
            user: "alice.os".to_string(),
        }]
    );
    let (text, effects) = state.add_reaction(react("alice.os:bob.os", "50:1", "+1"), "alice.os", 91).unwrap();
    assert_eq!(text, "Already reacted");
    assert!(effects.is_empty());
    assert_eq!(
        state.chats[0].messages[0].reactions,
        vec![MessageReaction { emoji: "+1".to_string(), user: "alice.os".to_string(), timestamp: 90 }]
    );
    assert_eq!(
        state.add_reaction(react("alice.os:bob.os", "1:1", "+1"), "alice.os", 92),
        Err("Message not found".to_string())
    );
    assert_eq!(state.add_reaction(react("nope", "50:1", "+1"), "alice.os", 92), Err("Message not found".to_string()));
}

#[test]
fn a_reaction_to_our_own_message_goes_to_the_counterparty() {
    let mut state = ChatState::default();
    let req =
        SendMessageReq { chat_id: "alice.os:bob.os".to_string(), content: "x".to_string(), reply_to: None, file_info: None };
    state.send_message(req, "alice.os", 10, 1);
    let (_, effects) = state.add_reaction(react("alice.os:bob.os", "10:1", "ok"), "alice.os", 11).unwrap();
    assert_eq!(
        effects,
        vec![Effect::React {
            target: "bob.os".to_string(),
            message_id: "10:1".to_string(),
            emoji: "ok".to_string(),
            user: "alice.os".to_string(),
        }]
    );
}

#[test]
fn removing_a_reaction() {
    let mut state = two_chats();
    state.add_reaction(react("alice.os:bob.os", "50:1", "+1"), "alice.os", 90).unwrap();
    state.receive_reaction("50:1", "+1", "bob.os", 91);
    let remove = |emoji: &str| RemoveReactionReq {
        chat_id: "alice.os:bob.os".to_string(),
        message_id: "50:1".to_string(),
        emoji: emoji.to_string(),
    };
    assert_eq!(state.remove_reaction(remove("-1"), "alice.os"), Err("Reaction not found".to_string()));
    assert_eq!(state.remove_reaction(remove("+1"), "alice.os"), Ok(("Reaction removed".to_string(), vec![])));
    assert_eq!(state.remove_reaction(remove("+1"), "alice.os"), Err("Reaction not found".to_string()));
    assert_eq!(state.chats[0].messages[0].reactions.len(), 1);
    assert_eq!(state.chats[0].messages[0].reactions[0].user, "bob.os");
}

#[test]
fn forwarding_a_message() {
    let mut state = two_chats();
    let req = ForwardMessageReq {
        from_chat_id: "alice.os:bob.os".to_string(),
        message_id: "50:1".to_string(),
        to_chat_id: "alice.os:carol.os".to_string(),
    };
    let (forwarded, effects) = state.forward_message(req, "alice.os", 100, 9).unwrap();
    assert_eq!(forwarded.id, "100:9");
    assert_eq!(forwarded.content, "Forwarded: Hello Alice");
    assert_eq!(forwarded.sender, "alice.os");
    assert_eq!(forwarded.status, MessageStatus::Sending);
    assert_eq!(effects, vec![Effect::Deliver { target: "carol.os".to_string(), message: forwarded.clone() }]);
    assert_eq!(state.chats[1].messages.last(), Some(&forwarded));
    assert_eq!(state.chats[1].last_activity, 100);

    state.record_send_outcome("alice.os:carol.os", "carol.os", forwarded.clone(), false);
    assert_eq!(state.chats[1].messages.last().unwrap().status, MessageStatus::Failed);
    assert_eq!(state.delivery_queue.drain_attempt("carol.os"), Some(forwarded));

    let req = ForwardMessageReq {
        from_chat_id: "alice.os:bob.os".to_string(),
        message_id: "50:1".to_string(),
        to_chat_id: "browser:k1".to_string(),
    };
    let (_, effects) = state.forward_message(req, "alice.os", 101, 9).unwrap();
    assert!(effects.is_empty());
    assert_eq!(state.chats[2].counterparty, "k1");

    let req = ForwardMessageReq {
        from_chat_id: "alice.os:bob.os".to_string(),
        message_id: "nope".to_string(),
        to_chat_id: "alice.os:carol.os".to_string(),
    };
    assert_eq!(state.forward_message(req, "alice.os", 102, 9), Err("Message not found".to_string()));
}

#[test]
fn a_sweep_delivers_the_head_and_marks_it_sent() {
    let mut state = ChatState::default();
    state.receive_chat_creation("bob.os", "alice.os", 1);
    state.send_from_session(1, "alice.os:bob.os", "one".to_string(), None, "alice.os", 10, 1);
    state.send_from_session(1, "alice.os:bob.os", "two".to_string(), None, "alice.os", 11, 2);
    let attempts = state.process_delivery_queue();
    assert_eq!(attempts, vec![Effect::Deliver { target: "bob.os".to_string(), message: incoming("10:1", "alice.os", "one", 10) }]);
    state.queued_delivery_succeeded("bob.os", "10:1");
    assert_eq!(state.chats[0].messages[0].status, MessageStatus::Sent);
    let attempts = state.process_delivery_queue();
    assert_eq!(attempts, vec![Effect::Deliver { target: "bob.os".to_string(), message: incoming("11:2", "alice.os", "two", 11) }]);
    state.queued_delivery_succeeded("bob.os", "11:2");
    assert!(state.delivery_queue.is_empty());
    assert!(state.process_delivery_queue().is_empty());
}

#[test]
fn searching_ignores_the_case_of_letters() {
    let state = two_chats();
    let ids = |query: &str| -> Vec<String> {
        state.search_chats(SearchChatsReq { query: query.to_string() }).into_iter().map(|c| c.id).collect()
    };
    assert_eq!(ids("ALICE"), vec!["alice.os:bob.os"]);
    assert_eq!(ids("Carol"), vec!["alice.os:carol.os"]);
    assert_eq!(ids("LUNCH"), vec!["alice.os:carol.os"]);
    assert_eq!(ids(".os"), vec!["alice.os:bob.os", "alice.os:carol.os"]);
    assert_eq!(ids(""), vec!["alice.os:bob.os", "alice.os:carol.os"]);
    assert_eq!(ids("zzz"), Vec::<String>::new());
}

use crate::lookup::{first_true, lemma_first_true, lemma_first_true_at, lemma_first_true_none};
use crate::model::{
    clone_messages, group_views, views, ChatKey, ChatKeyView, ChatMessage, ChatView, MessageType,
    MessageView,
};
use crate::state::{browser_wf, state_wf, ChatState, StateView};
use crate::status::MessageStatus;
use crate::store::{
    chat_position, ensure_chat, ensured, ensured_at, find_chat, lemma_update_same_id_wf, one_more,
    with_message,
};
use crate::text::{decimal, push_decimal};
use crate::wire::{
    broadcast, channel_ids, push_broadcast, BrowserConnection, BrowserConnectionView,
    ClientMessageView, Effect, EffectView, ServerMessageView, WsClientMessage, WsConnection,
    WsConnectionView, WsServerMessage,
};
use vstd::prelude::*;

verus! {

/// Which node sessions run on `channel`.
pub open spec fn connection_flags(conns: Seq<WsConnectionView>, channel: u32) -> Seq<bool> {
    Seq::new(conns.len(), |i: int| conns[i].channel_id == channel)
}

/// Where the node session of `channel` stands, if the channel is one.
pub open spec fn connection_position(conns: Seq<WsConnectionView>, channel: u32) -> Option<int> {
    first_true(connection_flags(conns, channel))
}

/// Which guest sessions run on `channel`.
pub open spec fn guest_flags(conns: Seq<BrowserConnectionView>, channel: u32) -> Seq<bool> {
    Seq::new(conns.len(), |i: int| conns[i].channel_id == channel)
}

/// Where the first guest session of `channel` stands.
pub open spec fn guest_position(conns: Seq<BrowserConnectionView>, channel: u32) -> Option<int> {
    first_true(guest_flags(conns, channel))
}

/// Which guest sessions are bound to the chat key `key`.
pub open spec fn binding_flags(conns: Seq<BrowserConnectionView>, key: Seq<char>) -> Seq<bool> {
    Seq::new(conns.len(), |i: int| conns[i].chat_key == key)
}

/// Where the guest session bound to `key` stands.
pub open spec fn binding_position(conns: Seq<BrowserConnectionView>, key: Seq<char>) -> Option<int> {
    first_true(binding_flags(conns, key))
}

/// Which chat keys are the key `key`.
pub open spec fn key_flags(keys: Seq<ChatKeyView>, key: Seq<char>) -> Seq<bool> {
    Seq::new(keys.len(), |i: int| keys[i].key == key)
}

/// Where the chat key `key` stands, if it was ever handed out.
pub open spec fn key_position(keys: Seq<ChatKeyView>, key: Seq<char>) -> Option<int> {
    first_true(key_flags(keys, key))
}

/// Finds the node session of `channel`.
pub fn find_connection(conns: &Vec<WsConnection>, channel: u32) -> (r: Option<usize>)
    ensures
        match r {
            Some(i) => i < conns.len() && connection_position(views(conns@), channel) == Some(i as int),
            None => connection_position(views(conns@), channel) is None,
        },
{
    let ghost flags = connection_flags(views(conns@), channel);
    let mut i: usize = 0;
    while i < conns.len()
        invariant
            i <= conns.len(),
            flags == connection_flags(views(conns@), channel),
            forall|j: int| 0 <= j < i ==> !#[trigger] flags[j],
        decreases conns.len() - i,
    {
        if conns[i].channel_id == channel {
            proof {
                assert(flags[i as int]);
                lemma_first_true_at(flags, i as int);
            }
            return Some(i);
        }
        assert(!flags[i as int]);
        i += 1;
    }
    proof {
        lemma_first_true_none(flags);
    }
    None
}

/// Finds the first guest session of `channel`.
pub fn find_guest(conns: &Vec<BrowserConnection>, channel: u32) -> (r: Option<usize>)
    ensures
        match r {
            Some(i) => i < conns.len() && guest_position(views(conns@), channel) == Some(i as int),
            None => guest_position(views(conns@), channel) is None,
        },
{
    let ghost flags = guest_flags(views(conns@), channel);
    let mut i: usize = 0;
    while i < conns.len()
        invariant
            i <= conns.len(),
            flags == guest_flags(views(conns@), channel),
            forall|j: int| 0 <= j < i ==> !#[trigger] flags[j],
        decreases conns.len() - i,
    {
        if conns[i].channel_id == channel {
            proof {
                assert(flags[i as int]);
                lemma_first_true_at(flags, i as int);
            }
            return Some(i);
        }
        assert(!flags[i as int]);
        i += 1;
    }
    proof {
        lemma_first_true_none(flags);
    }
    None
}

/// Finds the guest session bound to `key`.
pub fn find_binding(conns: &Vec<BrowserConnection>, key: &str) -> (r: Option<usize>)
    ensures
        match r {
            Some(i) => i < conns.len() && binding_position(views(conns@), key@) == Some(i as int),
            None => binding_position(views(conns@), key@) is None,
        },
{
    let ghost flags = binding_flags(views(conns@), key@);
    let mut i: usize = 0;
    while i < conns.len()
        invariant
            i <= conns.len(),
            flags == binding_flags(views(conns@), key@),
            forall|j: int| 0 <= j < i ==> !#[trigger] flags[j],
        decreases conns.len() - i,
    {
        if conns[i].chat_key.as_str().eq(key) {
            proof {
                assert(flags[i as int]);
                lemma_first_true_at(flags, i as int);
            }
            return Some(i);
        }
        assert(!flags[i as int]);
        i += 1;
    }
    proof {
        lemma_first_true_none(flags);
    }
    None
}

/// Finds the chat key `key`.
pub fn find_key(keys: &Vec<ChatKey>, key: &str) -> (r: Option<usize>)
    ensures
        match r {
            Some(i) => i < keys.len() && key_position(views(keys@), key@) == Some(i as int),
            None => key_position(views(keys@), key@) is None,
        },
{
    let ghost flags = key_flags(views(keys@), key@);
    let mut i: usize = 0;
    while i < keys.len()
        invariant
            i <= keys.len(),
            flags == key_flags(views(keys@), key@),
            forall|j: int| 0 <= j < i ==> !#[trigger] flags[j],
        decreases keys.len() - i,
    {
        if keys[i].key.as_str().eq(key) {
            proof {
                assert(flags[i as int]);
                lemma_first_true_at(flags, i as int);
            }
            return Some(i);
        }
        assert(!flags[i as int]);
        i += 1;
    }
    proof {
        lemma_first_true_none(flags);
    }
    None
}

/// The id of a message made at the time `now` with the nonce `nonce`: the
/// two numbers in decimal, with a colon between them.
pub open spec fn message_id_of(now: u64, nonce: u32) -> Seq<char> {
    decimal(now as nat) + seq![':'] + decimal(nonce as nat)
}

/// Makes a message id.
pub fn make_message_id(now: u64, nonce: u32) -> (id: String)
    ensures
        id@ == message_id_of(now, nonce),
{
    let mut id = String::new();
    push_decimal(&mut id, now);
    id.push(':');
    push_decimal(&mut id, nonce as u64);
    assert(id@ =~= message_id_of(now, nonce));
    id
}

/// A text message without reply, reactions or file.
pub open spec fn plain_message(
    id: Seq<char>,
    sender: Seq<char>,
    content: Seq<char>,
    now: u64,
    status: MessageStatus,
    reply_to: Option<Seq<char>>,
) -> MessageView {
    MessageView {
        id,
        sender,
        content,
        timestamp: now,
        status,
        reply_to,
        reactions: Seq::empty(),
        message_type: MessageType::Text,
        file_info: None,
    }
}

/// The guest sessions with `key` bound to `channel`: in the place of the
/// key's earlier binding, or at the end.
pub open spec fn bound(conns: Seq<BrowserConnectionView>, key: Seq<char>, channel: u32) -> Seq<
    BrowserConnectionView,
> {
    let binding = BrowserConnectionView { chat_key: key, channel_id: channel };
    match binding_position(conns, key) {
        Some(i) => conns.update(i, binding),
        None => conns.push(binding),
    }
}

/// The history of the chat `chat_id`; empty where there is no such chat.
pub open spec fn history_of(chats: Seq<ChatView>, chat_id: Seq<char>) -> Seq<MessageView> {
    match chat_position(chats, chat_id) {
        Some(i) => chats[i].messages,
        None => Seq::empty(),
    }
}

/// The state after a guest authenticated with `key` on `channel`: a key
/// that is known and not revoked is bound to the channel, any other key
/// changes nothing.
pub open spec fn after_auth(s: StateView, channel: u32, key: Seq<char>) -> StateView {
    match key_position(s.chat_keys, key) {
        Some(k) => if s.chat_keys[k].is_revoked {
            s
        } else {
            StateView { browser_connections: bound(s.browser_connections, key, channel), ..s }
        },
        None => s,
    }
}

/// The answer to a guest who authenticated with `key`.
pub open spec fn auth_reply(s: StateView, key: Seq<char>) -> ServerMessageView {
    match key_position(s.chat_keys, key) {
        Some(k) => if s.chat_keys[k].is_revoked {
            ServerMessageView::AuthFailed { reason: "Chat key has been revoked"@ }
        } else {
            ServerMessageView::AuthSuccess {
                chat_id: s.chat_keys[k].chat_id,
                history: history_of(s.chats, s.chat_keys[k].chat_id),
            }
        },
        None => ServerMessageView::AuthFailed { reason: "Invalid chat key"@ },
    }
}

/// The chat key that the guest on `channel` authenticated with, if the
/// channel is a guest session whose key is known.
pub open spec fn guest_key(s: StateView, channel: u32) -> Option<ChatKeyView> {
    match guest_position(s.browser_connections, channel) {
        Some(b) => match key_position(s.chat_keys, s.browser_connections[b].chat_key) {
            Some(k) => Some(s.chat_keys[k]),
            None => None,
        },
        None => None,
    }
}

/// The message that a guest with the key `key` sends.
pub open spec fn guest_message(key: ChatKeyView, content: Seq<char>, now: u64, nonce: u32) -> MessageView {
    plain_message(message_id_of(now, nonce), key.user_name, content, now, MessageStatus::Sent, None)
}

/// The chat of the key `key` after its guest sent `content`.
pub open spec fn guest_chat(s: StateView, key: ChatKeyView, content: Seq<char>, now: u64, nonce: u32) -> ChatView {
    let chat = ensured(s.chats, key.chat_id, key.user_name, now)[ensured_at(s.chats, key.chat_id)];
    ChatView {
        unread_count: one_more(chat.unread_count),
        ..with_message(chat, guest_message(key, content, now, nonce), now)
    }
}

/// The state after the guest on `channel` sent `content`.
pub open spec fn after_guest_message(s: StateView, channel: u32, content: Seq<char>, now: u64, nonce: u32) -> StateView {
    match guest_key(s, channel) {
        Some(key) => StateView {
            chats: ensured(s.chats, key.chat_id, key.user_name, now).update(
                ensured_at(s.chats, key.chat_id),
                guest_chat(s, key, content, now, nonce),
            ),
            ..s
        },
        None => s,
    }
}

/// What a guest's message makes the node do: hand the message back to the
/// guest, and show it to every node session.
pub open spec fn guest_message_effects(s: StateView, channel: u32, content: Seq<char>, now: u64, nonce: u32) -> Seq<
    EffectView,
> {
    match guest_key(s, channel) {
        Some(key) => {
            let frame = ServerMessageView::NewMessage(guest_message(key, content, now, nonce));
            seq![EffectView::Push { channel_id: channel, frame }] + broadcast(
                channel_ids(s.ws_connections),
                frame,
            )
        },
        None => Seq::empty(),
    }
}

impl ChatState {
    /// Whether `channel` is a guest session.
    pub fn is_guest_channel(&self, channel: u32) -> (r: bool)
        ensures
            r == guest_position(self@.browser_connections, channel) is Some,
    {
        find_guest(&self.browser_connections, channel).is_some()
    }

    /// A guest authenticates on `channel_id` with a chat key. A key that is
    /// known and not revoked binds the channel and is answered with the
    /// history of its chat. A revoked or unknown key is answered with the
    /// reason; nothing else happens, so the guest may try again.
    pub fn authenticate_guest(&mut self, channel_id: u32, chat_key: &str) -> (effects: Vec<Effect>)
        ensures
            final(self)@ == after_auth(old(self)@, channel_id, chat_key@),
            views(effects@) == seq![
                EffectView::Push { channel_id, frame: auth_reply(old(self)@, chat_key@) },
            ],
            state_wf(old(self)@) ==> state_wf(final(self)@),
    {
        broadcast use group_views;

        let reply = match find_key(&self.chat_keys, chat_key) {
            Some(k) => {
                if self.chat_keys[k].is_revoked {
                    WsServerMessage::AuthFailed { reason: String::from_str("Chat key has been revoked") }
                } else {
                    proof {
                        lemma_bound_wf(self@.browser_connections, chat_key@, channel_id);
                    }
                    match find_binding(&self.browser_connections, chat_key) {
                        Some(b) => {
                            self.browser_connections[b].channel_id = channel_id;
                            assert(self@.browser_connections =~= bound(
                                old(self)@.browser_connections,
                                chat_key@,
                                channel_id,
                            ));
                        },
                        None => {
                            self.browser_connections.push(
                                BrowserConnection { chat_key: String::from_str(chat_key), channel_id },
                            );
                        },
                    }
                    let history = match find_chat(&self.chats, self.chat_keys[k].chat_id.as_str()) {
                        Some(ci) => clone_messages(&self.chats[ci].messages),
                        None => Vec::new(),
                    };
                    WsServerMessage::AuthSuccess { chat_id: self.chat_keys[k].chat_id.clone(), history }
                }
            },
            None => WsServerMessage::AuthFailed { reason: String::from_str("Invalid chat key") },
        };
        let mut effects: Vec<Effect> = Vec::new();
        effects.push(Effect::Push { channel_id, frame: reply });
        assert(views(effects@) =~= seq![
            EffectView::Push { channel_id, frame: auth_reply(old(self)@, chat_key@) },
        ]);
        effects
    }

    /// The guest on `channel_id` sends a message. It is appended to the chat
    /// of the guest's key, which is created if need be, and counts as
    /// unread, up to the most that the count can hold; the guest gets it
    /// back and every node session is shown it. A
    /// channel that is no guest session, or whose key is unknown, is
    /// ignored.
    pub fn receive_guest_message(&mut self, channel_id: u32, content: String, now: u64, nonce: u32) -> (effects:
        Vec<Effect>)
        ensures
            final(self)@ == after_guest_message(old(self)@, channel_id, content@, now, nonce),
            views(effects@) == guest_message_effects(old(self)@, channel_id, content@, now, nonce),
            state_wf(old(self)@) ==> state_wf(final(self)@),
    {
        broadcast use group_views;

        let mut effects: Vec<Effect> = Vec::new();
        let b = match find_guest(&self.browser_connections, channel_id) {
            Some(b) => b,
            None => {
                return effects;
            },
        };
        let k = match find_key(&self.chat_keys, self.browser_connections[b].chat_key.as_str()) {
            Some(k) => k,
            None => {
                return effects;
            },
        };
        let ghost key = self@.chat_keys[k as int];
        assert(guest_key(old(self)@, channel_id) == Some(key));
        let message = ChatMessage {
            id: make_message_id(now, nonce),
            sender: self.chat_keys[k].user_name.clone(),
            content,
            timestamp: now,
            status: MessageStatus::Sent,
            reply_to: None,
            reactions: Vec::new(),
            message_type: MessageType::Text,
            file_info: None,
        };
        assert(message@ == guest_message(key, content@, now, nonce));
        let chat_id = self.chat_keys[k].chat_id.clone();
        let user_name = self.chat_keys[k].user_name.clone();
        let ci = ensure_chat(&mut self.chats, chat_id.as_str(), user_name, now);
        let ghost ensured_chats = self@.chats;
        self.chats[ci].push_message(message.clone(), now);
        self.chats[ci].count_unread();
        proof {
            assert(self@.chats[ci as int] == guest_chat(old(self)@, key, content@, now, nonce));
            assert(self@.chats =~= ensured_chats.update(ci as int, self@.chats[ci as int]));
            if state_wf(old(self)@) {
                lemma_update_same_id_wf(ensured_chats, ci as int, self@.chats[ci as int]);
            }
        }
        let frame = WsServerMessage::NewMessage(message);
        effects.push(Effect::Push { channel_id, frame: frame.clone() });
        let ghost first = views(effects@);
        push_broadcast(&mut effects, &self.ws_connections, &frame);
        assert(first =~= seq![EffectView::Push { channel_id, frame: frame@ }]);
        effects
    }
}

/// Binding a key keeps the keys of the guest sessions distinct.
pub proof fn lemma_bound_wf(conns: Seq<BrowserConnectionView>, key: Seq<char>, channel: u32)
    ensures
        browser_wf(conns) ==> browser_wf(bound(conns, key, channel)),
{
    if browser_wf(conns) {
        lemma_first_true(binding_flags(conns, key));
        let r = bound(conns, key, channel);
        assert forall|a: int, b: int| 0 <= a < b < r.len() implies (#[trigger] r[a]).chat_key != (
        #[trigger] r[b]).chat_key by {
            match binding_position(conns, key) {
                Some(i) => {
                    assert(binding_flags(conns, key)[i]);
                    assert(r[a].chat_key == conns[a].chat_key);
                    assert(r[b].chat_key == conns[b].chat_key);
                },
                None => {
                    assert(r[a] == conns[a]);
                    assert(!binding_flags(conns, key)[a]);
                    if b < conns.len() {
                        assert(r[b] == conns[b]);
                    }
                },
            }
        }
    }
}

/// The state after a guest-side message arrived on `channel`.
pub open spec fn after_browser_message(s: StateView, channel: u32, msg: ClientMessageView, now: u64, nonce: u32) -> StateView {
    match msg {
        ClientMessageView::AuthWithKey { chat_key } => after_auth(s, channel, chat_key),
        ClientMessageView::BrowserMessage { content } => after_guest_message(
            s,
            channel,
            content,
            now,
            nonce,
        ),
        _ => s,
    }
}

/// What a guest-side message makes the node do.
pub open spec fn browser_message_effects(s: StateView, channel: u32, msg: ClientMessageView, now: u64, nonce: u32) -> Seq<
    EffectView,
> {
    match msg {
        ClientMessageView::AuthWithKey { chat_key } => seq![
            EffectView::Push { channel_id: channel, frame: auth_reply(s, chat_key) },
        ],
        ClientMessageView::BrowserMessage { content } => guest_message_effects(
            s,
            channel,
            content,
            now,
            nonce,
        ),
        ClientMessageView::Heartbeat => seq![
            EffectView::Push { channel_id: channel, frame: ServerMessageView::Heartbeat },
        ],
        _ => Seq::empty(),
    }
}

impl ChatState {
    /// Handles what a guest session sends, or an authentication request from
    /// any channel: authentication, a guest's message, or a heartbeat, which
    /// is answered in kind. Anything else is not for guests and is ignored.
    pub fn handle_browser_message(&mut self, channel_id: u32, msg: WsClientMessage, now: u64, nonce: u32) -> (effects:
        Vec<Effect>)
        ensures
            final(self)@ == after_browser_message(old(self)@, channel_id, msg@, now, nonce),
            views(effects@) == browser_message_effects(old(self)@, channel_id, msg@, now, nonce),
            state_wf(old(self)@) ==> state_wf(final(self)@),
    {
        broadcast use group_views;

        match msg {
            WsClientMessage::AuthWithKey { chat_key } => self.authenticate_guest(
                channel_id,
                chat_key.as_str(),
            ),
            WsClientMessage::BrowserMessage { content } => self.receive_guest_message(
                channel_id,
                content,
                now,
                nonce,
            ),
            WsClientMessage::Heartbeat => {
                let mut effects: Vec<Effect> = Vec::new();
                effects.push(Effect::Push { channel_id, frame: WsServerMessage::Heartbeat });
                assert(views(effects@) =~= seq![
                    EffectView::Push { channel_id, frame: ServerMessageView::Heartbeat },
                ]);
                effects
            },
            _ => Vec::new(),
        }
    }
}

} // verus!

use crate::lookup::{first_true, lemma_first_true_at, lemma_first_true_none};
use crate::model::{group_views, opt_view, views, ChatMessage, ChatView, MessageType, MessageView};
use crate::queue::enqueued;
use crate::session::{
    connection_position, find_connection, make_message_id, message_id_of, plain_message,
};
use crate::state::{state_wf, ChatState, StateView};
use crate::status::MessageStatus;
use crate::store::{
    chat_position, find_chat, find_message, lemma_update_same_id_wf, marked, message_position,
    with_message, with_status_at,
};
use crate::wire::{
    broadcast, channel_ids, ClientMessageView, Effect, EffectView, ServerMessageView,
    WsClientMessage, WsConnection, WsConnectionView, WsServerMessage,
};
use vstd::prelude::*;

verus! {

/// Which entries of `names` are `name`.
pub open spec fn name_flags(names: Seq<Seq<char>>, name: Seq<char>) -> Seq<bool> {
    Seq::new(names.len(), |i: int| names[i] == name)
}

/// Where `name` stands among `names`.
pub open spec fn name_position(names: Seq<Seq<char>>, name: Seq<char>) -> Option<int> {
    first_true(name_flags(names, name))
}

/// `names` without the first entry that is `name`.
pub open spec fn without_name(names: Seq<Seq<char>>, name: Seq<char>) -> Seq<Seq<char>> {
    match name_position(names, name) {
        Some(i) => names.remove(i),
        None => names,
    }
}

/// Which node sessions are bound to the identity `node`.
pub open spec fn node_flags(conns: Seq<WsConnectionView>, node: Seq<char>) -> Seq<bool> {
    Seq::new(conns.len(), |i: int| conns[i].node == node)
}

/// Where the first node session bound to `node` stands.
pub open spec fn node_position(conns: Seq<WsConnectionView>, node: Seq<char>) -> Option<int> {
    first_true(node_flags(conns, node))
}

/// Finds `name` among `names`.
pub fn find_name(names: &Vec<String>, name: &str) -> (r: Option<usize>)
    ensures
        match r {
            Some(i) => i < names.len() && name_position(views(names@), name@) == Some(i as int),
            None => name_position(views(names@), name@) is None,
        },
{
    let ghost flags = name_flags(views(names@), name@);
    let mut i: usize = 0;
    while i < names.len()
        invariant
            i <= names.len(),
            flags == name_flags(views(names@), name@),
            forall|j: int| 0 <= j < i ==> !#[trigger] flags[j],
        decreases names.len() - i,
    {
        if names[i].as_str().eq(name) {
            proof {
                assert(flags[i as int]);
                lemma_first_true_at(flags, i as int);
            }
            return Some(i);
        }
        assert(!flags[i as int]);
        i += 1;
    }
    proof {
        lemma_first_true_none(flags);
    }
    None
}

/// Finds the first node session bound to `node`.
pub fn find_node(conns: &Vec<WsConnection>, node: &str) -> (r: Option<usize>)
    ensures
        match r {
            Some(i) => i < conns.len() && node_position(views(conns@), node@) == Some(i as int),
            None => node_position(views(conns@), node@) is None,
        },
{
    let ghost flags = node_flags(views(conns@), node@);
    let mut i: usize = 0;
    while i < conns.len()
        invariant
            i <= conns.len(),
            flags == node_flags(views(conns@), node@),
            forall|j: int| 0 <= j < i ==> !#[trigger] flags[j],
        decreases conns.len() - i,
    {
        if conns[i].node.as_str().eq(node) {
            proof {
                assert(flags[i as int]);
                lemma_first_true_at(flags, i as int);
            }
            return Some(i);
        }
        assert(!flags[i as int]);
        i += 1;
    }
    proof {
        lemma_first_true_none(flags);
    }
    None
}

/// Taking an entry out keeps the entries distinct.
pub proof fn lemma_remove_distinct<T>(s: Seq<T>, i: int)
    requires
        s.no_duplicates(),
        0 <= i < s.len(),
    ensures
        s.remove(i).no_duplicates(),
{
    let r = s.remove(i);
    assert forall|a: int, b: int| 0 <= a < r.len() && 0 <= b < r.len() && a != b implies r[a] != r[b] by {
        let a0 = if a < i {
            a
        } else {
            a + 1
        };
        let b0 = if b < i {
            b
        } else {
            b + 1
        };
        assert(r[a] == s[a0]);
        assert(r[b] == s[b0]);
    }
}

/// The identity that the session on `channel` writes as; the node's own
/// where the channel is no node session.
pub open spec fn session_sender(s: StateView, channel: u32, our: Seq<char>) -> Seq<char> {
    match connection_position(s.ws_connections, channel) {
        Some(i) => s.ws_connections[i].node,
        None => our,
    }
}

/// The message that the session on `channel` sends.
pub open spec fn client_message(
    s: StateView,
    channel: u32,
    our: Seq<char>,
    content: Seq<char>,
    reply_to: Option<Seq<char>>,
    now: u64,
    nonce: u32,
) -> MessageView {
    plain_message(
        message_id_of(now, nonce),
        session_sender(s, channel, our),
        content,
        now,
        MessageStatus::Sending,
        reply_to,
    )
}

/// The state after the session on `channel` sent a message to the chat
/// `chat_id`: the chat holds it with its status asked to become `Sent`, and
/// it waits in the queue unless the counterparty is online. Nothing changes
/// where the chat does not exist.
pub open spec fn after_client_send(
    s: StateView,
    channel: u32,
    chat_id: Seq<char>,
    content: Seq<char>,
    reply_to: Option<Seq<char>>,
    our: Seq<char>,
    now: u64,
    nonce: u32,
) -> StateView {
    let m = client_message(s, channel, our, content, reply_to, now, nonce);
    match chat_position(s.chats, chat_id) {
        Some(ci) => StateView {
            chats: s.chats.update(ci, marked(with_message(s.chats[ci], m, now), m.id, MessageStatus::Sent)),
            delivery_queue: if name_position(s.online_nodes, s.chats[ci].counterparty) is Some {
                s.delivery_queue
            } else {
                enqueued(s.delivery_queue, s.chats[ci].counterparty, m)
            },
            ..s
        },
        None => s,
    }
}

/// What a message sent by the session on `channel` makes the node do: hand
/// it to the counterparty's own session where the counterparty is online,
/// show the chat to the sending session, and confirm the message id.
pub open spec fn client_send_effects(
    s: StateView,
    channel: u32,
    chat_id: Seq<char>,
    content: Seq<char>,
    reply_to: Option<Seq<char>>,
    our: Seq<char>,
    now: u64,
    nonce: u32,
) -> Seq<EffectView> {
    let m = client_message(s, channel, our, content, reply_to, now, nonce);
    let confirmed = EffectView::Push {
        channel_id: channel,
        frame: ServerMessageView::MessageAck { message_id: m.id },
    };
    match chat_position(s.chats, chat_id) {
        Some(ci) => {
            let handed = if name_position(s.online_nodes, s.chats[ci].counterparty) is Some {
                match node_position(s.ws_connections, s.chats[ci].counterparty) {
                    Some(j) => seq![
                        EffectView::Push {
                            channel_id: s.ws_connections[j].channel_id,
                            frame: ServerMessageView::NewMessage(m),
                        },
                    ],
                    None => Seq::empty(),
                }
            } else {
                Seq::empty()
            };
            handed.push(
                EffectView::Push {
                    channel_id: channel,
                    frame: ServerMessageView::ChatUpdate(
                        marked(with_message(s.chats[ci], m, now), m.id, MessageStatus::Sent),
                    ),
                },
            ).push(confirmed)
        },
        None => seq![confirmed],
    }
}

/// Which chats hold a message with the id `id`.
pub open spec fn holder_flags(chats: Seq<ChatView>, id: Seq<char>) -> Seq<bool> {
    Seq::new(chats.len(), |i: int| message_position(chats[i].messages, id) is Some)
}

/// The first chat that holds a message with the id `id`.
pub open spec fn holder(chats: Seq<ChatView>, id: Seq<char>) -> Option<int> {
    first_true(holder_flags(chats, id))
}

/// The chats after a session confirmed the message `id`: its status was
/// asked to become `Delivered`.
pub open spec fn confirmed(chats: Seq<ChatView>, id: Seq<char>) -> Seq<ChatView> {
    match holder(chats, id) {
        Some(ci) => chats.update(
            ci,
            with_status_at(
                chats[ci],
                message_position(chats[ci].messages, id).unwrap(),
                MessageStatus::Delivered,
            ),
        ),
        None => chats,
    }
}

/// The chats after the chat `chat_id` was read: nothing in it is unread.
pub open spec fn read(chats: Seq<ChatView>, chat_id: Seq<char>) -> Seq<ChatView> {
    match chat_position(chats, chat_id) {
        Some(ci) => chats.update(ci, ChatView { unread_count: 0, ..chats[ci] }),
        None => chats,
    }
}

/// The active channels after `channel` declared `status`: `active` adds it,
/// `inactive` removes it, anything else leaves them as they are.
pub open spec fn presence(active: Set<u32>, channel: u32, status: Seq<char>) -> Set<u32> {
    if status == "active"@ {
        active.insert(channel)
    } else if status == "inactive"@ {
        active.remove(channel)
    } else {
        active
    }
}

/// What a declared status makes the node do: tell every node session, if
/// the channel is one itself.
pub open spec fn presence_effects(s: StateView, channel: u32, status: Seq<char>) -> Seq<EffectView> {
    match connection_position(s.ws_connections, channel) {
        Some(i) => broadcast(
            channel_ids(s.ws_connections),
            ServerMessageView::StatusUpdate { node: s.ws_connections[i].node, status },
        ),
        None => Seq::empty(),
    }
}

/// The state after the node session on `channel` sent `msg`.
pub open spec fn after_client_message(
    s: StateView,
    channel: u32,
    msg: ClientMessageView,
    our: Seq<char>,
    now: u64,
    nonce: u32,
) -> StateView {
    match msg {
        ClientMessageView::SendMessage { chat_id, content, reply_to } => after_client_send(
            s,
            channel,
            chat_id,
            content,
            reply_to,
            our,
            now,
            nonce,
        ),
        ClientMessageView::Ack { message_id } => StateView { chats: confirmed(s.chats, message_id), ..s },
        ClientMessageView::MarkRead { chat_id } => StateView { chats: read(s.chats, chat_id), ..s },
        ClientMessageView::UpdateStatus { status } => StateView {
            active_connections: presence(s.active_connections, channel, status),
            ..s
        },
        _ => s,
    }
}

/// What a message of the node session on `channel` makes the node do.
pub open spec fn client_message_effects(
    s: StateView,
    channel: u32,
    msg: ClientMessageView,
    our: Seq<char>,
    now: u64,
    nonce: u32,
) -> Seq<EffectView> {
    match msg {
        ClientMessageView::SendMessage { chat_id, content, reply_to } => client_send_effects(
            s,
            channel,
            chat_id,
            content,
            reply_to,
            our,
            now,
            nonce,
        ),
        ClientMessageView::UpdateStatus { status } => presence_effects(s, channel, status),
        ClientMessageView::Heartbeat => seq![
            EffectView::Push { channel_id: channel, frame: ServerMessageView::Heartbeat },
        ],
        _ => Seq::empty(),
    }
}

impl ChatState {
    /// The session on `channel_id` sends a message to the chat `chat_id`.
    pub fn send_from_session(
        &mut self,
        channel_id: u32,
        chat_id: &str,
        content: String,
        reply_to: Option<String>,
        our_node: &str,
        now: u64,
        nonce: u32,
    ) -> (effects: Vec<Effect>)
        ensures
            final(self)@ == after_client_send(
                old(self)@,
                channel_id,
                chat_id@,
                content@,
                opt_view(reply_to),
                our_node@,
                now,
                nonce,
            ),
            views(effects@) == client_send_effects(
                old(self)@,
                channel_id,
                chat_id@,
                content@,
                opt_view(reply_to),
                our_node@,
                now,
                nonce,
            ),
            state_wf(old(self)@) ==> state_wf(final(self)@),
    {
        broadcast use group_views;

        let message_id = make_message_id(now, nonce);
        let sender = match find_connection(&self.ws_connections, channel_id) {
            Some(i) => self.ws_connections[i].node.clone(),
            None => String::from_str(our_node),
        };
        let message = ChatMessage {
            id: message_id.clone(),
            sender,
            content,
            timestamp: now,
            status: MessageStatus::Sending,
            reply_to,
            reactions: Vec::new(),
            message_type: MessageType::Text,
            file_info: None,
        };
        let ghost m = client_message(
            old(self)@,
            channel_id,
            our_node@,
            content@,
            opt_view(reply_to),
            now,
            nonce,
        );
        assert(message@ == m);
        let mut effects: Vec<Effect> = Vec::new();
        match find_chat(&self.chats, chat_id) {
            Some(ci) => {
                let ghost sent = marked(with_message(old(self)@.chats[ci as int], m, now), m.id, MessageStatus::Sent);
                proof {
                    if state_wf(self@) {
                        lemma_update_same_id_wf(self@.chats, ci as int, sent);
                    }
                }
                self.chats[ci].push_message(message.clone(), now);
                let counterparty = self.chats[ci].counterparty.clone();
                if find_name(&self.online_nodes, counterparty.as_str()).is_some() {
                    match find_node(&self.ws_connections, counterparty.as_str()) {
                        Some(j) => {
                            effects.push(
                                Effect::Push {
                                    channel_id: self.ws_connections[j].channel_id,
                                    frame: WsServerMessage::NewMessage(message),
                                },
                            );
                        },
                        None => {},
                    }
                } else {
                    self.delivery_queue.enqueue(counterparty.as_str(), message);
                }
                self.chats[ci].request_status(message_id.as_str(), MessageStatus::Sent);
                assert(self@.chats =~= old(self)@.chats.update(ci as int, sent));
                effects.push(
                    Effect::Push { channel_id, frame: WsServerMessage::ChatUpdate(self.chats[ci].clone()) },
                );
            },
            None => {},
        }
        effects.push(Effect::Push { channel_id, frame: WsServerMessage::MessageAck { message_id } });
        assert(views(effects@) =~= client_send_effects(
            old(self)@,
            channel_id,
            chat_id@,
            content@,
            opt_view(reply_to),
            our_node@,
            now,
            nonce,
        ));
        effects
    }

    /// A session confirms the message `message_id`: the first message with
    /// that id, in whichever chat it is, has its status asked to become
    /// `Delivered`.
    pub fn confirm_from_session(&mut self, message_id: &str)
        ensures
            final(self)@ == (StateView { chats: confirmed(old(self)@.chats, message_id@), ..old(self)@ }),
            state_wf(old(self)@) ==> state_wf(final(self)@),
    {
        broadcast use group_views;

        let ghost flags = holder_flags(self@.chats, message_id@);
        let mut ci: usize = 0;
        while ci < self.chats.len()
            invariant
                ci <= self.chats.len(),
                *self == *old(self),
                flags == holder_flags(self@.chats, message_id@),
                forall|j: int| 0 <= j < ci ==> !#[trigger] flags[j],
            decreases self.chats.len() - ci,
        {
            match find_message(&self.chats[ci].messages, message_id) {
                Some(mi) => {
                    proof {
                        assert(flags[ci as int]);
                        lemma_first_true_at(flags, ci as int);
                        if state_wf(self@) {
                            lemma_update_same_id_wf(
                                self@.chats,
                                ci as int,
                                with_status_at(self@.chats[ci as int], mi as int, MessageStatus::Delivered),
                            );
                        }
                    }
                    self.chats[ci].request_status_at(mi, MessageStatus::Delivered);
                    assert(self@.chats =~= old(self)@.chats.update(
                        ci as int,
                        with_status_at(old(self)@.chats[ci as int], mi as int, MessageStatus::Delivered),
                    ));
                    return ;
                },
                None => {
                    assert(!flags[ci as int]);
                },
            }
            ci += 1;
        }
        proof {
            lemma_first_true_none(flags);
        }
    }

    /// Marks the chat `chat_id` as read.
    pub fn mark_read(&mut self, chat_id: &str)
        ensures
            final(self)@ == (StateView { chats: read(old(self)@.chats, chat_id@), ..old(self)@ }),
            state_wf(old(self)@) ==> state_wf(final(self)@),
    {
        broadcast use group_views;

        match find_chat(&self.chats, chat_id) {
            Some(ci) => {
                proof {
                    if state_wf(self@) {
                        lemma_update_same_id_wf(
                            self@.chats,
                            ci as int,
                            ChatView { unread_count: 0, ..self@.chats[ci as int] },
                        );
                    }
                }
                self.chats[ci].unread_count = 0;
                assert(self@.chats =~= read(old(self)@.chats, chat_id@));
            },
            None => {},
        }
    }

    /// The session on `channel_id` declares whether its user is looking at
    /// the chat. Every node session is told, if the channel is one itself.
    pub fn update_presence(&mut self, channel_id: u32, status: String) -> (effects: Vec<Effect>)
        ensures
            final(self)@ == (StateView {
                active_connections: presence(old(self)@.active_connections, channel_id, status@),
                ..old(self)@
            }),
            views(effects@) == presence_effects(old(self)@, channel_id, status@),
            state_wf(old(self)@) ==> state_wf(final(self)@),
    {
        broadcast use {group_views, vstd::std_specs::hash::group_hash_axioms};

        if status.as_str().eq("active") {
            self.active_connections.insert(channel_id);
        } else if status.as_str().eq("inactive") {
            self.active_connections.remove(&channel_id);
        }
        match find_connection(&self.ws_connections, channel_id) {
            Some(i) => {
                let update = WsServerMessage::StatusUpdate { node: self.ws_connections[i].node.clone(), status };
                self.broadcast_to_all(&update)
            },
            None => Vec::new(),
        }
    }

    /// Handles what a node session sends: a message to send, a confirmation,
    /// a chat that was read, a declared status, or a heartbeat, which is
    /// answered in kind. What only guests send is ignored.
    pub fn handle_client_message(
        &mut self,
        channel_id: u32,
        msg: WsClientMessage,
        our_node: &str,
        now: u64,
        nonce: u32,
    ) -> (effects: Vec<Effect>)
        ensures
            final(self)@ == after_client_message(old(self)@, channel_id, msg@, our_node@, now, nonce),
            views(effects@) == client_message_effects(old(self)@, channel_id, msg@, our_node@, now, nonce),
            state_wf(old(self)@) ==> state_wf(final(self)@),
    {
        broadcast use group_views;

        match msg {
            WsClientMessage::SendMessage { chat_id, content, reply_to } => self.send_from_session(
                channel_id,
                chat_id.as_str(),
                content,
                reply_to,
                our_node,
                now,
                nonce,
            ),
            WsClientMessage::Ack { message_id } => {
                self.confirm_from_session(message_id.as_str());
                Vec::new()
            },
            WsClientMessage::MarkRead { chat_id } => {
                self.mark_read(chat_id.as_str());
                Vec::new()
            },
            WsClientMessage::UpdateStatus { status } => self.update_presence(channel_id, status),
            WsClientMessage::Heartbeat => {
                let mut effects: Vec<Effect> = Vec::new();
                effects.push(Effect::Push { channel_id, frame: WsServerMessage::Heartbeat });
                assert(views(effects@) =~= seq![
                    EffectView::Push { channel_id, frame: ServerMessageView::Heartbeat },
                ]);
                effects
            },
            _ => Vec::new(),
        }
    }
}

} // verus!

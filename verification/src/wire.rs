use crate::model::{
    clone_messages, clone_opt_string, opt_view, views, Chat, ChatMessage, ChatView, MessageView,
    ProfileView, UserProfile,
};
use vstd::prelude::*;

verus! {

/// What a client may send over a WebSocket connection.
#[derive(Debug, PartialEq)]
pub enum WsClientMessage {
    SendMessage { chat_id: String, content: String, reply_to: Option<String> },
    Ack { message_id: String },
    MarkRead { chat_id: String },
    UpdateStatus { status: String },
    AuthWithKey { chat_key: String },
    BrowserMessage { content: String },
    Heartbeat,
}

pub enum ClientMessageView {
    SendMessage { chat_id: Seq<char>, content: Seq<char>, reply_to: Option<Seq<char>> },
    Ack { message_id: Seq<char> },
    MarkRead { chat_id: Seq<char> },
    UpdateStatus { status: Seq<char> },
    AuthWithKey { chat_key: Seq<char> },
    BrowserMessage { content: Seq<char> },
    Heartbeat,
}

impl View for WsClientMessage {
    type V = ClientMessageView;

    open spec fn view(&self) -> ClientMessageView {
        match *self {
            WsClientMessage::SendMessage { chat_id, content, reply_to } => {
                ClientMessageView::SendMessage {
                    chat_id: chat_id@,
                    content: content@,
                    reply_to: opt_view(reply_to),
                }
            },
            WsClientMessage::Ack { message_id } => ClientMessageView::Ack {
                message_id: message_id@,
            },
            WsClientMessage::MarkRead { chat_id } => ClientMessageView::MarkRead {
                chat_id: chat_id@,
            },
            WsClientMessage::UpdateStatus { status } => ClientMessageView::UpdateStatus {
                status: status@,
            },
            WsClientMessage::AuthWithKey { chat_key } => ClientMessageView::AuthWithKey {
                chat_key: chat_key@,
            },
            WsClientMessage::BrowserMessage { content } => ClientMessageView::BrowserMessage {
                content: content@,
            },
            WsClientMessage::Heartbeat => ClientMessageView::Heartbeat,
        }
    }
}

impl Clone for WsClientMessage {
    fn clone(&self) -> (r: Self)
        ensures
            r@ == self@,
    {
        match self {
            WsClientMessage::SendMessage { chat_id, content, reply_to } => {
                WsClientMessage::SendMessage {
                    chat_id: chat_id.clone(),
                    content: content.clone(),
                    reply_to: clone_opt_string(reply_to),
                }
            },
            WsClientMessage::Ack { message_id } => WsClientMessage::Ack {
                message_id: message_id.clone(),
            },
            WsClientMessage::MarkRead { chat_id } => WsClientMessage::MarkRead {
                chat_id: chat_id.clone(),
            },
            WsClientMessage::UpdateStatus { status } => WsClientMessage::UpdateStatus {
                status: status.clone(),
            },
            WsClientMessage::AuthWithKey { chat_key } => WsClientMessage::AuthWithKey {
                chat_key: chat_key.clone(),
            },
            WsClientMessage::BrowserMessage { content } => WsClientMessage::BrowserMessage {
                content: content.clone(),
            },
            WsClientMessage::Heartbeat => WsClientMessage::Heartbeat,
        }
    }
}

/// What the server may send over a WebSocket connection.
#[derive(Debug, PartialEq)]
pub enum WsServerMessage {
    NewMessage(ChatMessage),
    MessageAck { message_id: String },
    StatusUpdate { node: String, status: String },
    ChatUpdate(Chat),
    ProfileUpdate { node: String, profile: UserProfile },
    AuthSuccess { chat_id: String, history: Vec<ChatMessage> },
    AuthFailed { reason: String },
    Heartbeat,
    Error { message: String },
}

pub enum ServerMessageView {
    NewMessage(MessageView),
    MessageAck { message_id: Seq<char> },
    StatusUpdate { node: Seq<char>, status: Seq<char> },
    ChatUpdate(ChatView),
    ProfileUpdate { node: Seq<char>, profile: ProfileView },
    AuthSuccess { chat_id: Seq<char>, history: Seq<MessageView> },
    AuthFailed { reason: Seq<char> },
    Heartbeat,
    Error { message: Seq<char> },
}

impl View for WsServerMessage {
    type V = ServerMessageView;

    open spec fn view(&self) -> ServerMessageView {
        match *self {
            WsServerMessage::NewMessage(m) => ServerMessageView::NewMessage(m@),
            WsServerMessage::MessageAck { message_id } => ServerMessageView::MessageAck {
                message_id: message_id@,
            },
            WsServerMessage::StatusUpdate { node, status } => ServerMessageView::StatusUpdate {
                node: node@,
                status: status@,
            },
            WsServerMessage::ChatUpdate(c) => ServerMessageView::ChatUpdate(c@),
            WsServerMessage::ProfileUpdate { node, profile } => ServerMessageView::ProfileUpdate {
                node: node@,
                profile: profile@,
            },
            WsServerMessage::AuthSuccess { chat_id, history } => ServerMessageView::AuthSuccess {
                chat_id: chat_id@,
                history: views(history@),
            },
            WsServerMessage::AuthFailed { reason } => ServerMessageView::AuthFailed {
                reason: reason@,
            },
            WsServerMessage::Heartbeat => ServerMessageView::Heartbeat,
            WsServerMessage::Error { message } => ServerMessageView::Error { message: message@ },
        }
    }
}

impl Clone for WsServerMessage {
    fn clone(&self) -> (r: Self)
        ensures
            r@ == self@,
    {
        match self {
            WsServerMessage::NewMessage(m) => WsServerMessage::NewMessage(m.clone()),
            WsServerMessage::MessageAck { message_id } => WsServerMessage::MessageAck {
                message_id: message_id.clone(),
            },
            WsServerMessage::StatusUpdate { node, status } => WsServerMessage::StatusUpdate {
                node: node.clone(),
                status: status.clone(),
            },
            WsServerMessage::ChatUpdate(c) => WsServerMessage::ChatUpdate(c.clone()),
            WsServerMessage::ProfileUpdate { node, profile } => WsServerMessage::ProfileUpdate {
                node: node.clone(),
                profile: profile.clone(),
            },
            WsServerMessage::AuthSuccess { chat_id, history } => WsServerMessage::AuthSuccess {
                chat_id: chat_id.clone(),
                history: clone_messages(history),
            },
            WsServerMessage::AuthFailed { reason } => WsServerMessage::AuthFailed {
                reason: reason.clone(),
            },
            WsServerMessage::Heartbeat => WsServerMessage::Heartbeat,
            WsServerMessage::Error { message } => WsServerMessage::Error {
                message: message.clone(),
            },
        }
    }
}

/// Something the node must do towards the outside after a state change. The
/// handlers decide; the caller performs the effects in the order given.
#[derive(Debug, PartialEq)]
pub enum Effect {
    /// Send `frame` to the WebSocket channel `channel_id`.
    Push { channel_id: u32, frame: WsServerMessage },
    /// Tell `target` that a chat with `our_node` now exists.
    AnnounceChat { target: String, our_node: String },
    /// Deliver `message` to `target` and report the outcome back.
    Deliver { target: String, message: ChatMessage },
    /// Deliver `messages`, which wait in the queue for `target`, one after
    /// the other. Report each outcome to the queue and stop at the first
    /// failure: what was not delivered stays queued.
    Flush { target: String, messages: Vec<ChatMessage> },
    /// Confirm to `target` that its message `message_id` arrived.
    Acknowledge { target: String, message_id: String },
    /// Tell `target` that `user` reacted to `message_id` with `emoji`.
    React { target: String, message_id: String, emoji: String, user: String },
    /// Ask `target` to delete `message_id` from `chat_id`.
    Delete { target: String, message_id: String, chat_id: String },
    /// Raise a push notification for a message that nobody is looking at.
    Notify { sender: String, content: String, chat_id: String },
}

pub enum EffectView {
    Push { channel_id: u32, frame: ServerMessageView },
    AnnounceChat { target: Seq<char>, our_node: Seq<char> },
    Deliver { target: Seq<char>, message: MessageView },
    Flush { target: Seq<char>, messages: Seq<MessageView> },
    Acknowledge { target: Seq<char>, message_id: Seq<char> },
    React { target: Seq<char>, message_id: Seq<char>, emoji: Seq<char>, user: Seq<char> },
    Delete { target: Seq<char>, message_id: Seq<char>, chat_id: Seq<char> },
    Notify { sender: Seq<char>, content: Seq<char>, chat_id: Seq<char> },
}

impl View for Effect {
    type V = EffectView;

    open spec fn view(&self) -> EffectView {
        match *self {
            Effect::Push { channel_id, frame } => EffectView::Push { channel_id, frame: frame@ },
            Effect::AnnounceChat { target, our_node } => EffectView::AnnounceChat {
                target: target@,
                our_node: our_node@,
            },
            Effect::Deliver { target, message } => EffectView::Deliver {
                target: target@,
                message: message@,
            },
            Effect::Flush { target, messages } => EffectView::Flush {
                target: target@,
                messages: views(messages@),
            },
            Effect::Acknowledge { target, message_id } => EffectView::Acknowledge {
                target: target@,
                message_id: message_id@,
            },
            Effect::React { target, message_id, emoji, user } => EffectView::React {
                target: target@,
                message_id: message_id@,
                emoji: emoji@,
                user: user@,
            },
            Effect::Delete { target, message_id, chat_id } => EffectView::Delete {
                target: target@,
                message_id: message_id@,
                chat_id: chat_id@,
            },
            Effect::Notify { sender, content, chat_id } => EffectView::Notify {
                sender: sender@,
                content: content@,
                chat_id: chat_id@,
            },
        }
    }
}

/// A node session: a WebSocket channel and the identity it is bound to.
#[derive(Debug, PartialEq)]
pub struct WsConnection {
    pub channel_id: u32,
    pub node: String,
}

pub struct WsConnectionView {
    pub channel_id: u32,
    pub node: Seq<char>,
}

impl View for WsConnection {
    type V = WsConnectionView;

    open spec fn view(&self) -> WsConnectionView {
        WsConnectionView { channel_id: self.channel_id, node: self.node@ }
    }
}

impl Clone for WsConnection {
    fn clone(&self) -> (r: Self)
        ensures
            r@ == self@,
    {
        WsConnection { channel_id: self.channel_id, node: self.node.clone() }
    }
}

/// A guest session: a chat key and the WebSocket channel bound to it.
#[derive(Debug, PartialEq)]
pub struct BrowserConnection {
    pub chat_key: String,
    pub channel_id: u32,
}

pub struct BrowserConnectionView {
    pub chat_key: Seq<char>,
    pub channel_id: u32,
}

impl View for BrowserConnection {
    type V = BrowserConnectionView;

    open spec fn view(&self) -> BrowserConnectionView {
        BrowserConnectionView { chat_key: self.chat_key@, channel_id: self.channel_id }
    }
}

impl Clone for BrowserConnection {
    fn clone(&self) -> (r: Self)
        ensures
            r@ == self@,
    {
        BrowserConnection { chat_key: self.chat_key.clone(), channel_id: self.channel_id }
    }
}

impl Clone for Effect {
    fn clone(&self) -> (r: Self)
        ensures
            r@ == self@,
    {
        match self {
            Effect::Push { channel_id, frame } => Effect::Push {
                channel_id: *channel_id,
                frame: frame.clone(),
            },
            Effect::AnnounceChat { target, our_node } => Effect::AnnounceChat {
                target: target.clone(),
                our_node: our_node.clone(),
            },
            Effect::Deliver { target, message } => Effect::Deliver {
                target: target.clone(),
                message: message.clone(),
            },
            Effect::Flush { target, messages } => Effect::Flush {
                target: target.clone(),
                messages: clone_messages(messages),
            },
            Effect::Acknowledge { target, message_id } => Effect::Acknowledge {
                target: target.clone(),
                message_id: message_id.clone(),
            },
            Effect::React { target, message_id, emoji, user } => Effect::React {
                target: target.clone(),
                message_id: message_id.clone(),
                emoji: emoji.clone(),
                user: user.clone(),
            },
            Effect::Delete { target, message_id, chat_id } => Effect::Delete {
                target: target.clone(),
                message_id: message_id.clone(),
                chat_id: chat_id.clone(),
            },
            Effect::Notify { sender, content, chat_id } => Effect::Notify {
                sender: sender.clone(),
                content: content.clone(),
                chat_id: chat_id.clone(),
            },
        }
    }
}

/// The channel ids of a list of node sessions, in order.
pub open spec fn channel_ids(conns: Seq<WsConnectionView>) -> Seq<u32> {
    Seq::new(conns.len(), |i: int| conns[i].channel_id)
}

/// One push of `message` to each of `channels`, in order.
pub open spec fn broadcast(channels: Seq<u32>, message: ServerMessageView) -> Seq<EffectView> {
    Seq::new(channels.len(), |i: int| EffectView::Push { channel_id: channels[i], frame: message })
}

/// Appends one push of `message` for every node session.
pub fn push_broadcast(
    effects: &mut Vec<Effect>,
    connections: &Vec<WsConnection>,
    message: &WsServerMessage,
)
    ensures
        views(final(effects)@) == views(old(effects)@) + broadcast(
            channel_ids(views(connections@)),
            message@,
        ),
{
    broadcast use crate::model::group_views;

    let ghost all = broadcast(channel_ids(views(connections@)), message@);
    let mut i: usize = 0;
    assert(views(effects@) + all.subrange(0, 0) =~= views(effects@));
    while i < connections.len()
        invariant
            i <= connections.len(),
            all == broadcast(channel_ids(views(connections@)), message@),
            views(effects@) == views(old(effects)@) + all.subrange(0, i as int),
        decreases connections.len() - i,
    {
        effects.push(Effect::Push { channel_id: connections[i].channel_id, frame: message.clone() });
        i += 1;
        assert(views(old(effects)@) + all.subrange(0, i as int) =~= (views(old(effects)@)
            + all.subrange(0, i - 1)).push(all[i - 1]));
    }
    assert(all.subrange(0, i as int) =~= all);
}

} // verus!

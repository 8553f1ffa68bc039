use crate::client::{
    after_client_message, client_message_effects, find_name, lemma_remove_distinct, name_flags,
    name_position, without_name,
};
use crate::lookup::lemma_first_true;
use crate::model::{group_views, views, ChatView};
use crate::session::{
    after_browser_message, browser_message_effects, connection_flags, connection_position,
    find_connection, guest_position,
};
use crate::state::{browser_wf, connections_wf, state_wf, ChatState, StateView};
use crate::text::concat2;
use crate::wire::{
    broadcast, channel_ids, BrowserConnection, BrowserConnectionView, ClientMessageView, Effect,
    EffectView, ServerMessageView, WsClientMessage, WsConnection, WsConnectionView,
    WsServerMessage,
};
use vstd::prelude::*;

verus! {

/// What the transport reports for one WebSocket channel.
#[derive(Debug, PartialEq)]
pub enum WsEvent {
    /// The channel was closed.
    Close,
    /// A text frame that holds a client message.
    Message(WsClientMessage),
    /// A text frame that holds no client message, because it is no text or
    /// because its text is no message; `reason` says which and why.
    Malformed { reason: String },
    /// A binary frame.
    Binary,
    Ping,
    Pong,
}

pub enum WsEventView {
    Close,
    Message(ClientMessageView),
    Malformed { reason: Seq<char> },
    Binary,
    Ping,
    Pong,
}

impl View for WsEvent {
    type V = WsEventView;

    open spec fn view(&self) -> WsEventView {
        match *self {
            WsEvent::Close => WsEventView::Close,
            WsEvent::Message(m) => WsEventView::Message(m@),
            WsEvent::Malformed { reason } => WsEventView::Malformed { reason: reason@ },
            WsEvent::Binary => WsEventView::Binary,
            WsEvent::Ping => WsEventView::Ping,
            WsEvent::Pong => WsEventView::Pong,
        }
    }
}

/// The guest sessions that do not run on `channel`, order kept.
pub open spec fn unbound(conns: Seq<BrowserConnectionView>, channel: u32) -> Seq<BrowserConnectionView>
    decreases conns.len(),
{
    if conns.len() == 0 {
        Seq::empty()
    } else if conns.last().channel_id == channel {
        unbound(conns.drop_last(), channel)
    } else {
        unbound(conns.drop_last(), channel).push(conns.last())
    }
}

/// The state after `channel` was closed: it is no node session, no guest
/// session and not active any more, and the identity of its node session is
/// not online any more.
pub open spec fn after_close(s: StateView, channel: u32) -> StateView {
    let closed = StateView {
        browser_connections: unbound(s.browser_connections, channel),
        active_connections: s.active_connections.remove(channel),
        ..s
    };
    match connection_position(s.ws_connections, channel) {
        Some(i) => StateView {
            ws_connections: s.ws_connections.remove(i),
            online_nodes: without_name(s.online_nodes, s.ws_connections[i].node),
            ..closed
        },
        None => closed,
    }
}

/// What closing `channel` makes the node do: where it was a node session,
/// tell every other node session that its identity went offline.
pub open spec fn close_effects(s: StateView, channel: u32) -> Seq<EffectView> {
    match connection_position(s.ws_connections, channel) {
        Some(i) => broadcast(
            channel_ids(s.ws_connections.remove(i)),
            ServerMessageView::StatusUpdate { node: s.ws_connections[i].node, status: "offline"@ },
        ),
        None => Seq::empty(),
    }
}

/// Whether a message on `channel` belongs to a guest session: it asks for
/// authentication with a chat key, or the channel is a guest session already.
pub open spec fn is_guest_traffic(s: StateView, channel: u32, msg: ClientMessageView) -> bool {
    msg is AuthWithKey || guest_position(s.browser_connections, channel) is Some
}

/// The state with `channel` as a node session, bound to the node's own
/// identity where it was none before.
pub open spec fn classified(s: StateView, channel: u32, our: Seq<char>) -> StateView {
    if connection_position(s.ws_connections, channel) is Some {
        s
    } else {
        StateView {
            ws_connections: s.ws_connections.push(WsConnectionView { channel_id: channel, node: our }),
            ..s
        }
    }
}

/// One push of every chat to `channel`, in the order of the store.
pub open spec fn snapshot(chats: Seq<ChatView>, channel: u32) -> Seq<EffectView> {
    Seq::new(
        chats.len(),
        |i: int| EffectView::Push { channel_id: channel, frame: ServerMessageView::ChatUpdate(chats[i]) },
    )
}

/// What a new node session on `channel` is sent first: every chat, if the
/// channel was no node session before, and nothing otherwise.
pub open spec fn welcome(s: StateView, channel: u32) -> Seq<EffectView> {
    if connection_position(s.ws_connections, channel) is Some {
        Seq::empty()
    } else {
        snapshot(s.chats, channel)
    }
}

/// The answer to a frame that holds no client message.
pub open spec fn malformed_reply(channel: u32, reason: Seq<char>) -> EffectView {
    EffectView::Push {
        channel_id: channel,
        frame: ServerMessageView::Error { message: "Invalid message format: "@ + reason },
    }
}

/// The state after the transport reported `event` for `channel`.
pub open spec fn after_event(s: StateView, channel: u32, event: WsEventView, our: Seq<char>, now: u64, nonce: u32) -> StateView {
    match event {
        WsEventView::Close => after_close(s, channel),
        WsEventView::Message(msg) => if is_guest_traffic(s, channel, msg) {
            after_browser_message(s, channel, msg, now, nonce)
        } else {
            after_client_message(classified(s, channel, our), channel, msg, our, now, nonce)
        },
        _ => s,
    }
}

/// What `event` on `channel` makes the node do.
pub open spec fn event_effects(s: StateView, channel: u32, event: WsEventView, our: Seq<char>, now: u64, nonce: u32) -> Seq<
    EffectView,
> {
    match event {
        WsEventView::Close => close_effects(s, channel),
        WsEventView::Message(msg) => if is_guest_traffic(s, channel, msg) {
            browser_message_effects(s, channel, msg, now, nonce)
        } else {
            welcome(s, channel) + client_message_effects(
                classified(s, channel, our),
                channel,
                msg,
                our,
                now,
                nonce,
            )
        },
        WsEventView::Malformed { reason } => seq![malformed_reply(channel, reason)],
        _ => Seq::empty(),
    }
}

/// The guest sessions of `conns` that do not run on `channel`.
pub fn retain_other_channels(conns: &Vec<BrowserConnection>, channel: u32) -> (rest: Vec<BrowserConnection>)
    ensures
        views(rest@) == unbound(views(conns@), channel),
{
    broadcast use group_views;

    let mut rest: Vec<BrowserConnection> = Vec::new();
    let mut i: usize = 0;
    assert(views(conns@).subrange(0, 0) =~= Seq::<BrowserConnectionView>::empty());
    while i < conns.len()
        invariant
            i <= conns.len(),
            views(rest@) == unbound(views(conns@).subrange(0, i as int), channel),
        decreases conns.len() - i,
    {
        assert(views(conns@).subrange(0, i + 1).drop_last() =~= views(conns@).subrange(0, i as int));
        if conns[i].channel_id != channel {
            rest.push(conns[i].clone());
        }
        i += 1;
    }
    assert(views(conns@).subrange(0, i as int) =~= views(conns@));
    rest
}

/// What is left of the guest sessions after a channel closed is part of
/// what was there, and its keys are still distinct.
pub proof fn lemma_unbound_wf(conns: Seq<BrowserConnectionView>, channel: u32)
    requires
        browser_wf(conns),
    ensures
        browser_wf(unbound(conns, channel)),
        forall|i: int|
            0 <= i < unbound(conns, channel).len() ==> conns.contains(#[trigger] unbound(conns, channel)[i])
                && unbound(conns, channel)[i].channel_id != channel,
    decreases conns.len(),
{
    if conns.len() > 0 {
        let front = conns.drop_last();
        let last = conns.last();
        assert(browser_wf(front)) by {
            assert forall|a: int, b: int| 0 <= a < b < front.len() implies (#[trigger] front[a]).chat_key
                != (#[trigger] front[b]).chat_key by {
                assert(front[a] == conns[a]);
                assert(front[b] == conns[b]);
            }
        }
        lemma_unbound_wf(front, channel);
        let rf = unbound(front, channel);
        let r = unbound(conns, channel);
        assert forall|i: int| 0 <= i < r.len() implies conns.contains(#[trigger] r[i]) && r[i].channel_id
            != channel by {
            if i < rf.len() {
                assert(r[i] == rf[i]);
                let k = choose|k: int| 0 <= k < front.len() && front[k] == rf[i];
                assert(conns[k] == r[i]);
            } else {
                assert(conns[conns.len() - 1] == r[i]);
            }
        }
        assert forall|a: int, b: int| 0 <= a < b < r.len() implies (#[trigger] r[a]).chat_key != (
        #[trigger] r[b]).chat_key by {
            assert(r[a] == rf[a]);
            if b < rf.len() {
                assert(r[b] == rf[b]);
            } else {
                let k = choose|k: int| 0 <= k < front.len() && front[k] == rf[a];
                assert(conns[k] == r[a]);
                assert(conns[conns.len() - 1] == r[b]);
            }
        }
    }
}

/// Taking a node session out keeps the channels distinct.
pub proof fn lemma_remove_connection_wf(conns: Seq<WsConnectionView>, i: int)
    requires
        connections_wf(conns),
        0 <= i < conns.len(),
    ensures
        connections_wf(conns.remove(i)),
{
    let r = conns.remove(i);
    assert forall|a: int, b: int| 0 <= a < b < r.len() implies (#[trigger] r[a]).channel_id != (
    #[trigger] r[b]).channel_id by {
        let a0 = if a < i {
            a
        } else {
            a + 1
        };
        let b0 = if b < i {
            b
        } else {
            b + 1
        };
        assert(r[a] == conns[a0]);
        assert(r[b] == conns[b0]);
    }
}

/// Closing a channel keeps the state well formed.
pub proof fn lemma_after_close_wf(s: StateView, channel: u32)
    requires
        state_wf(s),
    ensures
        state_wf(after_close(s, channel)),
{
    lemma_unbound_wf(s.browser_connections, channel);
    lemma_first_true(connection_flags(s.ws_connections, channel));
    match connection_position(s.ws_connections, channel) {
        Some(i) => {
            lemma_remove_connection_wf(s.ws_connections, i);
            let node = s.ws_connections[i].node;
            lemma_first_true(name_flags(s.online_nodes, node));
            if name_position(s.online_nodes, node) is Some {
                lemma_remove_distinct(s.online_nodes, name_position(s.online_nodes, node).unwrap());
            }
        },
        None => {},
    }
}

/// A channel that becomes a node session keeps the state well formed.
pub proof fn lemma_classified_wf(s: StateView, channel: u32, our: Seq<char>)
    requires
        state_wf(s),
    ensures
        state_wf(classified(s, channel, our)),
{
    lemma_first_true(connection_flags(s.ws_connections, channel));
    let r = classified(s, channel, our).ws_connections;
    if connection_position(s.ws_connections, channel) is None {
        assert forall|a: int, b: int| 0 <= a < b < r.len() implies (#[trigger] r[a]).channel_id != (
        #[trigger] r[b]).channel_id by {
            assert(r[a] == s.ws_connections[a]);
            assert(!connection_flags(s.ws_connections, channel)[a]);
            if b < s.ws_connections.len() {
                assert(r[b] == s.ws_connections[b]);
            }
        }
    }
}

impl ChatState {
    /// The transport closed `channel_id`.
    pub fn close_channel(&mut self, channel_id: u32) -> (effects: Vec<Effect>)
        ensures
            final(self)@ == after_close(old(self)@, channel_id),
            views(effects@) == close_effects(old(self)@, channel_id),
            state_wf(old(self)@) ==> state_wf(final(self)@),
    {
        broadcast use {group_views, vstd::std_specs::hash::group_hash_axioms};

        proof {
            if state_wf(self@) {
                lemma_after_close_wf(self@, channel_id);
            }
        }
        let mut effects: Vec<Effect> = Vec::new();
        match find_connection(&self.ws_connections, channel_id) {
            Some(i) => {
                let closed = self.ws_connections.remove(i);
                match find_name(&self.online_nodes, closed.node.as_str()) {
                    Some(n) => {
                        self.online_nodes.remove(n);
                    },
                    None => {},
                }
                let update = WsServerMessage::StatusUpdate {
                    node: closed.node,
                    status: String::from_str("offline"),
                };
                effects = self.broadcast_to_all(&update);
            },
            None => {},
        }
        self.browser_connections = retain_other_channels(&self.browser_connections, channel_id);
        self.active_connections.remove(&channel_id);
        effects
    }

    /// Makes `channel_id` a node session if it is none yet, bound to the
    /// node's own identity, and sends it every chat so that the client can
    /// show the state without asking for it.
    pub fn classify_node_session(&mut self, channel_id: u32, our_node: &str) -> (effects: Vec<Effect>)
        ensures
            final(self)@ == classified(old(self)@, channel_id, our_node@),
            views(effects@) == welcome(old(self)@, channel_id),
            state_wf(old(self)@) ==> state_wf(final(self)@),
    {
        broadcast use group_views;

        proof {
            if state_wf(self@) {
                lemma_classified_wf(self@, channel_id, our_node@);
            }
        }
        let mut effects: Vec<Effect> = Vec::new();
        if find_connection(&self.ws_connections, channel_id).is_some() {
            return effects;
        }
        self.ws_connections.push(WsConnection { channel_id, node: String::from_str(our_node) });
        let ghost all = snapshot(self@.chats, channel_id);
        let mut i: usize = 0;
        while i < self.chats.len()
            invariant
                i <= self.chats.len(),
                all == snapshot(self@.chats, channel_id),
                views(effects@) == all.subrange(0, i as int),
            decreases self.chats.len() - i,
        {
            effects.push(
                Effect::Push { channel_id, frame: WsServerMessage::ChatUpdate(self.chats[i].clone()) },
            );
            i += 1;
            assert(all.subrange(0, i as int) =~= all.subrange(0, i - 1).push(all[i - 1]));
        }
        assert(all.subrange(0, i as int) =~= all);
        effects
    }

    /// Serves one event of the WebSocket transport.
    ///
    /// A message that asks for authentication with a chat key, or that comes
    /// over a channel that is a guest session, is a guest's; every other
    /// message is a node session's, and the first one makes its channel a
    /// node session. A frame that holds no client message is answered with an
    /// error and changes nothing. Closing a channel ends its session. Binary
    /// frames, pings and pongs are accepted and not looked at.
    pub fn websocket(&mut self, channel_id: u32, event: WsEvent, our_node: &str, now: u64, nonce: u32) -> (effects:
        Vec<Effect>)
        ensures
            final(self)@ == after_event(old(self)@, channel_id, event@, our_node@, now, nonce),
            views(effects@) == event_effects(old(self)@, channel_id, event@, our_node@, now, nonce),
            state_wf(old(self)@) ==> state_wf(final(self)@),
    {
        broadcast use group_views;

        match event {
            WsEvent::Close => self.close_channel(channel_id),
            WsEvent::Message(msg) => {
                let for_guest = match msg {
                    WsClientMessage::AuthWithKey { .. } => true,
                    _ => self.is_guest_channel(channel_id),
                };
                if for_guest {
                    self.handle_browser_message(channel_id, msg, now, nonce)
                } else {
                    let mut effects = self.classify_node_session(channel_id, our_node);
                    let ghost first = views(effects@);
                    let mut more = self.handle_client_message(channel_id, msg, our_node, now, nonce);
                    let ghost second = views(more@);
                    effects.append(&mut more);
                    assert(views(effects@) =~= first + second);
                    effects
                }
            },
            WsEvent::Malformed { reason } => {
                let mut effects: Vec<Effect> = Vec::new();
                effects.push(
                    Effect::Push {
                        channel_id,
                        frame: WsServerMessage::Error {
                            message: concat2("Invalid message format: ", reason.as_str()),
                        },
                    },
                );
                assert(views(effects@) =~= seq![malformed_reply(channel_id, reason@)]);
                effects
            },
            _ => Vec::new(),
        }
    }
}

} // verus!

use crate::model::{
    default_settings, group_views, views, Chat, ChatKey, ChatKeyView, ChatView, ProfileView,
    Settings, SettingsView, UserProfile,
};
use crate::queue::{queue_wf, DeliveryQueue, QueueEntryView};
use crate::store::chats_wf;
use crate::wire::{
    broadcast, channel_ids, push_broadcast, BrowserConnection, BrowserConnectionView, Effect,
    EffectView, ServerMessageView, WsConnection, WsConnectionView, WsServerMessage,
};
use std::collections::{HashMap, HashSet};
use vstd::prelude::*;

verus! {

/// Everything a node keeps: its chats, the keys it handed out, what still
/// waits for delivery, and the sessions that are connected to it.
#[derive(Debug, PartialEq)]
pub struct ChatState {
    pub profile: UserProfile,
    /// The chats, in the order in which they were created. No two share an id.
    pub chats: Vec<Chat>,
    /// The chat keys, in the order in which they were created.
    pub chat_keys: Vec<ChatKey>,
    pub settings: Settings,
    pub delivery_queue: DeliveryQueue,
    pub online_nodes: Vec<String>,
    /// The node sessions, in the order in which they were classified.
    pub ws_connections: Vec<WsConnection>,
    /// The guest sessions, one per chat key.
    pub browser_connections: Vec<BrowserConnection>,
    /// For each channel the time of the last heartbeat seen on it.
    pub last_heartbeat: HashMap<u32, u64>,
    /// The channels whose user is looking at the chat right now.
    pub active_connections: HashSet<u32>,
}

pub struct StateView {
    pub profile: ProfileView,
    pub chats: Seq<ChatView>,
    pub chat_keys: Seq<ChatKeyView>,
    pub settings: SettingsView,
    pub delivery_queue: Seq<QueueEntryView>,
    pub online_nodes: Seq<Seq<char>>,
    pub ws_connections: Seq<WsConnectionView>,
    pub browser_connections: Seq<BrowserConnectionView>,
    pub last_heartbeat: Map<u32, u64>,
    pub active_connections: Set<u32>,
}

impl View for ChatState {
    type V = StateView;

    open spec fn view(&self) -> StateView {
        StateView {
            profile: self.profile@,
            chats: views(self.chats@),
            chat_keys: views(self.chat_keys@),
            settings: self.settings@,
            delivery_queue: self.delivery_queue@,
            online_nodes: views(self.online_nodes@),
            ws_connections: views(self.ws_connections@),
            browser_connections: views(self.browser_connections@),
            last_heartbeat: self.last_heartbeat@,
            active_connections: self.active_connections@,
        }
    }
}

/// No two chat keys are the same key.
pub open spec fn keys_wf(keys: Seq<ChatKeyView>) -> bool {
    forall|i: int, j: int| 0 <= i < j < keys.len() ==> (#[trigger] keys[i]).key != (#[trigger] keys[j]).key
}

/// No channel is bound to two node sessions.
pub open spec fn connections_wf(conns: Seq<WsConnectionView>) -> bool {
    forall|i: int, j: int|
        0 <= i < j < conns.len() ==> (#[trigger] conns[i]).channel_id != (#[trigger] conns[j]).channel_id
}

/// No chat key is bound to two guest sessions.
pub open spec fn browser_wf(conns: Seq<BrowserConnectionView>) -> bool {
    forall|i: int, j: int|
        0 <= i < j < conns.len() ==> (#[trigger] conns[i]).chat_key != (#[trigger] conns[j]).chat_key
}

/// What holds of every state that the handlers produce from a fresh one.
pub open spec fn state_wf(s: StateView) -> bool {
    &&& chats_wf(s.chats)
    &&& keys_wf(s.chat_keys)
    &&& queue_wf(s.delivery_queue)
    &&& connections_wf(s.ws_connections)
    &&& browser_wf(s.browser_connections)
    &&& s.online_nodes.no_duplicates()
}

/// The state of a node that has not done anything yet.
pub open spec fn initial_state() -> StateView {
    StateView {
        profile: ProfileView { name: "User"@, profile_pic: None },
        chats: Seq::empty(),
        chat_keys: Seq::empty(),
        settings: default_settings(),
        delivery_queue: Seq::empty(),
        online_nodes: Seq::empty(),
        ws_connections: Seq::empty(),
        browser_connections: Seq::empty(),
        last_heartbeat: Map::empty(),
        active_connections: Set::empty(),
    }
}

/// Whether a handler found something to change. Finding nothing is no
/// error: the message may have been deleted, may not have arrived yet, or
/// may carry the change already.
#[derive(Clone, Copy, Debug, PartialEq, Eq, Structural)]
pub enum Receipt {
    Applied,
    NotFound,
}

impl Default for ChatState {
    fn default() -> (s: Self)
        ensures
            s@ == initial_state(),
            state_wf(s@),
    {
        broadcast use group_views;

        ChatState {
            profile: UserProfile::default(),
            chats: Vec::new(),
            chat_keys: Vec::new(),
            settings: Settings::default(),
            delivery_queue: DeliveryQueue::new(),
            online_nodes: Vec::new(),
            ws_connections: Vec::new(),
            browser_connections: Vec::new(),
            last_heartbeat: HashMap::new(),
            active_connections: HashSet::new(),
        }
    }
}

/// One push of the current state of `chat` to every node session.
pub open spec fn chat_update(conns: Seq<WsConnectionView>, chat: ChatView) -> Seq<EffectView> {
    broadcast(channel_ids(conns), ServerMessageView::ChatUpdate(chat))
}

impl ChatState {
    /// Appends one push of chat `ci`, as it stands now, for every node session.
    pub fn push_chat_update(&self, effects: &mut Vec<Effect>, ci: usize)
        requires
            ci < self.chats.len(),
        ensures
            views(final(effects)@) == views(old(effects)@) + chat_update(
                self@.ws_connections,
                self@.chats[ci as int],
            ),
    {
        let update = WsServerMessage::ChatUpdate(self.chats[ci].clone());
        push_broadcast(effects, &self.ws_connections, &update);
    }

    /// One push of `message` for every node session.
    pub fn broadcast_to_all(&self, message: &WsServerMessage) -> (effects: Vec<Effect>)
        ensures
            views(effects@) == broadcast(channel_ids(self@.ws_connections), message@),
    {
        broadcast use group_views;

        let mut effects: Vec<Effect> = Vec::new();
        push_broadcast(&mut effects, &self.ws_connections, message);
        assert(Seq::<EffectView>::empty() + broadcast(channel_ids(self@.ws_connections), message@)
            =~= broadcast(channel_ids(self@.ws_connections), message@));
        effects
    }
}

} // verus!

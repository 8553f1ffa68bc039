use crate::chat_id::{normalize_chat_id, normalized_id};
use crate::lookup::{first_true, lemma_first_true_at, lemma_first_true_none};
use crate::model::{
    group_views, opt_view, views, ChatMessage, ChatView, FileInfo, FileInfoView, MessageReaction,
    MessageType, MessageView, ReactionView,
};
use crate::queue::pending_for;
use crate::state::{chat_update, state_wf, ChatState, Receipt, StateView};
use crate::status::{safe_update_message_status, transition, MessageStatus};
use crate::store::{
    chat_position, ensure_chat, ensured, ensured_at, find_chat, find_message, find_reaction,
    find_sent_message, fresh_chat, lemma_update_same_id_wf, message_position, one_more,
    reaction_position, sent_message_position, with_message, with_reaction_at, with_status_at,
    without_message_at,
};
use crate::text::{underscore_colons, underscored};
use crate::wire::{
    channel_ids, Effect, EffectView, ServerMessageView, WsConnection, WsServerMessage,
};
use vstd::prelude::*;

verus! {

/// The state after a counterparty announced a chat: the chat exists.
/// Whatever waits for the counterparty goes on waiting until its delivery is
/// confirmed.
pub open spec fn after_chat_creation(s: StateView, counterparty: Seq<char>, our: Seq<char>, now: u64) -> StateView {
    StateView { chats: ensured(s.chats, normalized_id(counterparty, our), counterparty, now), ..s }
}

/// What a chat announcement makes the node do: show a chat that is new to
/// every node session, and try to deliver what waits for the counterparty.
pub open spec fn chat_creation_effects(s: StateView, counterparty: Seq<char>, our: Seq<char>, now: u64) -> Seq<
    EffectView,
> {
    let id = normalized_id(counterparty, our);
    let shown = if chat_position(s.chats, id) is None {
        chat_update(s.ws_connections, fresh_chat(id, counterparty, now))
    } else {
        Seq::empty()
    };
    let waiting = pending_for(s.delivery_queue, counterparty);
    if waiting.len() > 0 {
        shown.push(EffectView::Flush { target: counterparty, messages: waiting })
    } else {
        shown
    }
}

/// Which chats hold a message with the id `id` that `our` sent.
pub open spec fn ack_flags(chats: Seq<ChatView>, id: Seq<char>, our: Seq<char>) -> Seq<bool> {
    Seq::new(chats.len(), |i: int| sent_message_position(chats[i].messages, id, our) is Some)
}

/// The chat whose message an acknowledgment of `id` is for.
pub open spec fn ack_target(chats: Seq<ChatView>, id: Seq<char>, our: Seq<char>) -> Option<int> {
    first_true(ack_flags(chats, id, our))
}

/// The chats after the acknowledgment of `id` arrived: the status of our
/// message with that id was asked to become `Delivered`.
pub open spec fn acked(chats: Seq<ChatView>, id: Seq<char>, our: Seq<char>) -> Seq<ChatView> {
    match ack_target(chats, id, our) {
        Some(ci) => chats.update(
            ci,
            with_status_at(
                chats[ci],
                sent_message_position(chats[ci].messages, id, our).unwrap(),
                MessageStatus::Delivered,
            ),
        ),
        None => chats,
    }
}

/// Which chats hold a message with the id `id` on which `user` has not yet
/// reacted with `emoji`.
pub open spec fn reactable_flags(chats: Seq<ChatView>, id: Seq<char>, user: Seq<char>, emoji: Seq<char>) -> Seq<
    bool,
> {
    Seq::new(
        chats.len(),
        |i: int|
            match message_position(chats[i].messages, id) {
                Some(mi) => reaction_position(chats[i].messages[mi].reactions, user, emoji) is None,
                None => false,
            },
    )
}

/// The chat in which a reaction that arrives is recorded.
pub open spec fn reaction_target(
    chats: Seq<ChatView>,
    id: Seq<char>,
    user: Seq<char>,
    emoji: Seq<char>,
) -> Option<int> {
    first_true(reactable_flags(chats, id, user, emoji))
}

/// The chats after `user`'s reaction with `emoji` on the message `id` arrived
/// at the time `now`.
pub open spec fn reacted(
    chats: Seq<ChatView>,
    id: Seq<char>,
    emoji: Seq<char>,
    user: Seq<char>,
    now: u64,
) -> Seq<ChatView> {
    match reaction_target(chats, id, user, emoji) {
        Some(ci) => chats.update(
            ci,
            with_reaction_at(
                chats[ci],
                message_position(chats[ci].messages, id).unwrap(),
                ReactionView { emoji, user, timestamp: now },
            ),
        ),
        None => chats,
    }
}

/// Where the message `message_id` of the chat `chat_id` stands: the chat's
/// position and the message's position in it.
pub open spec fn located(chats: Seq<ChatView>, chat_id: Seq<char>, message_id: Seq<char>) -> Option<
    (int, int),
> {
    match chat_position(chats, chat_id) {
        Some(ci) => match message_position(chats[ci].messages, message_id) {
            Some(mi) => Some((ci, mi)),
            None => None,
        },
        None => None,
    }
}

/// The chats after the message `message_id` was deleted from the chat
/// `chat_id`.
pub open spec fn deleted(chats: Seq<ChatView>, chat_id: Seq<char>, message_id: Seq<char>) -> Seq<ChatView> {
    match located(chats, chat_id, message_id) {
        Some((ci, mi)) => chats.update(ci, without_message_at(chats[ci], mi)),
        None => chats,
    }
}

/// Finds a message by chat id and message id.
pub fn locate(state: &ChatState, chat_id: &str, message_id: &str) -> (r: Option<(usize, usize)>)
    ensures
        match r {
            Some((ci, mi)) => ci < state.chats.len() && mi < state.chats[ci as int].messages.len()
                && located(state@.chats, chat_id@, message_id@) == Some((ci as int, mi as int)),
            None => located(state@.chats, chat_id@, message_id@) is None,
        },
{
    match find_chat(&state.chats, chat_id) {
        Some(ci) => match find_message(&state.chats[ci].messages, message_id) {
            Some(mi) => Some((ci, mi)),
            None => None,
        },
        None => None,
    }
}

impl ChatState {
    /// A counterparty announces that a chat with us exists. The chat is
    /// created if it is not there yet and shown to every node session; and
    /// since the announcement shows that the counterparty can be reached,
    /// everything that waits for it is handed over to be delivered at once.
    /// Nothing leaves the queue here: each message leaves it when its
    /// delivery is reported. Announcing a chat that exists changes nothing.
    pub fn receive_chat_creation(&mut self, counterparty: &str, our_node: &str, now: u64) -> (effects: Vec<
        Effect,
    >)
        ensures
            final(self)@ == after_chat_creation(old(self)@, counterparty@, our_node@, now),
            views(effects@) == chat_creation_effects(old(self)@, counterparty@, our_node@, now),
            state_wf(old(self)@) ==> state_wf(final(self)@),
    {
        broadcast use group_views;

        let chat_id = normalize_chat_id(counterparty, our_node);
        let mut effects: Vec<Effect> = Vec::new();
        let existed = find_chat(&self.chats, chat_id.as_str()).is_some();
        if !existed {
            let at = ensure_chat(&mut self.chats, chat_id.as_str(), String::from_str(counterparty), now);
            self.push_chat_update(&mut effects, at);
            assert(views(effects@) =~= chat_update(
                old(self)@.ws_connections,
                fresh_chat(chat_id@, counterparty@, now),
            ));
        }
        let waiting = self.delivery_queue.pending(counterparty);
        if waiting.len() > 0 {
            effects.push(Effect::Flush { target: String::from_str(counterparty), messages: waiting });
        }
        effects
    }

    /// The counterparty confirms that it got the message `message_id`. Only
    /// a message that this node sent can be confirmed; its status is asked to
    /// become `Delivered` and the chat is shown to every node session. An id
    /// that no message of ours carries changes nothing.
    pub fn receive_message_ack(&mut self, message_id: &str, our_node: &str) -> (r: (Receipt, Vec<Effect>))
        ensures
            final(self)@ == (StateView {
                chats: acked(old(self)@.chats, message_id@, our_node@),
                ..old(self)@
            }),
            match ack_target(old(self)@.chats, message_id@, our_node@) {
                Some(ci) => r.0 == Receipt::Applied && views(r.1@) == chat_update(
                    old(self)@.ws_connections,
                    final(self)@.chats[ci],
                ),
                None => r.0 == Receipt::NotFound && r.1@.len() == 0,
            },
            state_wf(old(self)@) ==> state_wf(final(self)@),
    {
        broadcast use group_views;

        let ghost flags = ack_flags(self@.chats, message_id@, our_node@);
        let mut effects: Vec<Effect> = Vec::new();
        let mut ci: usize = 0;
        while ci < self.chats.len()
            invariant
                ci <= self.chats.len(),
                *self == *old(self),
                effects@.len() == 0,
                flags == ack_flags(self@.chats, message_id@, our_node@),
                forall|j: int| 0 <= j < ci ==> !#[trigger] flags[j],
            decreases self.chats.len() - ci,
        {
            match find_sent_message(&self.chats[ci].messages, message_id, our_node) {
                Some(mi) => {
                    proof {
                        assert(flags[ci as int]);
                        lemma_first_true_at(flags, ci as int);
                        if state_wf(self@) {
                            lemma_update_same_id_wf(
                                self@.chats,
                                ci as int,
                                with_status_at(self@.chats[ci as int], mi as int, MessageStatus::Delivered),
                            );
                        }
                    }
                    self.chats[ci].request_status_at(mi, MessageStatus::Delivered);
                    assert(self@.chats =~= old(self)@.chats.update(
                        ci as int,
                        with_status_at(old(self)@.chats[ci as int], mi as int, MessageStatus::Delivered),
                    ));
                    self.push_chat_update(&mut effects, ci);
                    assert(views(effects@) =~= chat_update(self@.ws_connections, self@.chats[ci as int]));
                    return (Receipt::Applied, effects);
                },
                None => {
                    assert(!flags[ci as int]);
                },
            }
            ci += 1;
        }
        proof {
            lemma_first_true_none(flags);
        }
        (Receipt::NotFound, effects)
    }

    /// A reaction of `user` arrives. It is recorded on the message
    /// `message_id` unless `user` has reacted with `emoji` there already, and
    /// the chat is then shown to every node session. A message that is not
    /// here is not an error.
    pub fn receive_reaction(&mut self, message_id: &str, emoji: &str, user: &str, now: u64) -> (r: (
        Receipt,
        Vec<Effect>,
    ))
        ensures
            final(self)@ == (StateView {
                chats: reacted(old(self)@.chats, message_id@, emoji@, user@, now),
                ..old(self)@
            }),
            match reaction_target(old(self)@.chats, message_id@, user@, emoji@) {
                Some(ci) => r.0 == Receipt::Applied && views(r.1@) == chat_update(
                    old(self)@.ws_connections,
                    final(self)@.chats[ci],
                ),
                None => r.0 == Receipt::NotFound && r.1@.len() == 0,
            },
            state_wf(old(self)@) ==> state_wf(final(self)@),
    {
        broadcast use group_views;

        let ghost flags = reactable_flags(self@.chats, message_id@, user@, emoji@);
        let mut effects: Vec<Effect> = Vec::new();
        let mut ci: usize = 0;
        while ci < self.chats.len()
            invariant
                ci <= self.chats.len(),
                *self == *old(self),
                effects@.len() == 0,
                flags == reactable_flags(self@.chats, message_id@, user@, emoji@),
                forall|j: int| 0 <= j < ci ==> !#[trigger] flags[j],
            decreases self.chats.len() - ci,
        {
            match find_message(&self.chats[ci].messages, message_id) {
                Some(mi) => {
                    if find_reaction(&self.chats[ci].messages[mi].reactions, user, emoji).is_none() {
                        let reaction = MessageReaction {
                            emoji: String::from_str(emoji),
                            user: String::from_str(user),
                            timestamp: now,
                        };
                        proof {
                            assert(flags[ci as int]);
                            lemma_first_true_at(flags, ci as int);
                            if state_wf(self@) {
                                lemma_update_same_id_wf(
                                    self@.chats,
                                    ci as int,
                                    with_reaction_at(self@.chats[ci as int], mi as int, reaction@),
                                );
                            }
                        }
                        let ghost added = reaction@;
                        self.chats[ci].push_reaction_at(mi, reaction);
                        assert(self@.chats =~= old(self)@.chats.update(
                            ci as int,
                            with_reaction_at(old(self)@.chats[ci as int], mi as int, added),
                        ));
                        self.push_chat_update(&mut effects, ci);
                        assert(views(effects@) =~= chat_update(
                            self@.ws_connections,
                            self@.chats[ci as int],
                        ));
                        return (Receipt::Applied, effects);
                    }
                    assert(!flags[ci as int]);
                },
                None => {
                    assert(!flags[ci as int]);
                },
            }
            ci += 1;
        }
        proof {
            lemma_first_true_none(flags);
        }
        (Receipt::NotFound, effects)
    }

    /// The counterparty asks that the message `message_id` of the chat
    /// `chat_id` be deleted here too. If it is here it is removed and the chat
    /// is shown to every node session; if not, nothing happens.
    pub fn receive_message_deletion(&mut self, message_id: &str, chat_id: &str) -> (r: (Receipt, Vec<Effect>))
        ensures
            final(self)@ == (StateView {
                chats: deleted(old(self)@.chats, chat_id@, message_id@),
                ..old(self)@
            }),
            match located(old(self)@.chats, chat_id@, message_id@) {
                Some((ci, mi)) => r.0 == Receipt::Applied && views(r.1@) == chat_update(
                    old(self)@.ws_connections,
                    final(self)@.chats[ci],
                ),
                None => r.0 == Receipt::NotFound && r.1@.len() == 0,
            },
            state_wf(old(self)@) ==> state_wf(final(self)@),
    {
        broadcast use group_views;

        let mut effects: Vec<Effect> = Vec::new();
        match locate(self, chat_id, message_id) {
            Some((ci, mi)) => {
                proof {
                    if state_wf(self@) {
                        lemma_update_same_id_wf(
                            self@.chats,
                            ci as int,
                            without_message_at(self@.chats[ci as int], mi as int),
                        );
                    }
                }
                self.chats[ci].remove_message_at(mi);
                self.push_chat_update(&mut effects, ci);
                assert(views(effects@) =~= chat_update(self@.ws_connections, self@.chats[ci as int]));
                (Receipt::Applied, effects)
            },
            None => (Receipt::NotFound, effects),
        }
    }
}

/// Where a received file is reachable once it is stored under `file_id`.
pub open spec fn local_file_url(chat_id: Seq<char>, file_id: Seq<char>) -> Seq<char> {
    "/files/"@ + underscored(chat_id) + "/"@ + file_id
}

/// The message as the receiver keeps it: its status asked to become
/// `Delivered`, and, where its file was stored under `stored_as` and is no
/// image, the file's location pointing at the local copy.
pub open spec fn arrived(message: MessageView, chat_id: Seq<char>, stored_as: Option<Seq<char>>) -> MessageView {
    MessageView {
        status: transition(message.status, MessageStatus::Delivered),
        file_info: match (message.file_info, stored_as) {
            (Some(f), Some(file_id)) => if message.message_type == MessageType::Image {
                Some(f)
            } else {
                Some(FileInfoView { url: local_file_url(chat_id, file_id), ..f })
            },
            _ => message.file_info,
        },
        ..message
    }
}

/// The chat of `message`'s sender after the message arrived.
pub open spec fn received_chat(
    s: StateView,
    message: MessageView,
    our: Seq<char>,
    stored_as: Option<Seq<char>>,
) -> ChatView {
    let id = normalized_id(message.sender, our);
    let chat = ensured(s.chats, id, message.sender, message.timestamp)[ensured_at(s.chats, id)];
    ChatView {
        unread_count: one_more(chat.unread_count),
        ..with_message(chat, arrived(message, id, stored_as), message.timestamp)
    }
}

/// The state after `message` arrived.
pub open spec fn after_message(
    s: StateView,
    message: MessageView,
    our: Seq<char>,
    stored_as: Option<Seq<char>>,
) -> StateView {
    let id = normalized_id(message.sender, our);
    StateView {
        chats: ensured(s.chats, id, message.sender, message.timestamp).update(
            ensured_at(s.chats, id),
            received_chat(s, message, our, stored_as),
        ),
        ..s
    }
}

/// For every channel in turn: `first`, where there is one, and then `then`.
pub open spec fn fan_out(channels: Seq<u32>, first: Option<ServerMessageView>, then: ServerMessageView) -> Seq<
    EffectView,
>
    decreases channels.len(),
{
    if channels.len() == 0 {
        Seq::empty()
    } else {
        let before = fan_out(channels.drop_last(), first, then);
        let second = EffectView::Push { channel_id: channels.last(), frame: then };
        match first {
            Some(f) => before.push(EffectView::Push { channel_id: channels.last(), frame: f }).push(
                second,
            ),
            None => before.push(second),
        }
    }
}

/// What an arriving message makes the node do: show it to every node
/// session, after the chat itself where the chat is new; raise a
/// notification where the chat and the settings ask for one and no session
/// is active; and confirm the receipt to the sender.
pub open spec fn message_effects(
    s: StateView,
    message: MessageView,
    our: Seq<char>,
    stored_as: Option<Seq<char>>,
) -> Seq<EffectView> {
    let id = normalized_id(message.sender, our);
    let chat = received_chat(s, message, our, stored_as);
    let shown = fan_out(
        channel_ids(s.ws_connections),
        if chat_position(s.chats, id) is None {
            Some(ServerMessageView::ChatUpdate(chat))
        } else {
            None
        },
        ServerMessageView::NewMessage(arrived(message, id, stored_as)),
    );
    let notified = if chat.notify && s.settings.notify_chats && s.active_connections.is_empty() {
        shown.push(
            EffectView::Notify { sender: message.sender, content: message.content, chat_id: id },
        )
    } else {
        shown
    };
    notified.push(EffectView::Acknowledge { target: message.sender, message_id: message.id })
}

/// Appends, for every node session in turn, a push of `first`, where there
/// is one, and a push of `then`.
pub fn push_fan_out(
    effects: &mut Vec<Effect>,
    connections: &Vec<WsConnection>,
    first: &Option<WsServerMessage>,
    then: &WsServerMessage,
)
    ensures
        views(final(effects)@) == views(old(effects)@) + fan_out(
            channel_ids(views(connections@)),
            opt_view(*first),
            then@,
        ),
{
    broadcast use group_views;

    let ghost channels = channel_ids(views(connections@));
    let mut i: usize = 0;
    assert(channels.subrange(0, 0) =~= Seq::<u32>::empty());
    assert(views(effects@) + Seq::<EffectView>::empty() =~= views(effects@));
    while i < connections.len()
        invariant
            i <= connections.len(),
            channels == channel_ids(views(connections@)),
            views(effects@) == views(old(effects)@) + fan_out(
                channels.subrange(0, i as int),
                opt_view(*first),
                then@,
            ),
        decreases connections.len() - i,
    {
        let ghost before = fan_out(channels.subrange(0, i as int), opt_view(*first), then@);
        assert(channels.subrange(0, i + 1).drop_last() =~= channels.subrange(0, i as int));
        let ghost so_far = views(effects@);
        let channel_id = connections[i].channel_id;
        assert(channels.subrange(0, i + 1).last() == channel_id);
        match first {
            Some(f) => {
                effects.push(Effect::Push { channel_id, frame: f.clone() });
                effects.push(Effect::Push { channel_id, frame: then.clone() });
                assert(so_far.push(EffectView::Push { channel_id, frame: f@ }).push(
                    EffectView::Push { channel_id, frame: then@ },
                ) =~= views(old(effects)@) + before.push(
                    EffectView::Push { channel_id, frame: f@ },
                ).push(EffectView::Push { channel_id, frame: then@ }));
            },
            None => {
                effects.push(Effect::Push { channel_id, frame: then.clone() });
                assert(so_far.push(EffectView::Push { channel_id, frame: then@ }) =~= views(
                    old(effects)@,
                ) + before.push(EffectView::Push { channel_id, frame: then@ }));
            },
        }
        i += 1;
    }
    assert(channels.subrange(0, i as int) =~= channels);
}

impl ChatState {
    /// A message from a counterparty arrives. The chat with the sender is
    /// created if need be; the message is appended with its status asked to
    /// become `Delivered`, and counts as unread, up to the most that the
    /// count can hold; every node session is told; a notification is raised
    /// if nobody is looking; and the sender gets its acknowledgment.
    ///
    /// `stored_as` names the local copy of the message's file, where the
    /// caller stored one.
    pub fn receive_message(&mut self, message: ChatMessage, our_node: &str, stored_as: Option<&str>) -> (effects:
        Vec<Effect>)
        ensures
            final(self)@ == after_message(old(self)@, message@, our_node@, opt_str_view(stored_as)),
            views(effects@) == message_effects(old(self)@, message@, our_node@, opt_str_view(stored_as)),
            state_wf(old(self)@) ==> state_wf(final(self)@),
    {
        broadcast use group_views;

        let chat_id = normalize_chat_id(message.sender.as_str(), our_node);
        let is_new = find_chat(&self.chats, chat_id.as_str()).is_none();
        let ci = ensure_chat(&mut self.chats, chat_id.as_str(), message.sender.clone(), message.timestamp);
        let ghost ensured_chats = self@.chats;

        let sender = message.sender.clone();
        let message_id = message.id.clone();
        let content = message.content.clone();
        let timestamp = message.timestamp;
        let mut kept = message;
        kept.status = safe_update_message_status(&kept.status, MessageStatus::Delivered);
        let is_image = match kept.message_type {
            MessageType::Image => true,
            _ => false,
        };
        match stored_as {
            Some(file_id) => {
                if !is_image {
                    match kept.file_info {
                        Some(f) => {
                            let mut url = String::from_str("/files/");
                            url.append(underscore_colons(chat_id.as_str()).as_str());
                            url.append("/");
                            url.append(file_id);
                            kept.file_info = Some(
                                FileInfo { filename: f.filename, mime_type: f.mime_type, size: f.size, url },
                            );
                        },
                        None => {
                            kept.file_info = None;
                        },
                    }
                }
            },
            None => {},
        }
        assert(kept@ == arrived(message@, chat_id@, opt_str_view(stored_as)));

        self.chats[ci].push_message(kept.clone(), timestamp);
        self.chats[ci].count_unread();
        proof {
            assert(self@.chats[ci as int] == received_chat(
                old(self)@,
                message@,
                our_node@,
                opt_str_view(stored_as),
            ));
            assert(self@.chats =~= ensured_chats.update(ci as int, self@.chats[ci as int]));
            if state_wf(old(self)@) {
                lemma_update_same_id_wf(ensured_chats, ci as int, self@.chats[ci as int]);
            }
        }

        let mut effects: Vec<Effect> = Vec::new();
        let first = if is_new {
            Some(WsServerMessage::ChatUpdate(self.chats[ci].clone()))
        } else {
            None
        };
        let notify = self.chats[ci].notify && self.settings.notify_chats && self.active_connections.is_empty();
        push_fan_out(&mut effects, &self.ws_connections, &first, &WsServerMessage::NewMessage(kept));
        assert(Seq::<EffectView>::empty() + fan_out(
            channel_ids(self@.ws_connections),
            opt_view(first),
            ServerMessageView::NewMessage(arrived(message@, chat_id@, opt_str_view(stored_as))),
        ) =~= fan_out(
            channel_ids(self@.ws_connections),
            opt_view(first),
            ServerMessageView::NewMessage(arrived(message@, chat_id@, opt_str_view(stored_as))),
        ));
        if notify {
            effects.push(Effect::Notify { sender: sender.clone(), content, chat_id });
        }
        effects.push(Effect::Acknowledge { target: sender, message_id });
        effects
    }
}

/// The view of an optional string slice.
pub open spec fn opt_str_view(o: Option<&str>) -> Option<Seq<char>> {
    match o {
        Some(s) => Some(s@),
        None => None,
    }
}

} // verus!

use crate::chat_id::{is_browser_chat, is_browser_chat_id, normalize_chat_id, normalized_id};
use crate::client::{holder, holder_flags};
use crate::lookup::{lemma_first_true_at, lemma_first_true_none};
use crate::model::{
    clone_opt_file_info, group_views, opt_view, views, Chat, ChatMessage, ChatView,
    MessageReaction, MessageView, ReactionView,
};
use crate::protocol::{deleted, locate, located};
use crate::queue::{enqueued, removed_on_success, sweep_attempts};
use crate::requests::{
    AddReactionReq, CreateChatReq, DeleteChatReq, DeleteMessageReq, EditMessageReq,
    ForwardMessageReq, GetChatReq, RemoveReactionReq, SendMessageReq,
};
use crate::session::{make_message_id, message_id_of, plain_message};
use crate::state::{chat_update, state_wf, ChatState, StateView};
use crate::status::MessageStatus;
use crate::store::{
    chat_position, chats_wf, ensure_chat, ensured, ensured_at, find_chat, find_message,
    find_reaction, lemma_update_same_id_wf, marked, message_position, reaction_position,
    with_content_at, with_message, with_reaction_at, without_reaction_at,
};
use crate::text::{concat2, second_segment, second_segment_of};
use crate::wire::{Effect, EffectView};
use vstd::prelude::*;

verus! {

/// The state after a chat with `counterparty` was started: the chat exists.
/// A chat that exists already stays as it is, history and all.
pub open spec fn after_create_chat(s: StateView, counterparty: Seq<char>, our: Seq<char>, now: u64) -> StateView {
    StateView { chats: ensured(s.chats, normalized_id(our, counterparty), counterparty, now), ..s }
}

/// The chat between us and `counterparty` once it was started.
pub open spec fn created_chat(s: StateView, counterparty: Seq<char>, our: Seq<char>, now: u64) -> ChatView {
    let id = normalized_id(our, counterparty);
    ensured(s.chats, id, counterparty, now)[ensured_at(s.chats, id)]
}

/// The text message that this node sends.
pub open spec fn own_message(
    our: Seq<char>,
    content: Seq<char>,
    reply_to: Option<Seq<char>>,
    now: u64,
    nonce: u32,
) -> MessageView {
    plain_message(message_id_of(now, nonce), our, content, now, MessageStatus::Sending, reply_to)
}

/// The chat `chat_id` after this node added `m` to it: the chat is created
/// if need be, with the counterparty that its id names, and the status of
/// the message is asked to become `requested`.
pub open spec fn posted_chat(
    chats: Seq<ChatView>,
    chat_id: Seq<char>,
    m: MessageView,
    now: u64,
    requested: MessageStatus,
) -> ChatView {
    let chat = ensured(chats, chat_id, second_segment(chat_id), now)[ensured_at(chats, chat_id)];
    marked(with_message(chat, m, now), m.id, requested)
}

/// The chats after this node added `m` to the chat `chat_id`.
pub open spec fn posted(
    chats: Seq<ChatView>,
    chat_id: Seq<char>,
    m: MessageView,
    now: u64,
    requested: MessageStatus,
) -> Seq<ChatView> {
    ensured(chats, chat_id, second_segment(chat_id), now).update(
        ensured_at(chats, chat_id),
        posted_chat(chats, chat_id, m, now, requested),
    )
}

/// The message `m` as the chat `chat` holds it; `m` itself where the chat
/// does not hold it.
pub open spec fn as_held(chat: ChatView, m: MessageView) -> MessageView {
    match message_position(chat.messages, m.id) {
        Some(mi) => chat.messages[mi],
        None => m,
    }
}

/// The state after the attempt to deliver `m` of the chat `chat_id` to
/// `target` ended. Delivered: the status is asked to become `Sent`. Not
/// delivered: the message waits in the queue for `target`, and the status is
/// asked to become `Failed`.
pub open spec fn after_outcome(
    s: StateView,
    chat_id: Seq<char>,
    target: Seq<char>,
    m: MessageView,
    delivered: bool,
) -> StateView {
    StateView {
        chats: match chat_position(s.chats, chat_id) {
            Some(ci) => s.chats.update(ci, outcome_chat(s.chats[ci], m, delivered)),
            None => s.chats,
        },
        delivery_queue: if delivered {
            s.delivery_queue
        } else {
            enqueued(s.delivery_queue, target, m)
        },
        ..s
    }
}

/// The chat that holds `m` after its delivery attempt ended.
pub open spec fn outcome_chat(chat: ChatView, m: MessageView, delivered: bool) -> ChatView {
    marked(
        chat,
        m.id,
        if delivered {
            MessageStatus::Sent
        } else {
            MessageStatus::Failed
        },
    )
}

/// The state after the queued message `id` was delivered to `node`: it has
/// left the queue, and the first message with that id has its status asked
/// to become `Sent`.
pub open spec fn after_queued_delivery(s: StateView, node: Seq<char>, id: Seq<char>) -> StateView {
    StateView {
        delivery_queue: removed_on_success(s.delivery_queue, node, id),
        chats: match holder(s.chats, id) {
            Some(ci) => s.chats.update(ci, marked(s.chats[ci], id, MessageStatus::Sent)),
            None => s.chats,
        },
        ..s
    }
}

/// The chats after the content of the message `message_id` of the chat
/// `chat_id` was replaced.
pub open spec fn edited(
    chats: Seq<ChatView>,
    chat_id: Seq<char>,
    message_id: Seq<char>,
    content: Seq<char>,
) -> Seq<ChatView> {
    match located(chats, chat_id, message_id) {
        Some((ci, mi)) => chats.update(ci, with_content_at(chats[ci], mi, content)),
        None => chats,
    }
}

/// Whether `user` can still react with `emoji` on the message `message_id`
/// of the chat `chat_id`: the message is there and holds no such reaction.
pub open spec fn can_react(
    chats: Seq<ChatView>,
    chat_id: Seq<char>,
    message_id: Seq<char>,
    user: Seq<char>,
    emoji: Seq<char>,
) -> bool {
    match located(chats, chat_id, message_id) {
        Some((ci, mi)) => reaction_position(chats[ci].messages[mi].reactions, user, emoji) is None,
        None => false,
    }
}

/// The chats after `user` reacted with `emoji` on the message `message_id`
/// of the chat `chat_id` at the time `now`. A reaction that is there already
/// is not added again.
pub open spec fn with_reaction(
    chats: Seq<ChatView>,
    chat_id: Seq<char>,
    message_id: Seq<char>,
    user: Seq<char>,
    emoji: Seq<char>,
    now: u64,
) -> Seq<ChatView> {
    match located(chats, chat_id, message_id) {
        Some((ci, mi)) => if reaction_position(chats[ci].messages[mi].reactions, user, emoji) is None {
            chats.update(
                ci,
                with_reaction_at(chats[ci], mi, ReactionView { emoji, user, timestamp: now }),
            )
        } else {
            chats
        },
        None => chats,
    }
}

/// Whom a reaction of ours on the message `mi` of `chat` is sent to: the
/// message's sender, or the chat's counterparty where the message is ours.
pub open spec fn reaction_recipient(chat: ChatView, mi: int, our: Seq<char>) -> Seq<char> {
    if chat.messages[mi].sender != our {
        chat.messages[mi].sender
    } else {
        chat.counterparty
    }
}

/// Where `user`'s reaction with `emoji` on the message `message_id` of the
/// chat `chat_id` stands: chat, message and reaction.
pub open spec fn located_reaction(
    chats: Seq<ChatView>,
    chat_id: Seq<char>,
    message_id: Seq<char>,
    user: Seq<char>,
    emoji: Seq<char>,
) -> Option<(int, int, int)> {
    match located(chats, chat_id, message_id) {
        Some((ci, mi)) => match reaction_position(chats[ci].messages[mi].reactions, user, emoji) {
            Some(ri) => Some((ci, mi, ri)),
            None => None,
        },
        None => None,
    }
}

/// The chats after `user`'s reaction with `emoji` was taken off the message.
pub open spec fn without_reaction(
    chats: Seq<ChatView>,
    chat_id: Seq<char>,
    message_id: Seq<char>,
    user: Seq<char>,
    emoji: Seq<char>,
) -> Seq<ChatView> {
    match located_reaction(chats, chat_id, message_id, user, emoji) {
        Some((ci, mi, ri)) => chats.update(ci, without_reaction_at(chats[ci], mi, ri)),
        None => chats,
    }
}

/// The message that forwards `source`.
pub open spec fn forwarded_message(source: MessageView, our: Seq<char>, now: u64, nonce: u32) -> MessageView {
    MessageView {
        id: message_id_of(now, nonce),
        sender: our,
        content: "Forwarded: "@ + source.content,
        timestamp: now,
        status: MessageStatus::Sending,
        reply_to: None,
        reactions: Seq::empty(),
        message_type: source.message_type,
        file_info: source.file_info,
    }
}

/// Adds `message` to the chat `chat_id`, creating the chat if need be, asks
/// `requested` of the message's status, and says where the chat stands.
pub fn post(state: &mut ChatState, chat_id: &str, message: ChatMessage, now: u64, requested: MessageStatus) -> (ci:
    usize)
    ensures
        final(state)@ == (StateView {
            chats: posted(old(state)@.chats, chat_id@, message@, now, requested),
            ..old(state)@
        }),
        ci == ensured_at(old(state)@.chats, chat_id@),
        ci < final(state).chats.len(),
        final(state)@.chats[ci as int] == posted_chat(old(state)@.chats, chat_id@, message@, now, requested),
        state_wf(old(state)@) ==> state_wf(final(state)@),
{
    broadcast use group_views;

    let counterparty = second_segment_of(chat_id);
    let ci = ensure_chat(&mut state.chats, chat_id, counterparty, now);
    let ghost ensured_chats = state@.chats;
    let id = message.id.clone();
    state.chats[ci].push_message(message, now);
    state.chats[ci].request_status(id.as_str(), requested);
    proof {
        assert(state@.chats =~= ensured_chats.update(ci as int, state@.chats[ci as int]));
        if state_wf(old(state)@) {
            lemma_update_same_id_wf(ensured_chats, ci as int, state@.chats[ci as int]);
        }
    }
    ci
}

/// The message `m` as the chat holds it now.
pub fn held(chat: &Chat, m: &ChatMessage) -> (r: ChatMessage)
    ensures
        r@ == as_held(chat@, m@),
{
    match find_message(&chat.messages, m.id.as_str()) {
        Some(mi) => chat.messages[mi].clone(),
        None => m.clone(),
    }
}

impl ChatState {
    /// Starts a chat with the counterparty that `req` names and announces it
    /// to the counterparty. The id of the chat is the same whichever of the
    /// two starts it.
    pub fn create_chat(&mut self, req: CreateChatReq, our_node: &str, now: u64) -> (r: (Chat, Vec<Effect>))
        ensures
            final(self)@ == after_create_chat(old(self)@, req.counterparty@, our_node@, now),
            r.0@ == created_chat(old(self)@, req.counterparty@, our_node@, now),
            views(r.1@) == seq![
                EffectView::AnnounceChat { target: req.counterparty@, our_node: our_node@ },
            ],
            state_wf(old(self)@) ==> state_wf(final(self)@),
    {
        broadcast use group_views;

        let chat_id = normalize_chat_id(our_node, req.counterparty.as_str());
        let ci = ensure_chat(&mut self.chats, chat_id.as_str(), req.counterparty.clone(), now);
        let mut effects: Vec<Effect> = Vec::new();
        effects.push(
            Effect::AnnounceChat { target: req.counterparty, our_node: String::from_str(our_node) },
        );
        assert(views(effects@) =~= seq![
            EffectView::AnnounceChat { target: req.counterparty@, our_node: our_node@ },
        ]);
        (self.chats[ci].clone(), effects)
    }

    /// The chat that `req` names.
    pub fn get_chat(&self, req: GetChatReq) -> (r: Result<Chat, String>)
        ensures
            match chat_position(self@.chats, req.chat_id@) {
                Some(ci) => r matches Ok(chat) && chat@ == self@.chats[ci],
                None => r matches Err(e) && e@ == "Chat not found"@,
            },
    {
        match find_chat(&self.chats, req.chat_id.as_str()) {
            Some(ci) => Ok(self.chats[ci].clone()),
            None => Err(String::from_str("Chat not found")),
        }
    }

    /// Deletes the chat that `req` names. The deletion is local: the
    /// counterparty is not told.
    pub fn delete_chat(&mut self, req: DeleteChatReq) -> (r: Result<String, String>)
        ensures
            match chat_position(old(self)@.chats, req.chat_id@) {
                Some(ci) => (r matches Ok(text) && text@ == "Chat deleted"@) && final(self)@ == (StateView {
                    chats: old(self)@.chats.remove(ci),
                    ..old(self)@
                }),
                None => (r matches Err(e) && e@ == "Chat not found"@) && final(self)@ == old(self)@,
            },
            state_wf(old(self)@) ==> state_wf(final(self)@),
    {
        broadcast use group_views;

        match find_chat(&self.chats, req.chat_id.as_str()) {
            Some(ci) => {
                proof {
                    if chats_wf(self@.chats) {
                        lemma_remove_chat_wf(self@.chats, ci as int);
                    }
                }
                self.chats.remove(ci);
                Ok(String::from_str("Chat deleted"))
            },
            None => Err(String::from_str("Chat not found")),
        }
    }

    /// Sends a text message to the chat that `req` names. The message is in
    /// the chat at once, with its status asked to become `Sent`; every node
    /// session is shown the chat; and the message is handed over for
    /// delivery to the counterparty. Returns the message as the chat holds
    /// it.
    pub fn send_message(&mut self, req: SendMessageReq, our_node: &str, now: u64, nonce: u32) -> (r: (
        ChatMessage,
        Vec<Effect>,
    ))
        ensures
            ({
                let m = own_message(our_node@, req.content@, opt_view(req.reply_to), now, nonce);
                let chat = posted_chat(old(self)@.chats, req.chat_id@, m, now, MessageStatus::Sent);
                &&& final(self)@ == (StateView {
                    chats: posted(old(self)@.chats, req.chat_id@, m, now, MessageStatus::Sent),
                    ..old(self)@
                })
                &&& r.0@ == as_held(chat, m)
                &&& views(r.1@) == chat_update(old(self)@.ws_connections, chat).push(
                    EffectView::Deliver { target: chat.counterparty, message: m },
                )
            }),
            state_wf(old(self)@) ==> state_wf(final(self)@),
    {
        broadcast use group_views;

        let message = ChatMessage {
            id: make_message_id(now, nonce),
            sender: String::from_str(our_node),
            content: req.content,
            timestamp: now,
            status: MessageStatus::Sending,
            reply_to: req.reply_to,
            reactions: Vec::new(),
            message_type: crate::model::MessageType::Text,
            file_info: None,
        };
        let ci = post(self, req.chat_id.as_str(), message.clone(), now, MessageStatus::Sent);
        let mut effects: Vec<Effect> = Vec::new();
        self.push_chat_update(&mut effects, ci);
        let kept = held(&self.chats[ci], &message);
        effects.push(Effect::Deliver { target: self.chats[ci].counterparty.clone(), message });
        (kept, effects)
    }

    /// Takes note of how the attempt to deliver `message` of the chat
    /// `chat_id` to `target` ended. A failure is a matter of the sender
    /// alone: the message waits in the queue and is marked `Failed` here;
    /// the receiver never sees it. Every node session is shown the chat.
    pub fn record_send_outcome(&mut self, chat_id: &str, target: &str, message: ChatMessage, delivered: bool) -> (effects:
        Vec<Effect>)
        ensures
            final(self)@ == after_outcome(old(self)@, chat_id@, target@, message@, delivered),
            views(effects@) == match chat_position(old(self)@.chats, chat_id@) {
                Some(ci) => chat_update(old(self)@.ws_connections, final(self)@.chats[ci]),
                None => Seq::empty(),
            },
            state_wf(old(self)@) ==> state_wf(final(self)@),
    {
        broadcast use group_views;

        let mut effects: Vec<Effect> = Vec::new();
        let requested = if delivered {
            MessageStatus::Sent
        } else {
            MessageStatus::Failed
        };
        match find_chat(&self.chats, chat_id) {
            Some(ci) => {
                proof {
                    if state_wf(self@) {
                        lemma_update_same_id_wf(
                            self@.chats,
                            ci as int,
                            outcome_chat(self@.chats[ci as int], message@, delivered),
                        );
                    }
                }
                self.chats[ci].request_status(message.id.as_str(), requested);
                assert(self@.chats =~= old(self)@.chats.update(
                    ci as int,
                    outcome_chat(old(self)@.chats[ci as int], message@, delivered),
                ));
                self.push_chat_update(&mut effects, ci);
                assert(views(effects@) =~= chat_update(self@.ws_connections, self@.chats[ci as int]));
            },
            None => {},
        }
        if !delivered {
            self.delivery_queue.enqueue(target, message);
        }
        effects
    }

    /// The attempts of one sweep over the delivery queue: for every
    /// counterparty the oldest message that waits for it, and nothing behind
    /// it. The outcome of each attempt is reported with
    /// `queued_delivery_succeeded`; a failed attempt needs no report, and ends
    /// the sweep for that counterparty.
    pub fn process_delivery_queue(&self) -> (attempts: Vec<Effect>)
        ensures
            views(attempts@) == sweep_attempts(self@.delivery_queue),
    {
        self.delivery_queue.sweep()
    }

    /// The queued message `message_id` reached `node`: it leaves the queue,
    /// its status is asked to become `Sent`, and every node session is shown
    /// the chat that holds it.
    pub fn queued_delivery_succeeded(&mut self, node: &str, message_id: &str) -> (effects: Vec<Effect>)
        ensures
            final(self)@ == after_queued_delivery(old(self)@, node@, message_id@),
            views(effects@) == match holder(old(self)@.chats, message_id@) {
                Some(ci) => chat_update(old(self)@.ws_connections, final(self)@.chats[ci]),
                None => Seq::empty(),
            },
            state_wf(old(self)@) ==> state_wf(final(self)@),
    {
        broadcast use group_views;

        self.delivery_queue.remove_on_success(node, message_id);
        let ghost flags = holder_flags(self@.chats, message_id@);
        let mut effects: Vec<Effect> = Vec::new();
        let mut ci: usize = 0;
        while ci < self.chats.len()
            invariant
                ci <= self.chats.len(),
                self@ == (StateView {
                    delivery_queue: removed_on_success(old(self)@.delivery_queue, node@, message_id@),
                    ..old(self)@
                }),
                state_wf(old(self)@) ==> state_wf(self@),
                effects@.len() == 0,
                flags == holder_flags(self@.chats, message_id@),
                forall|j: int| 0 <= j < ci ==> !#[trigger] flags[j],
            decreases self.chats.len() - ci,
        {
            if find_message(&self.chats[ci].messages, message_id).is_some() {
                proof {
                    assert(flags[ci as int]);
                    lemma_first_true_at(flags, ci as int);
                    if state_wf(self@) {
                        lemma_update_same_id_wf(
                            self@.chats,
                            ci as int,
                            marked(self@.chats[ci as int], message_id@, MessageStatus::Sent),
                        );
                    }
                }
                self.chats[ci].request_status(message_id, MessageStatus::Sent);
                assert(self@.chats =~= old(self)@.chats.update(
                    ci as int,
                    marked(old(self)@.chats[ci as int], message_id@, MessageStatus::Sent),
                ));
                self.push_chat_update(&mut effects, ci);
                assert(views(effects@) =~= chat_update(self@.ws_connections, self@.chats[ci as int]));
                return effects;
            }
            assert(!flags[ci as int]);
            ci += 1;
        }
        proof {
            lemma_first_true_none(flags);
        }
        effects
    }

    /// Replaces the content of a message. The change is local: nobody is
    /// told.
    pub fn edit_message(&mut self, req: EditMessageReq) -> (r: Result<String, String>)
        ensures
            final(self)@ == (StateView {
                chats: edited(old(self)@.chats, req.chat_id@, req.message_id@, req.new_content@),
                ..old(self)@
            }),
            match located(old(self)@.chats, req.chat_id@, req.message_id@) {
                Some(_) => r matches Ok(text) && text@ == "Message edited"@,
                None => r matches Err(e) && e@ == "Message not found"@,
            },
            state_wf(old(self)@) ==> state_wf(final(self)@),
    {
        broadcast use group_views;

        match locate(self, req.chat_id.as_str(), req.message_id.as_str()) {
            Some((ci, mi)) => {
                proof {
                    if state_wf(self@) {
                        lemma_update_same_id_wf(
                            self@.chats,
                            ci as int,
                            with_content_at(self@.chats[ci as int], mi as int, req.new_content@),
                        );
                    }
                }
                self.chats[ci].set_content_at(mi, req.new_content);
                Ok(String::from_str("Message edited"))
            },
            None => Err(String::from_str("Message not found")),
        }
    }

    /// Deletes a message here, shows the chat to every node session, and,
    /// where `req` asks for it, asks the counterparty to delete it too.
    pub fn delete_message(&mut self, req: DeleteMessageReq) -> (r: Result<(String, Vec<Effect>), String>)
        ensures
            final(self)@ == (StateView {
                chats: deleted(old(self)@.chats, req.chat_id@, req.message_id@),
                ..old(self)@
            }),
            match located(old(self)@.chats, req.chat_id@, req.message_id@) {
                Some((ci, mi)) => r matches Ok(done) && done.0@ == "Message deleted"@ && views(done.1@) == {
                    let shown = chat_update(old(self)@.ws_connections, final(self)@.chats[ci]);
                    if req.delete_for_both == Some(true) {
                        shown.push(
                            EffectView::Delete {
                                target: old(self)@.chats[ci].counterparty,
                                message_id: req.message_id@,
                                chat_id: req.chat_id@,
                            },
                        )
                    } else {
                        shown
                    }
                },
                None => r matches Err(e) && e@ == "Message not found"@,
            },
            state_wf(old(self)@) ==> state_wf(final(self)@),
    {
        broadcast use group_views;

        match locate(self, req.chat_id.as_str(), req.message_id.as_str()) {
            Some((ci, mi)) => {
                proof {
                    if state_wf(self@) {
                        lemma_update_same_id_wf(
                            self@.chats,
                            ci as int,
                            crate::store::without_message_at(self@.chats[ci as int], mi as int),
                        );
                    }
                }
                self.chats[ci].remove_message_at(mi);
                let mut effects: Vec<Effect> = Vec::new();
                self.push_chat_update(&mut effects, ci);
                assert(views(effects@) =~= chat_update(self@.ws_connections, self@.chats[ci as int]));
                let both = match req.delete_for_both {
                    Some(b) => b,
                    None => false,
                };
                if both {
                    effects.push(
                        Effect::Delete {
                            target: self.chats[ci].counterparty.clone(),
                            message_id: req.message_id,
                            chat_id: req.chat_id,
                        },
                    );
                }
                Ok((String::from_str("Message deleted"), effects))
            },
            None => Err(String::from_str("Message not found")),
        }
    }

    /// Adds our reaction to a message, unless we reacted with that emoji
    /// there already. A reaction that was added is sent to the other side and
    /// the chat is shown to every node session.
    pub fn add_reaction(&mut self, req: AddReactionReq, our_node: &str, now: u64) -> (r: Result<
        (String, Vec<Effect>),
        String,
    >)
        ensures
            final(self)@ == (StateView {
                chats: with_reaction(
                    old(self)@.chats,
                    req.chat_id@,
                    req.message_id@,
                    our_node@,
                    req.emoji@,
                    now,
                ),
                ..old(self)@
            }),
            match located(old(self)@.chats, req.chat_id@, req.message_id@) {
                Some((ci, mi)) => r matches Ok(done) && if can_react(
                    old(self)@.chats,
                    req.chat_id@,
                    req.message_id@,
                    our_node@,
                    req.emoji@,
                ) {
                    done.0@ == "Reaction added"@ && views(done.1@) == seq![
                        EffectView::React {
                            target: reaction_recipient(old(self)@.chats[ci], mi, our_node@),
                            message_id: req.message_id@,
                            emoji: req.emoji@,
                            user: our_node@,
                        },
                    ] + chat_update(old(self)@.ws_connections, final(self)@.chats[ci])
                } else {
                    done.0@ == "Already reacted"@ && done.1@.len() == 0
                },
                None => r matches Err(e) && e@ == "Message not found"@,
            },
            state_wf(old(self)@) ==> state_wf(final(self)@),
    {
        broadcast use group_views;

        match locate(self, req.chat_id.as_str(), req.message_id.as_str()) {
            Some((ci, mi)) => {
                let mut effects: Vec<Effect> = Vec::new();
                if find_reaction(&self.chats[ci].messages[mi].reactions, our_node, req.emoji.as_str()).is_some() {
                    return Ok((String::from_str("Already reacted"), effects));
                }
                let reaction = MessageReaction {
                    emoji: req.emoji.clone(),
                    user: String::from_str(our_node),
                    timestamp: now,
                };
                proof {
                    if state_wf(self@) {
                        lemma_update_same_id_wf(
                            self@.chats,
                            ci as int,
                            with_reaction_at(self@.chats[ci as int], mi as int, reaction@),
                        );
                    }
                }
                let target = if !self.chats[ci].messages[mi].sender.as_str().eq(our_node) {
                    self.chats[ci].messages[mi].sender.clone()
                } else {
                    self.chats[ci].counterparty.clone()
                };
                self.chats[ci].push_reaction_at(mi, reaction);
                effects.push(
                    Effect::React {
                        target,
                        message_id: req.message_id,
                        emoji: req.emoji,
                        user: String::from_str(our_node),
                    },
                );
                let ghost first = views(effects@);
                self.push_chat_update(&mut effects, ci);
                assert(first =~= seq![
                    EffectView::React {
                        target: reaction_recipient(old(self)@.chats[ci as int], mi as int, our_node@),
                        message_id: req.message_id@,
                        emoji: req.emoji@,
                        user: our_node@,
                    },
                ]);
                Ok((String::from_str("Reaction added"), effects))
            },
            None => Err(String::from_str("Message not found")),
        }
    }

    /// Takes our reaction with the given emoji off a message and shows the
    /// chat to every node session.
    pub fn remove_reaction(&mut self, req: RemoveReactionReq, our_node: &str) -> (r: Result<
        (String, Vec<Effect>),
        String,
    >)
        ensures
            final(self)@ == (StateView {
                chats: without_reaction(
                    old(self)@.chats,
                    req.chat_id@,
                    req.message_id@,
                    our_node@,
                    req.emoji@,
                ),
                ..old(self)@
            }),
            match located_reaction(old(self)@.chats, req.chat_id@, req.message_id@, our_node@, req.emoji@) {
                Some((ci, mi, ri)) => r matches Ok(done) && done.0@ == "Reaction removed"@ && views(
                    done.1@,
                ) == chat_update(old(self)@.ws_connections, final(self)@.chats[ci]),
                None => r matches Err(e) && e@ == "Reaction not found"@,
            },
            state_wf(old(self)@) ==> state_wf(final(self)@),
    {
        broadcast use group_views;

        match locate(self, req.chat_id.as_str(), req.message_id.as_str()) {
            Some((ci, mi)) => {
                match find_reaction(&self.chats[ci].messages[mi].reactions, our_node, req.emoji.as_str()) {
                    Some(ri) => {
                        proof {
                            if state_wf(self@) {
                                lemma_update_same_id_wf(
                                    self@.chats,
                                    ci as int,
                                    without_reaction_at(self@.chats[ci as int], mi as int, ri as int),
                                );
                            }
                        }
                        self.chats[ci].remove_reaction_at(mi, ri);
                        let mut effects: Vec<Effect> = Vec::new();
                        self.push_chat_update(&mut effects, ci);
                        assert(views(effects@) =~= chat_update(
                            self@.ws_connections,
                            self@.chats[ci as int],
                        ));
                        Ok((String::from_str("Reaction removed"), effects))
                    },
                    None => Err(String::from_str("Reaction not found")),
                }
            },
            None => Err(String::from_str("Reaction not found")),
        }
    }

    /// Forwards a message into another chat, which is created if need be,
    /// and hands it over for delivery unless the chat is a guest's.
    pub fn forward_message(&mut self, req: ForwardMessageReq, our_node: &str, now: u64, nonce: u32) -> (r: Result<
        (ChatMessage, Vec<Effect>),
        String,
    >)
        ensures
            match located(old(self)@.chats, req.from_chat_id@, req.message_id@) {
                Some((ci, mi)) => {
                    let m = forwarded_message(old(self)@.chats[ci].messages[mi], our_node@, now, nonce);
                    let chat = posted_chat(old(self)@.chats, req.to_chat_id@, m, now, MessageStatus::Sending);
                    &&& final(self)@ == (StateView {
                        chats: posted(old(self)@.chats, req.to_chat_id@, m, now, MessageStatus::Sending),
                        ..old(self)@
                    })
                    &&& r matches Ok(done) && done.0@ == m && views(done.1@) == if is_browser_chat_id(
                        req.to_chat_id@,
                    ) {
                        Seq::<EffectView>::empty()
                    } else {
                        seq![EffectView::Deliver { target: chat.counterparty, message: m }]
                    }
                },
                None => (r matches Err(e) && e@ == "Message not found"@) && final(self)@ == old(self)@,
            },
            state_wf(old(self)@) ==> state_wf(final(self)@),
    {
        broadcast use group_views;

        let (from, mi) = match locate(self, req.from_chat_id.as_str(), req.message_id.as_str()) {
            Some(found) => found,
            None => {
                return Err(String::from_str("Message not found"));
            },
        };
        let source = &self.chats[from].messages[mi];
        let message = ChatMessage {
            id: make_message_id(now, nonce),
            sender: String::from_str(our_node),
            content: concat2("Forwarded: ", source.content.as_str()),
            timestamp: now,
            status: MessageStatus::Sending,
            reply_to: None,
            reactions: Vec::new(),
            message_type: source.message_type,
            file_info: clone_opt_file_info(&source.file_info),
        };
        assert(message@ == forwarded_message(
            old(self)@.chats[from as int].messages[mi as int],
            our_node@,
            now,
            nonce,
        ));
        let ci = post(self, req.to_chat_id.as_str(), message.clone(), now, MessageStatus::Sending);
        let mut effects: Vec<Effect> = Vec::new();
        if !is_browser_chat(req.to_chat_id.as_str()) {
            effects.push(
                Effect::Deliver { target: self.chats[ci].counterparty.clone(), message: message.clone() },
            );
            assert(views(effects@) =~= seq![
                EffectView::Deliver { target: self@.chats[ci as int].counterparty, message: message@ },
            ]);
        }
        Ok((message, effects))
    }
}

/// Taking a chat out keeps the ids distinct.
pub proof fn lemma_remove_chat_wf(chats: Seq<ChatView>, i: int)
    requires
        chats_wf(chats),
        0 <= i < chats.len(),
    ensures
        chats_wf(chats.remove(i)),
{
    let r = chats.remove(i);
    assert forall|a: int, b: int| 0 <= a < b < r.len() implies (#[trigger] r[a]).id != (#[trigger] r[b]).id by {
        let a0 = if a < i {
            a
        } else {
            a + 1
        };
        let b0 = if b < i {
            b
        } else {
            b + 1
        };
        assert(r[a] == chats[a0]);
        assert(r[b] == chats[b0]);
    }
}

} // verus!

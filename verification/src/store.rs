use crate::lookup::{first_true, lemma_first_true, lemma_first_true_at, lemma_first_true_none};
use crate::model::{
    group_views, views, Chat, ChatMessage, ChatView, MessageReaction, MessageView, ReactionView,
};
use crate::status::{safe_update_message_status, transition, MessageStatus};
use vstd::prelude::*;

verus! {

/// Which chats carry the id `id`.
pub open spec fn chat_flags(chats: Seq<ChatView>, id: Seq<char>) -> Seq<bool> {
    Seq::new(chats.len(), |i: int| chats[i].id == id)
}

/// Where the chat `id` stands in the store, if it is there.
pub open spec fn chat_position(chats: Seq<ChatView>, id: Seq<char>) -> Option<int> {
    first_true(chat_flags(chats, id))
}

/// How many chats carry the id `id`.
pub open spec fn chat_count(chats: Seq<ChatView>, id: Seq<char>) -> nat {
    crate::lookup::count_true(chat_flags(chats, id))
}

/// No two chats of the store share an id.
pub open spec fn chats_wf(chats: Seq<ChatView>) -> bool {
    forall|i: int, j: int| 0 <= i < j < chats.len() ==> (#[trigger] chats[i]).id != (#[trigger] chats[j]).id
}

/// Which messages carry the id `id`.
pub open spec fn message_flags(messages: Seq<MessageView>, id: Seq<char>) -> Seq<bool> {
    Seq::new(messages.len(), |i: int| messages[i].id == id)
}

/// Where the first message with the id `id` stands.
pub open spec fn message_position(messages: Seq<MessageView>, id: Seq<char>) -> Option<int> {
    first_true(message_flags(messages, id))
}

/// Which messages carry the id `id` and were sent by `sender`.
pub open spec fn sent_message_flags(messages: Seq<MessageView>, id: Seq<char>, sender: Seq<char>) -> Seq<
    bool,
> {
    Seq::new(messages.len(), |i: int| messages[i].id == id && messages[i].sender == sender)
}

/// Where the first message with the id `id` that `sender` sent stands.
pub open spec fn sent_message_position(
    messages: Seq<MessageView>,
    id: Seq<char>,
    sender: Seq<char>,
) -> Option<int> {
    first_true(sent_message_flags(messages, id, sender))
}

/// Which reactions are `user`'s reaction with `emoji`.
pub open spec fn reaction_flags(reactions: Seq<ReactionView>, user: Seq<char>, emoji: Seq<char>) -> Seq<
    bool,
> {
    Seq::new(reactions.len(), |i: int| reactions[i].user == user && reactions[i].emoji == emoji)
}

/// Where `user`'s reaction with `emoji` stands.
pub open spec fn reaction_position(
    reactions: Seq<ReactionView>,
    user: Seq<char>,
    emoji: Seq<char>,
) -> Option<int> {
    first_true(reaction_flags(reactions, user, emoji))
}

/// How many times `user` reacted with `emoji`.
pub open spec fn reaction_count(reactions: Seq<ReactionView>, user: Seq<char>, emoji: Seq<char>) -> nat {
    crate::lookup::count_true(reaction_flags(reactions, user, emoji))
}

/// A chat that was just created: no history, nothing unread, notifications on.
pub open spec fn fresh_chat(id: Seq<char>, counterparty: Seq<char>, now: u64) -> ChatView {
    ChatView {
        id,
        counterparty,
        messages: Seq::empty(),
        last_activity: now,
        unread_count: 0,
        is_blocked: false,
        notify: true,
    }
}

/// The store with a chat `id` in it: as it was where the chat exists, with a
/// fresh chat at the end where it does not.
pub open spec fn ensured(chats: Seq<ChatView>, id: Seq<char>, counterparty: Seq<char>, now: u64) -> Seq<
    ChatView,
> {
    if chat_position(chats, id) is Some {
        chats
    } else {
        chats.push(fresh_chat(id, counterparty, now))
    }
}

/// Where the chat `id` stands once it is ensured.
pub open spec fn ensured_at(chats: Seq<ChatView>, id: Seq<char>) -> int {
    match chat_position(chats, id) {
        Some(i) => i,
        None => chats.len() as int,
    }
}

/// The store with `chat` under its id: in the place of the chat that had the
/// id, or at the end.
pub open spec fn inserted(chats: Seq<ChatView>, chat: ChatView) -> Seq<ChatView> {
    match chat_position(chats, chat.id) {
        Some(i) => chats.update(i, chat),
        None => chats.push(chat),
    }
}

/// An unread count with one more message counted. A count that has reached
/// the most that it can hold stays there: it never starts over.
pub open spec fn one_more(count: u32) -> u32 {
    if count < u32::MAX {
        (count + 1) as u32
    } else {
        count
    }
}

/// The chat with `message` appended and its activity set to `at`.
pub open spec fn with_message(chat: ChatView, message: MessageView, at: u64) -> ChatView {
    ChatView { messages: chat.messages.push(message), last_activity: at, ..chat }
}

/// The message after `requested` was asked of its status.
pub open spec fn with_status(message: MessageView, requested: MessageStatus) -> MessageView {
    MessageView { status: transition(message.status, requested), ..message }
}

/// The chat after `requested` was asked of the status of message `mi`.
pub open spec fn with_status_at(chat: ChatView, mi: int, requested: MessageStatus) -> ChatView {
    ChatView { messages: chat.messages.update(mi, with_status(chat.messages[mi], requested)), ..chat }
}

/// The chat after `requested` was asked of its first message with id `id`.
pub open spec fn marked(chat: ChatView, id: Seq<char>, requested: MessageStatus) -> ChatView {
    match message_position(chat.messages, id) {
        Some(mi) => with_status_at(chat, mi, requested),
        None => chat,
    }
}

/// The chat with `reaction` appended to message `mi`.
pub open spec fn with_reaction_at(chat: ChatView, mi: int, reaction: ReactionView) -> ChatView {
    ChatView {
        messages: chat.messages.update(
            mi,
            MessageView { reactions: chat.messages[mi].reactions.push(reaction), ..chat.messages[mi] },
        ),
        ..chat
    }
}

/// The chat with reaction `ri` taken off message `mi`.
pub open spec fn without_reaction_at(chat: ChatView, mi: int, ri: int) -> ChatView {
    ChatView {
        messages: chat.messages.update(
            mi,
            MessageView { reactions: chat.messages[mi].reactions.remove(ri), ..chat.messages[mi] },
        ),
        ..chat
    }
}

/// The chat without its message `mi`.
pub open spec fn without_message_at(chat: ChatView, mi: int) -> ChatView {
    ChatView { messages: chat.messages.remove(mi), ..chat }
}

/// The chat with the content of message `mi` replaced.
pub open spec fn with_content_at(chat: ChatView, mi: int, content: Seq<char>) -> ChatView {
    ChatView {
        messages: chat.messages.update(mi, MessageView { content, ..chat.messages[mi] }),
        ..chat
    }
}

/// Finds the chat `id`.
pub fn find_chat(chats: &Vec<Chat>, id: &str) -> (r: Option<usize>)
    ensures
        match r {
            Some(i) => i < chats.len() && chat_position(views(chats@), id@) == Some(i as int),
            None => chat_position(views(chats@), id@) is None,
        },
{
    let ghost flags = chat_flags(views(chats@), id@);
    let mut i: usize = 0;
    while i < chats.len()
        invariant
            i <= chats.len(),
            flags == chat_flags(views(chats@), id@),
            forall|j: int| 0 <= j < i ==> !#[trigger] flags[j],
        decreases chats.len() - i,
    {
        if chats[i].id.as_str().eq(id) {
            proof {
                assert(flags[i as int]);
                lemma_first_true_at(flags, i as int);
            }
            return Some(i);
        }
        assert(!flags[i as int]);
        i += 1;
    }
    proof {
        lemma_first_true_none(flags);
    }
    None
}

/// Finds the first message with the id `id`.
pub fn find_message(messages: &Vec<ChatMessage>, id: &str) -> (r: Option<usize>)
    ensures
        match r {
            Some(i) => i < messages.len() && message_position(views(messages@), id@) == Some(i as int),
            None => message_position(views(messages@), id@) is None,
        },
{
    let ghost flags = message_flags(views(messages@), id@);
    let mut i: usize = 0;
    while i < messages.len()
        invariant
            i <= messages.len(),
            flags == message_flags(views(messages@), id@),
            forall|j: int| 0 <= j < i ==> !#[trigger] flags[j],
        decreases messages.len() - i,
    {
        if messages[i].id.as_str().eq(id) {
            proof {
                assert(flags[i as int]);
                lemma_first_true_at(flags, i as int);
            }
            return Some(i);
        }
        assert(!flags[i as int]);
        i += 1;
    }
    proof {
        lemma_first_true_none(flags);
    }
    None
}

/// Finds the first message with the id `id` that `sender` sent.
pub fn find_sent_message(messages: &Vec<ChatMessage>, id: &str, sender: &str) -> (r: Option<usize>)
    ensures
        match r {
            Some(i) => i < messages.len() && sent_message_position(views(messages@), id@, sender@)
                == Some(i as int),
            None => sent_message_position(views(messages@), id@, sender@) is None,
        },
{
    let ghost flags = sent_message_flags(views(messages@), id@, sender@);
    let mut i: usize = 0;
    while i < messages.len()
        invariant
            i <= messages.len(),
            flags == sent_message_flags(views(messages@), id@, sender@),
            forall|j: int| 0 <= j < i ==> !#[trigger] flags[j],
        decreases messages.len() - i,
    {
        if messages[i].id.as_str().eq(id) && messages[i].sender.as_str().eq(sender) {
            proof {
                assert(flags[i as int]);
                lemma_first_true_at(flags, i as int);
            }
            return Some(i);
        }
        assert(!flags[i as int]);
        i += 1;
    }
    proof {
        lemma_first_true_none(flags);
    }
    None
}

/// Finds `user`'s reaction with `emoji`.
pub fn find_reaction(reactions: &Vec<MessageReaction>, user: &str, emoji: &str) -> (r: Option<usize>)
    ensures
        match r {
            Some(i) => i < reactions.len() && reaction_position(views(reactions@), user@, emoji@)
                == Some(i as int),
            None => reaction_position(views(reactions@), user@, emoji@) is None,
        },
{
    let ghost flags = reaction_flags(views(reactions@), user@, emoji@);
    let mut i: usize = 0;
    while i < reactions.len()
        invariant
            i <= reactions.len(),
            flags == reaction_flags(views(reactions@), user@, emoji@),
            forall|j: int| 0 <= j < i ==> !#[trigger] flags[j],
        decreases reactions.len() - i,
    {
        if reactions[i].user.as_str().eq(user) && reactions[i].emoji.as_str().eq(emoji) {
            proof {
                assert(flags[i as int]);
                lemma_first_true_at(flags, i as int);
            }
            return Some(i);
        }
        assert(!flags[i as int]);
        i += 1;
    }
    proof {
        lemma_first_true_none(flags);
    }
    None
}

impl Chat {
    /// A chat without history.
    pub fn fresh(id: String, counterparty: String, now: u64) -> (chat: Chat)
        ensures
            chat@ == fresh_chat(id@, counterparty@, now),
    {
        broadcast use group_views;

        Chat {
            id,
            counterparty,
            messages: Vec::new(),
            last_activity: now,
            unread_count: 0,
            is_blocked: false,
            notify: true,
        }
    }

    /// Appends `message` and records the time of the activity.
    pub fn push_message(&mut self, message: ChatMessage, at: u64)
        ensures
            final(self)@ == with_message(old(self)@, message@, at),
    {
        broadcast use group_views;

        self.messages.push(message);
        self.last_activity = at;
    }

    /// Counts one more message as unread.
    pub fn count_unread(&mut self)
        ensures
            final(self)@ == (ChatView { unread_count: one_more(old(self)@.unread_count), ..old(self)@ }),
    {
        if self.unread_count < u32::MAX {
            self.unread_count = self.unread_count + 1;
        }
    }

    /// Asks `requested` of the status of message `mi`.
    pub fn request_status_at(&mut self, mi: usize, requested: MessageStatus)
        requires
            mi < old(self).messages.len(),
        ensures
            final(self)@ == with_status_at(old(self)@, mi as int, requested),
    {
        broadcast use group_views;

        let effective = safe_update_message_status(&self.messages[mi].status, requested);
        self.messages[mi].status = effective;
        assert(self@.messages =~= with_status_at(old(self)@, mi as int, requested).messages);
    }

    /// Asks `requested` of the status of the first message with id `id`.
    pub fn request_status(&mut self, id: &str, requested: MessageStatus)
        ensures
            final(self)@ == marked(old(self)@, id@, requested),
    {
        match find_message(&self.messages, id) {
            Some(mi) => {
                self.request_status_at(mi, requested);
            },
            None => {},
        }
    }

    /// Appends `reaction` to message `mi`.
    pub fn push_reaction_at(&mut self, mi: usize, reaction: MessageReaction)
        requires
            mi < old(self).messages.len(),
        ensures
            final(self)@ == with_reaction_at(old(self)@, mi as int, reaction@),
    {
        broadcast use group_views;

        self.messages[mi].reactions.push(reaction);
        assert(self@.messages =~= with_reaction_at(old(self)@, mi as int, reaction@).messages);
    }

    /// Takes reaction `ri` off message `mi`.
    pub fn remove_reaction_at(&mut self, mi: usize, ri: usize)
        requires
            mi < old(self).messages.len(),
            ri < old(self).messages[mi as int].reactions.len(),
        ensures
            final(self)@ == without_reaction_at(old(self)@, mi as int, ri as int),
    {
        broadcast use group_views;

        self.messages[mi].reactions.remove(ri);
        assert(self@.messages =~= without_reaction_at(old(self)@, mi as int, ri as int).messages);
    }

    /// Removes message `mi`.
    pub fn remove_message_at(&mut self, mi: usize)
        requires
            mi < old(self).messages.len(),
        ensures
            final(self)@ == without_message_at(old(self)@, mi as int),
    {
        broadcast use group_views;

        self.messages.remove(mi);
    }

    /// Replaces the content of message `mi`.
    pub fn set_content_at(&mut self, mi: usize, content: String)
        requires
            mi < old(self).messages.len(),
        ensures
            final(self)@ == with_content_at(old(self)@, mi as int, content@),
    {
        broadcast use group_views;

        self.messages[mi].content = content;
        assert(self@.messages =~= with_content_at(old(self)@, mi as int, content@).messages);
    }
}

/// Makes sure that the chat `id` exists, creating it with `counterparty`
/// where it does not, and says where it stands.
pub fn ensure_chat(chats: &mut Vec<Chat>, id: &str, counterparty: String, now: u64) -> (at: usize)
    ensures
        views(final(chats)@) == ensured(views(old(chats)@), id@, counterparty@, now),
        at == ensured_at(views(old(chats)@), id@),
        at < final(chats).len(),
        final(chats)@[at as int].id@ == id@,
        chats_wf(views(old(chats)@)) ==> chats_wf(views(final(chats)@)),
{
    broadcast use group_views;

    proof {
        lemma_first_true(chat_flags(views(chats@), id@));
    }
    match find_chat(chats, id) {
        Some(i) => {
            assert(chat_flags(views(chats@), id@)[i as int]);
            i
        },
        None => {
            chats.push(Chat::fresh(String::from_str(id), counterparty, now));
            proof {
                let before = views(old(chats)@);
                let after = views(chats@);
                if chats_wf(before) {
                    assert forall|a: int, b: int| 0 <= a < b < after.len() implies (
                    #[trigger] after[a]).id != (#[trigger] after[b]).id by {
                        assert(after[a] == before[a]);
                        assert(!chat_flags(before, id@)[a]);
                        if b < before.len() {
                            assert(after[b] == before[b]);
                        }
                    }
                }
            }
            chats.len() - 1
        },
    }
}

/// Replacing a chat by one with the same id keeps the ids distinct.
pub proof fn lemma_update_same_id_wf(chats: Seq<ChatView>, i: int, chat: ChatView)
    requires
        chats_wf(chats),
        0 <= i < chats.len(),
        chat.id == chats[i].id,
    ensures
        chats_wf(chats.update(i, chat)),
        forall|id: Seq<char>| chat_flags(chats.update(i, chat), id) == chat_flags(chats, id),
{
    let r = chats.update(i, chat);
    assert forall|a: int, b: int| 0 <= a < b < r.len() implies (#[trigger] r[a]).id != (#[trigger] r[b]).id by {
        assert(r[a].id == chats[a].id);
        assert(r[b].id == chats[b].id);
    }
    assert forall|id: Seq<char>| chat_flags(r, id) == chat_flags(chats, id) by {
        assert(chat_flags(r, id) =~= chat_flags(chats, id));
    }
}

} // verus!

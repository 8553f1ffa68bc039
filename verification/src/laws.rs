use crate::api::{after_outcome, outcome_chat, with_reaction};
use crate::chat_id::normalized_id;
use crate::lookup::{
    lemma_count_true_none, lemma_count_true_one, lemma_first_true, lemma_first_true_none,
    lemma_first_true_push_true,
};
use crate::model::{ChatView, MessageView, ReactionView};
use crate::protocol::{
    ack_flags, ack_target, acked, after_chat_creation, fan_out, located, reactable_flags, reacted,
    reaction_target,
};
use crate::queue::pending_for;
use crate::state::{state_wf, StateView};
use crate::status::MessageStatus;
use crate::store::{
    chat_count, chat_flags, chat_position, chats_wf, ensured, marked, message_flags,
    message_position, reaction_count, reaction_flags, reaction_position, sent_message_flags,
    with_message,
};
use crate::wire::{broadcast, EffectView, ServerMessageView};
use vstd::prelude::*;

verus! {

/// In a store whose ids are distinct, a chat that is there is there once.
pub proof fn lemma_chat_counted_once(chats: Seq<ChatView>, id: Seq<char>)
    requires
        chats_wf(chats),
    ensures
        chat_count(chats, id) == if chat_position(chats, id) is Some {
            1nat
        } else {
            0nat
        },
{
    let flags = chat_flags(chats, id);
    lemma_first_true(flags);
    match chat_position(chats, id) {
        Some(k) => {
            assert forall|i: int| 0 <= i < flags.len() && i != k implies !#[trigger] flags[i] by {
                assert(flags[k]);
                if i < k {
                    assert(chats[i].id != chats[k].id);
                } else {
                    assert(chats[k].id != chats[i].id);
                }
            }
            lemma_count_true_one(flags, k);
        },
        None => {
            lemma_count_true_none(flags);
        },
    }
}

/// Once a chat is ensured it is in the store.
pub proof fn lemma_ensured_is_present(chats: Seq<ChatView>, id: Seq<char>, counterparty: Seq<char>, now: u64)
    ensures
        chat_position(ensured(chats, id, counterparty, now), id) is Some,
        chats_wf(chats) ==> chats_wf(ensured(chats, id, counterparty, now)),
{
    let flags = chat_flags(chats, id);
    lemma_first_true(flags);
    if chat_position(chats, id) is None {
        let after = ensured(chats, id, counterparty, now);
        assert(chat_flags(after, id) =~= flags.push(true));
        lemma_first_true_push_true(flags);
        if chats_wf(chats) {
            assert forall|a: int, b: int| 0 <= a < b < after.len() implies (#[trigger] after[a]).id != (
            #[trigger] after[b]).id by {
                assert(after[a] == chats[a]);
                assert(!flags[a]);
                if b < chats.len() {
                    assert(after[b] == chats[b]);
                }
            }
        }
    }
}

/// Receiving the same chat announcement twice leaves what receiving it once
/// leaves, and exactly one chat record for that counterparty.
pub proof fn lemma_chat_creation_idempotent(
    s: StateView,
    counterparty: Seq<char>,
    our: Seq<char>,
    first: u64,
    second: u64,
)
    requires
        state_wf(s),
    ensures
        after_chat_creation(after_chat_creation(s, counterparty, our, first), counterparty, our, second)
            == after_chat_creation(s, counterparty, our, first),
        chat_count(
            after_chat_creation(after_chat_creation(s, counterparty, our, first), counterparty, our, second).chats,
            normalized_id(counterparty, our),
        ) == 1,
{
    let id = normalized_id(counterparty, our);
    lemma_ensured_is_present(s.chats, id, counterparty, first);
    lemma_chat_counted_once(ensured(s.chats, id, counterparty, first), id);
}

/// An acknowledgment for an id that no message sent from this node carries
/// finds nothing and changes no chat.
pub proof fn lemma_ack_of_unknown_message(chats: Seq<ChatView>, id: Seq<char>, our: Seq<char>)
    requires
        forall|ci: int, mi: int|
            0 <= ci < chats.len() && 0 <= mi < chats[ci].messages.len() ==> !((
            #[trigger] chats[ci].messages[mi]).id == id && chats[ci].messages[mi].sender == our),
    ensures
        ack_target(chats, id, our) is None,
        acked(chats, id, our) == chats,
{
    let flags = ack_flags(chats, id, our);
    assert forall|ci: int| 0 <= ci < flags.len() implies !#[trigger] flags[ci] by {
        let inner = sent_message_flags(chats[ci].messages, id, our);
        assert forall|mi: int| 0 <= mi < inner.len() implies !#[trigger] inner[mi] by {
            assert(!(chats[ci].messages[mi].id == id && chats[ci].messages[mi].sender == our));
        }
        lemma_first_true_none(inner);
    }
    lemma_first_true_none(flags);
}

/// Reacting twice with the same emoji leaves what reacting once leaves; and
/// where there was no such reaction before, there is exactly one after.
pub proof fn lemma_reaction_added_once(
    chats: Seq<ChatView>,
    chat_id: Seq<char>,
    message_id: Seq<char>,
    user: Seq<char>,
    emoji: Seq<char>,
    first: u64,
    second: u64,
)
    ensures
        with_reaction(with_reaction(chats, chat_id, message_id, user, emoji, first), chat_id, message_id, user, emoji, second)
            == with_reaction(chats, chat_id, message_id, user, emoji, first),
        match located(chats, chat_id, message_id) {
            Some((ci, mi)) => {
                let before = chats[ci].messages[mi].reactions;
                let after = with_reaction(chats, chat_id, message_id, user, emoji, first)[ci].messages[mi].reactions;
                &&& reaction_position(after, user, emoji) is Some
                &&& reaction_count(before, user, emoji) == 0 ==> reaction_count(after, user, emoji) == 1
                &&& reaction_count(before, user, emoji) > 0 ==> after == before
            },
            None => true,
        },
{
    let once = with_reaction(chats, chat_id, message_id, user, emoji, first);
    lemma_first_true(chat_flags(chats, chat_id));
    match located(chats, chat_id, message_id) {
        Some((ci, mi)) => {
            let before = chats[ci].messages[mi].reactions;
            let flags = reaction_flags(before, user, emoji);
            lemma_first_true(flags);
            lemma_first_true(message_flags(chats[ci].messages, message_id));
            if reaction_position(before, user, emoji) is None {
                let added = ReactionView { emoji, user, timestamp: first };
                let after = once[ci].messages[mi].reactions;
                assert(after == before.push(added));
                assert(reaction_flags(after, user, emoji) =~= flags.push(true));
                lemma_first_true_push_true(flags);
                lemma_count_true_none(flags);
                lemma_count_true_one(reaction_flags(after, user, emoji), before.len() as int);
                // The second request finds the same message, which now carries the reaction.
                assert(chat_flags(once, chat_id) =~= chat_flags(chats, chat_id));
                assert(message_flags(once[ci].messages, message_id) =~= message_flags(
                    chats[ci].messages,
                    message_id,
                ));
                assert(located(once, chat_id, message_id) == Some((ci, mi)));
            } else {
                let k = reaction_position(before, user, emoji).unwrap();
                assert(flags[k]);
                if reaction_count(before, user, emoji) == 0 {
                    lemma_count_true_positive(flags, k);
                }
            }
        },
        None => {},
    }
}

/// A reaction that arrives twice is recorded once, where the message id
/// stands in one chat only.
pub proof fn lemma_reaction_received_once(
    chats: Seq<ChatView>,
    id: Seq<char>,
    emoji: Seq<char>,
    user: Seq<char>,
    first: u64,
    second: u64,
)
    requires
        forall|a: int, b: int|
            0 <= a < b < chats.len() ==> !(message_position(#[trigger] chats[a].messages, id) is Some
                && message_position(#[trigger] chats[b].messages, id) is Some),
    ensures
        reacted(reacted(chats, id, emoji, user, first), id, emoji, user, second) == reacted(
            chats,
            id,
            emoji,
            user,
            first,
        ),
{
    let once = reacted(chats, id, emoji, user, first);
    let flags = reactable_flags(chats, id, user, emoji);
    lemma_first_true(flags);
    match reaction_target(chats, id, user, emoji) {
        Some(ci) => {
            assert(flags[ci]);
            let mi = message_position(chats[ci].messages, id).unwrap();
            lemma_first_true(message_flags(chats[ci].messages, id));
            let before = chats[ci].messages[mi].reactions;
            let after = once[ci].messages[mi].reactions;
            assert(after == before.push(ReactionView { emoji, user, timestamp: first }));
            let after_flags = reaction_flags(after, user, emoji);
            assert(after_flags[before.len() as int]);
            lemma_first_true(after_flags);
            assert(message_flags(once[ci].messages, id) =~= message_flags(chats[ci].messages, id));
            let again = reactable_flags(once, id, user, emoji);
            assert forall|j: int| 0 <= j < again.len() implies !#[trigger] again[j] by {
                if j < ci {
                    assert(once[j] == chats[j]);
                    assert(!(message_position(chats[j].messages, id) is Some && message_position(
                        chats[ci].messages,
                        id,
                    ) is Some));
                } else if j > ci {
                    assert(once[j] == chats[j]);
                    assert(!(message_position(chats[ci].messages, id) is Some && message_position(
                        chats[j].messages,
                        id,
                    ) is Some));
                }
            }
            lemma_first_true_none(again);
        },
        None => {},
    }
}

/// A position that holds is counted.
pub proof fn lemma_count_true_positive(flags: Seq<bool>, k: int)
    requires
        0 <= k < flags.len(),
        flags[k],
    ensures
        crate::lookup::count_true(flags) > 0,
    decreases flags.len(),
{
    if k < flags.len() - 1 {
        assert(flags.drop_last()[k] == flags[k]);
        lemma_count_true_positive(flags.drop_last(), k);
    }
}

/// Whatever is asked of a message of a chat, no status in the chat moves
/// backwards, a terminal status stays what it is, and nothing but a status
/// changes.
pub proof fn lemma_status_only_moves_forward(chat: ChatView, id: Seq<char>, requested: MessageStatus)
    ensures
        marked(chat, id, requested).messages.len() == chat.messages.len(),
        forall|i: int|
            0 <= i < chat.messages.len() ==> {
                let before = #[trigger] chat.messages[i];
                let after = marked(chat, id, requested).messages[i];
                &&& before.status.rank() <= after.status.rank()
                &&& before.status.is_terminal() ==> after.status == before.status
                &&& after == MessageView { status: after.status, ..before }
            },
        marked(chat, id, requested) == (ChatView {
            messages: marked(chat, id, requested).messages,
            ..chat
        }),
{
    lemma_first_true(message_flags(chat.messages, id));
}

/// Where a chat is new, every node session is sent the chat before the
/// message: the pushes come in pairs, one pair for each channel in turn.
pub proof fn lemma_chat_comes_before_message(
    channels: Seq<u32>,
    update: ServerMessageView,
    message: ServerMessageView,
)
    ensures
        fan_out(channels, Some(update), message).len() == 2 * channels.len(),
        forall|i: int|
            0 <= i < channels.len() ==> fan_out(channels, Some(update), message)[2 * i] == (
            EffectView::Push { channel_id: #[trigger] channels[i], frame: update }) && fan_out(
                channels,
                Some(update),
                message,
            )[2 * i + 1] == (EffectView::Push { channel_id: channels[i], frame: message }),
    decreases channels.len(),
{
    if channels.len() > 0 {
        let front = channels.drop_last();
        lemma_chat_comes_before_message(front, update, message);
        let all = fan_out(channels, Some(update), message);
        assert forall|i: int| 0 <= i < channels.len() implies all[2 * i] == (EffectView::Push {
            channel_id: #[trigger] channels[i],
            frame: update,
        }) && all[2 * i + 1] == (EffectView::Push { channel_id: channels[i], frame: message }) by {
            if i < front.len() {
                assert(front[i] == channels[i]);
                assert(all[2 * i] == fan_out(front, Some(update), message)[2 * i]);
                assert(all[2 * i + 1] == fan_out(front, Some(update), message)[2 * i + 1]);
            }
        }
    }
}

/// Where a chat is known, every node session is sent the message alone.
pub proof fn lemma_message_alone(channels: Seq<u32>, message: ServerMessageView)
    ensures
        fan_out(channels, None, message) == broadcast(channels, message),
    decreases channels.len(),
{
    if channels.len() > 0 {
        lemma_message_alone(channels.drop_last(), message);
        assert(fan_out(channels, None, message) =~= broadcast(channels, message));
    } else {
        assert(fan_out(channels, None, message) =~= broadcast(channels, message));
    }
}

/// A message that this node sends under an id that is new to its chat ends
/// `Sent` where the attempt to deliver it succeeds and `Failed` where it
/// does not, and nothing else in the chat changes.
pub proof fn lemma_send_ends_sent_or_failed(chat: ChatView, m: MessageView, now: u64, delivered: bool)
    requires
        m.status == MessageStatus::Sending,
        forall|i: int| 0 <= i < chat.messages.len() ==> (#[trigger] chat.messages[i]).id != m.id,
    ensures
        ({
            let sent = marked(with_message(chat, m, now), m.id, MessageStatus::Sent);
            let ended = outcome_chat(sent, m, delivered);
            &&& sent.messages == chat.messages.push(MessageView { status: MessageStatus::Sent, ..m })
            &&& ended.messages == chat.messages.push(
                MessageView {
                    status: if delivered {
                        MessageStatus::Sent
                    } else {
                        MessageStatus::Failed
                    },
                    ..m
                },
            )
            &&& ended == ChatView { messages: ended.messages, last_activity: now, ..chat }
        }),
{
    let added = with_message(chat, m, now);
    let at = chat.messages.len() as int;
    let flags = message_flags(added.messages, m.id);
    assert(crate::lookup::is_first_true(flags, at)) by {
        assert forall|j: int| 0 <= j < at implies !#[trigger] flags[j] by {
            assert(added.messages[j] == chat.messages[j]);
        }
    }
    crate::lookup::lemma_first_true_at(flags, at);
    let sent = marked(added, m.id, MessageStatus::Sent);
    assert(sent.messages =~= chat.messages.push(MessageView { status: MessageStatus::Sent, ..m }));
    let again = message_flags(sent.messages, m.id);
    assert(crate::lookup::is_first_true(again, at)) by {
        assert forall|j: int| 0 <= j < at implies !#[trigger] again[j] by {
            assert(sent.messages[j] == chat.messages[j]);
        }
    }
    crate::lookup::lemma_first_true_at(again, at);
    let ended = outcome_chat(sent, m, delivered);
    assert(ended.messages =~= chat.messages.push(
        MessageView {
            status: if delivered {
                MessageStatus::Sent
            } else {
                MessageStatus::Failed
            },
            ..m
        },
    ));
}

/// A send that fails leaves the message waiting for its target, behind
/// whatever waited for it before, and leaves everybody else's messages
/// alone.
pub proof fn lemma_failed_send_is_queued(
    s: StateView,
    chat_id: Seq<char>,
    target: Seq<char>,
    m: MessageView,
    whom: Seq<char>,
)
    ensures
        pending_for(after_outcome(s, chat_id, target, m, false).delivery_queue, whom) == if whom == target {
            pending_for(s.delivery_queue, target).push(m)
        } else {
            pending_for(s.delivery_queue, whom)
        },
        after_outcome(s, chat_id, target, m, true).delivery_queue == s.delivery_queue,
{
    crate::queue::lemma_enqueued_pending(s.delivery_queue, target, m, whom);
}

} // verus!

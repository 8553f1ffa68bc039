use crate::lookup::{
    first_true, is_first_true, lemma_first_true, lemma_first_true_at, lemma_first_true_none,
    lemma_first_true_push_false, lemma_first_true_push_true, lemma_first_true_remove_false,
    lemma_first_true_remove_only,
};
use crate::model::{clone_messages, group_views, opt_view, views, ChatMessage, MessageView};
use crate::wire::{Effect, EffectView};
use vstd::prelude::*;

verus! {

/// The messages waiting for one counterparty, oldest first.
#[derive(Debug, PartialEq)]
pub struct QueueEntry {
    pub counterparty: String,
    pub messages: Vec<ChatMessage>,
}

pub struct QueueEntryView {
    pub counterparty: Seq<char>,
    pub messages: Seq<MessageView>,
}

impl View for QueueEntry {
    type V = QueueEntryView;

    open spec fn view(&self) -> QueueEntryView {
        QueueEntryView { counterparty: self.counterparty@, messages: views(self.messages@) }
    }
}

impl Clone for QueueEntry {
    fn clone(&self) -> (r: Self)
        ensures
            r@ == self@,
    {
        QueueEntry { counterparty: self.counterparty.clone(), messages: clone_messages(&self.messages) }
    }
}

/// Messages that could not be delivered yet, by counterparty. The queue is a
/// plain value: whoever shares it between tasks guards it with a lock and
/// keeps each access short.
#[derive(Debug, PartialEq)]
pub struct DeliveryQueue {
    pub entries: Vec<QueueEntry>,
}

impl View for DeliveryQueue {
    type V = Seq<QueueEntryView>;

    open spec fn view(&self) -> Seq<QueueEntryView> {
        views(self.entries@)
    }
}

/// Which entries belong to `counterparty`.
pub open spec fn entry_flags(q: Seq<QueueEntryView>, counterparty: Seq<char>) -> Seq<bool> {
    Seq::new(q.len(), |i: int| q[i].counterparty == counterparty)
}

/// Where the entry of `counterparty` stands, if it has one.
pub open spec fn entry_position(q: Seq<QueueEntryView>, counterparty: Seq<char>) -> Option<int> {
    first_true(entry_flags(q, counterparty))
}

/// The messages waiting for `counterparty`, oldest first.
pub open spec fn pending_for(q: Seq<QueueEntryView>, counterparty: Seq<char>) -> Seq<MessageView> {
    match entry_position(q, counterparty) {
        Some(i) => q[i].messages,
        None => Seq::empty(),
    }
}

/// Every counterparty has at most one entry, and no entry is empty.
pub open spec fn queue_wf(q: Seq<QueueEntryView>) -> bool {
    &&& forall|i: int, j: int|
        0 <= i < j < q.len() ==> (#[trigger] q[i]).counterparty != (#[trigger] q[j]).counterparty
    &&& forall|i: int| 0 <= i < q.len() ==> (#[trigger] q[i]).messages.len() > 0
}

/// The queue after `message` was added for `counterparty`.
pub open spec fn enqueued(q: Seq<QueueEntryView>, counterparty: Seq<char>, message: MessageView) -> Seq<
    QueueEntryView,
> {
    match entry_position(q, counterparty) {
        Some(i) => q.update(
            i,
            QueueEntryView { counterparty: q[i].counterparty, messages: q[i].messages.push(message) },
        ),
        None => q.push(QueueEntryView { counterparty, messages: seq![message] }),
    }
}

/// `messages` without those whose id is `id`, order kept.
pub open spec fn without_id(messages: Seq<MessageView>, id: Seq<char>) -> Seq<MessageView>
    decreases messages.len(),
{
    if messages.len() == 0 {
        Seq::empty()
    } else if messages.last().id == id {
        without_id(messages.drop_last(), id)
    } else {
        without_id(messages.drop_last(), id).push(messages.last())
    }
}

/// The queue after the message `id` was delivered to `counterparty`: the
/// message is gone, and so is the entry if nothing else waits in it.
pub open spec fn removed_on_success(q: Seq<QueueEntryView>, counterparty: Seq<char>, id: Seq<char>) -> Seq<
    QueueEntryView,
> {
    match entry_position(q, counterparty) {
        Some(i) => {
            let rest = without_id(q[i].messages, id);
            if rest.len() == 0 {
                q.remove(i)
            } else {
                q.update(i, QueueEntryView { counterparty: q[i].counterparty, messages: rest })
            }
        },
        None => q,
    }
}

/// The queue after the messages with the ids `ids` were delivered to
/// `counterparty`, one after the other.
pub open spec fn after_deliveries(q: Seq<QueueEntryView>, counterparty: Seq<char>, ids: Seq<Seq<char>>) -> Seq<
    QueueEntryView,
>
    decreases ids.len(),
{
    if ids.len() == 0 {
        q
    } else {
        removed_on_success(after_deliveries(q, counterparty, ids.drop_last()), counterparty, ids.last())
    }
}

/// The ids of `messages`, in order.
pub open spec fn ids_of(messages: Seq<MessageView>) -> Seq<Seq<char>> {
    Seq::new(messages.len(), |i: int| messages[i].id)
}

/// The oldest message waiting for `counterparty`.
pub open spec fn head_for(q: Seq<QueueEntryView>, counterparty: Seq<char>) -> Option<MessageView> {
    if pending_for(q, counterparty).len() > 0 {
        Some(pending_for(q, counterparty)[0])
    } else {
        None
    }
}

/// One delivery attempt per entry: its oldest message, to its counterparty.
pub open spec fn sweep_attempts(q: Seq<QueueEntryView>) -> Seq<EffectView>
    decreases q.len(),
{
    if q.len() == 0 {
        Seq::empty()
    } else if q.last().messages.len() == 0 {
        sweep_attempts(q.drop_last())
    } else {
        sweep_attempts(q.drop_last()).push(
            EffectView::Deliver { target: q.last().counterparty, message: q.last().messages[0] },
        )
    }
}

/// The names of the queue's counterparties, in the order of their entries.
pub open spec fn counterparties(q: Seq<QueueEntryView>) -> Seq<Seq<char>> {
    Seq::new(q.len(), |i: int| q[i].counterparty)
}

pub proof fn lemma_without_id_push(messages: Seq<MessageView>, m: MessageView, id: Seq<char>)
    ensures
        without_id(messages.push(m), id) == if m.id == id {
            without_id(messages, id)
        } else {
            without_id(messages, id).push(m)
        },
{
    assert(messages.push(m).drop_last() =~= messages);
}

/// Removing an id that does not occur changes nothing.
pub proof fn lemma_without_id_absent(messages: Seq<MessageView>, id: Seq<char>)
    requires
        forall|i: int| 0 <= i < messages.len() ==> (#[trigger] messages[i]).id != id,
    ensures
        without_id(messages, id) == messages,
    decreases messages.len(),
{
    if messages.len() > 0 {
        lemma_without_id_absent(messages.drop_last(), id);
        assert(messages.drop_last().push(messages.last()) =~= messages);
    }
}

/// What is left after a removal holds no message with that id, and holds
/// every other message that was there.
pub proof fn lemma_without_id_content(messages: Seq<MessageView>, id: Seq<char>)
    ensures
        without_id(messages, id).len() <= messages.len(),
        forall|i: int|
            0 <= i < without_id(messages, id).len() ==> (#[trigger] without_id(messages, id)[i]).id
                != id && messages.contains(without_id(messages, id)[i]),
        forall|i: int|
            0 <= i < messages.len() && (#[trigger] messages[i]).id != id ==> without_id(
                messages,
                id,
            ).contains(messages[i]),
    decreases messages.len(),
{
    if messages.len() > 0 {
        let front = messages.drop_last();
        let last = messages.last();
        lemma_without_id_content(front, id);
        let rest = without_id(front, id);
        let all = without_id(messages, id);
        assert forall|i: int| 0 <= i < all.len() implies (#[trigger] all[i]).id != id
            && messages.contains(all[i]) by {
            if i < rest.len() {
                assert(all[i] == rest[i]);
                let k = choose|k: int| 0 <= k < front.len() && front[k] == rest[i];
                assert(messages[k] == all[i]);
            } else {
                assert(all[i] == last);
                assert(messages[messages.len() - 1] == last);
            }
        }
        assert forall|i: int| 0 <= i < messages.len() && (#[trigger] messages[i]).id
            != id implies all.contains(messages[i]) by {
            if i < front.len() {
                assert(front[i] == messages[i]);
                let k = choose|k: int| 0 <= k < rest.len() && rest[k] == front[i];
                assert(all[k] == messages[i]);
            } else {
                assert(all[all.len() - 1] == messages[i]);
            }
        }
    }
}

impl DeliveryQueue {
    /// An empty queue.
    pub fn new() -> (q: Self)
        ensures
            q@ == Seq::<QueueEntryView>::empty(),
            queue_wf(q@),
    {
        broadcast use group_views;

        DeliveryQueue { entries: Vec::new() }
    }

    /// How many counterparties have messages waiting.
    pub fn len(&self) -> (n: usize)
        ensures
            n == self@.len(),
    {
        self.entries.len()
    }

    /// Whether nothing waits at all.
    pub fn is_empty(&self) -> (r: bool)
        ensures
            r == (self@.len() == 0),
    {
        self.entries.len() == 0
    }

    /// Finds the entry of `counterparty`.
    pub fn find_entry(&self, counterparty: &str) -> (r: Option<usize>)
        ensures
            match r {
                Some(i) => i < self.entries.len() && entry_position(self@, counterparty@) == Some(
                    i as int,
                ),
                None => entry_position(self@, counterparty@) is None,
            },
    {
        let ghost flags = entry_flags(self@, counterparty@);
        let mut i: usize = 0;
        while i < self.entries.len()
            invariant
                i <= self.entries.len(),
                flags == entry_flags(self@, counterparty@),
                forall|j: int| 0 <= j < i ==> !#[trigger] flags[j],
            decreases self.entries.len() - i,
        {
            if self.entries[i].counterparty.as_str().eq(counterparty) {
                proof {
                    assert(flags[i as int]);
                    lemma_first_true_at(flags, i as int);
                }
                return Some(i);
            }
            assert(!flags[i as int]);
            i += 1;
        }
        proof {
            lemma_first_true_none(flags);
        }
        None
    }

    /// Adds `message` behind whatever already waits for `counterparty`.
    /// Nothing is deduplicated.
    pub fn enqueue(&mut self, counterparty: &str, message: ChatMessage)
        ensures
            final(self)@ == enqueued(old(self)@, counterparty@, message@),
            queue_wf(old(self)@) ==> queue_wf(final(self)@),
    {
        broadcast use group_views;

        proof {
            if queue_wf(self@) {
                lemma_enqueued_wf(self@, counterparty@, message@);
            }
        }
        match self.find_entry(counterparty) {
            Some(i) => {
                self.entries[i].messages.push(message);
                assert(self@ =~= enqueued(old(self)@, counterparty@, message@));
            },
            None => {
                let mut messages: Vec<ChatMessage> = Vec::new();
                messages.push(message);
                assert(views(messages@) =~= seq![message@]);
                self.entries.push(QueueEntry { counterparty: String::from_str(counterparty), messages });
            },
        }
    }

    /// The oldest message waiting for `counterparty`, which stays queued:
    /// it leaves only when its delivery is confirmed, so it blocks the
    /// messages behind it until then.
    pub fn drain_attempt(&self, counterparty: &str) -> (head: Option<ChatMessage>)
        ensures
            opt_view(head) == head_for(self@, counterparty@),
    {
        match self.find_entry(counterparty) {
            Some(i) => {
                if self.entries[i].messages.len() > 0 {
                    Some(self.entries[i].messages[0].clone())
                } else {
                    None
                }
            },
            None => None,
        }
    }

    /// Removes the delivered message `message_id` from the entry of
    /// `counterparty`, and the entry with it if nothing else waits there.
    pub fn remove_on_success(&mut self, counterparty: &str, message_id: &str)
        ensures
            final(self)@ == removed_on_success(old(self)@, counterparty@, message_id@),
            queue_wf(old(self)@) ==> queue_wf(final(self)@),
    {
        broadcast use group_views;

        proof {
            if queue_wf(self@) {
                lemma_removed_on_success_wf(self@, counterparty@, message_id@);
            }
        }
        match self.find_entry(counterparty) {
            Some(i) => {
                let rest = retain_other_ids(&self.entries[i].messages, message_id);
                if rest.len() == 0 {
                    self.entries.remove(i);
                } else {
                    self.entries[i].messages = rest;
                    assert(self@ =~= removed_on_success(old(self)@, counterparty@, message_id@));
                }
            },
            None => {},
        }
    }

    /// Everything that waits for `counterparty`, oldest first. The messages
    /// stay queued: each leaves only when its delivery is confirmed.
    pub fn pending(&self, counterparty: &str) -> (messages: Vec<ChatMessage>)
        ensures
            views(messages@) == pending_for(self@, counterparty@),
    {
        broadcast use group_views;

        match self.find_entry(counterparty) {
            Some(i) => clone_messages(&self.entries[i].messages),
            None => Vec::new(),
        }
    }

    /// The counterparties that have messages waiting, in queue order.
    pub fn pending_counterparties(&self) -> (names: Vec<String>)
        ensures
            views(names@) == counterparties(self@),
    {
        broadcast use group_views;

        let ghost all = counterparties(self@);
        let mut names: Vec<String> = Vec::new();
        let mut i: usize = 0;
        while i < self.entries.len()
            invariant
                i <= self.entries.len(),
                all == counterparties(self@),
                views(names@) == all.subrange(0, i as int),
            decreases self.entries.len() - i,
        {
            names.push(self.entries[i].counterparty.clone());
            i += 1;
            assert(all.subrange(0, i as int) =~= all.subrange(0, i - 1).push(all[i - 1]));
        }
        assert(all.subrange(0, i as int) =~= all);
        names
    }

    /// The attempts of one sweep: for every counterparty its oldest message
    /// and nothing behind it.
    pub fn sweep(&self) -> (attempts: Vec<Effect>)
        ensures
            views(attempts@) == sweep_attempts(self@),
    {
        broadcast use group_views;

        let mut attempts: Vec<Effect> = Vec::new();
        let mut i: usize = 0;
        assert(self@.subrange(0, 0) =~= Seq::<QueueEntryView>::empty());
        while i < self.entries.len()
            invariant
                i <= self.entries.len(),
                views(attempts@) == sweep_attempts(self@.subrange(0, i as int)),
            decreases self.entries.len() - i,
        {
            assert(self@.subrange(0, i + 1).drop_last() =~= self@.subrange(0, i as int));
            if self.entries[i].messages.len() > 0 {
                attempts.push(
                    Effect::Deliver {
                        target: self.entries[i].counterparty.clone(),
                        message: self.entries[i].messages[0].clone(),
                    },
                );
            }
            i += 1;
        }
        assert(self@.subrange(0, i as int) =~= self@);
        attempts
    }

    /// Takes note of how a delivery attempt ended, be it the attempt of a
    /// sweep or one of a flush. A delivered message leaves the queue; a
    /// failed one stays where it is, with everything behind it. Returns
    /// whether further attempts to this counterparty make sense right now.
    pub fn report_attempt(&mut self, counterparty: &str, message_id: &str, delivered: bool) -> (go_on: bool)
        ensures
            go_on == delivered,
            final(self)@ == if delivered {
                removed_on_success(old(self)@, counterparty@, message_id@)
            } else {
                old(self)@
            },
            queue_wf(old(self)@) ==> queue_wf(final(self)@),
    {
        if delivered {
            self.remove_on_success(counterparty, message_id);
        }
        delivered
    }
}

impl Clone for DeliveryQueue {
    fn clone(&self) -> (q: Self)
        ensures
            q@ == self@,
    {
        broadcast use group_views;

        let mut entries: Vec<QueueEntry> = Vec::new();
        let mut i: usize = 0;
        while i < self.entries.len()
            invariant
                i <= self.entries.len(),
                views(entries@) == self@.subrange(0, i as int),
            decreases self.entries.len() - i,
        {
            entries.push(
                QueueEntry {
                    counterparty: self.entries[i].counterparty.clone(),
                    messages: clone_messages(&self.entries[i].messages),
                },
            );
            i += 1;
            assert(self@.subrange(0, i as int) =~= self@.subrange(0, i - 1).push(self@[i - 1]));
        }
        assert(self@.subrange(0, i as int) =~= self@);
        DeliveryQueue { entries }
    }
}

impl Default for DeliveryQueue {
    fn default() -> (q: Self)
        ensures
            q@ == Seq::<QueueEntryView>::empty(),
    {
        DeliveryQueue::new()
    }
}

/// The messages of `messages` whose id is not `id`, order kept.
pub fn retain_other_ids(messages: &Vec<ChatMessage>, id: &str) -> (rest: Vec<ChatMessage>)
    ensures
        views(rest@) == without_id(views(messages@), id@),
{
    broadcast use group_views;

    let mut rest: Vec<ChatMessage> = Vec::new();
    let mut i: usize = 0;
    assert(views(messages@).subrange(0, 0) =~= Seq::<MessageView>::empty());
    while i < messages.len()
        invariant
            i <= messages.len(),
            views(rest@) == without_id(views(messages@).subrange(0, i as int), id@),
        decreases messages.len() - i,
    {
        assert(views(messages@).subrange(0, i + 1).drop_last() =~= views(messages@).subrange(
            0,
            i as int,
        ));
        if !messages[i].id.as_str().eq(id) {
            rest.push(messages[i].clone());
        }
        i += 1;
    }
    assert(views(messages@).subrange(0, i as int) =~= views(messages@));
    rest
}

pub proof fn lemma_enqueued_wf(q: Seq<QueueEntryView>, counterparty: Seq<char>, message: MessageView)
    requires
        queue_wf(q),
    ensures
        queue_wf(enqueued(q, counterparty, message)),
{
    lemma_first_true(entry_flags(q, counterparty));
    let r = enqueued(q, counterparty, message);
    match entry_position(q, counterparty) {
        Some(i) => {
            assert forall|a: int, b: int| 0 <= a < b < r.len() implies (#[trigger] r[a]).counterparty
                != (#[trigger] r[b]).counterparty by {
                assert(r[a].counterparty == q[a].counterparty);
                assert(r[b].counterparty == q[b].counterparty);
            }
        },
        None => {
            assert forall|a: int, b: int| 0 <= a < b < r.len() implies (#[trigger] r[a]).counterparty
                != (#[trigger] r[b]).counterparty by {
                assert(r[a] == q[a]);
                assert(!entry_flags(q, counterparty)[a]);
                if b < q.len() {
                    assert(r[b] == q[b]);
                }
            }
        },
    }
}

pub proof fn lemma_removed_on_success_wf(q: Seq<QueueEntryView>, counterparty: Seq<char>, id: Seq<char>)
    requires
        queue_wf(q),
    ensures
        queue_wf(removed_on_success(q, counterparty, id)),
{
    lemma_first_true(entry_flags(q, counterparty));
    let r = removed_on_success(q, counterparty, id);
    match entry_position(q, counterparty) {
        Some(i) => {
            if without_id(q[i].messages, id).len() == 0 {
                lemma_remove_wf(q, i);
            } else {
                assert forall|a: int, b: int| 0 <= a < b < r.len() implies (
                #[trigger] r[a]).counterparty != (#[trigger] r[b]).counterparty by {
                    assert(r[a].counterparty == q[a].counterparty);
                    assert(r[b].counterparty == q[b].counterparty);
                }
            }
        },
        None => {},
    }
}

proof fn lemma_remove_wf(q: Seq<QueueEntryView>, i: int)
    requires
        queue_wf(q),
        0 <= i < q.len(),
    ensures
        queue_wf(q.remove(i)),
{
    let r = q.remove(i);
    assert forall|a: int, b: int| 0 <= a < b < r.len() implies (#[trigger] r[a]).counterparty != (
    #[trigger] r[b]).counterparty by {
        let a0 = if a < i {
            a
        } else {
            a + 1
        };
        let b0 = if b < i {
            b
        } else {
            b + 1
        };
        assert(r[a] == q[a0]);
        assert(r[b] == q[b0]);
    }
    assert forall|a: int| 0 <= a < r.len() implies (#[trigger] r[a]).messages.len() > 0 by {
        let a0 = if a < i {
            a
        } else {
            a + 1
        };
        assert(r[a] == q[a0]);
    }
}

/// What waits for whom after a message was enqueued: the message waits
/// behind the others of its counterparty, and nothing else changed.
pub proof fn lemma_enqueued_pending(
    q: Seq<QueueEntryView>,
    counterparty: Seq<char>,
    message: MessageView,
    whom: Seq<char>,
)
    ensures
        pending_for(enqueued(q, counterparty, message), whom) == if whom == counterparty {
            pending_for(q, counterparty).push(message)
        } else {
            pending_for(q, whom)
        },
        entry_position(enqueued(q, counterparty, message), counterparty) is Some,
{
    let e = enqueued(q, counterparty, message);
    lemma_first_true(entry_flags(q, counterparty));
    lemma_first_true(entry_flags(q, whom));
    match entry_position(q, counterparty) {
        Some(i) => {
            assert(entry_flags(q, counterparty)[i]);
            assert(entry_flags(e, whom) =~= entry_flags(q, whom));
            assert(entry_flags(e, counterparty) =~= entry_flags(q, counterparty));
            if whom != counterparty {
                match entry_position(q, whom) {
                    Some(o) => {
                        assert(entry_flags(q, whom)[o]);
                    },
                    None => {},
                }
            }
        },
        None => {
            assert(entry_flags(e, counterparty) =~= entry_flags(q, counterparty).push(true));
            lemma_first_true_push_true(entry_flags(q, counterparty));
            assert(seq![message] =~= Seq::<MessageView>::empty().push(message));
            if whom != counterparty {
                assert(entry_flags(e, whom) =~= entry_flags(q, whom).push(false));
                lemma_first_true_push_false(entry_flags(q, whom));
                match entry_position(q, whom) {
                    Some(o) => {
                        assert(e[o] == q[o]);
                    },
                    None => {},
                }
            }
        },
    }
}

/// What waits for whom after a delivery was confirmed: the delivered
/// message no longer waits for its counterparty, the counterparty keeps an
/// entry only if something else waits for it, and nothing else changed.
pub proof fn lemma_removed_pending(q: Seq<QueueEntryView>, counterparty: Seq<char>, id: Seq<char>, whom: Seq<char>)
    requires
        queue_wf(q),
    ensures
        pending_for(removed_on_success(q, counterparty, id), whom) == if whom == counterparty {
            without_id(pending_for(q, counterparty), id)
        } else {
            pending_for(q, whom)
        },
        entry_position(removed_on_success(q, counterparty, id), counterparty) is None <==> without_id(
            pending_for(q, counterparty),
            id,
        ).len() == 0,
{
    let r = removed_on_success(q, counterparty, id);
    lemma_first_true(entry_flags(q, counterparty));
    lemma_first_true(entry_flags(q, whom));
    match entry_position(q, counterparty) {
        Some(i) => {
            assert(entry_flags(q, counterparty)[i]);
            if without_id(q[i].messages, id).len() == 0 {
                assert(entry_flags(r, counterparty) =~= entry_flags(q, counterparty).remove(i));
                assert forall|j: int| 0 <= j < q.len() && j != i implies !#[trigger] entry_flags(
                    q,
                    counterparty,
                )[j] by {
                    if j < i {
                        assert(q[j].counterparty != q[i].counterparty);
                    } else {
                        assert(q[i].counterparty != q[j].counterparty);
                    }
                }
                lemma_first_true_remove_only(entry_flags(q, counterparty), i);
                if whom != counterparty {
                    assert(entry_flags(r, whom) =~= entry_flags(q, whom).remove(i));
                    assert(!entry_flags(q, whom)[i]);
                    lemma_first_true_remove_false(entry_flags(q, whom), i);
                    match entry_position(q, whom) {
                        Some(o) => {
                            assert(entry_flags(q, whom)[o]);
                            let o2 = if o > i {
                                o - 1
                            } else {
                                o
                            };
                            assert(r[o2] == q[o]);
                        },
                        None => {},
                    }
                }
            } else {
                assert(entry_flags(r, counterparty) =~= entry_flags(q, counterparty));
                assert(entry_flags(r, whom) =~= entry_flags(q, whom));
                if whom != counterparty {
                    match entry_position(q, whom) {
                        Some(o) => {
                            assert(entry_flags(q, whom)[o]);
                        },
                        None => {},
                    }
                }
            }
        },
        None => {},
    }
}

/// Enqueuing a message and then confirming its delivery leaves exactly what
/// waited before, less any older message of the same id; the counterparty
/// keeps an entry only if something still waits for it; and nobody else's
/// messages are touched.
pub proof fn lemma_enqueue_then_success(
    q: Seq<QueueEntryView>,
    counterparty: Seq<char>,
    message: MessageView,
    other: Seq<char>,
)
    requires
        queue_wf(q),
        other != counterparty,
    ensures
        pending_for(removed_on_success(enqueued(q, counterparty, message), counterparty, message.id), counterparty)
            == without_id(pending_for(q, counterparty), message.id),
        entry_position(
            removed_on_success(enqueued(q, counterparty, message), counterparty, message.id),
            counterparty,
        ) is None <==> without_id(pending_for(q, counterparty), message.id).len() == 0,
        pending_for(removed_on_success(enqueued(q, counterparty, message), counterparty, message.id), other)
            == pending_for(q, other),
{
    let e = enqueued(q, counterparty, message);
    lemma_enqueued_wf(q, counterparty, message);
    lemma_enqueued_pending(q, counterparty, message, counterparty);
    lemma_enqueued_pending(q, counterparty, message, other);
    lemma_removed_pending(e, counterparty, message.id, counterparty);
    lemma_removed_pending(e, counterparty, message.id, other);
    lemma_without_id_push(pending_for(q, counterparty), message, message.id);
}

/// Enqueuing a message with a fresh id and then confirming its delivery
/// gives back the queue as it was.
pub proof fn lemma_enqueue_then_success_restores(
    q: Seq<QueueEntryView>,
    counterparty: Seq<char>,
    message: MessageView,
)
    requires
        queue_wf(q),
        forall|i: int|
            0 <= i < pending_for(q, counterparty).len() ==> (#[trigger] pending_for(
                q,
                counterparty,
            )[i]).id != message.id,
    ensures
        removed_on_success(enqueued(q, counterparty, message), counterparty, message.id) == q,
{
    let e = enqueued(q, counterparty, message);
    let r = removed_on_success(e, counterparty, message.id);
    lemma_first_true(entry_flags(q, counterparty));
    let k: int = match entry_position(q, counterparty) {
        Some(i) => i,
        None => q.len() as int,
    };
    assert(is_first_true(entry_flags(e, counterparty), k)) by {
        assert(entry_flags(e, counterparty)[k]);
        assert forall|j: int| 0 <= j < k implies !#[trigger] entry_flags(e, counterparty)[j] by {
            assert(e[j].counterparty == q[j].counterparty);
            assert(!entry_flags(q, counterparty)[j]);
        }
    }
    lemma_first_true_at(entry_flags(e, counterparty), k);
    assert(e[k].messages == pending_for(q, counterparty).push(message)) by {
        if entry_position(q, counterparty) is None {
            assert(seq![message] =~= Seq::<MessageView>::empty().push(message));
        }
    }
    lemma_without_id_push(pending_for(q, counterparty), message, message.id);
    lemma_without_id_absent(pending_for(q, counterparty), message.id);
    assert(r =~= q);
}

/// Removing the id of the first message, which no message behind it
/// carries, leaves the messages behind it.
pub proof fn lemma_without_id_head(messages: Seq<MessageView>)
    requires
        messages.len() > 0,
        forall|i: int| 0 < i < messages.len() ==> (#[trigger] messages[i]).id != messages[0].id,
    ensures
        without_id(messages, messages[0].id) == messages.drop_first(),
    decreases messages.len(),
{
    if messages.len() == 1 {
        assert(without_id(messages.drop_last(), messages[0].id) =~= Seq::<MessageView>::empty());
        assert(messages.drop_first() =~= Seq::<MessageView>::empty());
    } else {
        let front = messages.drop_last();
        assert(front[0] == messages[0]);
        assert forall|i: int| 0 < i < front.len() implies (#[trigger] front[i]).id != front[0].id by {
            assert(front[i] == messages[i]);
        }
        lemma_without_id_head(front);
        assert(messages.last() == messages[messages.len() - 1]);
        assert(front.drop_first().push(messages.last()) =~= messages.drop_first());
    }
}

/// A flush that ends part-way loses nothing. After the first `delivered`
/// of the messages that wait for a counterparty were delivered and
/// reported, exactly the others still wait for it, in their order: the one
/// whose delivery failed and everything behind it. Nothing else in the queue
/// changes its place in line.
pub proof fn lemma_flush_keeps_the_rest(q: Seq<QueueEntryView>, counterparty: Seq<char>, delivered: int)
    requires
        queue_wf(q),
        0 <= delivered <= pending_for(q, counterparty).len(),
        forall|a: int, b: int|
            0 <= a < b < pending_for(q, counterparty).len() ==> (#[trigger] pending_for(
                q,
                counterparty,
            )[a]).id != (#[trigger] pending_for(q, counterparty)[b]).id,
    ensures
        queue_wf(
            after_deliveries(
                q,
                counterparty,
                ids_of(pending_for(q, counterparty).subrange(0, delivered)),
            ),
        ),
        pending_for(
            after_deliveries(
                q,
                counterparty,
                ids_of(pending_for(q, counterparty).subrange(0, delivered)),
            ),
            counterparty,
        ) == pending_for(q, counterparty).subrange(delivered, pending_for(q, counterparty).len() as int),
    decreases delivered,
{
    let waiting = pending_for(q, counterparty);
    let ids = ids_of(waiting.subrange(0, delivered));
    if delivered == 0 {
        assert(waiting.subrange(0, waiting.len() as int) =~= waiting);
    } else {
        lemma_flush_keeps_the_rest(q, counterparty, delivered - 1);
        assert(ids.drop_last() =~= ids_of(waiting.subrange(0, delivered - 1)));
        assert(ids.last() == waiting[delivered - 1].id);
        let before = after_deliveries(q, counterparty, ids.drop_last());
        let left = waiting.subrange(delivered - 1, waiting.len() as int);
        assert(pending_for(before, counterparty) == left);
        lemma_removed_on_success_wf(before, counterparty, ids.last());
        lemma_removed_pending(before, counterparty, ids.last(), counterparty);
        assert(left[0] == waiting[delivered - 1]);
        assert forall|i: int| 0 < i < left.len() implies (#[trigger] left[i]).id != left[0].id by {
            assert(left[i] == waiting[delivered - 1 + i]);
        }
        lemma_without_id_head(left);
        assert(left.drop_first() =~= waiting.subrange(delivered, waiting.len() as int));
    }
}

} // verus!

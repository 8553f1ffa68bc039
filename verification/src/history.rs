use crate::lookup::{first_true, lemma_first_true, lemma_first_true_at, lemma_first_true_none};
use crate::model::{group_views, views, Chat, ChatMessage, ChatView, MessageView};
use crate::requests::GetMessagesReq;
use crate::state::ChatState;
use crate::store::{chat_position, find_chat};
use vstd::prelude::*;

verus! {

/// Which entries of `order` point at a key below `key`.
pub open spec fn late_flags(order: Seq<int>, keys: Seq<u64>, key: u64) -> Seq<bool> {
    Seq::new(order.len(), |j: int| keys[order[j]] < key)
}

/// Where an item with the key `key` goes into `order`: before the first
/// entry with a smaller key, and so behind every entry with the same key.
pub open spec fn slot(order: Seq<int>, keys: Seq<u64>, key: u64) -> int {
    match first_true(late_flags(order, keys, key)) {
        Some(p) => p,
        None => order.len() as int,
    }
}

/// The positions of `keys` in the order of descending key; positions with
/// equal keys keep their order.
pub open spec fn newest_first(keys: Seq<u64>) -> Seq<int>
    decreases keys.len(),
{
    if keys.len() == 0 {
        Seq::empty()
    } else {
        let before = newest_first(keys.drop_last());
        before.insert(slot(before, keys, keys.last()), keys.len() - 1)
    }
}

/// The items of `items` in the order that `order` gives.
pub open spec fn arranged<T>(items: Seq<T>, order: Seq<int>) -> Seq<T> {
    Seq::new(order.len(), |i: int| items[order[i]])
}

/// The positions that a list of machine integers stands for.
pub open spec fn positions(order: Seq<usize>) -> Seq<int> {
    Seq::new(order.len(), |i: int| order[i] as int)
}

/// What `newest_first` gives: every position once, keys descending, and
/// equal keys in their first order.
pub proof fn lemma_newest_first(keys: Seq<u64>)
    ensures
        newest_first(keys).len() == keys.len(),
        forall|i: int| 0 <= i < keys.len() ==> 0 <= #[trigger] newest_first(keys)[i] < keys.len(),
        forall|i: int, j: int|
            0 <= i < j < keys.len() ==> newest_first(keys)[i] != newest_first(keys)[j],
        forall|i: int, j: int|
            0 <= i < j < keys.len() ==> keys[newest_first(keys)[i]] >= keys[newest_first(keys)[j]],
        forall|i: int, j: int|
            0 <= i < j < keys.len() && keys[newest_first(keys)[i]] == keys[newest_first(keys)[j]]
                ==> newest_first(keys)[i] < newest_first(keys)[j],
    decreases keys.len(),
{
    if keys.len() > 0 {
        let front = keys.drop_last();
        let before = newest_first(front);
        lemma_newest_first(front);
        let key = keys.last();
        let flags = late_flags(before, keys, key);
        lemma_first_true(flags);
        let p = slot(before, keys, key);
        let n = keys.len() - 1;
        let after = newest_first(keys);
        assert(after == before.insert(p, n));
        assert forall|i: int| 0 <= i < before.len() implies keys[before[i]] == front[before[i]] by {}
        // Entries before the slot have keys that are not smaller; entries from
        // the slot on have smaller keys, because the order descends.
        assert forall|j: int| 0 <= j < p implies keys[before[j]] >= key by {
            assert(!flags[j]);
        }
        assert forall|j: int| p <= j < before.len() implies keys[before[j]] < key by {
            assert(flags[p]);
            if j > p {
                assert(front[before[p]] >= front[before[j]]);
            }
        }
        assert forall|i: int| 0 <= i < keys.len() implies 0 <= #[trigger] after[i] < keys.len() by {
            if i < p {
                assert(after[i] == before[i]);
            } else if i > p {
                assert(after[i] == before[i - 1]);
            }
        }
        assert forall|i: int, j: int| 0 <= i < j < keys.len() implies after[i] != after[j] && keys[after[i]]
            >= keys[after[j]] && (keys[after[i]] == keys[after[j]] ==> after[i] < after[j]) by {
            let bi = if i < p {
                i
            } else {
                i - 1
            };
            let bj = if j < p {
                j
            } else {
                j - 1
            };
            if i != p {
                assert(after[i] == before[bi]);
                assert(0 <= before[bi] < front.len());
            }
            if j != p {
                assert(after[j] == before[bj]);
                assert(0 <= before[bj] < front.len());
            }
            if i != p && j != p {
                assert(front[before[bi]] >= front[before[bj]]);
            }
        }
    }
}

/// Computes `newest_first`.
pub fn order_newest_first(keys: &Vec<u64>) -> (order: Vec<usize>)
    ensures
        positions(order@) == newest_first(keys@),
        order.len() == keys.len(),
        forall|i: int| 0 <= i < order.len() ==> #[trigger] order[i] < keys.len(),
{
    let mut order: Vec<usize> = Vec::new();
    let mut i: usize = 0;
    assert(keys@.subrange(0, 0) =~= Seq::<u64>::empty());
    assert(positions(order@) =~= Seq::<int>::empty());
    while i < keys.len()
        invariant
            i <= keys.len(),
            order.len() == i,
            positions(order@) == newest_first(keys@.subrange(0, i as int)),
            forall|j: int| 0 <= j < order.len() ==> #[trigger] order[j] < i,
        decreases keys.len() - i,
    {
        let key = keys[i];
        let ghost prefix = keys@.subrange(0, i + 1);
        let ghost before = positions(order@);
        let ghost flags = late_flags(before, prefix, key);
        assert(prefix.drop_last() =~= keys@.subrange(0, i as int));
        assert(prefix.last() == key);
        let mut p: usize = 0;
        while p < order.len() && keys[order[p]] >= key
            invariant
                p <= order.len(),
                order.len() == i,
                i < keys.len(),
                flags == late_flags(before, prefix, key),
                before == positions(order@),
                prefix == keys@.subrange(0, i + 1),
                forall|j: int| 0 <= j < order.len() ==> #[trigger] order[j] < i,
                forall|j: int| 0 <= j < p ==> !#[trigger] flags[j],
            decreases order.len() - p,
        {
            assert(prefix[before[p as int]] == keys@[order@[p as int] as int]);
            assert(!flags[p as int]);
            p += 1;
        }
        proof {
            if p < order.len() {
                assert(prefix[before[p as int]] == keys@[order@[p as int] as int]);
                assert(flags[p as int]);
                lemma_first_true_at(flags, p as int);
            } else {
                lemma_first_true_none(flags);
            }
            assert(slot(before, prefix, key) == p);
        }
        order.insert(p, i);
        assert(positions(order@) =~= before.insert(p as int, i as int));
        i += 1;
    }
    assert(keys@.subrange(0, i as int) =~= keys@);
    order
}

/// The time of the last activity of every chat, in the order of the store.
pub open spec fn activity_keys(chats: Seq<ChatView>) -> Seq<u64> {
    Seq::new(chats.len(), |i: int| chats[i].last_activity)
}

/// The time of every message, in order.
pub open spec fn timestamps(messages: Seq<MessageView>) -> Seq<u64> {
    Seq::new(messages.len(), |i: int| messages[i].timestamp)
}

/// The messages that are older than `before`, order kept.
pub open spec fn older_than(messages: Seq<MessageView>, before: u64) -> Seq<MessageView>
    decreases messages.len(),
{
    if messages.len() == 0 {
        Seq::empty()
    } else if messages.last().timestamp < before {
        older_than(messages.drop_last(), before).push(messages.last())
    } else {
        older_than(messages.drop_last(), before)
    }
}

/// The number of messages on a page where the request names none.
pub const DEFAULT_PAGE: u64 = 50;

/// One page of a history: of the messages older than `before` (of all of
/// them where no time is given) the `limit` newest, oldest first.
pub open spec fn page(messages: Seq<MessageView>, before: Option<u64>, limit: Option<u64>) -> Seq<MessageView> {
    let pool = match before {
        Some(b) => older_than(messages, b),
        None => messages,
    };
    let sorted = arranged(pool, newest_first(timestamps(pool)));
    let wanted = match limit {
        Some(n) => n,
        None => DEFAULT_PAGE,
    };
    let n = if wanted >= sorted.len() {
        sorted.len() as int
    } else {
        wanted as int
    };
    Seq::new(n as nat, |i: int| sorted[n - 1 - i])
}

/// The messages of `messages` that are older than `before`.
pub fn collect_older(messages: &Vec<ChatMessage>, before: u64) -> (pool: Vec<ChatMessage>)
    ensures
        views(pool@) == older_than(views(messages@), before),
{
    broadcast use group_views;

    let mut pool: Vec<ChatMessage> = Vec::new();
    let mut i: usize = 0;
    assert(views(messages@).subrange(0, 0) =~= Seq::<MessageView>::empty());
    while i < messages.len()
        invariant
            i <= messages.len(),
            views(pool@) == older_than(views(messages@).subrange(0, i as int), before),
        decreases messages.len() - i,
    {
        assert(views(messages@).subrange(0, i + 1).drop_last() =~= views(messages@).subrange(
            0,
            i as int,
        ));
        if messages[i].timestamp < before {
            pool.push(messages[i].clone());
        }
        i += 1;
    }
    assert(views(messages@).subrange(0, i as int) =~= views(messages@));
    pool
}

/// One page of `messages`.
pub fn page_of(messages: &Vec<ChatMessage>, before: Option<u64>, limit: Option<u64>) -> (out: Vec<ChatMessage>)
    ensures
        views(out@) == page(views(messages@), before, limit),
{
    broadcast use group_views;

    let pool = match before {
        Some(b) => collect_older(messages, b),
        None => crate::model::clone_messages(messages),
    };
    let mut keys: Vec<u64> = Vec::new();
    let mut k: usize = 0;
    while k < pool.len()
        invariant
            k <= pool.len(),
            keys@ == timestamps(views(pool@)).subrange(0, k as int),
        decreases pool.len() - k,
    {
        keys.push(pool[k].timestamp);
        k += 1;
        assert(timestamps(views(pool@)).subrange(0, k as int) =~= timestamps(views(pool@)).subrange(
            0,
            k - 1,
        ).push(timestamps(views(pool@))[k - 1]));
    }
    assert(timestamps(views(pool@)).subrange(0, k as int) =~= timestamps(views(pool@)));
    let order = order_newest_first(&keys);
    let wanted = match limit {
        Some(n) => n,
        None => DEFAULT_PAGE,
    };
    let n: usize = if wanted >= order.len() as u64 {
        order.len()
    } else {
        wanted as usize
    };
    let ghost sorted = arranged(views(pool@), newest_first(timestamps(views(pool@))));
    let ghost want = page(views(messages@), before, limit);
    assert(want.len() == n);
    let mut out: Vec<ChatMessage> = Vec::new();
    let mut i: usize = 0;
    while i < n
        invariant
            i <= n <= order.len(),
            order.len() == pool.len(),
            positions(order@) == newest_first(timestamps(views(pool@))),
            forall|j: int| 0 <= j < order.len() ==> #[trigger] order[j] < pool.len(),
            sorted == arranged(views(pool@), newest_first(timestamps(views(pool@)))),
            want.len() == n,
            forall|j: int| 0 <= j < n ==> #[trigger] want[j] == sorted[n - 1 - j],
            views(out@) == want.subrange(0, i as int),
        decreases n - i,
    {
        let at = order[n - 1 - i];
        assert(positions(order@)[n - 1 - i] == at);
        out.push(pool[at].clone());
        i += 1;
        assert(want.subrange(0, i as int) =~= want.subrange(0, i - 1).push(want[i - 1]));
    }
    assert(want.subrange(0, i as int) =~= want);
    out
}

impl ChatState {
    /// All chats, the one with the latest activity first; chats with the
    /// same time of activity stand in the order of the store.
    pub fn get_chats(&self) -> (out: Vec<Chat>)
        ensures
            views(out@) == arranged(self@.chats, newest_first(activity_keys(self@.chats))),
    {
        broadcast use group_views;

        let mut keys: Vec<u64> = Vec::new();
        let mut k: usize = 0;
        while k < self.chats.len()
            invariant
                k <= self.chats.len(),
                keys@ == activity_keys(self@.chats).subrange(0, k as int),
            decreases self.chats.len() - k,
        {
            keys.push(self.chats[k].last_activity);
            k += 1;
            assert(activity_keys(self@.chats).subrange(0, k as int) =~= activity_keys(
                self@.chats,
            ).subrange(0, k - 1).push(activity_keys(self@.chats)[k - 1]));
        }
        assert(activity_keys(self@.chats).subrange(0, k as int) =~= activity_keys(self@.chats));
        let order = order_newest_first(&keys);
        let ghost want = arranged(self@.chats, newest_first(activity_keys(self@.chats)));
        let mut out: Vec<Chat> = Vec::new();
        let mut i: usize = 0;
        while i < order.len()
            invariant
                i <= order.len(),
                order.len() == self.chats.len(),
                positions(order@) == newest_first(activity_keys(self@.chats)),
                forall|j: int| 0 <= j < order.len() ==> #[trigger] order[j] < self.chats.len(),
                want == arranged(self@.chats, newest_first(activity_keys(self@.chats))),
                views(out@) == want.subrange(0, i as int),
            decreases order.len() - i,
        {
            let at = order[i];
            assert(positions(order@)[i as int] == at);
            out.push(self.chats[at].clone());
            i += 1;
            assert(want.subrange(0, i as int) =~= want.subrange(0, i - 1).push(want[i - 1]));
        }
        assert(want.subrange(0, i as int) =~= want);
        out
    }

    /// One page of the history of the chat that `req` names.
    pub fn get_messages(&self, req: GetMessagesReq) -> (r: Result<Vec<ChatMessage>, String>)
        ensures
            match chat_position(self@.chats, req.chat_id@) {
                Some(ci) => r matches Ok(out) && views(out@) == page(
                    self@.chats[ci].messages,
                    req.before_timestamp,
                    req.limit,
                ),
                None => r matches Err(e) && e@ == "Chat not found"@,
            },
    {
        match find_chat(&self.chats, req.chat_id.as_str()) {
            Some(ci) => Ok(page_of(&self.chats[ci].messages, req.before_timestamp, req.limit)),
            None => Err(String::from_str("Chat not found")),
        }
    }
}

} // verus!

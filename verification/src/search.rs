use crate::model::{group_views, views, Chat, ChatMessage, ChatView, MessageView};
use crate::requests::SearchChatsReq;
use crate::state::ChatState;
use crate::text::chars_of;
use vstd::prelude::*;

verus! {

/// The lower-case form of a text.
pub uninterp spec fn lowercased(text: Seq<char>) -> Seq<char>;

/// `str::to_lowercase`: the lower-case form depends on the text alone.
#[verifier::external_body]
pub(crate) fn to_lowercase(text: &str) -> (lower: String)
    ensures
        lower@ == lowercased(text@),
{
    text.to_lowercase()
}

/// Whether `needle` stands in `haystack` at the position `at`.
pub open spec fn occurs_at(needle: Seq<char>, haystack: Seq<char>, at: int) -> bool {
    0 <= at && at + needle.len() <= haystack.len() && haystack.subrange(at, at + needle.len()) == needle
}

/// Whether `needle` stands somewhere in `haystack`.
pub open spec fn occurs_in(needle: Seq<char>, haystack: Seq<char>) -> bool {
    exists|at: int| occurs_at(needle, haystack, at)
}

/// Whether one of `messages` holds `needle` in the lower-case form of its
/// content.
pub open spec fn some_content_holds(messages: Seq<MessageView>, needle: Seq<char>) -> bool {
    exists|i: int| 0 <= i < messages.len() && occurs_in(needle, lowercased(#[trigger] messages[i].content))
}

/// Whether a chat matches a query, whatever the case of the letters: the
/// query stands in the name of the counterparty or in the content of a
/// message.
pub open spec fn chat_matches(chat: ChatView, query: Seq<char>) -> bool {
    occurs_in(lowercased(query), lowercased(chat.counterparty)) || some_content_holds(
        chat.messages,
        lowercased(query),
    )
}

/// The chats that match `query`, in the order of the store.
pub open spec fn matching(chats: Seq<ChatView>, query: Seq<char>) -> Seq<ChatView>
    decreases chats.len(),
{
    if chats.len() == 0 {
        Seq::empty()
    } else if chat_matches(chats.last(), query) {
        matching(chats.drop_last(), query).push(chats.last())
    } else {
        matching(chats.drop_last(), query)
    }
}

/// Which positions of `haystack` `needle` stands at.
pub open spec fn occurrence_flags(needle: Seq<char>, haystack: Seq<char>) -> Seq<bool> {
    Seq::new(haystack.len() + 1, |at: int| occurs_at(needle, haystack, at))
}

/// The first position at which `needle` stands in `haystack`.
pub open spec fn first_occurrence(needle: Seq<char>, haystack: Seq<char>) -> Option<int> {
    crate::lookup::first_true(occurrence_flags(needle, haystack))
}

/// Finds the first position at which `needle` stands in `haystack`.
pub fn find_text(haystack: &str, needle: &str) -> (r: Option<usize>)
    ensures
        match r {
            Some(at) => first_occurrence(needle@, haystack@) == Some(at as int) && at + needle@.len()
                <= haystack@.len(),
            None => first_occurrence(needle@, haystack@) is None && !occurs_in(needle@, haystack@),
        },
{
    let h = chars_of(haystack);
    let n = chars_of(needle);
    let ghost flags = occurrence_flags(needle@, haystack@);
    if n.len() > h.len() {
        proof {
            assert forall|at: int| !occurs_at(needle@, haystack@, at) by {}
            crate::lookup::lemma_first_true_none(flags);
        }
        return None;
    }
    let last = h.len() - n.len();
    let mut at: usize = 0;
    while at <= last
        invariant
            at <= last + 1,
            last == h.len() - n.len(),
            h@ == haystack@,
            n@ == needle@,
            flags == occurrence_flags(needle@, haystack@),
            forall|k: int| 0 <= k < at ==> !#[trigger] flags[k],
        decreases last + 1 - at,
    {
        let mut j: usize = 0;
        while j < n.len() && h[at + j] == n[j]
            invariant
                j <= n.len(),
                at <= last,
                last == h.len() - n.len(),
                forall|k: int| 0 <= k < j ==> h@[at + k] == n@[k],
            decreases n.len() - j,
        {
            j += 1;
        }
        if j == n.len() {
            proof {
                assert(h@.subrange(at as int, at + n.len()) =~= n@);
                assert(flags[at as int]);
                crate::lookup::lemma_first_true_at(flags, at as int);
            }
            return Some(at);
        }
        assert(!flags[at as int]) by {
            if occurs_at(needle@, haystack@, at as int) {
                assert(h@.subrange(at as int, at + n.len())[j as int] == n@[j as int]);
            }
        }
        at += 1;
    }
    proof {
        assert forall|k: int| 0 <= k < flags.len() implies !#[trigger] flags[k] by {
            if k >= at {
                assert(!occurs_at(needle@, haystack@, k));
            }
        }
        crate::lookup::lemma_first_true_none(flags);
        assert forall|k: int| !occurs_at(needle@, haystack@, k) by {
            if 0 <= k < flags.len() {
                assert(!flags[k]);
            }
        }
    }
    None
}

/// Whether `needle` stands somewhere in `haystack`.
pub fn contains_text(haystack: &str, needle: &str) -> (r: bool)
    ensures
        r == occurs_in(needle@, haystack@),
{
    match find_text(haystack, needle) {
        Some(at) => {
            proof {
                crate::lookup::lemma_first_true(occurrence_flags(needle@, haystack@));
                assert(occurrence_flags(needle@, haystack@)[at as int]);
                assert(occurs_at(needle@, haystack@, at as int));
            }
            true
        },
        None => false,
    }
}

/// Whether one of `messages` holds `needle`, which is in lower case already.
pub fn any_content_holds(messages: &Vec<ChatMessage>, needle: &str) -> (r: bool)
    ensures
        r == some_content_holds(views(messages@), needle@),
{
    let mut i: usize = 0;
    while i < messages.len()
        invariant
            i <= messages.len(),
            forall|k: int|
                0 <= k < i ==> !occurs_in(needle@, lowercased(#[trigger] views(messages@)[k].content)),
        decreases messages.len() - i,
    {
        let lower = to_lowercase(messages[i].content.as_str());
        if contains_text(lower.as_str(), needle) {
            assert(occurs_in(needle@, lowercased(views(messages@)[i as int].content)));
            return true;
        }
        i += 1;
    }
    false
}

impl ChatState {
    /// The chats that match the query of `req`, in the order of the store.
    pub fn search_chats(&self, req: SearchChatsReq) -> (out: Vec<Chat>)
        ensures
            views(out@) == matching(self@.chats, req.query@),
    {
        broadcast use group_views;

        let query = to_lowercase(req.query.as_str());
        let mut out: Vec<Chat> = Vec::new();
        let mut i: usize = 0;
        assert(self@.chats.subrange(0, 0) =~= Seq::<ChatView>::empty());
        while i < self.chats.len()
            invariant
                i <= self.chats.len(),
                query@ == lowercased(req.query@),
                views(out@) == matching(self@.chats.subrange(0, i as int), req.query@),
            decreases self.chats.len() - i,
        {
            assert(self@.chats.subrange(0, i + 1).drop_last() =~= self@.chats.subrange(0, i as int));
            let name = to_lowercase(self.chats[i].counterparty.as_str());
            if contains_text(name.as_str(), query.as_str()) || any_content_holds(
                &self.chats[i].messages,
                query.as_str(),
            ) {
                out.push(self.chats[i].clone());
            }
            i += 1;
        }
        assert(self@.chats.subrange(0, i as int) =~= self@.chats);
        out
    }
}

} // verus!

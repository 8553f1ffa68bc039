use crate::text::{concat3, lemma_lex_lt_total, lex_lt, starts_with, str_lt};
use vstd::prelude::*;

verus! {

/// The id of the chat between two nodes: the smaller name, a colon, the
/// larger name.
pub open spec fn normalized_id(a: Seq<char>, b: Seq<char>) -> Seq<char> {
    if lex_lt(a, b) {
        a + seq![':'] + b
    } else {
        b + seq![':'] + a
    }
}

/// Derives the chat id of a pair of nodes. Both peers compute the same id,
/// whichever of the two names each passes first.
pub fn normalize_chat_id(node1: &str, node2: &str) -> (id: String)
    ensures
        id@ == normalized_id(node1@, node2@),
{
    proof {
        reveal_strlit(":");
        assert(":"@ =~= seq![':']);
    }
    if str_lt(node1, node2) {
        concat3(node1, ":", node2)
    } else {
        concat3(node2, ":", node1)
    }
}

/// The chat id does not depend on the order of the two participants.
pub proof fn lemma_normalized_id_symmetric(a: Seq<char>, b: Seq<char>)
    ensures
        normalized_id(a, b) == normalized_id(b, a),
{
    lemma_lex_lt_total(a, b);
}

/// Guest chats live in a namespace of their own and are never normalized.
pub open spec fn is_browser_chat_id(id: Seq<char>) -> bool {
    "browser:"@.is_prefix_of(id)
}

/// Whether a chat id belongs to the guest namespace.
pub fn is_browser_chat(id: &str) -> (r: bool)
    ensures
        r == is_browser_chat_id(id@),
{
    starts_with(id, "browser:")
}

} // verus!

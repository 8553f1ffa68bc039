use crate::lookup::lemma_first_true;
use crate::model::{group_views, views, ChatKey, ChatKeyView};
use crate::requests::{CreateChatLinkReq, RevokeChatKeyReq};
use crate::session::{find_key, key_flags, key_position};
use crate::state::{keys_wf, state_wf, ChatState, StateView};
use crate::text::{decimal, hexadecimal, push_decimal, push_hexadecimal};
use vstd::prelude::*;

verus! {

/// The name that a guest is given: `Guest-` and a number below ten thousand.
pub open spec fn guest_name(nonce: u32) -> Seq<char> {
    "Guest-"@ + decimal((nonce % 10000) as nat)
}

/// The chat key made from `key_nonce` for the chat `chat_id`.
pub open spec fn minted_key(chat_id: Seq<char>, now: u64, key_nonce: u128, name_nonce: u32) -> ChatKeyView {
    ChatKeyView {
        key: hexadecimal(key_nonce as nat),
        user_name: guest_name(name_nonce),
        created_at: now,
        is_revoked: false,
        chat_id,
    }
}

/// The keys with `key` among them: in the place of the key of the same
/// name, or at the end.
pub open spec fn with_key(keys: Seq<ChatKeyView>, key: ChatKeyView) -> Seq<ChatKeyView> {
    match key_position(keys, key.key) {
        Some(i) => keys.update(i, key),
        None => keys.push(key),
    }
}

/// The link that a guest follows to join with the key `key`.
pub open spec fn join_link(our: Seq<char>, key: Seq<char>) -> Seq<char> {
    "http://"@ + our + "/public/join-"@ + key
}

/// The keys that are not revoked, order kept.
pub open spec fn active_keys(keys: Seq<ChatKeyView>) -> Seq<ChatKeyView>
    decreases keys.len(),
{
    if keys.len() == 0 {
        Seq::empty()
    } else if keys.last().is_revoked {
        active_keys(keys.drop_last())
    } else {
        active_keys(keys.drop_last()).push(keys.last())
    }
}

/// The keys after `key` was revoked. Revoking is one-way.
pub open spec fn revoked(keys: Seq<ChatKeyView>, key: Seq<char>) -> Seq<ChatKeyView> {
    match key_position(keys, key) {
        Some(i) => keys.update(i, ChatKeyView { is_revoked: true, ..keys[i] }),
        None => keys,
    }
}

/// Putting a key among the keys leaves their names distinct.
pub proof fn lemma_with_key_wf(keys: Seq<ChatKeyView>, key: ChatKeyView)
    requires
        keys_wf(keys),
    ensures
        keys_wf(with_key(keys, key)),
{
    lemma_first_true(key_flags(keys, key.key));
    let r = with_key(keys, key);
    assert forall|a: int, b: int| 0 <= a < b < r.len() implies (#[trigger] r[a]).key != (#[trigger] r[b]).key by {
        match key_position(keys, key.key) {
            Some(i) => {
                assert(key_flags(keys, key.key)[i]);
                assert(r[a].key == keys[a].key);
                assert(r[b].key == keys[b].key);
            },
            None => {
                assert(r[a] == keys[a]);
                assert(!key_flags(keys, key.key)[a]);
                if b < keys.len() {
                    assert(r[b] == keys[b]);
                }
            },
        }
    }
}

/// Revoking a key leaves the names distinct, revokes that key, and brings
/// no revoked key back.
pub proof fn lemma_revoked(keys: Seq<ChatKeyView>, key: Seq<char>)
    ensures
        keys_wf(keys) ==> keys_wf(revoked(keys, key)),
        revoked(keys, key).len() == keys.len(),
        forall|i: int|
            0 <= i < keys.len() ==> (#[trigger] revoked(keys, key)[i]).key == keys[i].key && (
            keys[i].is_revoked ==> revoked(keys, key)[i].is_revoked),
        match key_position(keys, key) {
            Some(i) => revoked(keys, key)[i].is_revoked,
            None => true,
        },
{
    lemma_first_true(key_flags(keys, key));
    let r = revoked(keys, key);
    if keys_wf(keys) {
        assert forall|a: int, b: int| 0 <= a < b < r.len() implies (#[trigger] r[a]).key != (
        #[trigger] r[b]).key by {
            assert(r[a].key == keys[a].key);
            assert(r[b].key == keys[b].key);
        }
    }
}

impl ChatState {
    /// Makes a chat key for the chat that `req` names and returns the link
    /// that carries it. The key is `key_nonce` in hexadecimal; the guest who
    /// uses it is named after `name_nonce`.
    pub fn create_chat_link(
        &mut self,
        req: CreateChatLinkReq,
        our_node: &str,
        now: u64,
        key_nonce: u128,
        name_nonce: u32,
    ) -> (link: String)
        ensures
            final(self)@ == (StateView {
                chat_keys: with_key(old(self)@.chat_keys, minted_key(req.chat_id@, now, key_nonce, name_nonce)),
                ..old(self)@
            }),
            link@ == join_link(our_node@, hexadecimal(key_nonce as nat)),
            state_wf(old(self)@) ==> state_wf(final(self)@),
    {
        broadcast use group_views;

        let mut key = String::new();
        push_hexadecimal(&mut key, key_nonce);
        assert(key@ =~= hexadecimal(key_nonce as nat));
        let mut user_name = String::from_str("Guest-");
        push_decimal(&mut user_name, (name_nonce % 10000) as u64);
        let minted = ChatKey {
            key: key.clone(),
            user_name,
            created_at: now,
            is_revoked: false,
            chat_id: req.chat_id,
        };
        proof {
            if keys_wf(self@.chat_keys) {
                lemma_with_key_wf(self@.chat_keys, minted@);
            }
        }
        match find_key(&self.chat_keys, key.as_str()) {
            Some(i) => {
                self.chat_keys[i] = minted;
            },
            None => {
                self.chat_keys.push(minted);
            },
        }
        let mut link = String::from_str("http://");
        link.append(our_node);
        link.append("/public/join-");
        link.append(key.as_str());
        link
    }

    /// The chat keys that are not revoked. Revoked keys stay in the state,
    /// where they can still be looked up.
    pub fn get_chat_keys(&self) -> (out: Vec<ChatKey>)
        ensures
            views(out@) == active_keys(self@.chat_keys),
    {
        broadcast use group_views;

        let mut out: Vec<ChatKey> = Vec::new();
        let mut i: usize = 0;
        assert(self@.chat_keys.subrange(0, 0) =~= Seq::<ChatKeyView>::empty());
        while i < self.chat_keys.len()
            invariant
                i <= self.chat_keys.len(),
                views(out@) == active_keys(self@.chat_keys.subrange(0, i as int)),
            decreases self.chat_keys.len() - i,
        {
            assert(self@.chat_keys.subrange(0, i + 1).drop_last() =~= self@.chat_keys.subrange(
                0,
                i as int,
            ));
            if !self.chat_keys[i].is_revoked {
                out.push(self.chat_keys[i].clone());
            }
            i += 1;
        }
        assert(self@.chat_keys.subrange(0, i as int) =~= self@.chat_keys);
        out
    }

    /// Revokes the chat key that `req` names. A revoked key lets nobody in
    /// any more, and nothing makes it valid again.
    pub fn revoke_chat_key(&mut self, req: RevokeChatKeyReq) -> (r: Result<String, String>)
        ensures
            final(self)@ == (StateView { chat_keys: revoked(old(self)@.chat_keys, req.key@), ..old(self)@ }),
            match key_position(old(self)@.chat_keys, req.key@) {
                Some(_) => r matches Ok(text) && text@ == "Chat key revoked"@,
                None => r matches Err(e) && e@ == "Chat key not found"@,
            },
            state_wf(old(self)@) ==> state_wf(final(self)@),
    {
        broadcast use group_views;

        proof {
            lemma_revoked(self@.chat_keys, req.key@);
        }
        match find_key(&self.chat_keys, req.key.as_str()) {
            Some(i) => {
                self.chat_keys[i].is_revoked = true;
                assert(self@.chat_keys =~= revoked(old(self)@.chat_keys, req.key@));
                Ok(String::from_str("Chat key revoked"))
            },
            None => Err(String::from_str("Chat key not found")),
        }
    }
}

} // verus!

use crate::status::MessageStatus;
use vstd::prelude::*;

verus! {

/// The views of the elements of a sequence, in order.
pub open spec fn views<T: View>(s: Seq<T>) -> Seq<T::V> {
    Seq::new(s.len(), |i: int| s[i]@)
}

/// The view of an optional value.
pub open spec fn opt_view<T: View>(o: Option<T>) -> Option<T::V> {
    match o {
        Some(x) => Some(x@),
        None => None,
    }
}

pub broadcast proof fn lemma_views_push<T: View>(s: Seq<T>, x: T)
    ensures
        #[trigger] views(s.push(x)) == views(s).push(x@),
{
    assert(views(s.push(x)) =~= views(s).push(x@));
}

pub broadcast proof fn lemma_views_update<T: View>(s: Seq<T>, i: int, x: T)
    requires
        0 <= i < s.len(),
    ensures
        #[trigger] views(s.update(i, x)) == views(s).update(i, x@),
{
    assert(views(s.update(i, x)) =~= views(s).update(i, x@));
}

pub broadcast proof fn lemma_views_remove<T: View>(s: Seq<T>, i: int)
    requires
        0 <= i < s.len(),
    ensures
        #[trigger] views(s.remove(i)) == views(s).remove(i),
{
    assert(views(s.remove(i)) =~= views(s).remove(i));
}

pub broadcast proof fn lemma_views_empty<T: View>()
    ensures
        #[trigger] views(Seq::<T>::empty()) == Seq::<T::V>::empty(),
{
    assert(views(Seq::<T>::empty()) =~= Seq::<T::V>::empty());
}

pub broadcast group group_views {
    lemma_views_push,
    lemma_views_update,
    lemma_views_remove,
    lemma_views_empty,
}

/// What kind of payload a message carries.
#[derive(Clone, Copy, Debug, PartialEq, Eq, Structural)]
pub enum MessageType {
    Text,
    Image,
    File,
    VoiceNote,
}

/// One reaction on a message.
#[derive(Debug, PartialEq)]
pub struct MessageReaction {
    pub emoji: String,
    pub user: String,
    pub timestamp: u64,
}

pub struct ReactionView {
    pub emoji: Seq<char>,
    pub user: Seq<char>,
    pub timestamp: u64,
}

impl View for MessageReaction {
    type V = ReactionView;

    open spec fn view(&self) -> ReactionView {
        ReactionView { emoji: self.emoji@, user: self.user@, timestamp: self.timestamp }
    }
}

impl Clone for MessageReaction {
    fn clone(&self) -> (r: Self)
        ensures
            r@ == self@,
    {
        MessageReaction {
            emoji: self.emoji.clone(),
            user: self.user.clone(),
            timestamp: self.timestamp,
        }
    }
}

/// Description of a file attached to a message. `url` is a data URL, a local
/// storage path, or a transport-encoded blob while in flight.
#[derive(Debug, PartialEq)]
pub struct FileInfo {
    pub filename: String,
    pub mime_type: String,
    pub size: u64,
    pub url: String,
}

pub struct FileInfoView {
    pub filename: Seq<char>,
    pub mime_type: Seq<char>,
    pub size: u64,
    pub url: Seq<char>,
}

impl View for FileInfo {
    type V = FileInfoView;

    open spec fn view(&self) -> FileInfoView {
        FileInfoView {
            filename: self.filename@,
            mime_type: self.mime_type@,
            size: self.size,
            url: self.url@,
        }
    }
}

impl Clone for FileInfo {
    fn clone(&self) -> (r: Self)
        ensures
            r@ == self@,
    {
        FileInfo {
            filename: self.filename.clone(),
            mime_type: self.mime_type.clone(),
            size: self.size,
            url: self.url.clone(),
        }
    }
}

/// Copies an optional string.
pub fn clone_opt_string(o: &Option<String>) -> (r: Option<String>)
    ensures
        opt_view(r) == opt_view(*o),
{
    match o {
        Some(s) => Some(s.clone()),
        None => None,
    }
}

/// Copies an optional file description.
pub fn clone_opt_file_info(o: &Option<FileInfo>) -> (r: Option<FileInfo>)
    ensures
        opt_view(r) == opt_view(*o),
{
    match o {
        Some(f) => Some(f.clone()),
        None => None,
    }
}

/// Copies a list of reactions.
pub fn clone_reactions(v: &Vec<MessageReaction>) -> (out: Vec<MessageReaction>)
    ensures
        views(out@) == views(v@),
{
    broadcast use group_views;

    let mut out: Vec<MessageReaction> = Vec::new();
    let mut i: usize = 0;
    while i < v.len()
        invariant
            i <= v.len(),
            views(out@) == views(v@).subrange(0, i as int),
        decreases v.len() - i,
    {
        out.push(v[i].clone());
        i += 1;
        assert(views(v@).subrange(0, i as int) =~= views(v@).subrange(0, i - 1).push(v@[i - 1]@));
    }
    assert(views(v@).subrange(0, i as int) =~= views(v@));
    out
}

/// One message of a chat.
#[derive(Debug, PartialEq)]
pub struct ChatMessage {
    pub id: String,
    pub sender: String,
    pub content: String,
    pub timestamp: u64,
    pub status: MessageStatus,
    pub reply_to: Option<String>,
    pub reactions: Vec<MessageReaction>,
    pub message_type: MessageType,
    pub file_info: Option<FileInfo>,
}

pub struct MessageView {
    pub id: Seq<char>,
    pub sender: Seq<char>,
    pub content: Seq<char>,
    pub timestamp: u64,
    pub status: MessageStatus,
    pub reply_to: Option<Seq<char>>,
    pub reactions: Seq<ReactionView>,
    pub message_type: MessageType,
    pub file_info: Option<FileInfoView>,
}

impl View for ChatMessage {
    type V = MessageView;

    open spec fn view(&self) -> MessageView {
        MessageView {
            id: self.id@,
            sender: self.sender@,
            content: self.content@,
            timestamp: self.timestamp,
            status: self.status,
            reply_to: opt_view(self.reply_to),
            reactions: views(self.reactions@),
            message_type: self.message_type,
            file_info: opt_view(self.file_info),
        }
    }
}

impl Clone for ChatMessage {
    fn clone(&self) -> (r: Self)
        ensures
            r@ == self@,
    {
        ChatMessage {
            id: self.id.clone(),
            sender: self.sender.clone(),
            content: self.content.clone(),
            timestamp: self.timestamp,
            status: self.status,
            reply_to: clone_opt_string(&self.reply_to),
            reactions: clone_reactions(&self.reactions),
            message_type: self.message_type,
            file_info: clone_opt_file_info(&self.file_info),
        }
    }
}

/// Copies a list of messages.
pub fn clone_messages(v: &Vec<ChatMessage>) -> (out: Vec<ChatMessage>)
    ensures
        views(out@) == views(v@),
{
    broadcast use group_views;

    let mut out: Vec<ChatMessage> = Vec::new();
    let mut i: usize = 0;
    while i < v.len()
        invariant
            i <= v.len(),
            views(out@) == views(v@).subrange(0, i as int),
        decreases v.len() - i,
    {
        out.push(v[i].clone());
        i += 1;
        assert(views(v@).subrange(0, i as int) =~= views(v@).subrange(0, i - 1).push(v@[i - 1]@));
    }
    assert(views(v@).subrange(0, i as int) =~= views(v@));
    out
}

/// A one-to-one conversation and its history.
#[derive(Debug, PartialEq)]
pub struct Chat {
    pub id: String,
    pub counterparty: String,
    pub messages: Vec<ChatMessage>,
    pub last_activity: u64,
    pub unread_count: u32,
    pub is_blocked: bool,
    pub notify: bool,
}

pub struct ChatView {
    pub id: Seq<char>,
    pub counterparty: Seq<char>,
    pub messages: Seq<MessageView>,
    pub last_activity: u64,
    pub unread_count: u32,
    pub is_blocked: bool,
    pub notify: bool,
}

impl View for Chat {
    type V = ChatView;

    open spec fn view(&self) -> ChatView {
        ChatView {
            id: self.id@,
            counterparty: self.counterparty@,
            messages: views(self.messages@),
            last_activity: self.last_activity,
            unread_count: self.unread_count,
            is_blocked: self.is_blocked,
            notify: self.notify,
        }
    }
}

impl Clone for Chat {
    fn clone(&self) -> (r: Self)
        ensures
            r@ == self@,
    {
        Chat {
            id: self.id.clone(),
            counterparty: self.counterparty.clone(),
            messages: clone_messages(&self.messages),
            last_activity: self.last_activity,
            unread_count: self.unread_count,
            is_blocked: self.is_blocked,
            notify: self.notify,
        }
    }
}

/// A capability that lets a guest session into one chat.
#[derive(Debug, PartialEq)]
pub struct ChatKey {
    pub key: String,
    pub user_name: String,
    pub created_at: u64,
    pub is_revoked: bool,
    pub chat_id: String,
}

pub struct ChatKeyView {
    pub key: Seq<char>,
    pub user_name: Seq<char>,
    pub created_at: u64,
    pub is_revoked: bool,
    pub chat_id: Seq<char>,
}

impl View for ChatKey {
    type V = ChatKeyView;

    open spec fn view(&self) -> ChatKeyView {
        ChatKeyView {
            key: self.key@,
            user_name: self.user_name@,
            created_at: self.created_at,
            is_revoked: self.is_revoked,
            chat_id: self.chat_id@,
        }
    }
}

impl Clone for ChatKey {
    fn clone(&self) -> (r: Self)
        ensures
            r@ == self@,
    {
        ChatKey {
            key: self.key.clone(),
            user_name: self.user_name.clone(),
            created_at: self.created_at,
            is_revoked: self.is_revoked,
            chat_id: self.chat_id.clone(),
        }
    }
}

/// The local user's profile.
#[derive(Debug, PartialEq)]
pub struct UserProfile {
    pub name: String,
    pub profile_pic: Option<String>,
}

pub struct ProfileView {
    pub name: Seq<char>,
    pub profile_pic: Option<Seq<char>>,
}

impl View for UserProfile {
    type V = ProfileView;

    open spec fn view(&self) -> ProfileView {
        ProfileView { name: self.name@, profile_pic: opt_view(self.profile_pic) }
    }
}

impl Clone for UserProfile {
    fn clone(&self) -> (r: Self)
        ensures
            r@ == self@,
    {
        UserProfile { name: self.name.clone(), profile_pic: clone_opt_string(&self.profile_pic) }
    }
}

impl Default for UserProfile {
    fn default() -> (r: Self)
        ensures
            r@ == (ProfileView { name: "User"@, profile_pic: None }),
    {
        UserProfile { name: String::from_str("User"), profile_pic: None }
    }
}

/// User preferences.
#[derive(Debug, PartialEq)]
pub struct Settings {
    pub show_images: bool,
    pub show_profile_pics: bool,
    pub combine_chats_groups: bool,
    pub notify_chats: bool,
    pub notify_groups: bool,
    pub notify_calls: bool,
    pub allow_browser_chats: bool,
    pub stt_enabled: bool,
    pub stt_api_key: Option<String>,
    pub max_file_size_mb: u64,
}

pub struct SettingsView {
    pub show_images: bool,
    pub show_profile_pics: bool,
    pub combine_chats_groups: bool,
    pub notify_chats: bool,
    pub notify_groups: bool,
    pub notify_calls: bool,
    pub allow_browser_chats: bool,
    pub stt_enabled: bool,
    pub stt_api_key: Option<Seq<char>>,
    pub max_file_size_mb: u64,
}

impl View for Settings {
    type V = SettingsView;

    open spec fn view(&self) -> SettingsView {
        SettingsView {
            show_images: self.show_images,
            show_profile_pics: self.show_profile_pics,
            combine_chats_groups: self.combine_chats_groups,
            notify_chats: self.notify_chats,
            notify_groups: self.notify_groups,
            notify_calls: self.notify_calls,
            allow_browser_chats: self.allow_browser_chats,
            stt_enabled: self.stt_enabled,
            stt_api_key: opt_view(self.stt_api_key),
            max_file_size_mb: self.max_file_size_mb,
        }
    }
}

/// The settings a fresh node starts with.
pub open spec fn default_settings() -> SettingsView {
    SettingsView {
        show_images: true,
        show_profile_pics: true,
        combine_chats_groups: false,
        notify_chats: true,
        notify_groups: true,
        notify_calls: true,
        allow_browser_chats: true,
        stt_enabled: false,
        stt_api_key: None,
        max_file_size_mb: 10,
    }
}

impl Clone for Settings {
    fn clone(&self) -> (r: Self)
        ensures
            r@ == self@,
    {
        Settings {
            show_images: self.show_images,
            show_profile_pics: self.show_profile_pics,
            combine_chats_groups: self.combine_chats_groups,
            notify_chats: self.notify_chats,
            notify_groups: self.notify_groups,
            notify_calls: self.notify_calls,
            allow_browser_chats: self.allow_browser_chats,
            stt_enabled: self.stt_enabled,
            stt_api_key: clone_opt_string(&self.stt_api_key),
            max_file_size_mb: self.max_file_size_mb,
        }
    }
}

impl Default for Settings {
    fn default() -> (r: Self)
        ensures
            r@ == default_settings(),
    {
        Settings {
            show_images: true,
            show_profile_pics: true,
            combine_chats_groups: false,
            notify_chats: true,
            notify_groups: true,
            notify_calls: true,
            allow_browser_chats: true,
            stt_enabled: false,
            stt_api_key: None,
            max_file_size_mb: 10,
        }
    }
}

} // verus!

use crate::model::{
    group_views, views, Chat, ChatMessage, ChatView, MessageType, MessageView, ProfileView,
    Settings, UserProfile,
};
use crate::requests::UploadProfilePictureReq;
use crate::state::{state_wf, ChatState, StateView};
use crate::status::MessageStatus;
use crate::text::{
    chars_of, decimal, find_char_from, first_index_from, push_decimal, starts_with,
    string_of_range,
};
use crate::wire::{broadcast, channel_ids, Effect, ServerMessageView, WsServerMessage};
use vstd::prelude::*;

verus! {

/// The part of a node's name before its first dot.
pub open spec fn short_name(node: Seq<char>) -> Seq<char> {
    node.subrange(0, first_index_from(node, '.', 0))
}

/// The message that greets a new user.
pub open spec fn welcome_message(now: u64) -> MessageView {
    MessageView {
        id: "welcome_"@ + decimal(now as nat),
        sender: "System"@,
        content: "Welcome to Hyperware Chat! You can create new chats by clicking the + button."@,
        timestamp: now,
        status: MessageStatus::Delivered,
        reply_to: None,
        reactions: Seq::empty(),
        message_type: MessageType::Text,
        file_info: None,
    }
}

/// The chat that holds the welcome.
pub open spec fn welcome_chat(now: u64) -> ChatView {
    ChatView {
        id: "system:welcome"@,
        counterparty: "System"@,
        messages: seq![welcome_message(now)],
        last_activity: now,
        unread_count: 0,
        is_blocked: false,
        notify: false,
    }
}

/// The state of a node after it started: a profile that still carries the
/// default name is named after the node, and a node without chats gets the
/// welcome chat.
pub open spec fn initialized(s: StateView, our: Seq<char>, now: u64) -> StateView {
    StateView {
        profile: if s.profile.name == "User"@ {
            ProfileView { name: short_name(our), ..s.profile }
        } else {
            s.profile
        },
        chats: if s.chats.len() == 0 {
            seq![welcome_chat(now)]
        } else {
            s.chats
        },
        ..s
    }
}

/// The data URL of content of the type `mime_type` whose base64 form is
/// `data`.
pub open spec fn data_url(mime_type: Seq<char>, data: Seq<char>) -> Seq<char> {
    "data:"@ + mime_type + ";base64,"@ + data
}

/// Whether a MIME type is that of an image.
pub open spec fn is_image_type(mime_type: Seq<char>) -> bool {
    "image/"@.is_prefix_of(mime_type)
}

/// Makes a data URL.
pub fn make_data_url(mime_type: &str, data: &str) -> (url: String)
    ensures
        url@ == data_url(mime_type@, data@),
{
    let mut url = String::from_str("data:");
    url.append(mime_type);
    url.append(";base64,");
    url.append(data);
    url
}

impl ChatState {
    /// Prepares the state of a node that starts.
    pub fn initialize(&mut self, our_node: &str, now: u64)
        ensures
            final(self)@ == initialized(old(self)@, our_node@, now),
            state_wf(old(self)@) ==> state_wf(final(self)@),
    {
        broadcast use group_views;

        if self.profile.name.as_str().eq("User") {
            let cs = chars_of(our_node);
            let dot = find_char_from(&cs, '.', 0);
            self.profile.name = string_of_range(&cs, 0, dot);
        }
        if self.chats.len() == 0 {
            let mut id = String::from_str("welcome_");
            push_decimal(&mut id, now);
            let mut messages: Vec<ChatMessage> = Vec::new();
            messages.push(
                ChatMessage {
                    id,
                    sender: String::from_str("System"),
                    content: String::from_str(
                        "Welcome to Hyperware Chat! You can create new chats by clicking the + button.",
                    ),
                    timestamp: now,
                    status: MessageStatus::Delivered,
                    reply_to: None,
                    reactions: Vec::new(),
                    message_type: MessageType::Text,
                    file_info: None,
                },
            );
            assert(views(messages@) =~= seq![welcome_message(now)]);
            self.chats.push(
                Chat {
                    id: String::from_str("system:welcome"),
                    counterparty: String::from_str("System"),
                    messages,
                    last_activity: now,
                    unread_count: 0,
                    is_blocked: false,
                    notify: false,
                },
            );
            assert(self@.chats =~= seq![welcome_chat(now)]);
        }
    }

    /// The settings.
    pub fn get_settings(&self) -> (r: Settings)
        ensures
            r@ == self@.settings,
    {
        self.settings.clone()
    }

    /// Replaces the settings.
    pub fn update_settings(&mut self, settings: Settings) -> (text: String)
        ensures
            final(self)@ == (StateView { settings: settings@, ..old(self)@ }),
            text@ == "Settings updated"@,
            state_wf(old(self)@) ==> state_wf(final(self)@),
    {
        self.settings = settings;
        String::from_str("Settings updated")
    }

    /// The profile.
    pub fn get_profile(&self) -> (r: UserProfile)
        ensures
            r@ == self@.profile,
    {
        self.profile.clone()
    }

    /// Replaces the profile.
    pub fn update_profile(&mut self, profile: UserProfile) -> (text: String)
        ensures
            final(self)@ == (StateView { profile: profile@, ..old(self)@ }),
            text@ == "Profile updated"@,
            state_wf(old(self)@) ==> state_wf(final(self)@),
    {
        self.profile = profile;
        String::from_str("Profile updated")
    }

    /// Sets the profile picture, kept as a data URL, and shows the profile
    /// to every node session. Only images are taken.
    pub fn upload_profile_picture(&mut self, req: UploadProfilePictureReq, our_node: &str) -> (r: Result<
        (String, Vec<Effect>),
        String,
    >)
        ensures
            if is_image_type(req.mime_type@) {
                let url = data_url(req.mime_type@, req.data@);
                let profile = ProfileView { profile_pic: Some(url), ..old(self)@.profile };
                &&& final(self)@ == (StateView { profile, ..old(self)@ })
                &&& r matches Ok(done) && done.0@ == url && views(done.1@) == broadcast(
                    channel_ids(old(self)@.ws_connections),
                    ServerMessageView::ProfileUpdate { node: our_node@, profile },
                )
            } else {
                (r matches Err(e) && e@ == "Invalid image type"@) && final(self)@ == old(self)@
            },
            state_wf(old(self)@) ==> state_wf(final(self)@),
    {
        if !starts_with(req.mime_type.as_str(), "image/") {
            return Err(String::from_str("Invalid image type"));
        }
        let url = make_data_url(req.mime_type.as_str(), req.data.as_str());
        self.profile.profile_pic = Some(url.clone());
        let update = WsServerMessage::ProfileUpdate {
            node: String::from_str(our_node),
            profile: self.profile.clone(),
        };
        let effects = self.broadcast_to_all(&update);
        Ok((url, effects))
    }
}

} // verus!

use crate::model::FileInfo;
use vstd::prelude::*;

verus! {

/// Start a chat with `counterparty`.
#[derive(Debug, PartialEq)]
pub struct CreateChatReq {
    pub counterparty: String,
}

#[derive(Debug, PartialEq)]
pub struct GetChatReq {
    pub chat_id: String,
}

/// One page of a chat's history: at most `limit` messages (50 where none is
/// given), all older than `before_timestamp` where one is given.
#[derive(Debug, PartialEq)]
pub struct GetMessagesReq {
    pub chat_id: String,
    pub before_timestamp: Option<u64>,
    pub limit: Option<u64>,
}

#[derive(Debug, PartialEq)]
pub struct DeleteChatReq {
    pub chat_id: String,
}

#[derive(Debug, PartialEq)]
pub struct SendMessageReq {
    pub chat_id: String,
    pub content: String,
    pub reply_to: Option<String>,
    pub file_info: Option<FileInfo>,
}

#[derive(Debug, PartialEq)]
pub struct EditMessageReq {
    pub chat_id: String,
    pub message_id: String,
    pub new_content: String,
}

/// Delete a message here, and at the counterparty too where
/// `delete_for_both` is `Some(true)`.
#[derive(Debug, PartialEq)]
pub struct DeleteMessageReq {
    pub chat_id: String,
    pub message_id: String,
    pub delete_for_both: Option<bool>,
}

#[derive(Debug, PartialEq)]
pub struct AddReactionReq {
    pub chat_id: String,
    pub message_id: String,
    pub emoji: String,
}

#[derive(Debug, PartialEq)]
pub struct RemoveReactionReq {
    pub chat_id: String,
    pub message_id: String,
    pub emoji: String,
}

#[derive(Debug, PartialEq)]
pub struct ForwardMessageReq {
    pub from_chat_id: String,
    pub message_id: String,
    pub to_chat_id: String,
}

#[derive(Debug, PartialEq)]
pub struct CreateChatLinkReq {
    pub chat_id: String,
    pub single_use: bool,
}

#[derive(Debug, PartialEq)]
pub struct RevokeChatKeyReq {
    pub key: String,
}

/// A file to send; `data` is its content in base64.
#[derive(Debug, PartialEq)]
pub struct UploadFileReq {
    pub chat_id: String,
    pub filename: String,
    pub mime_type: String,
    pub data: String,
    pub reply_to: Option<String>,
}

/// A profile picture; `data` is its content in base64.
#[derive(Debug, PartialEq)]
pub struct UploadProfilePictureReq {
    pub mime_type: String,
    pub data: String,
}

/// A voice note; `audio_data` is its content in base64 and `duration` its
/// length in seconds.
#[derive(Debug, PartialEq)]
pub struct SendVoiceNoteReq {
    pub chat_id: String,
    pub audio_data: String,
    pub duration: u32,
    pub reply_to: Option<String>,
}

#[derive(Debug, PartialEq)]
pub struct SearchChatsReq {
    pub query: String,
}

} // verus!

use crate::search::{contains_text, find_text, first_occurrence, occurs_in};
use crate::text::{chars_of, concat2, find_char_from, first_index_from, string_of_range};
use vstd::prelude::*;
use vstd::string::StringSliceAdditionalSpecFns;
use vstd::utf8::{decode_utf8, encode_utf8, is_char_boundary};

verus! {

/// What a push notification for a message says.
#[derive(Debug, PartialEq)]
pub struct Notification {
    pub title: String,
    pub body: String,
    pub icon: String,
    /// Where a tap on the notification leads.
    pub url: String,
    pub chat_id: String,
    pub sender: String,
    pub app_id: String,
    pub app_label: String,
}

pub struct NotificationView {
    pub title: Seq<char>,
    pub body: Seq<char>,
    pub icon: Seq<char>,
    pub url: Seq<char>,
    pub chat_id: Seq<char>,
    pub sender: Seq<char>,
    pub app_id: Seq<char>,
    pub app_label: Seq<char>,
}

impl View for Notification {
    type V = NotificationView;

    open spec fn view(&self) -> NotificationView {
        NotificationView {
            title: self.title@,
            body: self.body@,
            icon: self.icon@,
            url: self.url@,
            chat_id: self.chat_id@,
            sender: self.sender@,
            app_id: self.app_id@,
            app_label: self.app_label@,
        }
    }
}

/// The longest content, in bytes, that a notification shows whole.
pub const BODY_LIMIT: usize = 100;

/// How many bytes of a longer content a notification shows.
pub const BODY_KEPT: usize = 97;

/// The length of a text in memory, in bytes.
pub open spec fn byte_len(text: Seq<char>) -> usize {
    encode_utf8(text).len() as usize
}

/// Whether a text can be clipped: it is at most `limit` bytes long and needs
/// no clipping, or a character ends after its first `kept` bytes.
pub open spec fn can_be_clipped(text: Seq<char>, limit: usize, kept: usize) -> bool {
    byte_len(text) > limit ==> is_char_boundary(encode_utf8(text), kept as int)
}

/// A text as it is shown where room is short: whole if it is at most `limit`
/// bytes long, and else its first `kept` bytes and three dots.
pub open spec fn clipped(text: Seq<char>, limit: usize, kept: usize) -> Seq<char> {
    if byte_len(text) > limit {
        decode_utf8(encode_utf8(text).subrange(0, kept as int)) + "..."@
    } else {
        text
    }
}

/// Whether the content of a message can be shown in a notification.
pub open spec fn can_be_shortened(content: Seq<char>) -> bool {
    can_be_clipped(content, BODY_LIMIT, BODY_KEPT)
}

/// The body of a notification: the content, or the first bytes of a long
/// content and three dots.
pub open spec fn shortened(content: Seq<char>) -> Seq<char> {
    clipped(content, BODY_LIMIT, BODY_KEPT)
}

/// The notification for a message of `sender` in the chat `chat_id`.
pub open spec fn notification(sender: Seq<char>, content: Seq<char>, chat_id: Seq<char>) -> NotificationView {
    NotificationView {
        title: "Message from "@ + sender,
        body: shortened(content),
        icon: "/icon-180.png"@,
        url: "/chat#"@ + chat_id,
        chat_id,
        sender,
        app_id: "chat:chat:ware.hypr"@,
        app_label: "Chat"@,
    }
}

/// Whether `text` can be clipped to `kept` bytes where it is longer than
/// `limit`.
pub fn fits_clip(text: &str, limit: usize, kept: usize) -> (r: bool)
    ensures
        r == can_be_clipped(text@, limit, kept),
{
    text.len() <= limit || text.is_char_boundary(kept)
}

/// Clips a text.
pub fn clip(text: &str, limit: usize, kept: usize) -> (out: String)
    requires
        can_be_clipped(text@, limit, kept),
    ensures
        out@ == clipped(text@, limit, kept),
{
    if text.len() > limit {
        let (head, _) = text.split_at(kept);
        proof {
            vstd::utf8::encode_utf8_decode_utf8(head@);
            assert(head.spec_bytes() == encode_utf8(text@).subrange(0, kept as int));
        }
        concat2(head, "...")
    } else {
        String::from_str(text)
    }
}

/// Whether `content` can be shown in a notification.
pub fn fits_notification(content: &str) -> (r: bool)
    ensures
        r == can_be_shortened(content@),
{
    fits_clip(content, BODY_LIMIT, BODY_KEPT)
}

/// Shortens the content of a message for a notification.
pub fn shorten(content: &str) -> (body: String)
    requires
        can_be_shortened(content@),
    ensures
        body@ == shortened(content@),
{
    clip(content, BODY_LIMIT, BODY_KEPT)
}

/// Makes the notification for a message.
pub fn send_push_notification_for_message(sender: &str, content: &str, chat_id: &str) -> (n: Notification)
    requires
        can_be_shortened(content@),
    ensures
        n@ == notification(sender@, content@, chat_id@),
{
    Notification {
        title: concat2("Message from ", sender),
        body: shorten(content),
        icon: String::from_str("/icon-180.png"),
        url: concat2("/chat#", chat_id),
        chat_id: String::from_str(chat_id),
        sender: String::from_str(sender),
        app_id: String::from_str("chat:chat:ware.hypr"),
        app_label: String::from_str("Chat"),
    }
}

/// The endpoint that the error of the notification service names as no
/// longer valid. An error names one if it holds `EndpointNotValid` and an
/// `https://` with a colon somewhere from there on; the endpoint is what
/// stands from the start of that `https://` up to that colon.
pub open spec fn named_endpoint(error: Seq<char>) -> Option<Seq<char>> {
    if !occurs_in("EndpointNotValid"@, error) {
        None
    } else {
        match first_occurrence("https://"@, error) {
            Some(start) => {
                let end = first_index_from(error, ':', start);
                if end < error.len() {
                    Some(error.subrange(start, end))
                } else {
                    None
                }
            },
            None => None,
        }
    }
}

/// Reads the endpoint that is no longer valid out of an error of the
/// notification service.
pub fn invalid_endpoint(error: &str) -> (endpoint: Option<String>)
    ensures
        crate::model::opt_view(endpoint) == named_endpoint(error@),
{
    if !contains_text(error, "EndpointNotValid") {
        return None;
    }
    match find_text(error, "https://") {
        Some(start) => {
            let cs = chars_of(error);
            let end = find_char_from(&cs, ':', start);
            if end < cs.len() {
                Some(string_of_range(&cs, start, end))
            } else {
                None
            }
        },
        None => None,
    }
}

} // verus!

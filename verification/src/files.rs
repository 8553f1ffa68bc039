use crate::api::{post, posted, posted_chat};
use crate::codec::{
    base64_decode, base64_decoded, base64_encode, base64_encoded, bytes_or_none, compress_data,
    compression_outcome, gzip_decompress, gzip_decompressed, unwrap_bytes,
};
use crate::model::{
    clone_opt_string, group_views, opt_view, views, ChatMessage, FileInfo, FileInfoView,
    MessageType, MessageView,
};
use crate::profile::{data_url, is_image_type, make_data_url};
use crate::requests::{SendVoiceNoteReq, UploadFileReq};
use crate::session::{make_message_id, message_id_of};
use crate::state::{state_wf, ChatState, StateView};
use crate::status::MessageStatus;
use crate::text::{
    chars_of, concat2, decimal, find_char_from, first_index_from, push_decimal, starts_with,
    string_of_range, underscore_colons, underscored,
};
use crate::wire::{Effect, EffectView};
use vstd::prelude::*;

verus! {

/// What is known of a file once its upload was checked: its content, the
/// name under which it is stored, the directory of its chat, and whether it
/// is an image or another file.
#[derive(Debug, PartialEq)]
pub struct UploadPlan {
    pub data: Vec<u8>,
    pub file_id: String,
    pub directory: String,
    pub message_type: MessageType,
}

pub struct UploadPlanView {
    pub data: Seq<u8>,
    pub file_id: Seq<char>,
    pub directory: Seq<char>,
    pub message_type: MessageType,
}

impl View for UploadPlan {
    type V = UploadPlanView;

    open spec fn view(&self) -> UploadPlanView {
        UploadPlanView {
            data: self.data@,
            file_id: self.file_id@,
            directory: self.directory@,
            message_type: self.message_type,
        }
    }
}

/// The name under which a file that arrives at the time `now` is stored.
pub open spec fn file_id_of(now: u64, nonce: u32) -> Seq<char> {
    decimal(now as nat) + seq!['_'] + decimal(nonce as nat)
}

/// What the upload of a file of the type `mime_type` is sent as.
pub open spec fn upload_kind(mime_type: Seq<char>) -> MessageType {
    if is_image_type(mime_type) {
        MessageType::Image
    } else {
        MessageType::File
    }
}

/// How many whole megabytes `len` bytes are.
pub open spec fn megabytes(len: nat) -> nat {
    len / (1024 * 1024)
}

/// The outcome of checking an upload: the plan, or why the upload is
/// refused. Content that is no base64 is refused, as is content of more
/// whole megabytes than `limit`.
pub open spec fn planned(
    limit: u64,
    chat_id: Seq<char>,
    mime_type: Seq<char>,
    data: Seq<char>,
    now: u64,
    nonce: u32,
) -> Result<UploadPlanView, Seq<char>> {
    match base64_decoded(data) {
        Ok(bytes) => if megabytes(bytes.len()) > limit {
            Err("File size exceeds limit of "@ + decimal(limit as nat) + " MB"@)
        } else {
            Ok(
                UploadPlanView {
                    data: bytes,
                    file_id: file_id_of(now, nonce),
                    directory: underscored(chat_id),
                    message_type: upload_kind(mime_type),
                },
            )
        },
        Err(complaint) => Err("Failed to decode base64: "@ + complaint),
    }
}

/// The view of the outcome of checking an upload.
pub open spec fn plan_view(r: Result<UploadPlan, String>) -> Result<UploadPlanView, Seq<char>> {
    match r {
        Ok(plan) => Ok(plan@),
        Err(e) => Err(e@),
    }
}

/// The path under which the file `file_id` of the directory `directory` is
/// stored for the package `package_id`.
pub open spec fn storage_path(package_id: Seq<char>, directory: Seq<char>, file_id: Seq<char>) -> Seq<char> {
    "/"@ + package_id + "/files/"@ + directory + "/"@ + file_id
}

/// The path of the directory that holds the stored files of a chat.
pub open spec fn storage_directory(package_id: Seq<char>, directory: Seq<char>) -> Seq<char> {
    "/"@ + package_id + "/files/"@ + directory
}

/// Where a stored file is reachable for the local user.
pub open spec fn local_url(directory: Seq<char>, file_id: Seq<char>) -> Seq<char> {
    "/files/"@ + directory + "/"@ + file_id
}

/// The location that an uploaded file has in the sender's own chat: the data
/// URL for an image, the local address of the stored copy for another file.
pub open spec fn kept_url(plan: UploadPlanView, mime_type: Seq<char>, data: Seq<char>) -> Seq<char> {
    if plan.message_type == MessageType::Image {
        data_url(mime_type, data)
    } else {
        local_url(plan.directory, plan.file_id)
    }
}

/// The location that an uploaded file has on the way to the counterparty:
/// the data URL for an image, the compressed content itself for another
/// file.
pub open spec fn transport_url(
    plan: UploadPlanView,
    mime_type: Seq<char>,
    data: Seq<char>,
    stream: Seq<u8>,
) -> Seq<char> {
    if plan.message_type == MessageType::File {
        "compressed:"@ + base64_encoded(stream)
    } else {
        kept_url(plan, mime_type, data)
    }
}

/// The message that carries an uploaded file, with the file at `url`.
pub open spec fn file_message(
    plan: UploadPlanView,
    filename: Seq<char>,
    mime_type: Seq<char>,
    reply_to: Option<Seq<char>>,
    url: Seq<char>,
    our: Seq<char>,
    now: u64,
    nonce: u32,
) -> MessageView {
    MessageView {
        id: message_id_of(now, nonce),
        sender: our,
        content: filename,
        timestamp: now,
        status: MessageStatus::Sending,
        reply_to,
        reactions: Seq::empty(),
        message_type: plan.message_type,
        file_info: Some(FileInfoView { filename, mime_type, size: plan.data.len() as u64, url }),
    }
}

/// Whether `plan` is a plan for the upload of `data`, of the type
/// `mime_type`, into the chat `chat_id`, under the size limit `limit`: it
/// holds what `data` decodes to, that is at most `limit` whole megabytes, in
/// the directory of the chat, as the kind of message that the type asks for.
/// The name of the file is the caller's: it is the name under which the file
/// was stored.
pub open spec fn plan_matches(
    limit: u64,
    chat_id: Seq<char>,
    mime_type: Seq<char>,
    data: Seq<char>,
    plan: UploadPlanView,
) -> bool {
    &&& base64_decoded(data) == Ok::<Seq<u8>, Seq<char>>(plan.data)
    &&& megabytes(plan.data.len()) <= limit
    &&& plan.directory == underscored(chat_id)
    &&& plan.message_type == upload_kind(mime_type)
}

/// What the check of an upload gives is a plan for that upload.
pub proof fn lemma_planned_matches(
    limit: u64,
    chat_id: Seq<char>,
    mime_type: Seq<char>,
    data: Seq<char>,
    now: u64,
    nonce: u32,
)
    ensures
        match planned(limit, chat_id, mime_type, data, now, nonce) {
            Ok(plan) => plan_matches(limit, chat_id, mime_type, data, plan),
            Err(_) => forall|plan: UploadPlanView| !plan_matches(limit, chat_id, mime_type, data, plan),
        },
{
}

/// The state after a file that was checked and stored was sent, and what
/// the sender gets back: the message as the chat keeps it and the delivery
/// to attempt, or, where a file that is no image cannot be compressed, the
/// complaint and the state as it was.
pub open spec fn upload_outcome(
    s: StateView,
    chat_id: Seq<char>,
    filename: Seq<char>,
    mime_type: Seq<char>,
    data: Seq<char>,
    reply_to: Option<Seq<char>>,
    plan: UploadPlanView,
    our: Seq<char>,
    now: u64,
    nonce: u32,
) -> (StateView, Result<(MessageView, Seq<EffectView>), Seq<char>>) {
    let kept = file_message(
        plan,
        filename,
        mime_type,
        reply_to,
        kept_url(plan, mime_type, data),
        our,
        now,
        nonce,
    );
    let sent = StateView { chats: posted(s.chats, chat_id, kept, now, MessageStatus::Sending), ..s };
    let target = posted_chat(s.chats, chat_id, kept, now, MessageStatus::Sending).counterparty;
    if plan.message_type == MessageType::File {
        match compression_outcome(plan.data) {
            Ok(stream) => (
                sent,
                Ok(
                    (
                        kept,
                        seq![
                            EffectView::Deliver {
                                target,
                                message: file_message(
                                    plan,
                                    filename,
                                    mime_type,
                                    reply_to,
                                    transport_url(plan, mime_type, data, stream),
                                    our,
                                    now,
                                    nonce,
                                ),
                            },
                        ],
                    ),
                ),
            ),
            Err(complaint) => (s, Err(complaint)),
        }
    } else {
        (sent, Ok((kept, seq![EffectView::Deliver { target, message: kept }])))
    }
}

/// The view of what an upload gives back.
pub open spec fn upload_view(r: Result<(ChatMessage, Vec<Effect>), String>) -> Result<
    (MessageView, Seq<EffectView>),
    Seq<char>,
> {
    match r {
        Ok(done) => Ok((done.0@, views(done.1@))),
        Err(e) => Err(e@),
    }
}

/// The content of the file of an arriving message that is to be stored:
/// what its location carries, unless that is nothing.
pub open spec fn payload_to_store(m: MessageView) -> Option<Seq<u8>> {
    match m.file_info {
        Some(f) => if payload_of(f.url).len() > 0 {
            Some(payload_of(f.url))
        } else {
            None
        },
        None => None,
    }
}

/// How many bytes a text takes in memory.
pub open spec fn byte_length(text: Seq<char>) -> nat {
    vstd::utf8::encode_utf8(text).len()
}

/// The message that carries a voice note.
pub open spec fn voice_message(
    audio_data: Seq<char>,
    duration: u32,
    reply_to: Option<Seq<char>>,
    our: Seq<char>,
    now: u64,
    nonce: u32,
) -> MessageView {
    MessageView {
        id: message_id_of(now, nonce),
        sender: our,
        content: "Voice note ("@ + decimal(duration as nat) + "s)"@,
        timestamp: now,
        status: MessageStatus::Sending,
        reply_to,
        reactions: Seq::empty(),
        message_type: MessageType::VoiceNote,
        file_info: Some(
            FileInfoView {
                filename: "voice_note_"@ + message_id_of(now, nonce) + ".webm"@,
                mime_type: "audio/webm"@,
                size: byte_length(audio_data) as usize as u64,
                url: "data:audio/webm;base64,"@ + audio_data,
            },
        ),
    }
}

/// The content that the location `url` of an arriving file carries: what a
/// compressed payload unpacks to, or what a data URL encodes; nothing where
/// the location carries no content or the content cannot be read.
pub open spec fn payload_of(url: Seq<char>) -> Seq<u8> {
    if "compressed:"@.is_prefix_of(url) {
        bytes_or_none(gzip_decompressed(bytes_or_none(base64_decoded(url.skip(11)))))
    } else if "data:"@.is_prefix_of(url) {
        let comma = first_index_from(url, ',', 0);
        if comma < url.len() {
            bytes_or_none(base64_decoded(url.skip(comma + 1)))
        } else {
            Seq::empty()
        }
    } else {
        Seq::empty()
    }
}

/// The path that a request for a stored file asks for: the second and the
/// third of its segments name the directory and the file.
pub open spec fn requested_path(package_id: Seq<char>, segments: Seq<Seq<char>>) -> Result<Seq<char>, Seq<char>> {
    if segments.len() < 3 {
        Err("Invalid file path"@)
    } else {
        Ok(storage_path(package_id, segments[1], segments[2]))
    }
}

/// Makes the name under which a file is stored.
pub fn make_file_id(now: u64, nonce: u32) -> (id: String)
    ensures
        id@ == file_id_of(now, nonce),
{
    let mut id = String::new();
    push_decimal(&mut id, now);
    id.push('_');
    push_decimal(&mut id, nonce as u64);
    assert(id@ =~= file_id_of(now, nonce));
    id
}

/// Makes the path under which a file is stored.
pub fn make_storage_path(package_id: &str, directory: &str, file_id: &str) -> (path: String)
    ensures
        path@ == storage_path(package_id@, directory@, file_id@),
{
    let mut path = String::from_str("/");
    path.append(package_id);
    path.append("/files/");
    path.append(directory);
    path.append("/");
    path.append(file_id);
    path
}

/// Makes the path of the directory that holds the stored files of a chat.
pub fn make_storage_directory(package_id: &str, directory: &str) -> (path: String)
    ensures
        path@ == storage_directory(package_id@, directory@),
{
    let mut path = String::from_str("/");
    path.append(package_id);
    path.append("/files/");
    path.append(directory);
    path
}

/// Makes the local address of a stored file.
pub fn make_local_url(directory: &str, file_id: &str) -> (url: String)
    ensures
        url@ == local_url(directory@, file_id@),
{
    let mut url = String::from_str("/files/");
    url.append(directory);
    url.append("/");
    url.append(file_id);
    url
}

/// The path of the stored file that a request asks for.
pub fn serve_file_path(package_id: &str, path_segments: &Vec<String>) -> (r: Result<String, String>)
    ensures
        match requested_path(package_id@, views(path_segments@)) {
            Ok(path) => r matches Ok(p) && p@ == path,
            Err(complaint) => r matches Err(e) && e@ == complaint,
        },
{
    if path_segments.len() < 3 {
        return Err(String::from_str("Invalid file path"));
    }
    Ok(make_storage_path(package_id, path_segments[1].as_str(), path_segments[2].as_str()))
}

/// Reads the content of an arriving file out of its location.
pub fn incoming_file_data(url: &str) -> (data: Vec<u8>)
    ensures
        data@ == payload_of(url@),
{
    let cs = chars_of(url);
    if starts_with(url, "compressed:") {
        proof {
            reveal_strlit("compressed:");
        }
        let rest = string_of_range(&cs, 11, cs.len());
        assert(rest@ =~= url@.skip(11));
        let stream = unwrap_bytes(base64_decode(rest.as_str()));
        unwrap_bytes(gzip_decompress(stream.as_slice()))
    } else if starts_with(url, "data:") {
        let comma = find_char_from(&cs, ',', 0);
        if comma < cs.len() {
            let rest = string_of_range(&cs, comma + 1, cs.len());
            assert(rest@ =~= url@.skip(comma + 1));
            unwrap_bytes(base64_decode(rest.as_str()))
        } else {
            Vec::new()
        }
    } else {
        Vec::new()
    }
}

/// The content of the file of an arriving message that is to be stored.
pub fn file_to_store(message: &ChatMessage) -> (data: Option<Vec<u8>>)
    ensures
        match payload_to_store(message@) {
            Some(bytes) => data matches Some(d) && d@ == bytes,
            None => data is None,
        },
{
    match &message.file_info {
        Some(f) => {
            let data = incoming_file_data(f.url.as_str());
            if data.len() > 0 {
                Some(data)
            } else {
                None
            }
        },
        None => None,
    }
}

/// Whether two lists of bytes hold the same bytes.
pub fn same_bytes(a: &Vec<u8>, b: &Vec<u8>) -> (r: bool)
    ensures
        r == (a@ == b@),
{
    if a.len() != b.len() {
        return false;
    }
    let mut i: usize = 0;
    while i < a.len()
        invariant
            i <= a.len(),
            a.len() == b.len(),
            forall|j: int| 0 <= j < i ==> a@[j] == b@[j],
        decreases a.len() - i,
    {
        if a[i] != b[i] {
            return false;
        }
        i += 1;
    }
    assert(a@ =~= b@);
    true
}

impl ChatState {
    /// Checks an upload before anything is stored: decodes the content,
    /// holds its size against the limit of the settings, and names the file.
    pub fn plan_upload(&self, req: &UploadFileReq, now: u64, nonce: u32) -> (r: Result<UploadPlan, String>)
        ensures
            plan_view(r) == planned(
                self@.settings.max_file_size_mb,
                req.chat_id@,
                req.mime_type@,
                req.data@,
                now,
                nonce,
            ),
    {
        let data = match base64_decode(req.data.as_str()) {
            Ok(data) => data,
            Err(complaint) => {
                return Err(concat2("Failed to decode base64: ", complaint.as_str()));
            },
        };
        let size_mb = (data.len() as u64) / (1024 * 1024);
        if size_mb > self.settings.max_file_size_mb {
            let mut text = String::from_str("File size exceeds limit of ");
            push_decimal(&mut text, self.settings.max_file_size_mb);
            text.append(" MB");
            return Err(text);
        }
        let message_type = if starts_with(req.mime_type.as_str(), "image/") {
            MessageType::Image
        } else {
            MessageType::File
        };
        Ok(
            UploadPlan {
                data,
                file_id: make_file_id(now, nonce),
                directory: underscore_colons(req.chat_id.as_str()),
                message_type,
            },
        )
    }

    /// Whether `plan` is a plan for the upload that `req` asks for.
    pub fn plan_fits(&self, req: &UploadFileReq, plan: &UploadPlan) -> (r: bool)
        ensures
            r == plan_matches(
                self@.settings.max_file_size_mb,
                req.chat_id@,
                req.mime_type@,
                req.data@,
                plan@,
            ),
    {
        let decoded = match base64_decode(req.data.as_str()) {
            Ok(bytes) => bytes,
            Err(_) => {
                return false;
            },
        };
        let kind_fits = match plan.message_type {
            MessageType::Image => starts_with(req.mime_type.as_str(), "image/"),
            MessageType::File => !starts_with(req.mime_type.as_str(), "image/"),
            _ => false,
        };
        same_bytes(&decoded, &plan.data) && (plan.data.len() as u64) / (1024 * 1024)
            <= self.settings.max_file_size_mb && underscore_colons(req.chat_id.as_str()).as_str().eq(
            plan.directory.as_str(),
        ) && kind_fits
    }

    /// Sends a file that was checked and stored, where `plan` is a plan for
    /// the upload that `req` asks for, and does nothing where it is not.
    pub fn upload_planned_file(
        &mut self,
        req: UploadFileReq,
        plan: UploadPlan,
        our_node: &str,
        now: u64,
        nonce: u32,
    ) -> (r: Option<Result<(ChatMessage, Vec<Effect>), String>>)
        ensures
            ({
                let outcome = upload_outcome(
                    old(self)@,
                    req.chat_id@,
                    req.filename@,
                    req.mime_type@,
                    req.data@,
                    opt_view(req.reply_to),
                    plan@,
                    our_node@,
                    now,
                    nonce,
                );
                if plan_matches(
                    old(self)@.settings.max_file_size_mb,
                    req.chat_id@,
                    req.mime_type@,
                    req.data@,
                    plan@,
                ) {
                    final(self)@ == outcome.0 && (r matches Some(done) && upload_view(done) == outcome.1)
                } else {
                    final(self)@ == old(self)@ && r is None
                }
            }),
            state_wf(old(self)@) ==> state_wf(final(self)@),
    {
        if self.plan_fits(&req, &plan) {
            Some(self.upload_file(req, plan, our_node, now, nonce))
        } else {
            None
        }
    }

    /// Sends a file that was checked and stored. The message is added to the
    /// chat, which is created if need be, and handed over for delivery. An
    /// image travels as a data URL. Any other file travels compressed, and
    /// is kept here under the address of its stored copy; if it cannot be
    /// compressed nothing is sent and nothing changes.
    pub fn upload_file(&mut self, req: UploadFileReq, plan: UploadPlan, our_node: &str, now: u64, nonce: u32) -> (r:
        Result<(ChatMessage, Vec<Effect>), String>)
        requires
            plan_matches(
                old(self)@.settings.max_file_size_mb,
                req.chat_id@,
                req.mime_type@,
                req.data@,
                plan@,
            ),
        ensures
            ({
                let outcome = upload_outcome(
                    old(self)@,
                    req.chat_id@,
                    req.filename@,
                    req.mime_type@,
                    req.data@,
                    opt_view(req.reply_to),
                    plan@,
                    our_node@,
                    now,
                    nonce,
                );
                final(self)@ == outcome.0 && upload_view(r) == outcome.1
            }),
            state_wf(old(self)@) ==> state_wf(final(self)@),
    {
        broadcast use group_views;

        let is_file = match plan.message_type {
            MessageType::File => true,
            _ => false,
        };
        let is_image = match plan.message_type {
            MessageType::Image => true,
            _ => false,
        };
        let url = if is_image {
            make_data_url(req.mime_type.as_str(), req.data.as_str())
        } else {
            make_local_url(plan.directory.as_str(), plan.file_id.as_str())
        };
        let travelling = if is_file {
            let stream = match compress_data(plan.data.as_slice()) {
                Ok(stream) => stream,
                Err(e) => {
                    return Err(e);
                },
            };
            concat2("compressed:", base64_encode(stream.as_slice()).as_str())
        } else {
            url.clone()
        };
        let size = plan.data.len() as u64;
        let id = make_message_id(now, nonce);
        let message = ChatMessage {
            id: id.clone(),
            sender: String::from_str(our_node),
            content: req.filename.clone(),
            timestamp: now,
            status: MessageStatus::Sending,
            reply_to: clone_opt_string(&req.reply_to),
            reactions: Vec::new(),
            message_type: plan.message_type,
            file_info: Some(
                FileInfo { filename: req.filename.clone(), mime_type: req.mime_type.clone(), size, url },
            ),
        };
        let to_send = ChatMessage {
            id,
            sender: String::from_str(our_node),
            content: req.filename.clone(),
            timestamp: now,
            status: MessageStatus::Sending,
            reply_to: req.reply_to,
            reactions: Vec::new(),
            message_type: plan.message_type,
            file_info: Some(
                FileInfo { filename: req.filename, mime_type: req.mime_type, size, url: travelling },
            ),
        };
        let ci = post(self, req.chat_id.as_str(), message.clone(), now, MessageStatus::Sending);
        let mut effects: Vec<Effect> = Vec::new();
        effects.push(Effect::Deliver { target: self.chats[ci].counterparty.clone(), message: to_send });
        assert(views(effects@) =~= seq![
            EffectView::Deliver { target: self@.chats[ci as int].counterparty, message: to_send@ },
        ]);
        Ok((message, effects))
    }

    /// Sends a voice note. The message carries the recording as a data URL;
    /// it is added to the chat, which is created if need be, and handed over
    /// for delivery.
    pub fn send_voice_note(&mut self, req: SendVoiceNoteReq, our_node: &str, now: u64, nonce: u32) -> (r: (
        ChatMessage,
        Vec<Effect>,
    ))
        ensures
            ({
                let m = voice_message(
                    req.audio_data@,
                    req.duration,
                    opt_view(req.reply_to),
                    our_node@,
                    now,
                    nonce,
                );
                &&& final(self)@ == (StateView {
                    chats: posted(old(self)@.chats, req.chat_id@, m, now, MessageStatus::Sending),
                    ..old(self)@
                })
                &&& r.0@ == m
                &&& views(r.1@) == seq![
                    EffectView::Deliver {
                        target: posted_chat(
                            old(self)@.chats,
                            req.chat_id@,
                            m,
                            now,
                            MessageStatus::Sending,
                        ).counterparty,
                        message: m,
                    },
                ]
            }),
            state_wf(old(self)@) ==> state_wf(final(self)@),
    {
        broadcast use group_views;

        let id = make_message_id(now, nonce);
        let mut filename = String::from_str("voice_note_");
        filename.append(id.as_str());
        filename.append(".webm");
        let mut content = String::from_str("Voice note (");
        push_decimal(&mut content, req.duration as u64);
        content.append("s)");
        let size = req.audio_data.as_str().len() as u64;
        let message = ChatMessage {
            id,
            sender: String::from_str(our_node),
            content,
            timestamp: now,
            status: MessageStatus::Sending,
            reply_to: req.reply_to,
            reactions: Vec::new(),
            message_type: MessageType::VoiceNote,
            file_info: Some(
                FileInfo {
                    filename,
                    mime_type: String::from_str("audio/webm"),
                    size,
                    url: concat2("data:audio/webm;base64,", req.audio_data.as_str()),
                },
            ),
        };
        let ci = post(self, req.chat_id.as_str(), message.clone(), now, MessageStatus::Sending);
        let mut effects: Vec<Effect> = Vec::new();
        effects.push(
            Effect::Deliver { target: self.chats[ci].counterparty.clone(), message: message.clone() },
        );
        assert(views(effects@) =~= seq![
            EffectView::Deliver { target: self@.chats[ci as int].counterparty, message: message@ },
        ]);
        (message, effects)
    }
}

} // verus!

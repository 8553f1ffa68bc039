use chat::codec::{compress_data, decompress_data};
use chat::files::{
    file_to_store, incoming_file_data, make_storage_directory, make_storage_path, serve_file_path, UploadPlan,
};
use chat::model::{ChatKey, MessageType, Settings, UserProfile};
use chat::multiplexer::WsEvent;
use chat::notification::{fits_notification, invalid_endpoint, send_push_notification_for_message, shorten};
use chat::requests::{
    CreateChatLinkReq, RevokeChatKeyReq, SendVoiceNoteReq, UploadFileReq, UploadProfilePictureReq,
};
use chat::search::{contains_text, find_text};
use chat::state::ChatState;
use chat::status::MessageStatus;
use chat::wire::{Effect, WsClientMessage, WsServerMessage};

fn link_req(chat_id: &str) -> CreateChatLinkReq {
    CreateChatLinkReq { chat_id: chat_id.to_string(), single_use: false }
}

#[test]
fn a_chat_link_carries_the_key_in_hexadecimal() {
    let mut state = ChatState::default();
    let link = state.create_chat_link(link_req("browser:x"), "alice.os", 1000, 0xdeadbeef, 123456);
    assert_eq!(link, "http://alice.os/public/join-deadbeef");
    assert_eq!(
        state.chat_keys,
        vec![ChatKey {
            key: "deadbeef".to_string(),
            user_name: "Guest-3456".to_string(),
            created_at: 1000,
            is_revoked: false,
            chat_id: "browser:x".to_string(),
        }]
    );
    let link = state.create_chat_link(link_req("browser:y"), "alice.os", 1001, 0, 10000);
    assert_eq!(link, "http://alice.os/public/join-0");
    assert_eq!(state.chat_keys[1].user_name, "Guest-0");
    let link = state.create_chat_link(link_req("browser:z"), "alice.os", 1002, u128::MAX, 9999);
    assert_eq!(link, "http://alice.os/public/join-ffffffffffffffffffffffffffffffff");
    assert_eq!(state.chat_keys[2].user_name, "Guest-9999");
    assert_eq!(state.chat_keys.len(), 3);
}

#[test]
fn revoked_keys_are_kept_and_not_listed() {
    let mut state = ChatState::default();
    state.create_chat_link(link_req("browser:x"), "alice.os", 1000, 0xa, 1);
    state.create_chat_link(link_req("browser:y"), "alice.os", 1001, 0xb, 2);
    assert_eq!(state.get_chat_keys().len(), 2);
    assert_eq!(state.revoke_chat_key(RevokeChatKeyReq { key: "a".to_string() }), Ok("Chat key revoked".to_string()));
    assert_eq!(state.revoke_chat_key(RevokeChatKeyReq { key: "a".to_string() }), Ok("Chat key revoked".to_string()));
    assert_eq!(
        state.revoke_chat_key(RevokeChatKeyReq { key: "zz".to_string() }),
        Err("Chat key not found".to_string())
    );
    let listed = state.get_chat_keys();
    assert_eq!(listed.len(), 1);
    assert_eq!(listed[0].key, "b");
    assert_eq!(state.chat_keys.len(), 2);
    assert!(state.chat_keys[0].is_revoked);
    assert!(!state.chat_keys[1].is_revoked);
}

#[test]
fn a_fresh_state() {
    let state = ChatState::default();
    assert_eq!(state.profile, UserProfile { name: "User".to_string(), profile_pic: None });
    assert_eq!(state.get_profile(), UserProfile::default());
    let settings = state.get_settings();
    assert_eq!(settings, Settings::default());
    assert!(settings.show_images && settings.show_profile_pics && !settings.combine_chats_groups);
    assert!(settings.notify_chats && settings.notify_groups && settings.notify_calls);
    assert!(settings.allow_browser_chats && !settings.stt_enabled);
    assert_eq!(settings.stt_api_key, None);
    assert_eq!(settings.max_file_size_mb, 10);
    assert!(state.chats.is_empty() && state.chat_keys.is_empty() && state.delivery_queue.is_empty());
}

#[test]
fn starting_names_the_profile_and_greets() {
    let mut state = ChatState::default();
    state.initialize("alice.os", 1234);
    assert_eq!(state.profile.name, "alice");
    assert_eq!(state.chats.len(), 1);
    let chat = &state.chats[0];
    assert_eq!(chat.id, "system:welcome");
    assert_eq!(chat.counterparty, "System");
    assert!(!chat.notify);
    assert_eq!(chat.last_activity, 1234);
    assert_eq!(chat.messages.len(), 1);
    assert_eq!(chat.messages[0].id, "welcome_1234");
    assert_eq!(chat.messages[0].sender, "System");
    assert_eq!(chat.messages[0].status, MessageStatus::Delivered);
    assert_eq!(
        chat.messages[0].content,
        "Welcome to Hyperware Chat! You can create new chats by clicking the + button."
    );
    let snapshot = state.chats.clone();
    state.profile.name = "Custom".to_string();
    state.initialize("alice.os", 9999);
    assert_eq!(state.profile.name, "Custom");
    assert_eq!(state.chats, snapshot);
    let mut other = ChatState::default();
    other.initialize("nodots", 1);
    assert_eq!(other.profile.name, "nodots");
    let mut other = ChatState::default();
    other.initialize(".hidden", 1);
    assert_eq!(other.profile.name, "");
}

#[test]
fn settings_and_profile_are_replaced_whole() {
    let mut state = ChatState::default();
    let mut settings = Settings::default();
    settings.max_file_size_mb = 1;
    settings.stt_api_key = Some("k".to_string());
    assert_eq!(state.update_settings(settings.clone()), "Settings updated");
    assert_eq!(state.get_settings(), settings);
    let profile = UserProfile { name: "Alice".to_string(), profile_pic: Some("data:x".to_string()) };
    assert_eq!(state.update_profile(profile.clone()), "Profile updated");
    assert_eq!(state.get_profile(), profile);
}

#[test]
fn a_profile_picture_must_be_an_image() {
    let mut state = ChatState::default();
    state.websocket(3, WsEvent::Message(WsClientMessage::Heartbeat), "alice.os", 1, 1);
    let bad = UploadProfilePictureReq { mime_type: "text/plain".to_string(), data: "AAAA".to_string() };
    assert_eq!(state.upload_profile_picture(bad, "alice.os"), Err("Invalid image type".to_string()));
    assert_eq!(state.profile.profile_pic, None);
    let good = UploadProfilePictureReq { mime_type: "image/png".to_string(), data: "AAAA".to_string() };
    let (url, effects) = state.upload_profile_picture(good, "alice.os").unwrap();
    assert_eq!(url, "data:image/png;base64,AAAA");
    assert_eq!(state.profile.profile_pic, Some(url.clone()));
    assert_eq!(
        effects,
        vec![Effect::Push {
            channel_id: 3,
            frame: WsServerMessage::ProfileUpdate {
                node: "alice.os".to_string(),
                profile: UserProfile { name: "User".to_string(), profile_pic: Some(url) },
            },
        }]
    );
}

fn upload(mime: &str, data: &str) -> UploadFileReq {
    UploadFileReq {
        chat_id: "alice.os:bob.os".to_string(),
        filename: "notes.txt".to_string(),
        mime_type: mime.to_string(),
        data: data.to_string(),
        reply_to: None,
    }
}

#[test]
fn an_upload_is_checked_before_it_is_stored() {
    let mut state = ChatState::default();
    let plan = state.plan_upload(&upload("text/plain", "aGVsbG8gd29ybGQ="), 500, 7).unwrap();
    assert_eq!(
        plan,
        UploadPlan {
            data: b"hello world".to_vec(),
            file_id: "500_7".to_string(),
            directory: "alice.os_bob.os".to_string(),
            message_type: MessageType::File,
        }
    );
    let plan = state.plan_upload(&upload("image/jpeg", "/9g="), 500, 7).unwrap();
    assert_eq!(plan.message_type, MessageType::Image);
    assert_eq!(plan.data, vec![0xff, 0xd8]);
    let refused = state.plan_upload(&upload("text/plain", "not base64!"), 500, 7).unwrap_err();
    assert!(refused.starts_with("Failed to decode base64: "), "{}", refused);
    assert!(refused.len() > "Failed to decode base64: ".len());

    state.settings.max_file_size_mb = 0;
    let just_under = "A".repeat(4 * (1024 * 1024 - 1) / 3 + 1);
    let just_under = &just_under[..just_under.len() / 4 * 4];
    assert!(state.plan_upload(&upload("text/plain", just_under), 1, 1).is_ok());
    let one_megabyte = "AAAA".repeat(1024 * 1024 / 3 + 1);
    assert_eq!(
        state.plan_upload(&upload("text/plain", &one_megabyte), 1, 1),
        Err("File size exceeds limit of 0 MB".to_string())
    );
}

#[test]
fn a_file_travels_compressed_and_is_kept_by_its_local_address() {
    let mut state = ChatState::default();
    let req = upload("text/plain", "aGVsbG8gd29ybGQ=");
    let plan = state.plan_upload(&req, 500, 7).unwrap();
    let (kept, effects) = state.upload_file(req, plan, "alice.os", 501, 8).unwrap();
    assert_eq!(kept.id, "501:8");
    assert_eq!(kept.content, "notes.txt");
    assert_eq!(kept.message_type, MessageType::File);
    assert_eq!(kept.status, MessageStatus::Sending);
    let info = kept.file_info.clone().unwrap();
    assert_eq!(info.filename, "notes.txt");
    assert_eq!(info.mime_type, "text/plain");
    assert_eq!(info.size, 11);
    assert_eq!(info.url, "/files/alice.os_bob.os/500_7");
    assert_eq!(state.chats[0].messages, vec![kept.clone()]);
    assert_eq!(state.chats[0].counterparty, "bob.os");
    assert_eq!(effects.len(), 1);
    match &effects[0] {
        Effect::Deliver { target, message } => {
            assert_eq!(target, "bob.os");
            assert_eq!(message.id, kept.id);
            let url = &message.file_info.as_ref().unwrap().url;
            assert!(url.starts_with("compressed:H4sI"), "{}", url);
            assert_eq!(message.file_info.as_ref().unwrap().size, 11);
            assert_eq!(incoming_file_data(url), b"hello world".to_vec());
        }
        other => panic!("unexpected: {:?}", other),
    }
}

#[test]
fn an_image_travels_as_a_data_url() {
    let mut state = ChatState::default();
    let req = upload("image/png", "iVBORw==");
    let plan = state.plan_upload(&req, 500, 7).unwrap();
    let (kept, effects) = state.upload_file(req, plan, "alice.os", 501, 8).unwrap();
    assert_eq!(kept.message_type, MessageType::Image);
    assert_eq!(kept.file_info.as_ref().unwrap().url, "data:image/png;base64,iVBORw==");
    assert_eq!(effects, vec![Effect::Deliver { target: "bob.os".to_string(), message: kept.clone() }]);
    assert_eq!(incoming_file_data("data:image/png;base64,iVBORw=="), vec![0x89, 0x50, 0x4e, 0x47]);
}

#[test]
fn the_content_of_an_arriving_file() {
    assert_eq!(incoming_file_data("/files/a/b"), Vec::<u8>::new());
    assert_eq!(incoming_file_data(""), Vec::<u8>::new());
    assert_eq!(incoming_file_data("data:no-comma"), Vec::<u8>::new());
    assert_eq!(incoming_file_data("data:text/plain;base64,aGk="), b"hi".to_vec());
    assert_eq!(incoming_file_data("data:text/plain;base64,***"), Vec::<u8>::new());
    assert_eq!(incoming_file_data("compressed:aGk="), Vec::<u8>::new());
    assert_eq!(incoming_file_data("compressed:***"), Vec::<u8>::new());
    assert_eq!(incoming_file_data("compressed:"), Vec::<u8>::new());
}

#[test]
fn compressed_text_reads_back() {
    let stream = compress_data(b"hello").unwrap();
    assert_eq!(decompress_data(&stream), Ok(b"hello".to_vec()));
}

#[test]
fn a_voice_note() {
    let mut state = ChatState::default();
    let req = SendVoiceNoteReq {
        chat_id: "alice.os:bob.os".to_string(),
        audio_data: "T2dnUw==".to_string(),
        duration: 12,
        reply_to: Some("1:1".to_string()),
    };
    let (note, effects) = state.send_voice_note(req, "alice.os", 600, 3);
    assert_eq!(note.id, "600:3");
    assert_eq!(note.content, "Voice note (12s)");
    assert_eq!(note.message_type, MessageType::VoiceNote);
    assert_eq!(note.reply_to, Some("1:1".to_string()));
    let info = note.file_info.clone().unwrap();
    assert_eq!(info.filename, "voice_note_600:3.webm");
    assert_eq!(info.mime_type, "audio/webm");
    assert_eq!(info.size, 8);
    assert_eq!(info.url, "data:audio/webm;base64,T2dnUw==");
    assert_eq!(effects, vec![Effect::Deliver { target: "bob.os".to_string(), message: note.clone() }]);
    assert_eq!(state.chats[0].messages, vec![note]);
}

#[test]
fn paths_of_stored_files() {
    assert_eq!(make_storage_path("chat:ware.hypr", "alice.os_bob.os", "500_7"), "/chat:ware.hypr/files/alice.os_bob.os/500_7");
    assert_eq!(make_storage_directory("chat:ware.hypr", "alice.os_bob.os"), "/chat:ware.hypr/files/alice.os_bob.os");
    let segments = |parts: &[&str]| -> Vec<String> { parts.iter().map(|p| p.to_string()).collect() };
    assert_eq!(
        serve_file_path("pkg", &segments(&["files", "alice.os_bob.os", "500_7"])),
        Ok("/pkg/files/alice.os_bob.os/500_7".to_string())
    );
    assert_eq!(
        serve_file_path("pkg", &segments(&["files", "d", "f", "extra"])),
        Ok("/pkg/files/d/f".to_string())
    );
    assert_eq!(serve_file_path("pkg", &segments(&["files", "d"])), Err("Invalid file path".to_string()));
    assert_eq!(serve_file_path("pkg", &segments(&[])), Err("Invalid file path".to_string()));
}

#[test]
fn a_notification_for_a_message() {
    let n = send_push_notification_for_message("bob.os", "hello", "alice.os:bob.os");
    assert_eq!(n.title, "Message from bob.os");
    assert_eq!(n.body, "hello");
    assert_eq!(n.icon, "/icon-180.png");
    assert_eq!(n.url, "/chat#alice.os:bob.os");
    assert_eq!(n.chat_id, "alice.os:bob.os");
    assert_eq!(n.sender, "bob.os");
    assert_eq!(n.app_id, "chat:chat:ware.hypr");
    assert_eq!(n.app_label, "Chat");
    let exactly = "x".repeat(100);
    assert_eq!(shorten(&exactly), exactly);
    let long = "x".repeat(101);
    assert_eq!(shorten(&long), format!("{}...", "x".repeat(97)));
    assert!(fits_notification(&long));
    let wide = format!("{}\u{e9}{}", "x".repeat(96), "y".repeat(10));
    assert!(!fits_notification(&wide));
    let wide_but_short = format!("{}\u{e9}", "x".repeat(96));
    assert!(fits_notification(&wide_but_short));
    let cut_after = format!("{}\u{e9}{}", "x".repeat(95), "y".repeat(10));
    assert!(fits_notification(&cut_after));
    assert_eq!(shorten(&cut_after), format!("{}\u{e9}...", "x".repeat(95)));
}

#[test]
fn the_endpoint_that_an_error_names() {
    assert_eq!(invalid_endpoint("Failed to send: timeout"), None);
    assert_eq!(invalid_endpoint("EndpointNotValid"), None);
    assert_eq!(invalid_endpoint("http://push.example/x: EndpointNotValid"), None);
    assert_eq!(invalid_endpoint("EndpointNotValid for host/path: https//"), None);
    let error = "Failed to send to https://fcm.googleapis.com/fcm/send/abc: EndpointNotValid";
    let expected = error.find("https://").map(|start| {
        let end = error[start..].find(':').unwrap();
        error[start..start + end].to_string()
    });
    assert_eq!(invalid_endpoint(error), expected);
    assert_eq!(invalid_endpoint(error), Some("https".to_string()));
}

#[test]
fn finding_text_in_text() {
    let cases = [("hello world", "o w"), ("hello", "hello"), ("hello", ""), ("", ""), ("", "a"), ("aaa", "aa"),
        ("abcabc", "cab"), ("abc", "abcd"), ("\u{e9}t\u{e9}", "t\u{e9}")];
    for (haystack, needle) in cases {
        let expected = haystack.find(needle).map(|at| haystack[..at].chars().count());
        assert_eq!(find_text(haystack, needle), expected, "{:?} in {:?}", needle, haystack);
        assert_eq!(contains_text(haystack, needle), haystack.contains(needle));
    }
}

#[test]
fn an_upload_must_match_its_plan() {
    let mut state = ChatState::default();
    let req = upload("text/plain", "aGVsbG8gd29ybGQ=");
    let plan = state.plan_upload(&req, 500, 7).unwrap();
    assert!(state.plan_fits(&req, &plan));
    let other = upload("text/plain", "aGk=");
    assert!(!state.plan_fits(&other, &plan));
    assert!(!state.plan_fits(&upload("image/png", "aGVsbG8gd29ybGQ="), &plan));
    let elsewhere = UploadFileReq { chat_id: "alice.os:carol.os".to_string(), ..upload("text/plain", "aGVsbG8gd29ybGQ=") };
    assert!(!state.plan_fits(&elsewhere, &plan));
    assert!(!state.plan_fits(&upload("text/plain", "***"), &plan));
    assert_eq!(state.upload_planned_file(other, plan, "alice.os", 501, 8), None);
    assert!(state.chats.is_empty());
    let plan = state.plan_upload(&req, 500, 7).unwrap();
    state.settings.max_file_size_mb = 0;
    assert!(state.plan_fits(&req, &plan));
    let done = state.upload_planned_file(req, plan, "alice.os", 501, 8);
    assert!(matches!(done, Some(Ok(_))));
    assert_eq!(state.chats[0].messages.len(), 1);
}

#[test]
fn the_file_of_an_arriving_message_that_is_stored() {
    let mut message = chat::model::ChatMessage {
        id: "1:1".to_string(),
        sender: "bob.os".to_string(),
        content: "x".to_string(),
        timestamp: 1,
        status: MessageStatus::Sending,
        reply_to: None,
        reactions: Vec::new(),
        message_type: MessageType::File,
        file_info: None,
    };
    assert_eq!(file_to_store(&message), None);
    let info = |url: &str| chat::model::FileInfo {
        filename: "f".to_string(),
        mime_type: "text/plain".to_string(),
        size: 2,
        url: url.to_string(),
    };
    message.file_info = Some(info("data:text/plain;base64,aGk="));
    assert_eq!(file_to_store(&message), Some(b"hi".to_vec()));
    message.file_info = Some(info("data:text/plain;base64,"));
    assert_eq!(file_to_store(&message), None);
    message.file_info = Some(info("/files/a/b"));
    assert_eq!(file_to_store(&message), None);
}

use chat::model::{Chat, ChatMessage, FileInfo, MessageReaction, MessageType};
use chat::status::MessageStatus;
use chat::tools::{
    can_report, format_bulk_line, format_bulk_report, format_bulk_summary, format_chat_report,
    format_chats_report, join_words, parse_debug_command, split_words, stack_lines, unquote, BulkOutcome,
    DebugCommand,
};

fn message(id: &str, sender: &str, content: &str, ts: u64) -> ChatMessage {
    ChatMessage {
        id: id.to_string(),
        sender: sender.to_string(),
        content: content.to_string(),
        timestamp: ts,
        status: MessageStatus::Delivered,
        reply_to: None,
        reactions: Vec::new(),
        message_type: MessageType::Text,
        file_info: None,
    }
}

fn chat(messages: Vec<ChatMessage>) -> Chat {
    Chat {
        id: "alice.os:bob.os".to_string(),
        counterparty: "bob.os".to_string(),
        messages,
        last_activity: 940,
        unread_count: 3,
        is_blocked: false,
        notify: true,
    }
}

#[test]
fn the_words_of_a_command_line() {
    let words = |text: &str| -> Vec<String> { split_words(text) };
    assert_eq!(words(""), Vec::<String>::new());
    assert_eq!(words("   \t\n"), Vec::<String>::new());
    assert_eq!(words("get_chats"), vec!["get_chats"]);
    assert_eq!(words("  get_chat   a  b\tc "), vec!["get_chat", "a", "b", "c"]);
    assert_eq!(words("x\u{a0}y\u{3000}z"), vec!["x", "y", "z"]);
    for text in ["", " a", "a ", "a  b", "\ta\nb c ", "one"] {
        let expected: Vec<String> = text.split_whitespace().map(|w| w.to_string()).collect();
        assert_eq!(split_words(text), expected);
    }
    let parts = words("a b c");
    assert_eq!(join_words(&parts, 0), "a b c");
    assert_eq!(join_words(&parts, 1), "b c");
    assert_eq!(join_words(&parts, 2), "c");
    assert_eq!(join_words(&parts, 3), "");
}

#[test]
fn the_commands_of_the_inspection_tool() {
    assert_eq!(parse_debug_command(""), DebugCommand::Usage);
    assert_eq!(parse_debug_command("   "), DebugCommand::Usage);
    assert_eq!(parse_debug_command("get_chats"), DebugCommand::GetChats);
    assert_eq!(parse_debug_command(" get_chats now"), DebugCommand::GetChats);
    assert_eq!(parse_debug_command("get_chat"), DebugCommand::MissingChatId);
    assert_eq!(
        parse_debug_command("get_chat alice.os:bob.os"),
        DebugCommand::GetChat { chat_id: "alice.os:bob.os".to_string() }
    );
    assert_eq!(
        parse_debug_command("get_chat  with   blanks "),
        DebugCommand::GetChat { chat_id: "with blanks".to_string() }
    );
    assert_eq!(parse_debug_command("drop tables"), DebugCommand::Unknown { command: "drop".to_string() });
}

#[test]
fn the_arguments_of_the_bulk_tool() {
    assert_eq!(unquote("'{\"a\": \"b\"}'"), "{\"a\": \"b\"}");
    assert_eq!(unquote("{\"a\": \"b\"}"), "{\"a\": \"b\"}");
    assert_eq!(unquote("''"), "");
    assert_eq!(unquote("'"), "'");
    assert_eq!(unquote("'open"), "'open");
    assert_eq!(unquote(""), "");
    assert_eq!(format_bulk_summary(2, 1), "\n\n\x1b[1mSummary:\x1b[0m 2 sent, 1 failed");
    assert_eq!(format_bulk_summary(0, 0), "\n\n\x1b[1mSummary:\x1b[0m 0 sent, 0 failed");
}

#[test]
fn the_list_of_chats() {
    let rule = "=".repeat(80);
    assert_eq!(format_chats_report(&vec![], 1000), format!("\n=== Found 0 chats ===\n{}\n\n{}\n", rule, rule));
    let long = "y".repeat(51);
    let chats = vec![
        chat(vec![
            message("1", "bob.os", "oldest", 100),
            message("2", "alice.os", "short", 880),
            message("3", "bob.os", &long, 940),
        ]),
        Chat { id: "system:welcome".to_string(), messages: vec![], unread_count: 0, ..chat(vec![]) },
    ];
    assert!(can_report(&chats));
    let expected = format!(
        "\n=== Found 2 chats ===\n{rule}\n\
         \n[Chat 1]\n  ID: alice.os:bob.os\n  Counterparty: bob.os\n  Messages: 3\n  Last Activity: 940 (1m)\n  Unread: 3\n\
         \n  Recent messages:\n    [2m ago] alice.os: short\n    [1m ago] bob.os: {preview}...\n\
         \n[Chat 2]\n  ID: system:welcome\n  Counterparty: bob.os\n  Messages: 0\n  Last Activity: 940 (1m)\n  Unread: 0\n\
         \n{rule}\n",
        rule = rule,
        preview = "y".repeat(50)
    );
    assert_eq!(format_chats_report(&chats, 1000), expected);
}

#[test]
fn a_preview_cannot_cut_a_character_in_two() {
    let wide = format!("{}\u{e9}{}", "x".repeat(49), "y".repeat(10));
    assert!(!can_report(&vec![chat(vec![message("1", "bob.os", &wide, 1)])]));
    // Only the last two messages are previewed.
    let ok = vec![chat(vec![
        message("1", "bob.os", &wide, 1),
        message("2", "bob.os", "a", 2),
        message("3", "bob.os", "b", 3),
    ])];
    assert!(can_report(&ok));
}

#[test]
fn the_report_on_one_chat() {
    let rule = "=".repeat(80);
    let mut first = message("10:1", "bob.os", "hello", 400);
    first.reply_to = Some("9:9".to_string());
    first.reactions = vec![
        MessageReaction { emoji: "+1".to_string(), user: "alice.os".to_string(), timestamp: 1 },
        MessageReaction { emoji: "ok".to_string(), user: "bob.os".to_string(), timestamp: 2 },
    ];
    let mut second = message("11:1", "alice.os", "notes.txt", 1000);
    second.status = MessageStatus::Sending;
    second.message_type = MessageType::File;
    second.file_info = Some(FileInfo {
        filename: "notes.txt".to_string(),
        mime_type: "text/plain".to_string(),
        size: 11,
        url: "/files/x/y".to_string(),
    });
    let mut blocked = chat(vec![first, second]);
    blocked.is_blocked = true;
    blocked.notify = false;
    let expected = format!(
        "\n=== Chat Details: the id ===\n{rule}\n\
         Counterparty: bob.os\nLast Activity: 940 (1m)\nUnread: 3\nBlocked: true\nNotifications: false\n\
         \n=== 2 Messages ===\n\
         \n[Message 1 of 2]\n  ID: 10:1\n  Sender: bob.os\n  Time: 400 (10m)\n  Status: Delivered\n  Type: Text\n\
         \x20 Reply To: 9:9\n  Reactions: +1 (alice.os), ok (bob.os), \n  Content: hello\n\
         \n[Message 2 of 2]\n  ID: 11:1\n  Sender: alice.os\n  Time: 1000 (0s)\n  Status: Sending\n  Type: File\n\
         \x20 File: notes.txt (11 bytes, text/plain)\n  Content: notes.txt\n\
         \n{rule}\n",
        rule = rule
    );
    assert_eq!(format_chat_report("the id", &blocked, 1000), expected);
    let empty = format_chat_report("x", &chat(vec![]), 1000);
    assert!(empty.contains("\n=== 0 Messages ===\n\n===="));
}

#[test]
fn the_lines_of_the_bulk_tool() {
    assert_eq!(format_bulk_line("bob.os", &BulkOutcome::Sent), "\u{2713} bob.os: Message sent");
    assert_eq!(
        format_bulk_line("bob.os", &BulkOutcome::ChatFailed { reason: "Timeout".to_string() }),
        "\u{2717} bob.os: Failed to create/get chat - Timeout"
    );
    assert_eq!(
        format_bulk_line("bob.os", &BulkOutcome::UnreadableAnswer { reason: "EOF".to_string() }),
        "\u{2717} bob.os: Failed to parse chat response - EOF"
    );
    assert_eq!(format_bulk_line("bob.os", &BulkOutcome::NoChatId), "\u{2717} bob.os: Invalid chat response format");
    assert_eq!(
        format_bulk_line("bob.os", &BulkOutcome::SendFailed { reason: "Offline".to_string() }),
        "\u{2717} bob.os: Failed to send message - Offline"
    );
}

#[test]
fn the_report_of_the_bulk_tool() {
    let nodes = vec!["alice.os".to_string(), "bob.os".to_string(), "carol.os".to_string()];
    let outcomes = vec![BulkOutcome::Sent, BulkOutcome::NoChatId, BulkOutcome::Sent];
    assert_eq!(
        format_bulk_report(&nodes, &outcomes),
        "\u{2713} alice.os: Message sent\n\u{2717} bob.os: Invalid chat response format\n\u{2713} carol.os: Message sent\n\n\x1b[1mSummary:\x1b[0m 2 sent, 1 failed"
    );
    assert_eq!(format_bulk_report(&vec![], &vec![]), "Error: No messages to send");
    let lines = vec!["a".to_string(), "b".to_string()];
    assert_eq!(stack_lines(&lines, 0), "a\nb");
    assert_eq!(stack_lines(&lines, 1), "b");
    assert_eq!(stack_lines(&lines, 2), "");
}

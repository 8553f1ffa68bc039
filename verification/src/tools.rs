use crate::clock::{format_time_ago_at, time_ago};
use crate::codec::{is_white_space, white_space};
use crate::model::{
    group_views, views, Chat, ChatMessage, ChatView, FileInfoView, MessageReaction, MessageType,
    MessageView, ReactionView,
};
use crate::notification::{can_be_clipped, clip, clipped, fits_clip};
use crate::status::MessageStatus;
use crate::text::{chars_of, decimal, push_decimal, string_of_range};
use vstd::prelude::*;

verus! {

/// The words of a text: its longest runs of characters that are no white
/// space, in order.
pub open spec fn words(text: Seq<char>) -> Seq<Seq<char>>
    decreases text.len(),
{
    if text.len() == 0 {
        Seq::empty()
    } else if white_space(text.last()) {
        words(text.drop_last())
    } else if text.len() >= 2 && !white_space(text[text.len() - 2]) {
        let before = words(text.drop_last());
        before.drop_last().push(before.last().push(text.last()))
    } else {
        words(text.drop_last()).push(seq![text.last()])
    }
}

/// A text that ends in a character that is no white space has a last word.
pub proof fn lemma_words_nonempty(text: Seq<char>)
    requires
        text.len() > 0,
        !white_space(text.last()),
    ensures
        words(text).len() > 0,
    decreases text.len(),
{
    if text.len() >= 2 && !white_space(text[text.len() - 2]) {
        assert(text.drop_last().last() == text[text.len() - 2]);
        lemma_words_nonempty(text.drop_last());
    }
}

/// The words `parts[from..]` with one blank between each two.
pub open spec fn joined(parts: Seq<Seq<char>>, from: int) -> Seq<char>
    decreases parts.len() - from,
{
    if from >= parts.len() {
        Seq::empty()
    } else if from == parts.len() - 1 {
        parts[from]
    } else {
        parts[from] + seq![' '] + joined(parts, from + 1)
    }
}

/// What the inspection tool is asked to do.
#[derive(Debug, PartialEq)]
pub enum DebugCommand {
    /// Nothing was asked: show how the tool is used.
    Usage,
    /// List all chats.
    GetChats,
    /// Show one chat in full.
    GetChat { chat_id: String },
    /// One chat was asked for and none was named.
    MissingChatId,
    /// Something that the tool does not know.
    Unknown { command: String },
}

pub enum DebugCommandView {
    Usage,
    GetChats,
    GetChat { chat_id: Seq<char> },
    MissingChatId,
    Unknown { command: Seq<char> },
}

impl View for DebugCommand {
    type V = DebugCommandView;

    open spec fn view(&self) -> DebugCommandView {
        match *self {
            DebugCommand::Usage => DebugCommandView::Usage,
            DebugCommand::GetChats => DebugCommandView::GetChats,
            DebugCommand::GetChat { chat_id } => DebugCommandView::GetChat { chat_id: chat_id@ },
            DebugCommand::MissingChatId => DebugCommandView::MissingChatId,
            DebugCommand::Unknown { command } => DebugCommandView::Unknown { command: command@ },
        }
    }
}

/// What the arguments of the inspection tool ask for. The first word is the
/// command; the words after `get_chat`, with single blanks between them, are
/// the id of the chat.
pub open spec fn debug_command(args: Seq<char>) -> DebugCommandView {
    let parts = words(args);
    if parts.len() == 0 {
        DebugCommandView::Usage
    } else if parts[0] == "get_chats"@ {
        DebugCommandView::GetChats
    } else if parts[0] == "get_chat"@ {
        if parts.len() < 2 {
            DebugCommandView::MissingChatId
        } else {
            DebugCommandView::GetChat { chat_id: joined(parts, 1) }
        }
    } else {
        DebugCommandView::Unknown { command: parts[0] }
    }
}

/// Splits a text into its words.
pub fn split_words(text: &str) -> (parts: Vec<String>)
    ensures
        views(parts@) == words(text@),
{
    broadcast use group_views;

    let cs = chars_of(text);
    let mut parts: Vec<String> = Vec::new();
    let mut in_word = false;
    let mut i: usize = 0;
    assert(text@.subrange(0, 0) =~= Seq::<char>::empty());
    while i < cs.len()
        invariant
            i <= cs.len(),
            cs@ == text@,
            views(parts@) == words(text@.subrange(0, i as int)),
            in_word == (i > 0 && !white_space(text@[i - 1])),
        decreases cs.len() - i,
    {
        let c = cs[i];
        let ghost prefix = text@.subrange(0, i + 1);
        assert(prefix.drop_last() =~= text@.subrange(0, i as int));
        assert(prefix.last() == c);
        if !is_white_space(c) {
            if in_word {
                proof {
                    assert(prefix[prefix.len() - 2] == text@[i - 1]);
                    assert(text@.subrange(0, i as int).last() == text@[i - 1]);
                    lemma_words_nonempty(text@.subrange(0, i as int));
                }
                let last = parts.len() - 1;
                let ghost before = views(parts@);
                parts[last].push(c);
                assert(views(parts@) =~= before.drop_last().push(before.last().push(c)));
            } else {
                let mut word = String::new();
                word.push(c);
                assert(word@ =~= seq![c]);
                parts.push(word);
                proof {
                    if i > 0 {
                        assert(prefix[prefix.len() - 2] == text@[i - 1]);
                    }
                }
            }
            in_word = true;
        } else {
            in_word = false;
        }
        i += 1;
    }
    assert(text@.subrange(0, i as int) =~= text@);
    parts
}

/// Joins the words `parts[from..]` with single blanks.
pub fn join_words(parts: &Vec<String>, from: usize) -> (out: String)
    ensures
        out@ == joined(views(parts@), from as int),
    decreases parts.len() - from,
{
    if from >= parts.len() {
        String::new()
    } else if from == parts.len() - 1 {
        parts[from].clone()
    } else {
        let mut out = parts[from].clone();
        out.push(' ');
        let rest = join_words(parts, from + 1);
        out.append(rest.as_str());
        out
    }
}

/// Reads the arguments of the inspection tool.
pub fn parse_debug_command(args: &str) -> (command: DebugCommand)
    ensures
        command@ == debug_command(args@),
{
    let parts = split_words(args);
    if parts.len() == 0 {
        DebugCommand::Usage
    } else if parts[0].as_str().eq("get_chats") {
        DebugCommand::GetChats
    } else if parts[0].as_str().eq("get_chat") {
        if parts.len() < 2 {
            DebugCommand::MissingChatId
        } else {
            DebugCommand::GetChat { chat_id: join_words(&parts, 1) }
        }
    } else {
        DebugCommand::Unknown { command: parts[0].clone() }
    }
}

/// The arguments of the bulk tool without the single quotes around them,
/// if they stand in quotes.
pub open spec fn unquoted(args: Seq<char>) -> Seq<char> {
    if args.len() >= 2 && args[0] == '\'' && args.last() == '\'' {
        args.subrange(1, args.len() - 1)
    } else {
        args
    }
}

/// Takes the single quotes off the arguments of the bulk tool.
pub fn unquote(args: &str) -> (out: String)
    ensures
        out@ == unquoted(args@),
{
    let cs = chars_of(args);
    if cs.len() >= 2 && cs[0] == '\'' && cs[cs.len() - 1] == '\'' {
        string_of_range(&cs, 1, cs.len() - 1)
    } else {
        String::from_str(args)
    }
}

/// The last line of the bulk tool: how many messages were sent and how many
/// were not.
pub open spec fn bulk_summary(sent: u64, failed: u64) -> Seq<char> {
    "\n\n\x1b[1mSummary:\x1b[0m "@ + decimal(sent as nat) + " sent, "@ + decimal(failed as nat)
        + " failed"@
}

/// Writes the last line of the bulk tool.
pub fn format_bulk_summary(sent: u64, failed: u64) -> (out: String)
    ensures
        out@ == bulk_summary(sent, failed),
{
    let mut out = String::from_str("\n\n\x1b[1mSummary:\x1b[0m ");
    push_decimal(&mut out, sent);
    out.append(" sent, ");
    push_decimal(&mut out, failed);
    out.append(" failed");
    out
}

/// How the bulk tool fared with one node.
#[derive(Debug, PartialEq)]
pub enum BulkOutcome {
    /// The message was sent.
    Sent,
    /// The chat could not be created or found.
    ChatFailed { reason: String },
    /// The answer to the request for the chat could not be read.
    UnreadableAnswer { reason: String },
    /// The answer to the request for the chat names no chat.
    NoChatId,
    /// The chat is there and the message could not be sent.
    SendFailed { reason: String },
}

pub enum BulkOutcomeView {
    Sent,
    ChatFailed { reason: Seq<char> },
    UnreadableAnswer { reason: Seq<char> },
    NoChatId,
    SendFailed { reason: Seq<char> },
}

impl View for BulkOutcome {
    type V = BulkOutcomeView;

    open spec fn view(&self) -> BulkOutcomeView {
        match *self {
            BulkOutcome::Sent => BulkOutcomeView::Sent,
            BulkOutcome::ChatFailed { reason } => BulkOutcomeView::ChatFailed { reason: reason@ },
            BulkOutcome::UnreadableAnswer { reason } => BulkOutcomeView::UnreadableAnswer {
                reason: reason@,
            },
            BulkOutcome::NoChatId => BulkOutcomeView::NoChatId,
            BulkOutcome::SendFailed { reason } => BulkOutcomeView::SendFailed { reason: reason@ },
        }
    }
}

/// The line that the bulk tool prints for one node.
pub open spec fn bulk_line(node: Seq<char>, outcome: BulkOutcomeView) -> Seq<char> {
    match outcome {
        BulkOutcomeView::Sent => "\u{2713} "@ + node + ": Message sent"@,
        BulkOutcomeView::ChatFailed { reason } => "\u{2717} "@ + node + ": Failed to create/get chat - "@
            + reason,
        BulkOutcomeView::UnreadableAnswer { reason } => "\u{2717} "@ + node
            + ": Failed to parse chat response - "@ + reason,
        BulkOutcomeView::NoChatId => "\u{2717} "@ + node + ": Invalid chat response format"@,
        BulkOutcomeView::SendFailed { reason } => "\u{2717} "@ + node + ": Failed to send message - "@
            + reason,
    }
}

/// The lines `lines[from..]`, each but the last followed by a line break.
pub open spec fn stacked(lines: Seq<Seq<char>>, from: int) -> Seq<char>
    decreases lines.len() - from,
{
    if from >= lines.len() {
        Seq::empty()
    } else if from == lines.len() - 1 {
        lines[from]
    } else {
        lines[from] + seq!['\n'] + stacked(lines, from + 1)
    }
}

/// How many of `outcomes` are a message sent.
pub open spec fn sent_count(outcomes: Seq<BulkOutcomeView>) -> nat
    decreases outcomes.len(),
{
    if outcomes.len() == 0 {
        0
    } else {
        sent_count(outcomes.drop_last()) + if outcomes.last() is Sent {
            1nat
        } else {
            0nat
        }
    }
}

/// Writes the line that the bulk tool prints for one node.
pub fn format_bulk_line(node: &str, outcome: &BulkOutcome) -> (out: String)
    ensures
        out@ == bulk_line(node@, outcome@),
{
    match outcome {
        BulkOutcome::Sent => {
            let mut out = String::from_str("\u{2713} ");
            out.append(node);
            out.append(": Message sent");
            out
        },
        BulkOutcome::ChatFailed { reason } => {
            let mut out = String::from_str("\u{2717} ");
            out.append(node);
            out.append(": Failed to create/get chat - ");
            out.append(reason.as_str());
            out
        },
        BulkOutcome::UnreadableAnswer { reason } => {
            let mut out = String::from_str("\u{2717} ");
            out.append(node);
            out.append(": Failed to parse chat response - ");
            out.append(reason.as_str());
            out
        },
        BulkOutcome::NoChatId => {
            let mut out = String::from_str("\u{2717} ");
            out.append(node);
            out.append(": Invalid chat response format");
            out
        },
        BulkOutcome::SendFailed { reason } => {
            let mut out = String::from_str("\u{2717} ");
            out.append(node);
            out.append(": Failed to send message - ");
            out.append(reason.as_str());
            out
        },
    }
}

/// Stacks the lines `lines[from..]`.
pub fn stack_lines(lines: &Vec<String>, from: usize) -> (out: String)
    ensures
        out@ == stacked(views(lines@), from as int),
    decreases lines.len() - from,
{
    if from >= lines.len() {
        String::new()
    } else if from == lines.len() - 1 {
        lines[from].clone()
    } else {
        let mut out = lines[from].clone();
        out.push('\n');
        let rest = stack_lines(lines, from + 1);
        out.append(rest.as_str());
        out
    }
}

/// The lines of the bulk tool for `nodes` and what became of each.
pub open spec fn bulk_lines(nodes: Seq<Seq<char>>, outcomes: Seq<BulkOutcomeView>) -> Seq<Seq<char>> {
    Seq::new(nodes.len(), |i: int| bulk_line(nodes[i], outcomes[i]))
}

/// What the bulk tool prints: one line for each node, and the count of the
/// messages that were sent and of those that were not. Where no node was
/// named there is nothing to send, and the tool says so.
pub open spec fn bulk_report(nodes: Seq<Seq<char>>, outcomes: Seq<BulkOutcomeView>) -> Seq<char> {
    if nodes.len() == 0 {
        "Error: No messages to send"@
    } else {
        stacked(bulk_lines(nodes, outcomes), 0) + bulk_summary(
            sent_count(outcomes) as u64,
            (outcomes.len() - sent_count(outcomes)) as u64,
        )
    }
}

/// At most as many messages were sent as there are outcomes.
pub proof fn lemma_sent_count_bound(outcomes: Seq<BulkOutcomeView>)
    ensures
        sent_count(outcomes) <= outcomes.len(),
    decreases outcomes.len(),
{
    if outcomes.len() > 0 {
        lemma_sent_count_bound(outcomes.drop_last());
    }
}

/// Writes what the bulk tool prints.
pub fn format_bulk_report(nodes: &Vec<String>, outcomes: &Vec<BulkOutcome>) -> (out: String)
    requires
        nodes.len() == outcomes.len(),
    ensures
        out@ == bulk_report(views(nodes@), views(outcomes@)),
{
    broadcast use group_views;

    if nodes.len() == 0 {
        return String::from_str("Error: No messages to send");
    }
    let ghost want = bulk_lines(views(nodes@), views(outcomes@));
    let ghost all = views(outcomes@);
    let mut lines: Vec<String> = Vec::new();
    let mut sent: u64 = 0;
    let mut i: usize = 0;
    assert(all.subrange(0, 0) =~= Seq::<BulkOutcomeView>::empty());
    while i < nodes.len()
        invariant
            i <= nodes.len(),
            nodes.len() == outcomes.len(),
            want == bulk_lines(views(nodes@), views(outcomes@)),
            all == views(outcomes@),
            views(lines@) == want.subrange(0, i as int),
            sent == sent_count(all.subrange(0, i as int)),
            sent <= i,
        decreases nodes.len() - i,
    {
        assert(all.subrange(0, i + 1).drop_last() =~= all.subrange(0, i as int));
        lines.push(format_bulk_line(nodes[i].as_str(), &outcomes[i]));
        match outcomes[i] {
            BulkOutcome::Sent => {
                sent += 1;
            },
            _ => {},
        }
        i += 1;
        assert(want.subrange(0, i as int) =~= want.subrange(0, i - 1).push(want[i - 1]));
    }
    assert(all.subrange(0, i as int) =~= all);
    assert(want.subrange(0, i as int) =~= want);
    let failed = (outcomes.len() as u64) - sent;
    let mut out = stack_lines(&lines, 0);
    out.append(format_bulk_summary(sent, failed).as_str());
    out
}

/// The width of the rules that frame a report.
pub const RULE_WIDTH: usize = 80;

/// How many bytes of a message a list of chats shows.
pub const PREVIEW_BYTES: usize = 50;

/// A rule: a line of equals signs.
pub open spec fn rule() -> Seq<char> {
    Seq::new(RULE_WIDTH as nat, |i: int| '=')
}

/// The name of a status.
pub open spec fn status_name(status: MessageStatus) -> Seq<char> {
    match status {
        MessageStatus::Sending => "Sending"@,
        MessageStatus::Sent => "Sent"@,
        MessageStatus::Delivered => "Delivered"@,
        MessageStatus::Failed => "Failed"@,
    }
}

/// The name of a kind of message.
pub open spec fn kind_name(kind: MessageType) -> Seq<char> {
    match kind {
        MessageType::Text => "Text"@,
        MessageType::Image => "Image"@,
        MessageType::File => "File"@,
        MessageType::VoiceNote => "VoiceNote"@,
    }
}

/// The line that previews one message in a list of chats.
pub open spec fn recent_line(m: MessageView, now: u64) -> Seq<char> {
    "    ["@ + time_ago(now, m.timestamp) + " ago] "@ + m.sender + ": "@ + clipped(
        m.content,
        PREVIEW_BYTES,
        PREVIEW_BYTES,
    ) + "\n"@
}

/// The lines that preview `messages`.
pub open spec fn recent_lines(messages: Seq<MessageView>, now: u64) -> Seq<char>
    decreases messages.len(),
{
    if messages.len() == 0 {
        Seq::empty()
    } else {
        recent_lines(messages.drop_last(), now) + recent_line(messages.last(), now)
    }
}

/// The last two messages, or fewer where there are fewer.
pub open spec fn last_two(messages: Seq<MessageView>) -> Seq<MessageView> {
    if messages.len() > 2 {
        messages.subrange(messages.len() - 2, messages.len() as int)
    } else {
        messages
    }
}

/// What a list of chats says of the chat at the position `index`.
pub open spec fn chat_summary(chat: ChatView, index: nat, now: u64) -> Seq<char> {
    let head = "\n[Chat "@ + decimal(index + 1) + "]\n  ID: "@ + chat.id + "\n  Counterparty: "@
        + chat.counterparty + "\n  Messages: "@ + decimal(chat.messages.len()) + "\n  Last Activity: "@
        + decimal(chat.last_activity as nat) + " ("@ + time_ago(now, chat.last_activity)
        + ")\n  Unread: "@ + decimal(chat.unread_count as nat) + "\n"@;
    if chat.messages.len() == 0 {
        head
    } else {
        head + "\n  Recent messages:\n"@ + recent_lines(last_two(chat.messages), now)
    }
}

/// What a list of chats says of `chats`.
pub open spec fn chat_summaries(chats: Seq<ChatView>, now: u64) -> Seq<char>
    decreases chats.len(),
{
    if chats.len() == 0 {
        Seq::empty()
    } else {
        chat_summaries(chats.drop_last(), now) + chat_summary(chats.last(), (chats.len() - 1) as nat, now)
    }
}

/// The list of chats that the inspection tool prints.
pub open spec fn chats_report(chats: Seq<ChatView>, now: u64) -> Seq<char> {
    "\n=== Found "@ + decimal(chats.len()) + " chats ===\n"@ + rule() + "\n"@ + chat_summaries(chats, now)
        + "\n"@ + rule() + "\n"@
}

/// Whether the messages that a list of chats previews can be clipped.
pub open spec fn previewable(chats: Seq<ChatView>) -> bool {
    forall|i: int, j: int|
        0 <= i < chats.len() && 0 <= j < last_two(chats[i].messages).len() ==> can_be_clipped(
            (#[trigger] last_two(chats[i].messages)[j]).content,
            PREVIEW_BYTES,
            PREVIEW_BYTES,
        )
}

/// What the report on one chat says of a reaction.
pub open spec fn reaction_text(r: ReactionView) -> Seq<char> {
    r.emoji + " ("@ + r.user + "), "@
}

/// What the report on one chat says of `reactions`.
pub open spec fn reaction_texts(reactions: Seq<ReactionView>) -> Seq<char>
    decreases reactions.len(),
{
    if reactions.len() == 0 {
        Seq::empty()
    } else {
        reaction_texts(reactions.drop_last()) + reaction_text(reactions.last())
    }
}

/// What the report on one chat says of a file.
pub open spec fn file_text(f: FileInfoView) -> Seq<char> {
    "  File: "@ + f.filename + " ("@ + decimal(f.size as nat) + " bytes, "@ + f.mime_type + ")\n"@
}

/// How the report on one chat opens what it says of a message.
pub open spec fn message_head(m: MessageView, index: nat, count: nat, now: u64) -> Seq<char> {
    "\n[Message "@ + decimal(index + 1) + " of "@ + decimal(count) + "]\n  ID: "@ + m.id
        + "\n  Sender: "@ + m.sender + "\n  Time: "@ + decimal(m.timestamp as nat) + " ("@ + time_ago(
        now,
        m.timestamp,
    ) + ")\n  Status: "@ + status_name(m.status) + "\n  Type: "@ + kind_name(m.message_type) + "\n"@
}

/// What the report on one chat says of the message that a message replies
/// to.
pub open spec fn reply_line(reply_to: Option<Seq<char>>) -> Seq<char> {
    match reply_to {
        Some(id) => "  Reply To: "@ + id + "\n"@,
        None => Seq::empty(),
    }
}

/// The line of the report on one chat that lists the reactions to a
/// message; nothing where there are none.
pub open spec fn reactions_line(reactions: Seq<ReactionView>) -> Seq<char> {
    if reactions.len() == 0 {
        Seq::empty()
    } else {
        "  Reactions: "@ + reaction_texts(reactions) + "\n"@
    }
}

/// What the report on one chat says of the file of a message.
pub open spec fn file_line(file_info: Option<FileInfoView>) -> Seq<char> {
    match file_info {
        Some(f) => file_text(f),
        None => Seq::empty(),
    }
}

/// What the report on one chat says of the message at the position `index`
/// of `count`.
pub open spec fn message_text(m: MessageView, index: nat, count: nat, now: u64) -> Seq<char> {
    message_head(m, index, count, now) + reply_line(m.reply_to) + reactions_line(m.reactions)
        + file_line(m.file_info) + "  Content: "@ + m.content + "\n"@
}

/// What the report on one chat says of the first `upto` of `messages`.
pub open spec fn message_texts(messages: Seq<MessageView>, upto: nat, now: u64) -> Seq<char>
    decreases upto,
{
    if upto == 0 || upto > messages.len() {
        Seq::empty()
    } else {
        message_texts(messages, (upto - 1) as nat, now) + message_text(
            messages[upto - 1],
            (upto - 1) as nat,
            messages.len(),
            now,
        )
    }
}

/// The word for a condition that holds or does not.
pub open spec fn truth(b: bool) -> Seq<char> {
    if b {
        "true"@
    } else {
        "false"@
    }
}

/// The report on one chat that the inspection tool prints.
pub open spec fn chat_report(chat_id: Seq<char>, chat: ChatView, now: u64) -> Seq<char> {
    "\n=== Chat Details: "@ + chat_id + " ===\n"@ + rule() + "\nCounterparty: "@ + chat.counterparty
        + "\nLast Activity: "@ + decimal(chat.last_activity as nat) + " ("@ + time_ago(
        now,
        chat.last_activity,
    ) + ")\nUnread: "@ + decimal(chat.unread_count as nat) + "\nBlocked: "@ + truth(chat.is_blocked)
        + "\nNotifications: "@ + truth(chat.notify) + "\n\n=== "@ + decimal(chat.messages.len())
        + " Messages ===\n"@ + message_texts(chat.messages, chat.messages.len(), now) + "\n"@ + rule()
        + "\n"@
}

/// Appends a rule.
pub fn push_rule(out: &mut String)
    ensures
        final(out)@ == old(out)@ + rule(),
{
    let mut i: usize = 0;
    assert(old(out)@ + rule().subrange(0, 0) =~= old(out)@);
    while i < RULE_WIDTH
        invariant
            i <= RULE_WIDTH,
            out@ == old(out)@ + rule().subrange(0, i as int),
        decreases RULE_WIDTH - i,
    {
        out.push('=');
        i += 1;
        assert(old(out)@ + rule().subrange(0, i as int) =~= (old(out)@ + rule().subrange(0, i - 1)).push(
            '=',
        ));
    }
    assert(rule().subrange(0, RULE_WIDTH as int) =~= rule());
}

/// The preview line of one message.
pub fn format_recent_line(m: &ChatMessage, now: u64) -> (out: String)
    requires
        can_be_clipped(m@.content, PREVIEW_BYTES, PREVIEW_BYTES),
    ensures
        out@ == recent_line(m@, now),
{
    let mut out = String::from_str("    [");
    out.append(format_time_ago_at(now, m.timestamp).as_str());
    out.append(" ago] ");
    out.append(m.sender.as_str());
    out.append(": ");
    out.append(clip(m.content.as_str(), PREVIEW_BYTES, PREVIEW_BYTES).as_str());
    out.append("\n");
    out
}

/// What a list of chats says of one chat.
pub fn format_chat_summary(chat: &Chat, index: usize, now: u64) -> (out: String)
    requires
        index < usize::MAX,
        forall|j: int|
            0 <= j < last_two(chat@.messages).len() ==> can_be_clipped(
                (#[trigger] last_two(chat@.messages)[j]).content,
                PREVIEW_BYTES,
                PREVIEW_BYTES,
            ),
    ensures
        out@ == chat_summary(chat@, index as nat, now),
{
    let mut out = String::from_str("\n[Chat ");
    push_decimal(&mut out, (index + 1) as u64);
    out.append("]\n  ID: ");
    out.append(chat.id.as_str());
    out.append("\n  Counterparty: ");
    out.append(chat.counterparty.as_str());
    out.append("\n  Messages: ");
    push_decimal(&mut out, chat.messages.len() as u64);
    out.append("\n  Last Activity: ");
    push_decimal(&mut out, chat.last_activity);
    out.append(" (");
    out.append(format_time_ago_at(now, chat.last_activity).as_str());
    out.append(")\n  Unread: ");
    push_decimal(&mut out, chat.unread_count as u64);
    out.append("\n");
    if chat.messages.len() > 0 {
        out.append("\n  Recent messages:\n");
        let ghost head = out@;
        let ghost shown = last_two(chat@.messages);
        let start: usize = if chat.messages.len() > 2 {
            chat.messages.len() - 2
        } else {
            0
        };
        let mut k: usize = start;
        assert(shown.subrange(0, 0) =~= Seq::<MessageView>::empty());
        while k < chat.messages.len()
            invariant
                start <= k <= chat.messages.len(),
                start == chat.messages.len() - shown.len(),
                shown == last_two(chat@.messages),
                forall|j: int|
                    0 <= j < shown.len() ==> can_be_clipped(
                        (#[trigger] shown[j]).content,
                        PREVIEW_BYTES,
                        PREVIEW_BYTES,
                    ),
                out@ == head + recent_lines(shown.subrange(0, k - start), now),
            decreases chat.messages.len() - k,
        {
            assert(shown[k - start] == chat@.messages[k as int]);
            assert(shown.subrange(0, k - start + 1).drop_last() =~= shown.subrange(0, k - start));
            let line = format_recent_line(&chat.messages[k], now);
            out.append(line.as_str());
            k += 1;
            assert(out@ =~= head + recent_lines(shown.subrange(0, k - start), now));
        }
        assert(shown.subrange(0, k - start) =~= shown);
    }
    out
}

/// Whether the messages that a list of `chats` previews can be clipped.
pub fn can_report(chats: &Vec<Chat>) -> (r: bool)
    ensures
        r == previewable(views(chats@)),
{
    let mut i: usize = 0;
    while i < chats.len()
        invariant
            i <= chats.len(),
            forall|a: int, b: int|
                0 <= a < i && 0 <= b < last_two(views(chats@)[a].messages).len() ==> can_be_clipped(
                    (#[trigger] last_two(views(chats@)[a].messages)[b]).content,
                    PREVIEW_BYTES,
                    PREVIEW_BYTES,
                ),
        decreases chats.len() - i,
    {
        let messages = &chats[i].messages;
        let ghost shown = last_two(views(chats@)[i as int].messages);
        let start: usize = if messages.len() > 2 {
            messages.len() - 2
        } else {
            0
        };
        let mut k: usize = start;
        while k < messages.len()
            invariant
                start <= k <= messages.len(),
                i < chats.len(),
                messages == &chats[i as int].messages,
                shown == last_two(views(chats@)[i as int].messages),
                start == messages.len() - shown.len(),
                forall|b: int|
                    0 <= b < k - start ==> can_be_clipped(
                        (#[trigger] shown[b]).content,
                        PREVIEW_BYTES,
                        PREVIEW_BYTES,
                    ),
            decreases messages.len() - k,
        {
            assert(shown[k - start] == views(chats@)[i as int].messages[k as int]);
            if !fits_clip(messages[k].content.as_str(), PREVIEW_BYTES, PREVIEW_BYTES) {
                return false;
            }
            k += 1;
        }
        i += 1;
    }
    true
}

/// Writes the list of chats that the inspection tool prints.
pub fn format_chats_report(chats: &Vec<Chat>, now: u64) -> (out: String)
    requires
        previewable(views(chats@)),
    ensures
        out@ == chats_report(views(chats@), now),
{
    let mut out = String::from_str("\n=== Found ");
    push_decimal(&mut out, chats.len() as u64);
    out.append(" chats ===\n");
    push_rule(&mut out);
    out.append("\n");
    let ghost head = out@;
    let ghost all = views(chats@);
    let mut i: usize = 0;
    assert(all.subrange(0, 0) =~= Seq::<ChatView>::empty());
    while i < chats.len()
        invariant
            i <= chats.len(),
            all == views(chats@),
            previewable(all),
            out@ == head + chat_summaries(all.subrange(0, i as int), now),
        decreases chats.len() - i,
    {
        assert(all.subrange(0, i + 1).drop_last() =~= all.subrange(0, i as int));
        assert(all.subrange(0, i + 1).last() == chats[i as int]@);
        let summary = format_chat_summary(&chats[i], i, now);
        out.append(summary.as_str());
        i += 1;
        assert(out@ =~= head + chat_summaries(all.subrange(0, i as int), now));
    }
    assert(all.subrange(0, i as int) =~= all);
    out.append("\n");
    push_rule(&mut out);
    out.append("\n");
    out
}

/// Writes the name of a status.
pub fn status_text(status: MessageStatus) -> (name: &'static str)
    ensures
        name@ == status_name(status),
{
    match status {
        MessageStatus::Sending => "Sending",
        MessageStatus::Sent => "Sent",
        MessageStatus::Delivered => "Delivered",
        MessageStatus::Failed => "Failed",
    }
}

/// Writes the name of a kind of message.
pub fn kind_text(kind: MessageType) -> (name: &'static str)
    ensures
        name@ == kind_name(kind),
{
    match kind {
        MessageType::Text => "Text",
        MessageType::Image => "Image",
        MessageType::File => "File",
        MessageType::VoiceNote => "VoiceNote",
    }
}

/// What the report on one chat says of `reactions`.
pub fn format_reactions(reactions: &Vec<MessageReaction>) -> (out: String)
    ensures
        out@ == reaction_texts(views(reactions@)),
{
    let ghost all = views(reactions@);
    let mut out = String::new();
    let mut i: usize = 0;
    assert(all.subrange(0, 0) =~= Seq::<ReactionView>::empty());
    while i < reactions.len()
        invariant
            i <= reactions.len(),
            all == views(reactions@),
            out@ == reaction_texts(all.subrange(0, i as int)),
        decreases reactions.len() - i,
    {
        assert(all.subrange(0, i + 1).drop_last() =~= all.subrange(0, i as int));
        let ghost before = out@;
        out.append(reactions[i].emoji.as_str());
        out.append(" (");
        out.append(reactions[i].user.as_str());
        out.append("), ");
        assert(out@ =~= before + reaction_text(all[i as int]));
        i += 1;
    }
    assert(all.subrange(0, i as int) =~= all);
    out
}

/// How the report on one chat opens what it says of a message.
pub fn format_message_head(m: &ChatMessage, index: usize, count: usize, now: u64) -> (out: String)
    requires
        index < count,
    ensures
        out@ == message_head(m@, index as nat, count as nat, now),
{
    let mut out = String::from_str("\n[Message ");
    push_decimal(&mut out, (index + 1) as u64);
    out.append(" of ");
    push_decimal(&mut out, count as u64);
    out.append("]\n  ID: ");
    out.append(m.id.as_str());
    out.append("\n  Sender: ");
    out.append(m.sender.as_str());
    out.append("\n  Time: ");
    push_decimal(&mut out, m.timestamp);
    out.append(" (");
    out.append(format_time_ago_at(now, m.timestamp).as_str());
    out.append(")\n  Status: ");
    out.append(status_text(m.status));
    out.append("\n  Type: ");
    out.append(kind_text(m.message_type));
    out.append("\n");
    out
}

/// What the report on one chat says of the message that a message replies
/// to.
pub fn format_reply_line(reply_to: &Option<String>) -> (out: String)
    ensures
        out@ == reply_line(crate::model::opt_view(*reply_to)),
{
    match reply_to {
        Some(id) => {
            let mut out = String::from_str("  Reply To: ");
            out.append(id.as_str());
            out.append("\n");
            out
        },
        None => String::new(),
    }
}

/// The line of the report on one chat that lists the reactions to a message.
pub fn format_reactions_line(reactions: &Vec<MessageReaction>) -> (out: String)
    ensures
        out@ == reactions_line(views(reactions@)),
{
    if reactions.len() > 0 {
        let mut out = String::from_str("  Reactions: ");
        out.append(format_reactions(reactions).as_str());
        out.append("\n");
        out
    } else {
        String::new()
    }
}

/// What the report on one chat says of the file of a message.
pub fn format_file_line(file_info: &Option<crate::model::FileInfo>) -> (out: String)
    ensures
        out@ == file_line(crate::model::opt_view(*file_info)),
{
    match file_info {
        Some(f) => {
            let mut out = String::from_str("  File: ");
            out.append(f.filename.as_str());
            out.append(" (");
            push_decimal(&mut out, f.size);
            out.append(" bytes, ");
            out.append(f.mime_type.as_str());
            out.append(")\n");
            out
        },
        None => String::new(),
    }
}

/// What the report on one chat says of one message.
pub fn format_message(m: &ChatMessage, index: usize, count: usize, now: u64) -> (out: String)
    requires
        index < count,
    ensures
        out@ == message_text(m@, index as nat, count as nat, now),
{
    let mut out = format_message_head(m, index, count, now);
    out.append(format_reply_line(&m.reply_to).as_str());
    out.append(format_reactions_line(&m.reactions).as_str());
    out.append(format_file_line(&m.file_info).as_str());
    out.append("  Content: ");
    out.append(m.content.as_str());
    out.append("\n");
    out
}

/// Writes the report on one chat that the inspection tool prints.
pub fn format_chat_report(chat_id: &str, chat: &Chat, now: u64) -> (out: String)
    ensures
        out@ == chat_report(chat_id@, chat@, now),
{
    let mut out = String::from_str("\n=== Chat Details: ");
    out.append(chat_id);
    out.append(" ===\n");
    push_rule(&mut out);
    out.append("\nCounterparty: ");
    out.append(chat.counterparty.as_str());
    out.append("\nLast Activity: ");
    push_decimal(&mut out, chat.last_activity);
    out.append(" (");
    out.append(format_time_ago_at(now, chat.last_activity).as_str());
    out.append(")\nUnread: ");
    push_decimal(&mut out, chat.unread_count as u64);
    out.append("\nBlocked: ");
    out.append(if chat.is_blocked { "true" } else { "false" });
    out.append("\nNotifications: ");
    out.append(if chat.notify { "true" } else { "false" });
    out.append("\n\n=== ");
    push_decimal(&mut out, chat.messages.len() as u64);
    out.append(" Messages ===\n");
    let ghost head = out@;
    let ghost all = chat@.messages;
    let count = chat.messages.len();
    let mut i: usize = 0;
    while i < count
        invariant
            i <= count,
            count == chat.messages.len(),
            all == chat@.messages,
            out@ == head + message_texts(all, i as nat, now),
        decreases count - i,
    {
        let text = format_message(&chat.messages[i], i, count, now);
        out.append(text.as_str());
        i += 1;
        assert(out@ =~= head + message_texts(all, i as nat, now));
    }
    out.append("\n");
    push_rule(&mut out);
    out.append("\n");
    out
}

} // verus!

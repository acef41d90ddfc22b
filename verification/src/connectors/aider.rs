//! The chat-log connector for line-oriented Markdown histories: a `> `
//! quote prefix marks user turns, and the lines up to the next user block
//! are attributed to the assistant.
//!
//! The parse is a small state machine over the lines; its specification is
//! the machine itself, written as a pure function. One known quirk is kept
//! deliberately: a block that itself begins with a quote character stays
//! with the current speaker, so quoted material inside an assistant turn
//! can be attributed to the user.

use vstd::prelude::*;
use crate::json::JsonValue;
use crate::model::{DetectionResult, NormalizedConversation, NormalizedMessage, modified_since, spec_modified_since};
use crate::strutil::{
    append_chars, chars_vec, is_blank, lemma_lines_from_len, spec_is_blank, spec_lines,
    spec_starts_with, spec_trim, split_lines, starts_with_chars, string_of, trim_chars, views_of,
};

verus! {

/// Who a parsed chat message is attributed to.
#[derive(Clone, Copy, Debug, PartialEq, Eq, Structural)]
pub enum ChatRole {
    /// Preamble before the first marked turn.
    System,
    /// A `> ` marked turn.
    User,
    /// Unmarked lines after a user turn.
    Assistant,
}

/// The role's wire name.
pub open spec fn role_label(r: ChatRole) -> Seq<char> {
    match r {
        ChatRole::System => "system"@,
        ChatRole::User => "user"@,
        ChatRole::Assistant => "assistant"@,
    }
}

/// The role's wire name, as a string.
pub fn role_label_str(r: ChatRole) -> (s: &'static str)
    ensures
        s@ == role_label(r),
{
    match r {
        ChatRole::System => "system",
        ChatRole::User => "user",
        ChatRole::Assistant => "assistant",
    }
}

/// The parser's state: the speaker of the block being collected, the
/// collected text, and the finished messages.
pub struct ChatState {
    pub role: ChatRole,
    pub content: Seq<char>,
    pub msgs: Seq<(ChatRole, Seq<char>)>,
}

/// The parse starts attributing to the system, with nothing collected.
pub open spec fn chat_init() -> ChatState {
    ChatState { role: ChatRole::System, content: Seq::empty(), msgs: Seq::empty() }
}

/// A line opens (or continues) a user turn when its trimmed form starts
/// with a quote marker.
pub open spec fn is_user_marker(line: Seq<char>) -> bool {
    spec_starts_with(spec_trim(line), "> "@)
}

/// The line with every leading `"> "` repetition removed (from the raw
/// line, not the trimmed one).
pub open spec fn spec_strip_gt(line: Seq<char>) -> Seq<char>
    decreases line.len(),
    via spec_strip_gt_decreases
{
    if spec_starts_with(line, "> "@) {
        spec_strip_gt(line.skip(2))
    } else {
        line
    }
}

#[via_fn]
proof fn spec_strip_gt_decreases(line: Seq<char>) {
    reveal_strlit("> ");
}

/// Finishes the current block: pushes it as a message when its text is not
/// blank, and clears the collected text.
pub open spec fn chat_flush(st: ChatState) -> ChatState {
    if !spec_is_blank(st.content) {
        ChatState {
            role: st.role,
            content: Seq::empty(),
            msgs: st.msgs.push((st.role, spec_trim(st.content))),
        }
    } else {
        st
    }
}

/// One line of the parse. A marked line flushes any non-user block and
/// collects the line without its markers under the user; an unmarked,
/// non-blank line that does not itself start with a quote character ends a
/// user turn and switches to the assistant; every unmarked line is
/// collected under the current speaker.
pub open spec fn chat_step(st: ChatState, line: Seq<char>) -> ChatState {
    if is_user_marker(line) {
        let st1 = if st.role != ChatRole::User {
            chat_flush(st)
        } else {
            st
        };
        ChatState {
            role: ChatRole::User,
            content: st1.content + spec_trim(spec_strip_gt(line)) + seq!['\n'],
            msgs: st1.msgs,
        }
    } else {
        let switches = st.role == ChatRole::User && !spec_is_blank(line) && !(line.len() > 0
            && line[0] == '>');
        let st1 = if switches {
            let f = chat_flush(st);
            ChatState { role: ChatRole::Assistant, content: f.content, msgs: f.msgs }
        } else {
            st
        };
        ChatState { role: st1.role, content: st1.content + line + seq!['\n'], msgs: st1.msgs }
    }
}

/// The parse over a list of lines.
pub open spec fn chat_run(st: ChatState, lines: Seq<Seq<char>>) -> ChatState
    decreases lines.len(),
{
    if lines.len() == 0 {
        st
    } else {
        chat_run(chat_step(st, lines[0]), lines.drop_first())
    }
}

pub proof fn lemma_chat_run_push(st: ChatState, lines: Seq<Seq<char>>, line: Seq<char>)
    ensures
        chat_run(st, lines.push(line)) == chat_step(chat_run(st, lines), line),
    decreases lines.len(),
{
    if lines.len() == 0 {
        reveal_with_fuel(chat_run, 2);
        assert(lines.push(line)[0] == line);
        assert(lines.push(line).drop_first() =~= Seq::<Seq<char>>::empty());
        assert(chat_run(st, lines) == st);
    } else {
        assert(lines.push(line).drop_first() =~= lines.drop_first().push(line));
        lemma_chat_run_push(chat_step(st, lines[0]), lines.drop_first(), line);
    }
}

/// The messages of a whole chat log: the parse over its lines, with the
/// last block flushed.
pub open spec fn chat_messages(lines: Seq<Seq<char>>) -> Seq<(ChatRole, Seq<char>)> {
    chat_flush(chat_run(chat_init(), lines)).msgs
}

proof fn lemma_chat_run_msgs_not_blank(st: ChatState, lines: Seq<Seq<char>>)
    requires
        forall|k: int|
            0 <= k < st.msgs.len() ==> !spec_is_blank((#[trigger] st.msgs[k]).1) && st.msgs[k].1.len()
                > 0,
    ensures
        forall|k: int|
            0 <= k < chat_run(st, lines).msgs.len() ==> !spec_is_blank(
                (#[trigger] chat_run(st, lines).msgs[k]).1,
            ) && chat_run(st, lines).msgs[k].1.len() > 0,
    decreases lines.len(),
{
    if lines.len() > 0 {
        let st1 = chat_step(st, lines[0]);
        assert(forall|k: int|
            0 <= k < st1.msgs.len() ==> !spec_is_blank((#[trigger] st1.msgs[k]).1)
                && st1.msgs[k].1.len() > 0) by {
            if !spec_is_blank(st.content) {
                crate::strutil::lemma_trim_not_blank(st.content);
            }
        }
        lemma_chat_run_msgs_not_blank(st1, lines.drop_first());
    }
}

/// No blank message leaves the chat-log parse (law): every parsed message
/// body holds some non-whitespace character, so blank or whitespace-only
/// blocks never reach the index.
pub proof fn lemma_chat_messages_not_blank(lines: Seq<Seq<char>>)
    ensures
        forall|k: int|
            0 <= k < chat_messages(lines).len() ==> !spec_is_blank(
                (#[trigger] chat_messages(lines)[k]).1,
            ) && chat_messages(lines)[k].1.len() > 0,
{
    lemma_chat_run_msgs_not_blank(chat_init(), lines);
    let fin = chat_run(chat_init(), lines);
    if !spec_is_blank(fin.content) {
        crate::strutil::lemma_trim_not_blank(fin.content);
    }
}

/// Whether the produced messages are exactly the specified ones, with the
/// role also recorded as the author, dense indices, no timestamps, an
/// empty-object payload and no snippets.
pub open spec fn msgs_match(msgs: Seq<NormalizedMessage>, specm: Seq<(ChatRole, Seq<char>)>) -> bool {
    &&& msgs.len() == specm.len()
    &&& forall|k: int|
        0 <= k < msgs.len() ==> {
            let m = #[trigger] msgs[k];
            &&& m.role@ == role_label(specm[k].0)
            &&& (match m.author {
                Option::Some(a) => a@ == role_label(specm[k].0),
                Option::None => false,
            })
            &&& m.content@ == specm[k].1
            &&& m.idx == k
            &&& m.created_at is None
            &&& (match m.extra {
                JsonValue::Obj(pairs) => pairs@.len() == 0,
                _ => false,
            })
            &&& m.snippets@.len() == 0
        }
}

/// The line with every leading `"> "` repetition removed.
fn strip_gt(line: &Vec<char>) -> (r: Vec<char>)
    ensures
        r@ == spec_strip_gt(line@),
{
    let n = line.len();
    let mut i: usize = 0;
    proof {
        assert(line@.skip(0) =~= line@);
    }
    while n - i >= 2 && line[i] == '>' && line[i + 1] == ' '
        invariant
            i <= n,
            n == line@.len(),
            spec_strip_gt(line@) == spec_strip_gt(line@.skip(i as int)),
        decreases n - i,
    {
        proof {
            let rest = line@.skip(i as int);
            assert(rest.subrange(0, 2) =~= "> "@) by {
                reveal_strlit("> ");
            }
            assert(spec_starts_with(rest, "> "@));
            assert(rest.skip(2) =~= line@.skip(i + 2));
        }
        i = i + 2;
    }
    proof {
        let rest = line@.skip(i as int);
        assert(!spec_starts_with(rest, "> "@)) by {
            reveal_strlit("> ");
            if spec_starts_with(rest, "> "@) {
                assert(rest.subrange(0, 2)[0] == '>');
                assert(rest.subrange(0, 2)[1] == ' ');
            }
        }
    }
    let mut r: Vec<char> = Vec::new();
    let mut j: usize = i;
    while j < n
        invariant
            i <= j <= n,
            n == line@.len(),
            r@ == line@.subrange(i as int, j as int),
        decreases n - j,
    {
        r.push(line[j]);
        j = j + 1;
        assert(r@ =~= line@.subrange(i as int, j as int));
    }
    proof {
        assert(r@ =~= line@.skip(i as int));
    }
    r
}

/// Parses a chat log into canonical messages: one per block, roles as the
/// state machine attributes them, contents trimmed, indices dense.
pub fn parse_chat_log(text: &str) -> (msgs: Vec<NormalizedMessage>)
    requires
        text@.len() < i64::MAX,
    ensures
        msgs_match(msgs@, chat_messages(spec_lines(text@))),
{
    let cs = chars_vec(text);
    let lines = split_lines(&cs);
    let ghost ls = views_of(lines@);
    proof {
        lemma_lines_from_len(cs@, 0);
    }
    let marker = chars_vec("> ");
    let mut role: ChatRole = ChatRole::System;
    let mut content: Vec<char> = Vec::new();
    let mut msgs: Vec<NormalizedMessage> = Vec::new();
    let nl = lines.len();
    let mut i: usize = 0;
    proof {
        assert(ls.take(0) =~= Seq::<Seq<char>>::empty());
    }
    while i < nl
        invariant
            i <= nl,
            nl == lines@.len(),
            nl <= cs@.len() + 1,
            cs@.len() < i64::MAX,
            ls == views_of(lines@),
            marker@ == "> "@,
            role == chat_run(chat_init(), ls.take(i as int)).role,
            content@ == chat_run(chat_init(), ls.take(i as int)).content,
            msgs_match(msgs@, chat_run(chat_init(), ls.take(i as int)).msgs),
            msgs@.len() <= i,
        decreases nl - i,
    {
        let ghost st = chat_run(chat_init(), ls.take(i as int));
        let line = &lines[i];
        proof {
            assert(ls[i as int] == lines@[i as int]@);
            assert(ls.take(i + 1) =~= ls.take(i as int).push(ls[i as int]));
            lemma_chat_run_push(chat_init(), ls.take(i as int), ls[i as int]);
        }
        let trimmed = trim_chars(line);
        if starts_with_chars(&trimmed, &marker) {
            // A user turn: flush any non-user block, then collect the line
            // without its markers.
            if !matches!(role, ChatRole::User) {
                let flushed = trim_chars(&content);
                if !is_blank(&content) {
                    let m = NormalizedMessage {
                        idx: msgs.len() as i64,
                        role: String::from_str(role_label_str(role)),
                        author: Option::Some(String::from_str(role_label_str(role))),
                        created_at: Option::None,
                        content: string_of(&flushed),
                        extra: JsonValue::Obj(Vec::new()),
                        snippets: Vec::new(),
                    };
                    msgs.push(m);
                    content = Vec::new();
                }
                role = ChatRole::User;
            }
            let stripped = strip_gt(line);
            let payload = trim_chars(&stripped);
            append_chars(&mut content, &payload);
            content.push('\n');
            proof {
                let st1 = if st.role != ChatRole::User {
                    chat_flush(st)
                } else {
                    st
                };
                assert(content@ =~= st1.content + spec_trim(spec_strip_gt(ls[i as int]))
                    + seq!['\n']);
            }
        } else {
            let switches = matches!(role, ChatRole::User) && !is_blank(line) && !(line.len() > 0
                && line[0] == '>');
            if switches {
                if !is_blank(&content) {
                    let flushed = trim_chars(&content);
                    let m = NormalizedMessage {
                        idx: msgs.len() as i64,
                        role: String::from_str(role_label_str(role)),
                        author: Option::Some(String::from_str(role_label_str(role))),
                        created_at: Option::None,
                        content: string_of(&flushed),
                        extra: JsonValue::Obj(Vec::new()),
                        snippets: Vec::new(),
                    };
                    msgs.push(m);
                    content = Vec::new();
                }
                role = ChatRole::Assistant;
            }
            append_chars(&mut content, line);
            content.push('\n');
            proof {
                let switches_spec = st.role == ChatRole::User && !spec_is_blank(ls[i as int]) && !(
                ls[i as int].len() > 0 && ls[i as int][0] == '>');
                let st1 = if switches_spec {
                    let f = chat_flush(st);
                    ChatState { role: ChatRole::Assistant, content: f.content, msgs: f.msgs }
                } else {
                    st
                };
                assert(content@ =~= st1.content + ls[i as int] + seq!['\n']);
            }
        }
        i = i + 1;
    }
    // Flush the final block.
    if !is_blank(&content) {
        let flushed = trim_chars(&content);
        let m = NormalizedMessage {
            idx: msgs.len() as i64,
            role: String::from_str(role_label_str(role)),
            author: Option::Some(String::from_str(role_label_str(role))),
            created_at: Option::None,
            content: string_of(&flushed),
            extra: JsonValue::Obj(Vec::new()),
            snippets: Vec::new(),
        };
        msgs.push(m);
    }
    proof {
        assert(ls.take(nl as int) =~= ls);
    }
    msgs
}

/// One chat-log file as the host hands it over: where it was found, its
/// text, and its modification time in epoch milliseconds.
pub struct ChatLogFile {
    /// Full path of the file; used as the conversation's stable origin.
    pub path: String,
    /// The file's name, kept as the agent-local identifier.
    pub file_name: String,
    /// The directory the file sits in, when known.
    pub workspace: Option<String>,
    /// Last modification time in epoch milliseconds, absent when the
    /// file's metadata could not be read.
    pub mtime_ms: Option<i64>,
    /// The file's text.
    pub text: String,
}

/// Builds the canonical conversation of one chat-log file. Both time bounds
/// are the file's modification time (absent when unknown), since the log
/// lines carry no timestamps of their own.
pub fn chat_conversation(
    source_path: String,
    file_name: String,
    workspace: Option<String>,
    text: &str,
    mtime_ms: Option<i64>,
) -> (r: NormalizedConversation)
    requires
        text@.len() < i64::MAX,
    ensures
        r.agent_slug@ == "aider"@,
        (match r.external_id {
            Option::Some(e) => e@ == file_name@,
            Option::None => false,
        }),
        (match r.title {
            Option::Some(t) => t@ == "Aider Chat: "@ + source_path@,
            Option::None => false,
        }),
        r.workspace == workspace,
        r.source_path@ == source_path@,
        r.started_at == mtime_ms,
        r.ended_at == mtime_ms,
        msgs_match(r.messages@, chat_messages(spec_lines(text@))),
{
    let messages = parse_chat_log(text);
    let title = String::from_str("Aider Chat: ").concat(source_path.as_str());
    NormalizedConversation {
        agent_slug: String::from_str("aider"),
        external_id: Option::Some(file_name),
        title: Option::Some(title),
        workspace,
        source_path,
        started_at: mtime_ms,
        ended_at: mtime_ms,
        metadata: JsonValue::Obj(Vec::new()),
        messages,
    }
}

/// A file takes part in a scan when it is newer than the incremental bound
/// — a file with an unreadable modification time is conservatively treated
/// as modified — and its parse yields at least one message: conversations
/// with no messages are never emitted.
pub open spec fn chat_file_kept(f: ChatLogFile, since_ts: Option<i64>) -> bool {
    &&& spec_modified_since(f.mtime_ms, since_ts)
    &&& chat_messages(spec_lines(f.text@)).len() > 0
}

/// The files a scan keeps, in their given order.
pub open spec fn kept_chat_files(files: Seq<ChatLogFile>, since_ts: Option<i64>) -> Seq<
    ChatLogFile,
> {
    files.filter(|f: ChatLogFile| chat_file_kept(f, since_ts))
}

proof fn lemma_kept_chat_push(files: Seq<ChatLogFile>, since_ts: Option<i64>, f: ChatLogFile)
    ensures
        kept_chat_files(files.push(f), since_ts) == if chat_file_kept(f, since_ts) {
            kept_chat_files(files, since_ts).push(f)
        } else {
            kept_chat_files(files, since_ts)
        },
{
    reveal(Seq::filter);
    assert(files.push(f).drop_last() =~= files);
    assert(files.push(f).last() == f);
}

/// Whether a conversation is the one this file denotes.
pub open spec fn conv_of_chat_file(c: NormalizedConversation, f: ChatLogFile) -> bool {
    &&& c.agent_slug@ == "aider"@
    &&& (match c.external_id {
        Option::Some(e) => e@ == f.file_name@,
        Option::None => false,
    })
    &&& (match c.title {
        Option::Some(t) => t@ == "Aider Chat: "@ + f.path@,
        Option::None => false,
    })
    &&& c.workspace == f.workspace
    &&& c.source_path@ == f.path@
    &&& c.started_at == f.mtime_ms
    &&& c.ended_at == f.mtime_ms
    &&& msgs_match(c.messages@, chat_messages(spec_lines(f.text@)))
    &&& c.messages@.len() > 0
}

/// Scans a batch of chat-log files: skips files not modified since the
/// incremental bound, parses the rest, and emits one conversation per file
/// that yields at least one message.
pub fn scan_chat_logs(files: &Vec<ChatLogFile>, since_ts: Option<i64>) -> (convs: Vec<
    NormalizedConversation,
>)
    requires
        forall|i: int| 0 <= i < files@.len() ==> (#[trigger] files@[i]).text@.len() < i64::MAX,
    ensures
        convs@.len() == kept_chat_files(files@, since_ts).len(),
        forall|i: int|
            0 <= i < convs@.len() ==> conv_of_chat_file(
                #[trigger] convs@[i],
                kept_chat_files(files@, since_ts)[i],
            ),
{
    let n = files.len();
    let mut convs: Vec<NormalizedConversation> = Vec::new();
    let mut i: usize = 0;
    proof {
        reveal(Seq::filter);
        assert(files@.take(0) =~= Seq::<ChatLogFile>::empty());
        assert(kept_chat_files(files@.take(0), since_ts).len() == 0);
    }
    while i < n
        invariant
            i <= n,
            n == files@.len(),
            forall|k: int| 0 <= k < files@.len() ==> (#[trigger] files@[k]).text@.len() < i64::MAX,
            convs@.len() == kept_chat_files(files@.take(i as int), since_ts).len(),
            forall|k: int|
                0 <= k < convs@.len() ==> conv_of_chat_file(
                    #[trigger] convs@[k],
                    kept_chat_files(files@.take(i as int), since_ts)[k],
                ),
        decreases n - i,
    {
        let f = &files[i];
        proof {
            assert(files@.take(i + 1) =~= files@.take(i as int).push(files@[i as int]));
            lemma_kept_chat_push(files@.take(i as int), since_ts, files@[i as int]);
        }
        if modified_since(f.mtime_ms, since_ts) {
            let conv = chat_conversation(
                f.path.clone(),
                f.file_name.clone(),
                match &f.workspace {
                    Option::Some(w) => Option::Some(w.clone()),
                    Option::None => Option::None,
                },
                f.text.as_str(),
                f.mtime_ms,
            );
            if conv.messages.len() > 0 {
                convs.push(conv);
            }
        }
        i = i + 1;
    }
    proof {
        assert(files@.take(n as int) =~= files@);
    }
    convs
}

/// The chat-log connector itself; it carries no state.
pub struct AiderConnector;

impl AiderConnector {
    /// A fresh connector.
    pub fn new() -> AiderConnector {
        AiderConnector
    }
}

impl Default for AiderConnector {
    /// The same as `new`: the connector carries no state.
    fn default() -> (r: Self)
        ensures
            r == AiderConnector,
    {
        AiderConnector::new()
    }
}

/// The detection report of the chat-log connector: always positive, so that
/// watcher-triggered reindex paths are not skipped, with the first found
/// log file named as evidence when there is one.
pub fn chat_log_detection(found: Option<String>) -> (r: DetectionResult)
    ensures
        r.detected,
        (match found {
            Option::Some(p) => {
                &&& r.evidence@.len() == 2
                &&& r.evidence@[0]@ == "aider connector active"@
                &&& r.evidence@[1]@ == "found "@ + p@
            },
            Option::None => {
                &&& r.evidence@.len() == 1
                &&& r.evidence@[0]@ == "aider connector active"@
            },
        }),
{
    let mut evidence: Vec<String> = Vec::new();
    evidence.push(String::from_str("aider connector active"));
    match found {
        Option::Some(p) => {
            evidence.push(String::from_str("found ").concat(p.as_str()));
            DetectionResult { detected: true, evidence }
        },
        Option::None => DetectionResult { detected: true, evidence },
    }
}

} // verus!

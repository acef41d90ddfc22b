//! Connector scenarios: the Markdown chat log, the per-task directory, and
//! the rollout envelope.

use cass::connectors::aider::{
    chat_conversation, chat_log_detection, parse_chat_log, scan_chat_logs, AiderConnector,
    ChatLogFile,
};
use cass::connectors::cline::{cline_task_from_texts, scan_task_dirs, storage_detection, ClineConnector, TaskDirFiles};
use cass::connectors::envelope::{envelope_message, rollout_conversation, scan_rollout_files, RolloutFile};
use cass::json::JsonValue;
use cass::timeparse::parse_timestamp;

#[test]
fn markdown_log_roles() {
    let msgs = parse_chat_log("> hello from user\n\nassistant reply here\n> follow up");
    assert_eq!(msgs.len(), 3);
    assert_eq!(msgs[0].role, "user");
    assert_eq!(msgs[0].content, "hello from user");
    assert_eq!(msgs[0].idx, 0);
    assert_eq!(msgs[1].role, "assistant");
    assert_eq!(msgs[1].content, "assistant reply here");
    assert_eq!(msgs[1].idx, 1);
    assert_eq!(msgs[2].role, "user");
    assert_eq!(msgs[2].content, "follow up");
    assert_eq!(msgs[2].idx, 2);
}

#[test]
fn markdown_log_preamble_is_system() {
    let msgs = parse_chat_log("preamble text\n> question");
    assert_eq!(msgs.len(), 2);
    assert_eq!(msgs[0].role, "system");
    assert_eq!(msgs[0].content, "preamble text");
    assert_eq!(msgs[1].role, "user");
    assert_eq!(msgs[1].content, "question");
}

#[test]
fn markdown_log_blank_only_yields_nothing() {
    assert_eq!(parse_chat_log("").len(), 0);
    assert_eq!(parse_chat_log("   \n\t\n").len(), 0);
}

#[test]
fn chat_conversation_carries_file_facts() {
    let conv = chat_conversation(
        "/tmp/w/.aider.chat.history.md".to_string(),
        ".aider.chat.history.md".to_string(),
        Some("/tmp/w".to_string()),
        "> hi",
        Some(1_700_000_000_000),
    );
    assert_eq!(conv.agent_slug, "aider");
    assert_eq!(
        conv.title.as_deref(),
        Some("Aider Chat: /tmp/w/.aider.chat.history.md")
    );
    assert_eq!(conv.external_id.as_deref(), Some(".aider.chat.history.md"));
    assert_eq!(conv.started_at, Some(1_700_000_000_000));
    assert_eq!(conv.ended_at, Some(1_700_000_000_000));
    assert_eq!(conv.messages.len(), 1);
}

#[test]
fn scan_chat_logs_skips_stale_and_empty_files() {
    let files = vec![
        ChatLogFile {
            path: "/a".to_string(),
            file_name: "a".to_string(),
            workspace: None,
            mtime_ms: Some(100),
            text: "> old".to_string(),
        },
        ChatLogFile {
            path: "/b".to_string(),
            file_name: "b".to_string(),
            workspace: None,
            mtime_ms: Some(300),
            text: "> new".to_string(),
        },
        ChatLogFile {
            path: "/c".to_string(),
            file_name: "c".to_string(),
            workspace: None,
            mtime_ms: Some(400),
            text: "   \n".to_string(),
        },
    ];
    let convs = scan_chat_logs(&files, Some(200));
    assert_eq!(convs.len(), 1);
    assert_eq!(convs[0].source_path, "/b");

    let all = scan_chat_logs(&files, None);
    assert_eq!(all.len(), 2);
}

#[test]
fn scan_chat_logs_keeps_files_with_unknown_mtime() {
    // A file whose modification time could not be read is conservatively
    // treated as modified, even during an incremental scan.
    let files = vec![ChatLogFile {
        path: "/u".to_string(),
        file_name: "u".to_string(),
        workspace: None,
        mtime_ms: None,
        text: "> recovered".to_string(),
    }];
    let convs = scan_chat_logs(&files, Some(1_000_000));
    assert_eq!(convs.len(), 1);
    assert_eq!(convs[0].started_at, None);
}

#[test]
fn chat_log_detection_is_always_positive() {
    let d = chat_log_detection(None);
    assert!(d.detected);
    assert_eq!(d.evidence, vec!["aider connector active".to_string()]);
    let d2 = chat_log_detection(Some("/tmp/x".to_string()));
    assert!(d2.detected);
    assert_eq!(d2.evidence[1], "found /tmp/x");
    let _ = AiderConnector::new();
}

#[test]
fn cline_parses_fixture_task() {
    let data = "[\
        {\"role\":\"user\",\"ts\":1700000000000,\"content\":\"Start the task\"},\
        {\"role\":\"assistant\",\"ts\":1700000001000,\"content\":\"API reply one\"},\
        {\"role\":\"user\",\"ts\":1700000002000,\"content\":\"More API reply detail\"}]";
    let meta = "{\"title\":\"Cline fixture task\"}";
    let conv = cline_task_from_texts(
        Some("task-1".to_string()),
        "/store/task-1".to_string(),
        data,
        Some(meta),
        None,
    )
    .expect("scan");
    assert_eq!(conv.title.as_deref(), Some("Cline fixture task"));
    assert_eq!(conv.messages.len(), 3);
    assert!(conv.messages.iter().any(|m| m.content.contains("API reply")));
}

#[test]
fn per_task_directory() {
    let data = "[\
        {\"role\":\"user\",\"ts\":1700000000000,\"content\":\"cline_user\"},\
        {\"role\":\"assistant\",\"ts\":1700000001000,\"content\":\"cline_assistant\"}]";
    let meta = "{\"title\":\"Cline Task\"}";
    let conv = cline_task_from_texts(
        Some("task-2".to_string()),
        "/store/task-2".to_string(),
        data,
        Some(meta),
        None,
    )
    .expect("conversation");
    assert_eq!(conv.title.as_deref(), Some("Cline Task"));
    assert_eq!(conv.agent_slug, "cline");
    assert_eq!(conv.messages.len(), 2);
    assert_eq!(conv.messages[0].idx, 0);
    assert_eq!(conv.messages[0].content, "cline_user");
    assert_eq!(conv.messages[0].created_at, Some(1_700_000_000_000));
    assert_eq!(conv.messages[1].idx, 1);
    assert_eq!(conv.messages[1].content, "cline_assistant");
    assert_eq!(conv.started_at, Some(1_700_000_000_000));
    assert_eq!(conv.ended_at, Some(1_700_000_001_000));
}

#[test]
fn cline_sorts_and_falls_back_to_first_line() {
    // Records out of order, no metadata title: the title falls back to the
    // first line of the earliest message.
    let data = "[\
        {\"role\":\"assistant\",\"ts\":2000,\"content\":\"later reply\"},\
        {\"role\":\"user\",\"ts\":1000,\"content\":\"first line here\\nsecond line\"}]";
    let conv = cline_task_from_texts(None, "/store/task-3".to_string(), data, None, None)
        .expect("conversation");
    assert_eq!(conv.messages[0].content, "first line here\nsecond line");
    assert_eq!(conv.messages[1].content, "later reply");
    assert_eq!(conv.title.as_deref(), Some("first line here"));
}

#[test]
fn cline_drops_blank_and_stale_records() {
    let data = "[\
        {\"role\":\"user\",\"ts\":1000,\"content\":\"   \"},\
        {\"role\":\"user\",\"ts\":1500,\"content\":\"too old\"},\
        {\"role\":\"user\",\"ts\":3000,\"content\":\"fresh\"}]";
    let conv = cline_task_from_texts(None, "/store/task-4".to_string(), data, None, Some(2000))
        .expect("conversation");
    assert_eq!(conv.messages.len(), 1);
    assert_eq!(conv.messages[0].content, "fresh");

    // Nothing usable: no conversation at all.
    assert!(cline_task_from_texts(None, "/x".to_string(), "[]", None, None).is_none());
    assert!(cline_task_from_texts(None, "/x".to_string(), "not json", None, None).is_none());
}

#[test]
fn scan_task_dirs_skips_stale_files_and_keeps_unknown_mtimes() {
    let fresh = "[{\"role\":\"user\",\"ts\":5000,\"content\":\"fresh body\"}]";
    let tasks = vec![
        TaskDirFiles {
            task_id: Some("stale".to_string()),
            path: "/store/stale".to_string(),
            mtime_ms: Some(100),
            data_text: fresh.to_string(),
            meta_text: None,
        },
        TaskDirFiles {
            task_id: Some("new".to_string()),
            path: "/store/new".to_string(),
            mtime_ms: Some(3000),
            data_text: fresh.to_string(),
            meta_text: None,
        },
        TaskDirFiles {
            task_id: Some("unknown".to_string()),
            path: "/store/unknown".to_string(),
            mtime_ms: None,
            data_text: fresh.to_string(),
            meta_text: None,
        },
    ];
    // The stale directory is skipped at file level; the unreadable
    // modification time is conservatively treated as modified.
    let convs = scan_task_dirs(&tasks, Some(2000));
    assert_eq!(convs.len(), 2);
    assert_eq!(convs[0].source_path, "/store/new");
    assert_eq!(convs[1].source_path, "/store/unknown");

    let all = scan_task_dirs(&tasks, None);
    assert_eq!(all.len(), 3);
}

#[test]
fn storage_detection_reports_root() {
    let d = storage_detection("/home/u/.config/Code".to_string(), true);
    assert!(d.detected);
    assert_eq!(d.evidence[0], "found /home/u/.config/Code");
    let d2 = storage_detection("/nowhere".to_string(), false);
    assert!(!d2.detected);
    assert!(d2.evidence.is_empty());
    let _ = ClineConnector::new();
}

#[test]
fn jsonl_envelope() {
    // The envelope `{"type":"event_msg","timestamp":1700000000000,
    // "payload":{"type":"user_message","message":"codex_user"}}`.
    let v = JsonValue::Obj(vec![
        ("type".to_string(), JsonValue::Str("event_msg".to_string())),
        ("timestamp".to_string(), JsonValue::Int(1_700_000_000_000)),
        (
            "payload".to_string(),
            JsonValue::Obj(vec![
                ("type".to_string(), JsonValue::Str("user_message".to_string())),
                ("message".to_string(), JsonValue::Str("codex_user".to_string())),
            ]),
        ),
    ]);
    let msg = envelope_message(&v, 0).expect("speaking envelope");
    assert_eq!(msg.role, "user");
    assert_eq!(msg.content, "codex_user");
    assert_eq!(msg.created_at, Some(1_700_000_000_000));

    // An envelope whose payload kind carries no message stays silent.
    let silent = JsonValue::Obj(vec![
        ("type".to_string(), JsonValue::Str("event_msg".to_string())),
        (
            "payload".to_string(),
            JsonValue::Obj(vec![("type".to_string(), JsonValue::Str("token_count".to_string()))]),
        ),
    ]);
    assert!(envelope_message(&silent, 0).is_none());
}

#[test]
fn rollout_file_yields_sorted_conversation() {
    let text = "\
{\"type\":\"event_msg\",\"timestamp\":3000,\"payload\":{\"type\":\"agent_message\",\"message\":\"second reply\"}}\n\
{\"type\":\"event_msg\",\"timestamp\":1000,\"payload\":{\"type\":\"user_message\",\"message\":\"first ask\"}}\n\
not json at all\n\
{\"type\":\"event_msg\",\"timestamp\":2000,\"payload\":{\"type\":\"token_count\"}}";
    let conv = rollout_conversation(
        "/s/rollout-1.jsonl".to_string(),
        "rollout-1.jsonl".to_string(),
        text,
        None,
    )
    .expect("conversation");
    assert_eq!(conv.agent_slug, "codex");
    assert_eq!(conv.messages.len(), 2);
    assert_eq!(conv.messages[0].content, "first ask");
    assert_eq!(conv.messages[0].role, "user");
    assert_eq!(conv.messages[0].idx, 0);
    assert_eq!(conv.messages[1].content, "second reply");
    assert_eq!(conv.messages[1].role, "assistant");
    assert_eq!(conv.messages[1].idx, 1);
    assert_eq!(conv.started_at, Some(1000));
    assert_eq!(conv.ended_at, Some(3000));

    // Record-level skip: only the newer line survives the bound.
    let fresh = rollout_conversation(
        "/s/rollout-1.jsonl".to_string(),
        "rollout-1.jsonl".to_string(),
        text,
        Some(1500),
    )
    .expect("conversation");
    assert_eq!(fresh.messages.len(), 1);
    assert_eq!(fresh.messages[0].content, "second reply");

    // Nothing kept: no conversation at all.
    assert!(rollout_conversation("/s/x".to_string(), "x".to_string(), "", None).is_none());
}

#[test]
fn scan_rollout_files_skips_stale_files() {
    let line = "{\"type\":\"event_msg\",\"timestamp\":5000,\
\"payload\":{\"type\":\"user_message\",\"message\":\"codex_new\"}}";
    let files = vec![
        RolloutFile {
            path: "/s/old.jsonl".to_string(),
            file_name: "old.jsonl".to_string(),
            mtime_ms: Some(100),
            text: line.to_string(),
        },
        RolloutFile {
            path: "/s/new.jsonl".to_string(),
            file_name: "new.jsonl".to_string(),
            mtime_ms: Some(9000),
            text: line.to_string(),
        },
    ];
    let convs = scan_rollout_files(&files, Some(2000));
    assert_eq!(convs.len(), 1);
    assert_eq!(convs[0].source_path, "/s/new.jsonl");
    assert_eq!(convs[0].messages[0].content, "codex_new");

    assert_eq!(scan_rollout_files(&files, None).len(), 2);
}

#[test]
fn timestamps_accept_integers_and_iso() {
    assert_eq!(
        parse_timestamp(&JsonValue::Int(1_700_000_000_000)),
        Some(1_700_000_000_000)
    );
    assert_eq!(
        parse_timestamp(&JsonValue::Str("2023-11-14T22:13:20Z".to_string())),
        Some(1_700_000_000_000)
    );
    assert_eq!(
        parse_timestamp(&JsonValue::Str("2023-11-14T22:13:20.123Z".to_string())),
        Some(1_700_000_000_123)
    );
    assert_eq!(
        parse_timestamp(&JsonValue::Str("2023-11-14T23:13:20+01:00".to_string())),
        Some(1_700_000_000_000)
    );
    assert_eq!(
        parse_timestamp(&JsonValue::Str("1970-01-01T00:00:00Z".to_string())),
        Some(0)
    );
    assert_eq!(
        parse_timestamp(&JsonValue::Str("1969-12-31T23:59:59Z".to_string())),
        Some(-1000)
    );
    assert_eq!(
        parse_timestamp(&JsonValue::Str("2024-02-29T00:00:00Z".to_string())),
        Some(1_709_164_800_000)
    );
    assert_eq!(parse_timestamp(&JsonValue::Str("not a date".to_string())), None);
    assert_eq!(parse_timestamp(&JsonValue::Bool(true)), None);
}

//! The per-task-directory connector: each task directory holds a preferred
//! UI-messages file (or an API-history fallback) with an array of message
//! objects, plus an optional metadata sidecar carrying a title and
//! workspace hints.
//!
//! The logic here reads parsed JSON values; unknown fields are tolerated,
//! malformed records are skipped, and a task with no usable message yields
//! no conversation at all.

use vstd::prelude::*;
use crate::json::{
    clone_value, json_eq, parse_json, spec_as_arr, spec_as_str, spec_get, json_of, JsonValue,
};
use crate::model::{
    lemma_map_preserves_multiset, lemma_multiset_transfers_membership, modified_since, msg_time,
    reindex_messages, sort_messages_by_time, sorted_by_time, spec_modified_since,
    DetectionResult, NormalizedConversation, NormalizedMessage,
};
use crate::strutil::{chars_vec, spec_is_blank, spec_lines, spec_take_chars, str_is_blank, string_of, take_chars, split_lines};
use crate::timeparse::{parse_timestamp, spec_parse_timestamp};

verus! {

/// The timestamp field of a record: the first of `timestamp`, `created_at`
/// and `ts` that is present, read as a flexible timestamp.
pub open spec fn item_created(item: JsonValue) -> Option<i64> {
    let cand = if spec_get(item, "timestamp"@) is Some {
        spec_get(item, "timestamp"@)
    } else if spec_get(item, "created_at"@) is Some {
        spec_get(item, "created_at"@)
    } else {
        spec_get(item, "ts"@)
    };
    match cand {
        Option::Some(v) => spec_parse_timestamp(v),
        Option::None => Option::None,
    }
}

/// The role of a record: the first of `role` and `type` that is present,
/// when it is a string; `agent` otherwise.
pub open spec fn item_role(item: JsonValue) -> Seq<char> {
    let cand = if spec_get(item, "role"@) is Some {
        spec_get(item, "role"@)
    } else {
        spec_get(item, "type"@)
    };
    match cand {
        Option::Some(v) => match spec_as_str(v) {
            Option::Some(s) => s,
            Option::None => "agent"@,
        },
        Option::None => "agent"@,
    }
}

/// The body of a record: the first of `content`, `text` and `message` that
/// is present, when it is a string; empty otherwise.
pub open spec fn item_content(item: JsonValue) -> Seq<char> {
    let cand = if spec_get(item, "content"@) is Some {
        spec_get(item, "content"@)
    } else if spec_get(item, "text"@) is Some {
        spec_get(item, "text"@)
    } else {
        spec_get(item, "message"@)
    };
    match cand {
        Option::Some(v) => match spec_as_str(v) {
            Option::Some(s) => s,
            Option::None => Seq::empty(),
        },
        Option::None => Seq::empty(),
    }
}

/// A record becomes a message exactly when it is not at or before the
/// incremental bound and its body is not blank.
pub open spec fn item_kept(item: JsonValue, since_ts: Option<i64>) -> bool {
    &&& !(match (since_ts, item_created(item)) {
        (Option::Some(s), Option::Some(t)) => t <= s,
        _ => false,
    })
    &&& !spec_is_blank(item_content(item))
}

/// The records a scan keeps, in file order.
pub open spec fn kept_items(items: Seq<JsonValue>, since_ts: Option<i64>) -> Seq<JsonValue> {
    items.filter(|it: JsonValue| item_kept(it, since_ts))
}

proof fn lemma_kept_items_push(items: Seq<JsonValue>, since_ts: Option<i64>, it: JsonValue)
    ensures
        kept_items(items.push(it), since_ts) == if item_kept(it, since_ts) {
            kept_items(items, since_ts).push(it)
        } else {
            kept_items(items, since_ts)
        },
{
    reveal(Seq::filter);
    assert(items.push(it).drop_last() =~= items);
    assert(items.push(it).last() == it);
}

/// The reading a message keeps of its source record: role, timestamp and
/// body.
pub open spec fn msg_core(m: NormalizedMessage) -> (Seq<char>, Option<i64>, Seq<char>) {
    (m.role@, m.created_at, m.content@)
}

/// The reading of a source record: role, timestamp and body.
pub open spec fn item_core(item: JsonValue) -> (Seq<char>, Option<i64>, Seq<char>) {
    (item_role(item), item_created(item), item_content(item))
}

/// The record array of a parsed data file; empty when the file is not a
/// JSON array.
pub open spec fn data_items(parsed: Option<JsonValue>) -> Seq<JsonValue> {
    match parsed {
        Option::Some(v) => match spec_as_arr(v) {
            Option::Some(items) => items,
            Option::None => Seq::empty(),
        },
        Option::None => Seq::empty(),
    }
}

/// The title a metadata value carries, when it holds one as a string.
pub open spec fn meta_title(meta: Option<JsonValue>) -> Option<Seq<char>> {
    match meta {
        Option::Some(v) => match spec_get(v, "title"@) {
            Option::Some(t) => spec_as_str(t),
            Option::None => Option::None,
        },
        Option::None => Option::None,
    }
}

/// The workspace a metadata value carries: the first of `rootPath`, `cwd`
/// and `workspace` that is present, when it is a string.
pub open spec fn meta_workspace(meta: Option<JsonValue>) -> Option<Seq<char>> {
    match meta {
        Option::Some(v) => {
            let cand = if spec_get(v, "rootPath"@) is Some {
                spec_get(v, "rootPath"@)
            } else if spec_get(v, "cwd"@) is Some {
                spec_get(v, "cwd"@)
            } else {
                spec_get(v, "workspace"@)
            };
            match cand {
                Option::Some(w) => spec_as_str(w),
                Option::None => Option::None,
            }
        },
        Option::None => Option::None,
    }
}

/// The metadata value of an optional sidecar text, when it parses.
pub open spec fn meta_of(text: Option<Seq<char>>) -> Option<JsonValue> {
    match text {
        Option::Some(t) => json_of(t),
        Option::None => Option::None,
    }
}

/// The fallback title: the first line of the first message's body, up to a
/// hundred characters.
pub open spec fn fallback_title(first_content: Seq<char>) -> Seq<char> {
    if spec_lines(first_content).len() > 0 {
        spec_take_chars(spec_lines(first_content)[0], 100)
    } else {
        Seq::empty()
    }
}

/// What the conversation of one task directory must look like, given the
/// kept records and the metadata.
pub open spec fn task_conv_props(
    c: NormalizedConversation,
    kept: Seq<JsonValue>,
    meta: Option<JsonValue>,
) -> bool {
    &&& c.agent_slug@ == "cline"@
    &&& c.messages@.len() == kept.len()
    &&& c.messages@.len() > 0
    &&& sorted_by_time(c.messages@)
    &&& forall|k: int| 0 <= k < c.messages@.len() ==> (#[trigger] c.messages@[k]).idx == k
    &&& forall|k: int|
        0 <= k < c.messages@.len() ==> !spec_is_blank((#[trigger] c.messages@[k]).content@)
    &&& forall|k: int| 0 <= k < c.messages@.len() ==> (#[trigger] c.messages@[k]).author is None
    &&& forall|k: int|
        0 <= k < c.messages@.len() ==> exists|j: int|
            0 <= j < kept.len() && msg_core(#[trigger] c.messages@[k]) == item_core(kept[j])
                && json_eq(c.messages@[k].extra, kept[j])
    &&& c.messages@.map_values(|m: NormalizedMessage| msg_core(m)).to_multiset()
        == kept.map_values(|it: JsonValue| item_core(it)).to_multiset()
    &&& c.started_at == c.messages@.first().created_at
    &&& c.ended_at == c.messages@.last().created_at
    &&& (match (c.title, meta_title(meta)) {
        (Option::Some(t), Option::Some(mt)) => t@ == mt,
        (Option::Some(t), Option::None) => t@ == fallback_title(c.messages@.first().content@),
        _ => false,
    })
    &&& (match (c.workspace, meta_workspace(meta)) {
        (Option::Some(w), Option::Some(mw)) => w@ == mw,
        (Option::None, Option::None) => true,
        _ => false,
    })
}

fn str_of_first<'a>(a: Option<&'a JsonValue>, b: Option<&'a JsonValue>, fallback: &str) -> (r:
    String)
    ensures
        r@ == (match (a, b) {
            (Option::Some(v), _) => match spec_as_str(*v) {
                Option::Some(s) => s,
                Option::None => fallback@,
            },
            (Option::None, Option::Some(v)) => match spec_as_str(*v) {
                Option::Some(s) => s,
                Option::None => fallback@,
            },
            (Option::None, Option::None) => fallback@,
        }),
{
    let cand = match a {
        Option::Some(v) => Option::Some(v),
        Option::None => b,
    };
    match cand {
        Option::Some(v) => match v.as_str() {
            Option::Some(s) => s.clone(),
            Option::None => String::from_str(fallback),
        },
        Option::None => String::from_str(fallback),
    }
}

/// Builds the conversation of one task directory from the task id, the
/// directory path, the text of its preferred messages file, the text of
/// its metadata sidecar (when present) and the incremental bound. Yields a
/// conversation exactly when the data parses to an array with at least one
/// record that is newer than the bound and has a non-blank body (and the
/// kept count fits the index type).
pub fn cline_task_from_texts(
    task_id: Option<String>,
    source_path: String,
    data_text: &str,
    meta_text: Option<&str>,
    since_ts: Option<i64>,
) -> (r: Option<NormalizedConversation>)
    ensures
        (match r {
            Option::Some(_) => {
                let kept = kept_items(data_items(json_of(data_text@)), since_ts);
                kept.len() > 0 && kept.len() <= i64::MAX
            },
            Option::None => !{
                let kept = kept_items(data_items(json_of(data_text@)), since_ts);
                kept.len() > 0 && kept.len() <= i64::MAX
            },
        }),
        (match r {
            Option::Some(c) => {
                &&& task_conv_props(
                    c,
                    kept_items(data_items(json_of(data_text@)), since_ts),
                    meta_of(
                        match meta_text {
                            Option::Some(t) => Option::Some(t@),
                            Option::None => Option::None,
                        },
                    ),
                )
                &&& c.external_id == task_id
                &&& c.source_path@ == source_path@
            },
            Option::None => true,
        }),
{
    broadcast use vstd::seq_lib::group_to_multiset_ensures;

    let parsed = parse_json(data_text);
    let val = match parsed {
        Option::Some(v) => v,
        Option::None => JsonValue::Null,
    };
    let ghost all_items = data_items(json_of(data_text@));
    let items = match val.as_arr() {
        Option::Some(items) => items,
        Option::None => {
            proof {
                reveal(Seq::filter);
                assert(all_items =~= Seq::<JsonValue>::empty());
            }
            return Option::None;
        },
    };
    proof {
        assert(items@ == all_items);
    }
    let n = items.len();
    let mut msgs: Vec<NormalizedMessage> = Vec::new();
    let mut i: usize = 0;
    proof {
        reveal(Seq::filter);
        assert(items@.take(0) =~= Seq::<JsonValue>::empty());
        assert(kept_items(items@.take(0), since_ts).len() == 0);
    }
    while i < n
        invariant
            i <= n,
            n == items@.len(),
            msgs@.len() == kept_items(items@.take(i as int), since_ts).len(),
            forall|k: int|
                0 <= k < msgs@.len() ==> msg_core(#[trigger] msgs@[k]) == item_core(
                    kept_items(items@.take(i as int), since_ts)[k],
                ),
            forall|k: int| 0 <= k < msgs@.len() ==> !spec_is_blank((#[trigger] msgs@[k]).content@),
            forall|k: int| 0 <= k < msgs@.len() ==> (#[trigger] msgs@[k]).author is None,
            forall|k: int|
                0 <= k < msgs@.len() ==> json_eq(
                    (#[trigger] msgs@[k]).extra,
                    kept_items(items@.take(i as int), since_ts)[k],
                ),
        decreases n - i,
    {
        let it = &items[i];
        proof {
            assert(items@.take(i + 1) =~= items@.take(i as int).push(items@[i as int]));
            lemma_kept_items_push(items@.take(i as int), since_ts, items@[i as int]);
        }
        let cand = match it.get("timestamp") {
            Option::Some(v) => Option::Some(v),
            Option::None => match it.get("created_at") {
                Option::Some(v) => Option::Some(v),
                Option::None => it.get("ts"),
            },
        };
        let created = match cand {
            Option::Some(v) => parse_timestamp(v),
            Option::None => Option::None,
        };
        proof {
            assert(created == item_created(items@[i as int]));
        }
        let skip_old = match (since_ts, created) {
            (Option::Some(s), Option::Some(t)) => t <= s,
            _ => false,
        };
        if !skip_old {
            let role = str_of_first(it.get("role"), it.get("type"), "agent");
            let content = match it.get("content") {
                Option::Some(v) => match v.as_str() {
                    Option::Some(s) => s.clone(),
                    Option::None => String::new(),
                },
                Option::None => match it.get("text") {
                    Option::Some(v) => match v.as_str() {
                        Option::Some(s) => s.clone(),
                        Option::None => String::new(),
                    },
                    Option::None => match it.get("message") {
                        Option::Some(v) => match v.as_str() {
                            Option::Some(s) => s.clone(),
                            Option::None => String::new(),
                        },
                        Option::None => String::new(),
                    },
                },
            };
            proof {
                assert(role@ == item_role(items@[i as int]));
                assert(content@ == item_content(items@[i as int]));
            }
            if !str_is_blank(content.as_str()) {
                let m = NormalizedMessage {
                    idx: 0,
                    role,
                    author: Option::None,
                    created_at: created,
                    content,
                    extra: clone_value(it),
                    snippets: Vec::new(),
                };
                msgs.push(m);
            }
        }
        i = i + 1;
    }
    proof {
        assert(items@.take(n as int) =~= items@);
    }
    let ghost kept = kept_items(items@, since_ts);
    if msgs.len() == 0 {
        return Option::None;
    }
    if msgs.len() as u64 > i64::MAX as u64 {
        return Option::None;
    }
    let ghost presort = msgs@;
    let sorted = sort_messages_by_time(msgs);
    let mut messages = sorted;
    let ghost before_idx = messages@;
    reindex_messages(&mut messages);
    proof {
        // Reindexing changes only the index, so the core readings are
        // untouched; sorting permutes, so the core multiset is that of the
        // kept records.
        assert(messages@.map_values(|m: NormalizedMessage| msg_core(m)) =~= before_idx.map_values(
            |m: NormalizedMessage| msg_core(m),
        ));
        lemma_map_preserves_multiset(
            before_idx,
            presort,
            |m: NormalizedMessage| msg_core(m),
        );
        assert(presort.map_values(|m: NormalizedMessage| msg_core(m)) =~= kept.map_values(
            |it: JsonValue| item_core(it),
        ));
        assert(sorted_by_time(messages@)) by {
            assert(forall|k: int|
                0 <= k < messages@.len() ==> msg_time(#[trigger] messages@[k]) == msg_time(
                    before_idx[k],
                ));
        }
        // Every final message is (up to its index) one of the built
        // messages, so the built messages' per-record facts — a non-blank
        // body, no author, and a payload structurally equal to some kept
        // record — carry over.
        assert(forall|k: int|
            0 <= k < before_idx.len() ==> presort.contains(#[trigger] before_idx[k])) by {
            assert forall|k: int| 0 <= k < before_idx.len() implies presort.contains(
                #[trigger] before_idx[k],
            ) by {
                lemma_multiset_transfers_membership(before_idx, presort, k);
            }
        }
        assert(forall|k: int|
            0 <= k < messages@.len() ==> !spec_is_blank((#[trigger] messages@[k]).content@));
        assert(forall|k: int|
            0 <= k < messages@.len() ==> (#[trigger] messages@[k]).author is None);
        assert forall|k: int| 0 <= k < messages@.len() implies exists|j: int|
            0 <= j < kept.len() && msg_core(#[trigger] messages@[k]) == item_core(kept[j])
                && json_eq(messages@[k].extra, kept[j]) by {
            let i0 = choose|i0: int| 0 <= i0 < presort.len() && presort[i0] == before_idx[k];
            assert(msg_core(messages@[k]) == msg_core(before_idx[k]));
            assert(messages@[k].extra == before_idx[k].extra);
            assert(0 <= i0 < kept.len() && msg_core(messages@[k]) == item_core(kept[i0])
                && json_eq(messages@[k].extra, kept[i0]));
        }
    }
    // Title and workspace come from the metadata sidecar when it offers
    // them; the title otherwise falls back to the first line of the first
    // message.
    let meta = match meta_text {
        Option::Some(t) => parse_json(t),
        Option::None => Option::None,
    };
    let mut title: Option<String> = Option::None;
    let mut workspace: Option<String> = Option::None;
    match &meta {
        Option::Some(v) => {
            match v.get("title") {
                Option::Some(tv) => {
                    match tv.as_str() {
                        Option::Some(s) => {
                            title = Option::Some(s.clone());
                        },
                        Option::None => {},
                    }
                },
                Option::None => {},
            }
            let wcand = match v.get("rootPath") {
                Option::Some(w) => Option::Some(w),
                Option::None => match v.get("cwd") {
                    Option::Some(w) => Option::Some(w),
                    Option::None => v.get("workspace"),
                },
            };
            match wcand {
                Option::Some(w) => {
                    match w.as_str() {
                        Option::Some(s) => {
                            workspace = Option::Some(s.clone());
                        },
                        Option::None => {},
                    }
                },
                Option::None => {},
            }
        },
        Option::None => {},
    }
    if title.is_none() {
        let first_content = chars_vec(messages[0].content.as_str());
        let lines = split_lines(&first_content);
        let first_line = if lines.len() > 0 {
            take_chars(&lines[0], 100)
        } else {
            Vec::new()
        };
        proof {
            if spec_lines(messages@[0].content@).len() > 0 {
                assert(crate::strutil::views_of(lines@)[0] == lines@[0]@);
            }
        }
        title = Option::Some(string_of(&first_line));
    }
    let started_at = messages[0].created_at;
    let ended_at = messages[messages.len() - 1].created_at;
    let mut meta_pairs: Vec<(String, JsonValue)> = Vec::new();
    meta_pairs.push((String::from_str("source"), JsonValue::Str(String::from_str("cline"))));
    Option::Some(
        NormalizedConversation {
            agent_slug: String::from_str("cline"),
            external_id: task_id,
            title,
            workspace,
            source_path,
            started_at,
            ended_at,
            metadata: JsonValue::Obj(meta_pairs),
            messages,
        },
    )
}

/// One task directory as the host hands it over: the directory path, the
/// task id, the text and modification time of its preferred messages file,
/// and the metadata sidecar's text when present.
pub struct TaskDirFiles {
    /// The directory's name, kept as the agent-local identifier.
    pub task_id: Option<String>,
    /// The directory's path; used as the conversation's stable origin.
    pub path: String,
    /// The messages file's modification time in epoch milliseconds, absent
    /// when its metadata could not be read.
    pub mtime_ms: Option<i64>,
    /// The text of the preferred messages file.
    pub data_text: String,
    /// The text of the metadata sidecar, when present.
    pub meta_text: Option<String>,
}

/// The metadata reading of a task directory.
pub open spec fn task_meta(t: TaskDirFiles) -> Option<JsonValue> {
    meta_of(
        match t.meta_text {
            Option::Some(m) => Option::Some(m@),
            Option::None => Option::None,
        },
    )
}

/// A task directory takes part in a scan when its messages file is newer
/// than the incremental bound — an unreadable modification time is
/// conservatively treated as modified — and at least one of its records is
/// kept (and the kept count fits the index type).
pub open spec fn task_kept(t: TaskDirFiles, since_ts: Option<i64>) -> bool {
    &&& spec_modified_since(t.mtime_ms, since_ts)
    &&& {
        let kept = kept_items(data_items(json_of(t.data_text@)), since_ts);
        kept.len() > 0 && kept.len() <= i64::MAX
    }
}

/// The task directories a scan keeps, in their given order.
pub open spec fn kept_tasks(tasks: Seq<TaskDirFiles>, since_ts: Option<i64>) -> Seq<TaskDirFiles> {
    tasks.filter(|t: TaskDirFiles| task_kept(t, since_ts))
}

proof fn lemma_kept_tasks_push(tasks: Seq<TaskDirFiles>, since_ts: Option<i64>, t: TaskDirFiles)
    ensures
        kept_tasks(tasks.push(t), since_ts) == if task_kept(t, since_ts) {
            kept_tasks(tasks, since_ts).push(t)
        } else {
            kept_tasks(tasks, since_ts)
        },
{
    reveal(Seq::filter);
    assert(tasks.push(t).drop_last() =~= tasks);
    assert(tasks.push(t).last() == t);
}

/// Whether a conversation is the one this scan entry denotes.
pub open spec fn conv_of_task(
    c: NormalizedConversation,
    t: TaskDirFiles,
    since_ts: Option<i64>,
) -> bool {
    &&& task_conv_props(c, kept_items(data_items(json_of(t.data_text@)), since_ts), task_meta(t))
    &&& (match (c.external_id, t.task_id) {
        (Option::Some(a), Option::Some(b)) => a@ == b@,
        (Option::None, Option::None) => true,
        _ => false,
    })
    &&& c.source_path@ == t.path@
}

/// Scans a batch of task directories: skips directories whose messages
/// file was not modified since the incremental bound, builds the rest, and
/// emits one conversation per directory with at least one kept record.
pub fn scan_task_dirs(tasks: &Vec<TaskDirFiles>, since_ts: Option<i64>) -> (convs: Vec<
    NormalizedConversation,
>)
    ensures
        convs@.len() == kept_tasks(tasks@, since_ts).len(),
        forall|i: int|
            0 <= i < convs@.len() ==> conv_of_task(
                #[trigger] convs@[i],
                kept_tasks(tasks@, since_ts)[i],
                since_ts,
            ),
{
    let n = tasks.len();
    let mut convs: Vec<NormalizedConversation> = Vec::new();
    let mut i: usize = 0;
    proof {
        reveal(Seq::filter);
        assert(tasks@.take(0) =~= Seq::<TaskDirFiles>::empty());
        assert(kept_tasks(tasks@.take(0), since_ts).len() == 0);
    }
    while i < n
        invariant
            i <= n,
            n == tasks@.len(),
            convs@.len() == kept_tasks(tasks@.take(i as int), since_ts).len(),
            forall|k: int|
                0 <= k < convs@.len() ==> conv_of_task(
                    #[trigger] convs@[k],
                    kept_tasks(tasks@.take(i as int), since_ts)[k],
                    since_ts,
                ),
        decreases n - i,
    {
        let t = &tasks[i];
        proof {
            assert(tasks@.take(i + 1) =~= tasks@.take(i as int).push(tasks@[i as int]));
            lemma_kept_tasks_push(tasks@.take(i as int), since_ts, tasks@[i as int]);
        }
        if modified_since(t.mtime_ms, since_ts) {
            let task_id = match &t.task_id {
                Option::Some(x) => Option::Some(x.clone()),
                Option::None => Option::None,
            };
            let meta_text = match &t.meta_text {
                Option::Some(m) => Option::Some(m.as_str()),
                Option::None => Option::None,
            };
            let conv = cline_task_from_texts(
                task_id,
                t.path.clone(),
                t.data_text.as_str(),
                meta_text,
                since_ts,
            );
            match conv {
                Option::Some(c) => {
                    convs.push(c);
                },
                Option::None => {},
            }
        }
        i = i + 1;
    }
    proof {
        assert(tasks@.take(n as int) =~= tasks@);
    }
    convs
}

/// The per-task-directory connector itself; it carries no state.
pub struct ClineConnector;

impl ClineConnector {
    /// A fresh connector.
    pub fn new() -> ClineConnector {
        ClineConnector
    }
}

impl Default for ClineConnector {
    /// The same as `new`: the connector carries no state.
    fn default() -> (r: Self)
        ensures
            r == ClineConnector,
    {
        ClineConnector::new()
    }
}

/// The detection report for a storage root the host has (or has not) found
/// on disk: detected exactly when the root exists, with the root named as
/// evidence.
pub fn storage_detection(root: String, root_exists: bool) -> (r: DetectionResult)
    ensures
        r.detected == root_exists,
        root_exists ==> r.evidence@.len() == 1 && r.evidence@[0]@ == "found "@ + root@,
        !root_exists ==> r.evidence@.len() == 0,
{
    if root_exists {
        let mut evidence: Vec<String> = Vec::new();
        evidence.push(String::from_str("found ").concat(root.as_str()));
        DetectionResult { detected: true, evidence }
    } else {
        DetectionResult::not_found()
    }
}

} // verus!

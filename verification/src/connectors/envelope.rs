//! The rollout-line connector: each line of a session file is an envelope
//! `{type, timestamp, payload}` whose payload variants carry the role and
//! the message text.

use vstd::prelude::*;
use crate::json::{clone_value, json_eq, json_of, parse_json, spec_as_str, spec_get, JsonValue};
use crate::model::{
    lemma_map_preserves_multiset, lemma_multiset_transfers_membership, modified_since, msg_time,
    reindex_messages, sort_messages_by_time, sorted_by_time, spec_modified_since,
    NormalizedConversation, NormalizedMessage,
};
use crate::strutil::{
    chars_vec, spec_is_blank, spec_lines, split_lines, str_eq, str_is_blank, string_of, views_of,
};
use crate::timeparse::{parse_timestamp, spec_parse_timestamp};

verus! {

/// The role an envelope payload kind denotes: `user_message` speaks for the
/// user, `agent_message` for the assistant; other kinds carry no message.
pub open spec fn payload_role(kind: Seq<char>) -> Option<Seq<char>> {
    if kind == "user_message"@ {
        Option::Some("user"@)
    } else if kind == "agent_message"@ {
        Option::Some("assistant"@)
    } else {
        Option::None
    }
}

/// The reading of one envelope: a message exactly when the envelope's
/// `type` is `event_msg`, its payload kind names a speaking role, and the
/// payload carries a `message` string; the timestamp comes from the
/// envelope itself.
pub open spec fn envelope_reading(v: JsonValue) -> Option<
    (Seq<char>, Option<i64>, Seq<char>),
> {
    let env_type = match spec_get(v, "type"@) {
        Option::Some(t) => spec_as_str(t),
        Option::None => Option::None,
    };
    if env_type != Option::Some("event_msg"@) {
        Option::None
    } else {
        match spec_get(v, "payload"@) {
            Option::None => Option::None,
            Option::Some(payload) => {
                let kind = match spec_get(payload, "type"@) {
                    Option::Some(t) => spec_as_str(t),
                    Option::None => Option::None,
                };
                match kind {
                    Option::None => Option::None,
                    Option::Some(k) => match payload_role(k) {
                        Option::None => Option::None,
                        Option::Some(role) => match spec_get(payload, "message"@) {
                            Option::None => Option::None,
                            Option::Some(m) => match spec_as_str(m) {
                                Option::None => Option::None,
                                Option::Some(text) => {
                                    let ts = match spec_get(v, "timestamp"@) {
                                        Option::Some(t) => spec_parse_timestamp(t),
                                        Option::None => Option::None,
                                    };
                                    Option::Some((role, ts, text))
                                },
                            },
                        },
                    },
                }
            },
        }
    }
}

/// Reads one envelope value into a canonical message, exactly when the
/// envelope speaks: the produced message carries the denoted role and text,
/// the envelope's timestamp, the given index, and the whole envelope as its
/// payload.
pub fn envelope_message(v: &JsonValue, idx: i64) -> (r: Option<NormalizedMessage>)
    ensures
        (match (r, envelope_reading(*v)) {
            (Option::Some(m), Option::Some(reading)) => {
                &&& m.role@ == reading.0
                &&& m.created_at == reading.1
                &&& m.content@ == reading.2
                &&& m.idx == idx
                &&& m.author is None
                &&& json_eq(m.extra, *v)
                &&& m.snippets@.len() == 0
            },
            (Option::None, Option::None) => true,
            _ => false,
        }),
{
    let env_type = match v.get("type") {
        Option::Some(t) => t.as_str(),
        Option::None => Option::None,
    };
    let is_event = match env_type {
        Option::Some(s) => str_eq(s.as_str(), "event_msg"),
        Option::None => false,
    };
    if !is_event {
        return Option::None;
    }
    let payload = match v.get("payload") {
        Option::Some(p) => p,
        Option::None => {
            return Option::None;
        },
    };
    let kind = match payload.get("type") {
        Option::Some(t) => match t.as_str() {
            Option::Some(s) => s,
            Option::None => {
                return Option::None;
            },
        },
        Option::None => {
            return Option::None;
        },
    };
    let role: &'static str = if str_eq(kind.as_str(), "user_message") {
        "user"
    } else if str_eq(kind.as_str(), "agent_message") {
        "assistant"
    } else {
        return Option::None;
    };
    let text = match payload.get("message") {
        Option::Some(m) => match m.as_str() {
            Option::Some(s) => s.clone(),
            Option::None => {
                return Option::None;
            },
        },
        Option::None => {
            return Option::None;
        },
    };
    let ts = match v.get("timestamp") {
        Option::Some(t) => parse_timestamp(t),
        Option::None => Option::None,
    };
    Option::Some(
        NormalizedMessage {
            idx,
            role: String::from_str(role),
            author: Option::None,
            created_at: ts,
            content: text,
            extra: clone_value(v),
            snippets: Vec::new(),
        },
    )
}

/// The reading of one session-file line: the envelope reading of its JSON
/// value, when the line parses at all.
pub open spec fn line_reading(line: Seq<char>) -> Option<(Seq<char>, Option<i64>, Seq<char>)> {
    match json_of(line) {
        Option::Some(v) => envelope_reading(v),
        Option::None => Option::None,
    }
}

/// A line becomes a message exactly when it has a reading that is not at or
/// before the incremental bound and whose text is not blank; unparseable
/// lines and silent envelopes are skipped.
pub open spec fn line_kept(line: Seq<char>, since_ts: Option<i64>) -> bool {
    match line_reading(line) {
        Option::Some(rd) => {
            &&& !(match (since_ts, rd.1) {
                (Option::Some(s), Option::Some(t)) => t <= s,
                _ => false,
            })
            &&& !spec_is_blank(rd.2)
        },
        Option::None => false,
    }
}

/// The lines a scan keeps, in file order.
pub open spec fn kept_lines(lines: Seq<Seq<char>>, since_ts: Option<i64>) -> Seq<Seq<char>> {
    lines.filter(|line: Seq<char>| line_kept(line, since_ts))
}

proof fn lemma_kept_lines_push(lines: Seq<Seq<char>>, since_ts: Option<i64>, line: Seq<char>)
    ensures
        kept_lines(lines.push(line), since_ts) == if line_kept(line, since_ts) {
            kept_lines(lines, since_ts).push(line)
        } else {
            kept_lines(lines, since_ts)
        },
{
    reveal(Seq::filter);
    assert(lines.push(line).drop_last() =~= lines);
    assert(lines.push(line).last() == line);
}

/// The reading a message keeps of its source line: role, timestamp and body.
pub open spec fn rollout_msg_core(m: NormalizedMessage) -> (Seq<char>, Option<i64>, Seq<char>) {
    (m.role@, m.created_at, m.content@)
}

/// What the conversation of one session file must look like, given its kept
/// lines.
pub open spec fn rollout_conv_props(c: NormalizedConversation, kept: Seq<Seq<char>>) -> bool {
    &&& c.agent_slug@ == "codex"@
    &&& c.messages@.len() == kept.len()
    &&& c.messages@.len() > 0
    &&& sorted_by_time(c.messages@)
    &&& forall|k: int| 0 <= k < c.messages@.len() ==> (#[trigger] c.messages@[k]).idx == k
    &&& forall|k: int|
        0 <= k < c.messages@.len() ==> !spec_is_blank((#[trigger] c.messages@[k]).content@)
    &&& forall|k: int| 0 <= k < c.messages@.len() ==> (#[trigger] c.messages@[k]).author is None
    &&& forall|k: int|
        0 <= k < c.messages@.len() ==> exists|j: int|
            0 <= j < kept.len() && Option::Some(rollout_msg_core(#[trigger] c.messages@[k]))
                == line_reading(kept[j])
    &&& c.messages@.map_values(|m: NormalizedMessage| Option::Some(rollout_msg_core(m))).to_multiset()
        == kept.map_values(|line: Seq<char>| line_reading(line)).to_multiset()
    &&& c.started_at == c.messages@.first().created_at
    &&& c.ended_at == c.messages@.last().created_at
    &&& c.title is None
    &&& c.workspace is None
}

/// Builds the canonical messages of one session file's lines: one per kept
/// line, in file order, with provisional indices.
fn rollout_messages(text: &str, since_ts: Option<i64>) -> (msgs: Vec<NormalizedMessage>)
    ensures
        msgs@.len() == kept_lines(spec_lines(text@), since_ts).len(),
        forall|k: int|
            0 <= k < msgs@.len() ==> Option::Some(rollout_msg_core(#[trigger] msgs@[k]))
                == line_reading(kept_lines(spec_lines(text@), since_ts)[k]),
        forall|k: int| 0 <= k < msgs@.len() ==> !spec_is_blank((#[trigger] msgs@[k]).content@),
        forall|k: int| 0 <= k < msgs@.len() ==> (#[trigger] msgs@[k]).author is None,
{
    let cs = chars_vec(text);
    let lines = split_lines(&cs);
    let ghost ls = views_of(lines@);
    let n = lines.len();
    let mut msgs: Vec<NormalizedMessage> = Vec::new();
    let mut i: usize = 0;
    proof {
        reveal(Seq::filter);
        assert(ls.take(0) =~= Seq::<Seq<char>>::empty());
        assert(kept_lines(ls.take(0), since_ts).len() == 0);
    }
    while i < n
        invariant
            i <= n,
            n == lines@.len(),
            ls == views_of(lines@),
            msgs@.len() == kept_lines(ls.take(i as int), since_ts).len(),
            forall|k: int|
                0 <= k < msgs@.len() ==> Option::Some(rollout_msg_core(#[trigger] msgs@[k]))
                    == line_reading(kept_lines(ls.take(i as int), since_ts)[k]),
            forall|k: int| 0 <= k < msgs@.len() ==> !spec_is_blank((#[trigger] msgs@[k]).content@),
            forall|k: int| 0 <= k < msgs@.len() ==> (#[trigger] msgs@[k]).author is None,
        decreases n - i,
    {
        proof {
            assert(ls[i as int] == lines@[i as int]@);
            assert(ls.take(i + 1) =~= ls.take(i as int).push(ls[i as int]));
            lemma_kept_lines_push(ls.take(i as int), since_ts, ls[i as int]);
        }
        let line_s = string_of(&lines[i]);
        match parse_json(line_s.as_str()) {
            Option::Some(v) => {
                match envelope_message(&v, 0) {
                    Option::Some(m) => {
                        let skip_old = match (since_ts, m.created_at) {
                            (Option::Some(s), Option::Some(t)) => t <= s,
                            _ => false,
                        };
                        if !skip_old && !str_is_blank(m.content.as_str()) {
                            msgs.push(m);
                        }
                    },
                    Option::None => {},
                }
            },
            Option::None => {},
        }
        i = i + 1;
    }
    proof {
        assert(ls.take(n as int) =~= ls);
    }
    msgs
}

/// Builds the canonical conversation of one session file: one message per
/// kept line, sorted by time with dense indices; no conversation at all
/// when no line is kept (or the kept count does not fit the index type).
pub fn rollout_conversation(
    source_path: String,
    file_name: String,
    text: &str,
    since_ts: Option<i64>,
) -> (r: Option<NormalizedConversation>)
    ensures
        (match r {
            Option::Some(_) => {
                let kept = kept_lines(spec_lines(text@), since_ts);
                kept.len() > 0 && kept.len() <= i64::MAX
            },
            Option::None => !{
                let kept = kept_lines(spec_lines(text@), since_ts);
                kept.len() > 0 && kept.len() <= i64::MAX
            },
        }),
        (match r {
            Option::Some(c) => {
                &&& rollout_conv_props(c, kept_lines(spec_lines(text@), since_ts))
                &&& (match c.external_id {
                    Option::Some(e) => e@ == file_name@,
                    Option::None => false,
                })
                &&& c.source_path@ == source_path@
            },
            Option::None => true,
        }),
{
    broadcast use vstd::seq_lib::group_to_multiset_ensures;

    let ghost kept = kept_lines(spec_lines(text@), since_ts);
    let msgs = rollout_messages(text, since_ts);
    if msgs.len() == 0 {
        return Option::None;
    }
    if msgs.len() as u64 > i64::MAX as u64 {
        return Option::None;
    }
    let ghost presort = msgs@;
    let sorted = sort_messages_by_time(msgs);
    let mut messages = sorted;
    let ghost before_idx = messages@;
    reindex_messages(&mut messages);
    proof {
        // Reindexing changes only the index; sorting permutes, so the
        // readings' multiset is that of the kept lines, and the per-line
        // facts carry over through membership.
        assert(messages@.map_values(|m: NormalizedMessage| Option::Some(rollout_msg_core(m)))
            =~= before_idx.map_values(|m: NormalizedMessage| Option::Some(rollout_msg_core(m))));
        lemma_map_preserves_multiset(
            before_idx,
            presort,
            |m: NormalizedMessage| Option::Some(rollout_msg_core(m)),
        );
        assert(presort.map_values(|m: NormalizedMessage| Option::Some(rollout_msg_core(m)))
            =~= kept.map_values(|line: Seq<char>| line_reading(line)));
        assert(sorted_by_time(messages@)) by {
            assert(forall|k: int|
                0 <= k < messages@.len() ==> msg_time(#[trigger] messages@[k]) == msg_time(
                    before_idx[k],
                ));
        }
        assert(forall|k: int|
            0 <= k < before_idx.len() ==> presort.contains(#[trigger] before_idx[k])) by {
            assert forall|k: int| 0 <= k < before_idx.len() implies presort.contains(
                #[trigger] before_idx[k],
            ) by {
                lemma_multiset_transfers_membership(before_idx, presort, k);
            }
        }
        assert(forall|k: int|
            0 <= k < messages@.len() ==> !spec_is_blank((#[trigger] messages@[k]).content@));
        assert(forall|k: int|
            0 <= k < messages@.len() ==> (#[trigger] messages@[k]).author is None);
        assert forall|k: int| 0 <= k < messages@.len() implies exists|j: int|
            0 <= j < kept.len() && Option::Some(rollout_msg_core(#[trigger] messages@[k]))
                == line_reading(kept[j]) by {
            let i0 = choose|i0: int| 0 <= i0 < presort.len() && presort[i0] == before_idx[k];
            assert(rollout_msg_core(messages@[k]) == rollout_msg_core(before_idx[k]));
            assert(0 <= i0 < kept.len() && Option::Some(rollout_msg_core(messages@[k]))
                == line_reading(kept[i0]));
        }
    }
    let started_at = messages[0].created_at;
    let ended_at = messages[messages.len() - 1].created_at;
    Option::Some(
        NormalizedConversation {
            agent_slug: String::from_str("codex"),
            external_id: Option::Some(file_name),
            title: Option::None,
            workspace: Option::None,
            source_path,
            started_at,
            ended_at,
            metadata: JsonValue::Null,
            messages,
        },
    )
}

/// One rollout session file as the host hands it over.
pub struct RolloutFile {
    /// Full path of the file; used as the conversation's stable origin.
    pub path: String,
    /// The file's name, kept as the agent-local identifier.
    pub file_name: String,
    /// Last modification time in epoch milliseconds, absent when the
    /// file's metadata could not be read.
    pub mtime_ms: Option<i64>,
    /// The file's text.
    pub text: String,
}

/// A session file takes part in a scan when it is newer than the
/// incremental bound — an unreadable modification time is conservatively
/// treated as modified — and at least one of its lines is kept (and the
/// kept count fits the index type).
pub open spec fn rollout_file_kept(f: RolloutFile, since_ts: Option<i64>) -> bool {
    &&& spec_modified_since(f.mtime_ms, since_ts)
    &&& {
        let kept = kept_lines(spec_lines(f.text@), since_ts);
        kept.len() > 0 && kept.len() <= i64::MAX
    }
}

/// The session files a scan keeps, in their given order.
pub open spec fn kept_rollout_files(files: Seq<RolloutFile>, since_ts: Option<i64>) -> Seq<
    RolloutFile,
> {
    files.filter(|f: RolloutFile| rollout_file_kept(f, since_ts))
}

proof fn lemma_kept_rollout_push(files: Seq<RolloutFile>, since_ts: Option<i64>, f: RolloutFile)
    ensures
        kept_rollout_files(files.push(f), since_ts) == if rollout_file_kept(f, since_ts) {
            kept_rollout_files(files, since_ts).push(f)
        } else {
            kept_rollout_files(files, since_ts)
        },
{
    reveal(Seq::filter);
    assert(files.push(f).drop_last() =~= files);
    assert(files.push(f).last() == f);
}

/// Whether a conversation is the one this session file yields.
pub open spec fn conv_of_rollout_file(c: NormalizedConversation, f: RolloutFile, since_ts: Option<i64>) -> bool {
    &&& rollout_conv_props(c, kept_lines(spec_lines(f.text@), since_ts))
    &&& (match c.external_id {
        Option::Some(e) => e@ == f.file_name@,
        Option::None => false,
    })
    &&& c.source_path@ == f.path@
}

/// Scans a batch of session files: skips files not modified since the
/// incremental bound, reads the rest line by line, and emits one
/// conversation per file with at least one kept line.
pub fn scan_rollout_files(files: &Vec<RolloutFile>, since_ts: Option<i64>) -> (convs: Vec<
    NormalizedConversation,
>)
    ensures
        convs@.len() == kept_rollout_files(files@, since_ts).len(),
        forall|i: int|
            0 <= i < convs@.len() ==> conv_of_rollout_file(
                #[trigger] convs@[i],
                kept_rollout_files(files@, since_ts)[i],
                since_ts,
            ),
{
    let n = files.len();
    let mut convs: Vec<NormalizedConversation> = Vec::new();
    let mut i: usize = 0;
    proof {
        reveal(Seq::filter);
        assert(files@.take(0) =~= Seq::<RolloutFile>::empty());
        assert(kept_rollout_files(files@.take(0), since_ts).len() == 0);
    }
    while i < n
        invariant
            i <= n,
            n == files@.len(),
            convs@.len() == kept_rollout_files(files@.take(i as int), since_ts).len(),
            forall|k: int|
                0 <= k < convs@.len() ==> conv_of_rollout_file(
                    #[trigger] convs@[k],
                    kept_rollout_files(files@.take(i as int), since_ts)[k],
                    since_ts,
                ),
        decreases n - i,
    {
        let f = &files[i];
        proof {
            assert(files@.take(i + 1) =~= files@.take(i as int).push(files@[i as int]));
            lemma_kept_rollout_push(files@.take(i as int), since_ts, files@[i as int]);
        }
        if modified_since(f.mtime_ms, since_ts) {
            let conv = rollout_conversation(
                f.path.clone(),
                f.file_name.clone(),
                f.text.as_str(),
                since_ts,
            );
            match conv {
                Option::Some(c) => {
                    convs.push(c);
                },
                Option::None => {},
            }
        }
        i = i + 1;
    }
    proof {
        assert(files@.take(n as int) =~= files@);
    }
    convs
}

} // verus!

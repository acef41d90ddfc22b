//! The canonical conversation model every connector produces, and the shared
//! incremental-scan helpers.

use vstd::prelude::*;
use crate::json::JsonValue;

verus! {

/// One message of a conversation, in the agent-independent shape.
#[derive(Debug)]
pub struct NormalizedMessage {
    /// Zero-based position within its conversation.
    pub idx: i64,
    /// Speaker role: `user`, `assistant`, `system`, `agent`, ...
    pub role: String,
    /// Optional display name.
    pub author: Option<String>,
    /// Optional millisecond epoch timestamp.
    pub created_at: Option<i64>,
    /// The searchable body.
    pub content: String,
    /// Opaque per-message source payload, preserved for debugging.
    pub extra: JsonValue,
    /// Extracted code or file excerpts, preserved but not separately indexed.
    pub snippets: Vec<String>,
}

/// One logical chat session from one agent.
#[derive(Debug)]
pub struct NormalizedConversation {
    /// Stable short identifier of the producing agent.
    pub agent_slug: String,
    /// Optional agent-local identifier (filename, task id).
    pub external_id: Option<String>,
    /// Optional human-readable label.
    pub title: Option<String>,
    /// Optional filesystem path the session was rooted at.
    pub workspace: Option<String>,
    /// Path of the file the conversation was parsed from.
    pub source_path: String,
    /// Optional millisecond epoch lower bound.
    pub started_at: Option<i64>,
    /// Optional millisecond epoch upper bound.
    pub ended_at: Option<i64>,
    /// Opaque key/value bag preserved from the source.
    pub metadata: JsonValue,
    /// The messages, ordered by time with dense indices.
    pub messages: Vec<NormalizedMessage>,
}

/// What a connector's cheap presence check reports.
#[derive(Debug, Clone)]
pub struct DetectionResult {
    /// Whether the agent appears to be present on this host.
    pub detected: bool,
    /// Human-readable notes on what was found.
    pub evidence: Vec<String>,
}

impl DetectionResult {
    /// The negative report, with no evidence.
    pub fn not_found() -> (r: DetectionResult)
        ensures
            !r.detected,
            r.evidence@.len() == 0,
    {
        DetectionResult { detected: false, evidence: Vec::new() }
    }
}

/// What a scan is asked to cover.
#[derive(Debug, Clone)]
pub struct ScanContext {
    /// The root the connector should look under.
    pub data_root: String,
    /// Only records strictly newer than this are wanted; `None` means a
    /// full scan.
    pub since_ts: Option<i64>,
}

/// A source file is of interest when no lower bound is set, when its
/// modification time is unknown, or when it is strictly newer than the
/// bound.
pub open spec fn spec_modified_since(mtime_ms: Option<i64>, since_ts: Option<i64>) -> bool {
    match since_ts {
        Option::None => true,
        Option::Some(since) => match mtime_ms {
            Option::None => true,
            Option::Some(m) => m > since,
        },
    }
}

/// Decides whether a file with this modification time needs rescanning.
#[verifier::when_used_as_spec(spec_modified_since)]
pub fn modified_since(mtime_ms: Option<i64>, since_ts: Option<i64>) -> (r: bool)
    ensures
        r == spec_modified_since(mtime_ms, since_ts),
{
    match since_ts {
        Option::None => true,
        Option::Some(since) => match mtime_ms {
            Option::None => true,
            Option::Some(m) => m > since,
        },
    }
}

/// The sort key of a message: its timestamp, with an absent one reading
/// as zero.
pub open spec fn msg_time(m: NormalizedMessage) -> int {
    match m.created_at {
        Option::Some(t) => t as int,
        Option::None => 0,
    }
}

/// The exec mirror of `msg_time`.
pub fn msg_time_exec(m: &NormalizedMessage) -> (r: i64)
    ensures
        r as int == msg_time(*m),
{
    match m.created_at {
        Option::Some(t) => t,
        Option::None => 0,
    }
}

/// Whether the messages are in ascending time order.
pub open spec fn sorted_by_time(s: Seq<NormalizedMessage>) -> bool {
    forall|i: int, j: int| 0 <= i < j < s.len() ==> msg_time(s[i]) <= msg_time(s[j])
}

/// Sorts messages ascending by timestamp (absent timestamps count as zero).
/// The result is a permutation of the input: always the leftmost minimum is
/// taken, so messages with equal timestamps keep their relative order.
pub fn sort_messages_by_time(msgs: Vec<NormalizedMessage>) -> (r: Vec<NormalizedMessage>)
    ensures
        r@.to_multiset() == msgs@.to_multiset(),
        r@.len() == msgs@.len(),
        sorted_by_time(r@),
{
    broadcast use vstd::seq_lib::group_to_multiset_ensures;

    let mut rest = msgs;
    let mut out: Vec<NormalizedMessage> = Vec::new();
    proof {
        assert(out@.to_multiset().add(rest@.to_multiset()) =~= msgs@.to_multiset());
    }
    while rest.len() > 0
        invariant
            out@.to_multiset().add(rest@.to_multiset()) == msgs@.to_multiset(),
            out@.len() + rest@.len() == msgs@.len(),
            sorted_by_time(out@),
            forall|i: int, j: int|
                0 <= i < out@.len() && 0 <= j < rest@.len() ==> msg_time(out@[i]) <= msg_time(
                    rest@[j],
                ),
        decreases rest@.len(),
    {
        // Find the leftmost minimum of the remaining messages.
        let mut min_at: usize = 0;
        let mut k: usize = 1;
        while k < rest.len()
            invariant
                min_at < k <= rest@.len() || (k <= rest@.len() && min_at == 0),
                min_at < rest@.len(),
                forall|j: int| 0 <= j < k ==> msg_time(rest@[min_at as int]) <= msg_time(rest@[j]),
            decreases rest@.len() - k,
        {
            if msg_time_exec(&rest[k]) < msg_time_exec(&rest[min_at]) {
                min_at = k;
            }
            k = k + 1;
        }
        let ghost old_out = out@;
        let ghost old_rest = rest@;
        let m = rest.remove(min_at);
        out.push(m);
        proof {
            vstd::seq_lib::to_multiset_build::<NormalizedMessage>(old_out, m);
            vstd::seq_lib::to_multiset_remove::<NormalizedMessage>(old_rest, min_at as int);
            assert(out@ == old_out.push(m));
            assert(rest@ == old_rest.remove(min_at as int));
            assert(old_rest.to_multiset().count(m) >= 1) by {
                old_rest.to_multiset_ensures();
                assert(old_rest[min_at as int] == m);
                assert(old_rest.contains(m));
            }
            assert(out@.to_multiset().add(rest@.to_multiset()) =~= old_out.to_multiset().add(
                old_rest.to_multiset(),
            ));
            // Every remaining message is no older than the one just placed.
            assert(forall|j: int|
                0 <= j < rest@.len() ==> msg_time(out@[out@.len() - 1]) <= msg_time(
                    #[trigger] rest@[j],
                )) by {
                assert(forall|j: int|
                    0 <= j < rest@.len() ==> rest@[j] == old_rest[if j < min_at {
                        j
                    } else {
                        j + 1
                    }]);
            }
        }
    }
    out
}

/// Mapping two sequences that hold the same elements (as multisets) gives
/// multisets of images that are also the same.
pub proof fn lemma_map_preserves_multiset<A, B>(a: Seq<A>, b: Seq<A>, f: spec_fn(A) -> B)
    requires
        a.to_multiset() == b.to_multiset(),
    ensures
        a.map_values(f).to_multiset() == b.map_values(f).to_multiset(),
    decreases a.len(),
{
    broadcast use vstd::seq_lib::group_to_multiset_ensures;

    if a.len() == 0 {
        assert(b.to_multiset().len() == 0);
        assert(b.len() == 0);
        assert(a.map_values(f) =~= b.map_values(f));
    } else {
        let x = a.last();
        assert(a.to_multiset().count(x) >= 1) by {
            assert(a.contains(x));
        }
        assert(b.to_multiset().count(x) >= 1);
        assert(b.contains(x));
        let j = choose|j: int| 0 <= j < b.len() && b[j] == x;
        let a1 = a.drop_last();
        let b1 = b.remove(j);
        assert(a1.to_multiset() =~= b1.to_multiset()) by {
            assert(a =~= a1.push(x));
            assert(a1.push(x).to_multiset() =~= a1.to_multiset().insert(x));
            assert(b.remove(j).to_multiset() =~= b.to_multiset().remove(b[j]));
        }
        lemma_map_preserves_multiset(a1, b1, f);
        assert(a.map_values(f) =~= a1.map_values(f).push(f(x)));
        assert(a1.map_values(f).push(f(x)).to_multiset() =~= a1.map_values(f).to_multiset().insert(
            f(x),
        ));
        assert(b1.map_values(f) =~= b.map_values(f).remove(j));
        assert(b.map_values(f).remove(j).to_multiset() =~= b.map_values(f).to_multiset().remove(
            b.map_values(f)[j],
        ));
        assert(b.map_values(f)[j] == f(x));
        assert(b.map_values(f).to_multiset().count(f(x)) >= 1) by {
            assert(b.map_values(f).contains(f(x))) by {
                assert(b.map_values(f)[j] == f(x));
            }
        }
        assert(a.map_values(f).to_multiset() =~= b.map_values(f).to_multiset());
    }
}

/// A sequence whose multiset equals another's holds only elements the
/// other holds.
pub proof fn lemma_multiset_transfers_membership<A>(a: Seq<A>, b: Seq<A>, i: int)
    requires
        a.to_multiset() == b.to_multiset(),
        0 <= i < a.len(),
    ensures
        b.contains(a[i]),
{
    broadcast use vstd::seq_lib::group_to_multiset_ensures;

    assert(a.contains(a[i]));
    assert(a.to_multiset().count(a[i]) >= 1);
}

/// Reassigns dense indices 0, 1, 2, ... in order.
pub fn reindex_messages(msgs: &mut Vec<NormalizedMessage>)
    requires
        old(msgs)@.len() <= i64::MAX,
    ensures
        final(msgs)@.len() == old(msgs)@.len(),
        forall|i: int|
            0 <= i < final(msgs)@.len() ==> #[trigger] final(msgs)@[i] == (NormalizedMessage {
                idx: i as i64,
                ..old(msgs)@[i]
            }),
{
    let n = msgs.len();
    let mut i: usize = 0;
    while i < n
        invariant
            i <= n,
            n == msgs@.len() <= i64::MAX,
            forall|k: int|
                0 <= k < i ==> #[trigger] msgs@[k] == (NormalizedMessage {
                    idx: k as i64,
                    ..old(msgs)@[k]
                }),
            forall|k: int| i <= k < n ==> #[trigger] msgs@[k] == old(msgs)@[k],
        decreases n - i,
    {
        msgs[i].idx = i as i64;
        i = i + 1;
    }
}

} // verus!

//! Segment-merge scheduling policy: merge only when enough segments have
//! accumulated and a cooldown since the previous merge has elapsed.

use vstd::prelude::*;

verus! {

/// Segment count at or above which a merge is recommended.
pub const MERGE_SEGMENT_THRESHOLD: usize = 4;

/// Minimum time in milliseconds between two merges.
pub const MERGE_COOLDOWN_MS: i64 = 300_000;

/// Snapshot of the merge scheduler's inputs, as reported by `merge_status`.
#[derive(Debug, Clone)]
pub struct MergeStatus {
    /// Current number of searchable segments.
    pub segment_count: usize,
    /// Timestamp of the last merge in milliseconds since the epoch, 0 if none.
    pub last_merge_ts: i64,
    /// Milliseconds since the last merge, -1 if no merge has happened yet.
    pub ms_since_last_merge: i64,
    /// Segment count threshold for recommending a merge.
    pub merge_threshold: usize,
    /// Cooldown period between merges, in milliseconds.
    pub cooldown_ms: i64,
}

impl MergeStatus {
    /// A merge is recommended when the segment count has reached the
    /// threshold and either no merge has happened yet or the cooldown
    /// has elapsed.
    pub open spec fn spec_should_merge(&self) -> bool {
        &&& self.segment_count >= self.merge_threshold
        &&& (self.ms_since_last_merge < 0 || self.ms_since_last_merge >= self.cooldown_ms)
    }

    /// Returns true exactly when the merge policy recommends a merge for
    /// this snapshot.
    #[verifier::when_used_as_spec(spec_should_merge)]
    pub fn should_merge(&self) -> (r: bool)
        ensures
            r == self.spec_should_merge(),
    {
        self.segment_count >= self.merge_threshold
            && (self.ms_since_last_merge < 0 || self.ms_since_last_merge >= self.cooldown_ms)
    }
}

/// The merge gate as a pure function of its three inputs: segment count,
/// the timestamp of the last merge (0 meaning "never"), and the current
/// time. This is the side-effect-free core that `optimize_if_idle` acts on.
pub open spec fn spec_merge_allowed(segment_count: usize, last_merge_ts: i64, now_ms: i64) -> bool {
    &&& segment_count >= MERGE_SEGMENT_THRESHOLD
    &&& (last_merge_ts <= 0 || now_ms - last_merge_ts >= MERGE_COOLDOWN_MS)
}

/// Decides whether a merge may be initiated now.
#[verifier::when_used_as_spec(spec_merge_allowed)]
pub fn merge_allowed(segment_count: usize, last_merge_ts: i64, now_ms: i64) -> (r: bool)
    ensures
        r == spec_merge_allowed(segment_count, last_merge_ts, now_ms),
{
    if segment_count < MERGE_SEGMENT_THRESHOLD {
        return false;
    }
    if last_merge_ts > 0 {
        // Avoid overflow: both operands are ordinary epoch timestamps, but
        // the difference is taken in a wider type to be safe for any inputs.
        let diff: i128 = now_ms as i128 - last_merge_ts as i128;
        diff >= MERGE_COOLDOWN_MS as i128
    } else {
        true
    }
}

} // verus!

//! The segment-merge gate: threshold and cooldown.

use cass::index::merge::{merge_allowed, MergeStatus};

#[test]
fn merge_status_should_merge_logic() {
    let status = MergeStatus {
        segment_count: 5,
        last_merge_ts: 0,
        ms_since_last_merge: -1,
        merge_threshold: 4,
        cooldown_ms: 300_000,
    };
    assert!(
        status.should_merge(),
        "Should merge when never merged and above threshold"
    );

    let status_below_threshold = MergeStatus {
        segment_count: 2,
        last_merge_ts: 0,
        ms_since_last_merge: -1,
        merge_threshold: 4,
        cooldown_ms: 300_000,
    };
    assert!(
        !status_below_threshold.should_merge(),
        "Should not merge when below threshold"
    );

    let status_in_cooldown = MergeStatus {
        segment_count: 5,
        last_merge_ts: 1000,
        ms_since_last_merge: 1000,
        merge_threshold: 4,
        cooldown_ms: 300_000,
    };
    assert!(
        !status_in_cooldown.should_merge(),
        "Should not merge during cooldown"
    );

    let status_after_cooldown = MergeStatus {
        segment_count: 5,
        last_merge_ts: 1000,
        ms_since_last_merge: 400_000,
        merge_threshold: 4,
        cooldown_ms: 300_000,
    };
    assert!(
        status_after_cooldown.should_merge(),
        "Should merge after cooldown expires"
    );
}

#[test]
fn merge_gate_matches_policy() {
    // Below the threshold: never.
    assert!(!merge_allowed(3, 0, 1_000_000));
    // At the threshold with no prior merge: yes.
    assert!(merge_allowed(4, 0, 1_000_000));
    // During the cooldown: no.
    assert!(!merge_allowed(4, 1_000_000, 1_000_000 + 299_999));
    // Once the cooldown has elapsed: yes.
    assert!(merge_allowed(4, 1_000_000, 1_000_000 + 300_000));
}

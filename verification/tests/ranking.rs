//! Ranking: quality ordering at equal recency, and recency overriding
//! quality. Scores and weights are integers in thousandths (a raw score of
//! one reads as 1000, the balanced recency weight 0.4 as 400).

use cass::query::{blended_score, classify_match, hit_passes_filters, max_created, rank_hits, MatchType, SearchFilters, SearchHit};

fn hit(match_type: MatchType, created_at: Option<i64>) -> SearchHit {
    SearchHit {
        title: "t".into(),
        snippet: "s".into(),
        content: "c".into(),
        score: 1000,
        source_path: "p".into(),
        agent: "a".into(),
        workspace: "w".into(),
        created_at,
        line_number: None,
        match_type,
    }
}

fn blended(h: &SearchHit, max_created: i64, alpha: u64) -> u64 {
    blended_score(h.score, h.match_type, alpha, h.created_at, max_created)
}

#[test]
fn exact_hits_rank_above_wildcards_at_equal_recency_and_score() {
    let max_created = 2_000_000;
    let alpha = 400;

    let exact = hit(MatchType::Exact, Some(max_created));
    let prefix = hit(MatchType::Prefix, Some(max_created));
    let suffix = hit(MatchType::Suffix, Some(max_created));
    let substring = hit(MatchType::Substring, Some(max_created));
    let implicit = hit(MatchType::ImplicitWildcard, Some(max_created));

    let exact_score = blended(&exact, max_created, alpha);
    let prefix_score = blended(&prefix, max_created, alpha);
    let suffix_score = blended(&suffix, max_created, alpha);
    let substring_score = blended(&substring, max_created, alpha);
    let implicit_score = blended(&implicit, max_created, alpha);

    assert!(exact_score > prefix_score);
    assert!(prefix_score > suffix_score);
    assert!(suffix_score > substring_score);
    assert!(substring_score > implicit_score);
}

#[test]
fn recency_boost_can_outweigh_quality_when_far_newer() {
    let alpha = 1000;

    let older_exact = hit(MatchType::Exact, Some(1_000_000));
    let newer_suffix = hit(MatchType::Suffix, Some(2_000_000));

    let max_created = newer_suffix.created_at.unwrap();
    let older_score = blended(&older_exact, max_created, alpha);
    let newer_score = blended(&newer_suffix, max_created, alpha);

    assert!(
        newer_score > older_score,
        "recency boost should let much newer suffix beat older exact: {newer_score} > {older_score}"
    );
}

#[test]
fn quality_factors_descend_strictly() {
    assert_eq!(MatchType::Exact.quality_factor(), 1000);
    assert_eq!(MatchType::Prefix.quality_factor(), 900);
    assert_eq!(MatchType::Suffix.quality_factor(), 800);
    assert_eq!(MatchType::Substring.quality_factor(), 700);
    assert_eq!(MatchType::ImplicitWildcard.quality_factor(), 600);
}

#[test]
fn zero_alpha_disables_recency() {
    let newer = hit(MatchType::Suffix, Some(2_000_000));
    let older = hit(MatchType::Suffix, Some(1));
    assert_eq!(blended(&newer, 2_000_000, 0), blended(&older, 2_000_000, 0));
}

#[test]
fn filters_compose_conjunctively() {
    let h = hit(MatchType::Exact, Some(1_500));
    let mut f = SearchFilters::default();
    assert!(hit_passes_filters(&h, &f));

    f.agents = vec!["a".to_string()];
    assert!(hit_passes_filters(&h, &f));
    f.agents = vec!["other".to_string()];
    assert!(!hit_passes_filters(&h, &f));

    f.agents = vec!["a".to_string(), "other".to_string()];
    f.created_from = Some(1_000);
    f.created_to = Some(2_000);
    assert!(hit_passes_filters(&h, &f));
    f.created_to = Some(1_400);
    assert!(!hit_passes_filters(&h, &f));
}

#[test]
fn classification_ranks_match_kinds() {
    assert_eq!(
        classify_match("telemetry", "Telemetry pipeline"),
        MatchType::Exact
    );
    assert_eq!(
        classify_match("tele", "telemetry pipeline"),
        MatchType::Prefix
    );
    assert_eq!(
        classify_match("metry", "telemetry pipeline"),
        MatchType::Suffix
    );
    assert_eq!(
        classify_match("lemet", "telemetry pipeline"),
        MatchType::Substring
    );
    assert_eq!(
        classify_match("zzz", "telemetry pipeline"),
        MatchType::ImplicitWildcard
    );
}

#[test]
fn rank_hits_orders_by_blended_score() {
    let hits = vec![
        hit(MatchType::Substring, Some(1_000_000)),
        hit(MatchType::Exact, Some(1_000_000)),
        hit(MatchType::Prefix, Some(2_000_000)),
    ];
    let ranked = rank_hits(hits, 400, 2_000_000);
    assert_eq!(ranked.len(), 3);
    assert_eq!(ranked[0].match_type, MatchType::Prefix);
    assert_eq!(ranked[1].match_type, MatchType::Exact);
    assert_eq!(ranked[2].match_type, MatchType::Substring);
}

#[test]
fn max_created_finds_page_maximum() {
    let hits = vec![
        hit(MatchType::Exact, None),
        hit(MatchType::Exact, Some(-5)),
        hit(MatchType::Exact, Some(1_500)),
        hit(MatchType::Exact, Some(900)),
    ];
    assert_eq!(max_created(&hits), 1_500);
    assert_eq!(max_created(&Vec::new()), 0);
}

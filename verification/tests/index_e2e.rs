//! End-to-end index behavior against the real on-disk index: roundtrip
//! persistence, idempotent re-indexing, incremental additions, filtered
//! search, prefix hits, and the merge gate.

use cass::index::writer::TantivyIndex;
use cass::json::JsonValue;
use cass::model::{NormalizedConversation, NormalizedMessage};
use cass::query::{classify_match, MatchType};
use tantivy::collector::DocSetCollector;
use tantivy::query::TermQuery;
use tantivy::schema::{IndexRecordOption, Value};
use tantivy::{TantivyDocument, Term};
use tempfile::TempDir;

fn message(idx: i64, content: &str, ts: i64) -> NormalizedMessage {
    NormalizedMessage {
        idx,
        role: "user".to_string(),
        author: None,
        created_at: Some(ts),
        content: content.to_string(),
        extra: JsonValue::Null,
        snippets: Vec::new(),
    }
}

fn conversation(agent: &str, path: &str, contents: &[&str]) -> NormalizedConversation {
    let messages: Vec<NormalizedMessage> = contents
        .iter()
        .enumerate()
        .map(|(i, c)| message(i as i64, c, 1_700_000_000_000 + i as i64))
        .collect();
    NormalizedConversation {
        agent_slug: agent.to_string(),
        external_id: None,
        title: Some(format!("{} session", agent)),
        workspace: Some("/workspace/project".to_string()),
        source_path: path.to_string(),
        started_at: Some(1_700_000_000_000),
        ended_at: None,
        metadata: JsonValue::Null,
        messages,
    }
}

fn num_docs(index: &TantivyIndex) -> u64 {
    index.reader().unwrap().searcher().num_docs()
}

fn agent_hits(index: &TantivyIndex, agent: &str) -> Vec<String> {
    let reader = index.reader().unwrap();
    let searcher = reader.searcher();
    let term = Term::from_field_text(index.fields.agent, agent);
    let query = TermQuery::new(term, IndexRecordOption::Basic);
    let top = searcher.search(&query, &DocSetCollector).unwrap();
    let mut agents = Vec::new();
    for addr in top {
        let doc: TantivyDocument = searcher.doc(addr).unwrap();
        let got = doc
            .get_first(index.fields.agent)
            .and_then(|v| v.as_str())
            .unwrap()
            .to_string();
        agents.push(got);
    }
    agents
}

#[test]
fn roundtrip_persists_messages() {
    let dir = TempDir::new().unwrap();
    let path = dir.path().to_str().unwrap().to_string();
    {
        let mut index = TantivyIndex::open_at(&path, false).unwrap();
        let conv = conversation("test_agent", "/test/path", &["hello world test content"]);
        index.add_conversation(&conv).unwrap();
        index.commit().unwrap();
    }
    {
        let index = TantivyIndex::open_at(&path, true).unwrap();
        assert!(num_docs(&index) >= 1, "Should have at least 1 document after roundtrip");
        let reader = index.reader().unwrap();
        let searcher = reader.searcher();
        let term = Term::from_field_text(index.fields.agent, "test_agent");
        let query = TermQuery::new(term, IndexRecordOption::Basic);
        let top = searcher.search(&query, &DocSetCollector).unwrap();
        assert_eq!(top.len(), 1);
        let addr = *top.iter().next().unwrap();
        let doc: TantivyDocument = searcher.doc(addr).unwrap();
        assert_eq!(
            doc.get_first(index.fields.source_path).and_then(|v| v.as_str()),
            Some("/test/path")
        );
        assert_eq!(
            doc.get_first(index.fields.msg_idx).and_then(|v| v.as_u64()),
            Some(0)
        );
        assert_eq!(
            doc.get_first(index.fields.created_at).and_then(|v| v.as_i64()),
            Some(1_700_000_000_000)
        );
    }
}

#[test]
fn reindex_twice_gives_same_documents() {
    let dir = TempDir::new().unwrap();
    let path = dir.path().to_str().unwrap().to_string();
    let mut index = TantivyIndex::open_at(&path, false).unwrap();
    let convs = vec![
        conversation("agent1", "/p1", &["alpha one", "alpha two"]),
        conversation("agent2", "/p2", &["beta one"]),
    ];
    index.reindex_full(&convs).unwrap();
    let first = num_docs(&index);
    index.reindex_full(&convs).unwrap();
    let second = num_docs(&index);
    assert_eq!(first, 3);
    assert_eq!(first, second, "Re-indexing unchanged sources must not change the document count");
    let first_hits = agent_hits(&index, "agent1");
    assert_eq!(first_hits.len(), 2);
}

#[test]
fn incremental_index_adds_and_preserves() {
    let dir = TempDir::new().unwrap();
    let path = dir.path().to_str().unwrap().to_string();
    let mut index = TantivyIndex::open_at(&path, false).unwrap();
    index
        .reindex_full(&vec![conversation("agent1", "/p1", &["original doc"])])
        .unwrap();
    assert_eq!(num_docs(&index), 1);
    index
        .index_incremental(&vec![conversation("agent2", "/p2", &["appended later"])])
        .unwrap();
    assert_eq!(num_docs(&index), 2, "Incremental indexing must add the new documents");
    assert_eq!(agent_hits(&index, "agent1").len(), 1, "Pre-existing documents stay untouched");
    assert_eq!(agent_hits(&index, "agent2").len(), 1, "New documents become discoverable");
}

/// A conversation holding one message, for per-document tests.
fn single_doc(agent: &str, path: &str, content: &str, idx: i64) -> NormalizedConversation {
    let mut conv = conversation(agent, path, &[content]);
    conv.messages[0].idx = idx;
    conv
}

#[test]
fn rebuild_delete_all_clears_index() {
    let dir = TempDir::new().unwrap();
    let path = dir.path().to_str().unwrap().to_string();
    let mut index = TantivyIndex::open_at(&path, false).unwrap();
    for i in 0..3 {
        let conv = single_doc("test_agent", &format!("/test/path/{}", i), &format!("content {}", i), i);
        index.add_conversation(&conv).unwrap();
    }
    index.commit().unwrap();
    index.delete_all().unwrap();
    index.commit().unwrap();
    assert_eq!(num_docs(&index), 0, "Should have 0 documents after delete_all");
}

#[test]
fn rebuild_doc_count_matches_added_documents() {
    let dir = TempDir::new().unwrap();
    let path = dir.path().to_str().unwrap().to_string();
    {
        let mut index = TantivyIndex::open_at(&path, false).unwrap();
        for i in 0..5 {
            let conv = single_doc("test_agent", &format!("/test/path/{}", i), &format!("content {}", i), i);
            index.add_conversation(&conv).unwrap();
        }
        index.commit().unwrap();
    }
    {
        let index = TantivyIndex::open_at(&path, true).unwrap();
        assert_eq!(num_docs(&index), 5, "Should have exactly 5 documents");
    }
}

#[test]
fn rebuild_commit_creates_searchable_state() {
    let dir = TempDir::new().unwrap();
    let path = dir.path().to_str().unwrap().to_string();
    let mut index = TantivyIndex::open_at(&path, false).unwrap();
    let conv = single_doc("test", "/test", "before commit", 0);
    index.add_conversation(&conv).unwrap();
    index.commit().unwrap();
    assert!(
        num_docs(&index) >= 1,
        "Document should be searchable after commit"
    );
}

#[test]
fn rebuild_multiple_commits_accumulate() {
    let dir = TempDir::new().unwrap();
    let path = dir.path().to_str().unwrap().to_string();
    let mut index = TantivyIndex::open_at(&path, false).unwrap();
    index.add_conversation(&single_doc("agent1", "/path1", "first batch", 0)).unwrap();
    index.commit().unwrap();
    index.add_conversation(&single_doc("agent2", "/path2", "second batch", 0)).unwrap();
    index.commit().unwrap();
    index.add_conversation(&single_doc("agent3", "/path3", "third batch", 0)).unwrap();
    index.commit().unwrap();
    assert_eq!(num_docs(&index), 3, "Should have 3 documents after 3 commits");
}

#[test]
fn rebuild_empty_index_has_zero_docs() {
    let dir = TempDir::new().unwrap();
    let path = dir.path().to_str().unwrap().to_string();
    let index = TantivyIndex::open_at(&path, false).unwrap();
    assert_eq!(num_docs(&index), 0, "New index should have 0 documents");
}

#[test]
fn rebuild_can_reopen_after_close() {
    let dir = TempDir::new().unwrap();
    let path = dir.path().to_str().unwrap().to_string();
    {
        let mut index = TantivyIndex::open_at(&path, false).unwrap();
        index.add_conversation(&single_doc("test", "/test", "content", 0)).unwrap();
        index.commit().unwrap();
    }
    let result = TantivyIndex::open_at(&path, true);
    assert!(result.is_ok(), "Should be able to reopen after close");
    let index = result.unwrap();
    assert_eq!(num_docs(&index), 1, "Data should persist after reopen");
}

#[test]
fn rebuild_handles_large_batch() {
    let dir = TempDir::new().unwrap();
    let path = dir.path().to_str().unwrap().to_string();
    let mut index = TantivyIndex::open_at(&path, false).unwrap();
    for i in 0..100 {
        let conv = single_doc(
            "batch_agent",
            &format!("/batch/path/{}", i),
            &format!("batch content number {}", i),
            i,
        );
        index.add_conversation(&conv).unwrap();
    }
    index.commit().unwrap();
    assert_eq!(num_docs(&index), 100, "Should have 100 documents after large batch");
}

#[test]
fn rebuild_preserves_data_when_schema_matches() {
    let dir = TempDir::new().unwrap();
    let path = dir.path().to_str().unwrap().to_string();
    {
        let mut index = TantivyIndex::open_at(&path, false).unwrap();
        index
            .add_conversation(&single_doc("preserved_agent", "/preserved/path", "preserved content", 42))
            .unwrap();
        index.commit().unwrap();
    }
    {
        let index = TantivyIndex::open_at(&path, true).unwrap();
        assert_eq!(num_docs(&index), 1, "Should preserve 1 document when schema matches");
    }
}

#[test]
fn multi_agent_index_with_agent_filter() {
    let dir = TempDir::new().unwrap();
    let path = dir.path().to_str().unwrap().to_string();
    let mut index = TantivyIndex::open_at(&path, false).unwrap();
    let convs = vec![
        conversation("codex", "/c1", &["the user word"]),
        conversation("claude_code", "/c2", &["the user word"]),
        conversation("gemini", "/c3", &["the user word"]),
        conversation("cline", "/c4", &["the user word"]),
        conversation("amp", "/c5", &["the user word"]),
    ];
    index.reindex_full(&convs).unwrap();
    let hits = agent_hits(&index, "claude_code");
    assert_eq!(hits.len(), 1, "Agent filter must return only that agent's hits");
    assert!(hits.iter().all(|a| a == "claude_code"));
}

#[test]
fn prefix_hit_via_edge_ngrams() {
    let dir = TempDir::new().unwrap();
    let path = dir.path().to_str().unwrap().to_string();
    let mut index = TantivyIndex::open_at(&path, false).unwrap();
    index
        .reindex_full(&vec![conversation("amp", "/t1", &["telemetry pipeline"])])
        .unwrap();
    let reader = index.reader().unwrap();
    let searcher = reader.searcher();
    let term = Term::from_field_text(index.fields.content_prefix, "tele");
    let query = TermQuery::new(term, IndexRecordOption::Basic);
    let top = searcher.search(&query, &DocSetCollector).unwrap();
    assert_eq!(top.len(), 1, "The query `tele` must reach the document through the prefix field");
    assert_eq!(
        classify_match("tele", "telemetry pipeline"),
        MatchType::Prefix,
        "A starts-with hit is classified as a prefix match"
    );
}

#[test]
fn merge_gate_declines_below_threshold() {
    let dir = TempDir::new().unwrap();
    let path = dir.path().to_str().unwrap().to_string();
    let mut index = TantivyIndex::open_at(&path, false).unwrap();
    index
        .reindex_full(&vec![conversation("amp", "/m1", &["one"])])
        .unwrap();
    let status = index.merge_status();
    assert_eq!(status.merge_threshold, 4);
    assert_eq!(status.cooldown_ms, 300_000);
    assert_eq!(status.last_merge_ts, 0);
    assert_eq!(status.ms_since_last_merge, -1);
    assert!(status.segment_count < 4);
    assert!(!status.should_merge());
    let initiated = index.optimize_if_idle().unwrap();
    assert!(!initiated, "No merge may start below the segment threshold");
    let status_after = index.merge_status();
    assert_eq!(status_after.last_merge_ts, 0);
}

#[test]
fn force_merge_completes() {
    let dir = TempDir::new().unwrap();
    let path = dir.path().to_str().unwrap().to_string();
    let mut index = TantivyIndex::open_at(&path, false).unwrap();
    for i in 0..3 {
        index
            .index_incremental(&vec![conversation("amp", &format!("/f{}", i), &["text body"])])
            .unwrap();
    }
    index.force_merge().unwrap();
    assert_eq!(num_docs(&index), 3, "Merging never changes which documents the index holds");
}

//! The schema definition, field extraction, and the schema-hash sidecar
//! policy.

use cass::index::schema::{
    build_schema, fields_from_schema, needs_rebuild, schema_hash, schema_hash_sidecar,
    schema_version,
};
use cass::index::writer::TantivyIndex;
use cass::index::IndexError;

#[test]
fn build_schema_returns_valid_schema() {
    let schema = build_schema();

    assert!(schema.get_field("agent").is_ok());
    assert!(schema.get_field("workspace").is_ok());
    assert!(schema.get_field("source_path").is_ok());
    assert!(schema.get_field("msg_idx").is_ok());
    assert!(schema.get_field("created_at").is_ok());
    assert!(schema.get_field("title").is_ok());
    assert!(schema.get_field("content").is_ok());
    assert!(schema.get_field("title_prefix").is_ok());
    assert!(schema.get_field("content_prefix").is_ok());
    assert!(schema.get_field("preview").is_ok());
}

#[test]
fn fields_from_schema_extracts_all_fields() {
    let schema = build_schema();
    let fields = fields_from_schema(&schema).unwrap();

    let _ = fields.agent;
    let _ = fields.workspace;
    let _ = fields.source_path;
    let _ = fields.msg_idx;
    let _ = fields.created_at;
    let _ = fields.title;
    let _ = fields.content;
    let _ = fields.title_prefix;
    let _ = fields.content_prefix;
    let _ = fields.preview;
}

#[test]
fn sidecar_mentions_schema_hash() {
    assert_eq!(
        schema_hash_sidecar(),
        format!("{{\"schema_hash\":\"{}\"}}", schema_hash())
    );
}

#[test]
fn missing_sidecar_forces_rebuild() {
    assert!(needs_rebuild(None));
}

#[test]
fn malformed_sidecar_forces_rebuild() {
    assert!(needs_rebuild(Some("{ invalid json {{")));
}

#[test]
fn mismatched_sidecar_forces_rebuild() {
    assert!(needs_rebuild(Some("{\"schema_hash\":\"invalid-hash\"}")));
    assert!(needs_rebuild(Some("{\"schema_hash\":\"old-schema-v1\"}")));
}

#[test]
fn current_sidecar_preserves_index() {
    assert!(!needs_rebuild(Some(schema_hash_sidecar())));
}

#[test]
fn schema_version_is_stable() {
    assert_eq!(schema_version(), "v4");
    assert!(schema_hash().contains(schema_version()));
}

#[test]
fn missing_field_is_reported() {
    let empty = tantivy::schema::Schema::builder().build();
    match fields_from_schema(&empty) {
        Err(IndexError::MissingField(name)) => assert_eq!(name, "agent"),
        other => panic!("expected the missing-field error, got {:?}", other.map(|_| ())),
    }
}

#[test]
fn backend_failure_is_reported() {
    match TantivyIndex::open_at("/nonexistent/nowhere/index", true) {
        Err(IndexError::Backend(text)) => assert!(!text.is_empty()),
        other => panic!("expected a backend error, got {:?}", other.map(|_| ())),
    }
}

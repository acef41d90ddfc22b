//! The index schema, its versioning sidecar, and the tokenizer registration.
//!
//! The schema itself is a tantivy value and stays opaque; what the library
//! states and proves is the sidecar policy: which sidecar contents count as
//! current, and what is written after a rebuild.

use vstd::prelude::*;
use crate::strutil::{chars_vec, contains_chars, spec_contains};
use tantivy::schema::{
    IndexRecordOption, Schema, TextFieldIndexing, TextOptions, FAST, INDEXED, STORED, STRING, TEXT,
};
use tantivy::tokenizer::{LowerCaser, RemoveLongFilter, SimpleTokenizer, TextAnalyzer};

verus! {

/// Identifies the compiled schema and tokenizer. Bumped when either
/// changes; a mismatch forces a full rebuild.
pub open spec fn schema_hash_seq() -> Seq<char> {
    "tantivy-schema-v4-edge-ngram-agent-string"@
}

/// The schema hash as a string.
pub fn schema_hash() -> (r: &'static str)
    ensures
        r@ == schema_hash_seq(),
{
    "tantivy-schema-v4-edge-ngram-agent-string"
}

/// The version component of the index directory path.
pub fn schema_version() -> (r: &'static str)
    ensures
        r@ == "v4"@,
{
    "v4"
}

/// The exact content written to the `schema_hash.json` sidecar.
pub open spec fn sidecar_json_seq() -> Seq<char> {
    "{\"schema_hash\":\"tantivy-schema-v4-edge-ngram-agent-string\"}"@
}

/// The sidecar content recording the current schema hash.
pub fn schema_hash_sidecar() -> (r: &'static str)
    ensures
        r@ == sidecar_json_seq(),
{
    "{\"schema_hash\":\"tantivy-schema-v4-edge-ngram-agent-string\"}"
}

/// A sidecar reading is current when it exists and mentions the compiled
/// schema hash anywhere in its text.
pub open spec fn spec_sidecar_current(content: Option<Seq<char>>) -> bool {
    match content {
        Option::Some(s) => spec_contains(s, schema_hash_seq()),
        Option::None => false,
    }
}

/// Decides from the sidecar reading whether the index directory must be
/// wiped and recreated: exactly when the sidecar is absent or does not
/// mention the compiled schema hash. A missing, malformed or mismatched
/// sidecar all land on the rebuild side.
pub fn needs_rebuild(sidecar: Option<&str>) -> (r: bool)
    ensures
        r == !spec_sidecar_current(
            match sidecar {
                Option::Some(s) => Option::Some(s@),
                Option::None => Option::None::<Seq<char>>,
            },
        ),
{
    match sidecar {
        Option::Some(s) => {
            let hay = chars_vec(s);
            let needle = chars_vec(schema_hash());
            !contains_chars(&hay, &needle)
        },
        Option::None => true,
    }
}

/// The sidecar the library writes is itself current: writing it and
/// reading it back never forces a second rebuild.
pub proof fn lemma_sidecar_roundtrip()
    ensures
        spec_sidecar_current(Option::Some(sidecar_json_seq())),
{
    reveal_strlit("tantivy-schema-v4-edge-ngram-agent-string");
    reveal_strlit("{\"schema_hash\":\"tantivy-schema-v4-edge-ngram-agent-string\"}");
    let s = sidecar_json_seq();
    let h = schema_hash_seq();
    assert(s.subrange(16, 57) =~= h);
    assert(crate::strutil::spec_matches_at(s, h, 16));
}

#[verifier::external_type_specification]
#[verifier::external_body]
pub struct ExSchema(tantivy::schema::Schema);

#[verifier::external_type_specification]
#[verifier::external_body]
pub struct ExTextOptions(tantivy::schema::TextOptions);

#[verifier::external_type_specification]
#[verifier::external_body]
pub struct ExField(tantivy::schema::Field);

#[verifier::external_type_specification]
#[verifier::external_body]
pub struct ExIndex(tantivy::Index);

/// The documents the index holds committed on disk right now.
pub uninterp spec fn index_committed_docs(ix: tantivy::Index) -> vstd::multiset::Multiset<
    crate::index::doc::DocModel,
>;

/// The names of the fields a schema defines. A schema is immutable once
/// built, so this is a function of the schema value.
pub uninterp spec fn schema_field_names(s: tantivy::schema::Schema) -> Set<Seq<char>>;

/// The handle of the named field in a schema: looking the same name up in
/// the same schema always yields the same handle.
pub uninterp spec fn schema_field_handle(s: tantivy::schema::Schema, name: Seq<char>) -> tantivy::schema::Field;

/// The ten field names of the library's schema.
pub open spec fn index_field_names() -> Set<Seq<char>> {
    set![
        "agent"@,
        "workspace"@,
        "source_path"@,
        "msg_idx"@,
        "created_at"@,
        "title"@,
        "content"@,
        "title_prefix"@,
        "content_prefix"@,
        "preview"@,
    ]
}

/// The handles of the ten schema fields every document is written with.
#[derive(Clone, Copy)]
pub struct Fields {
    pub agent: tantivy::schema::Field,
    pub workspace: tantivy::schema::Field,
    pub source_path: tantivy::schema::Field,
    pub msg_idx: tantivy::schema::Field,
    pub created_at: tantivy::schema::Field,
    pub title: tantivy::schema::Field,
    pub content: tantivy::schema::Field,
    pub title_prefix: tantivy::schema::Field,
    pub content_prefix: tantivy::schema::Field,
    pub preview: tantivy::schema::Field,
}

/// Relies on tantivy's schema builder: the returned schema defines exactly
/// the ten fields of the design. `agent` and `workspace` are single
/// non-tokenized terms so exact-match filtering works; `msg_idx` is an
/// indexed integer; `created_at` is also a fast field for range queries and
/// sorting; `title` and `content` are tokenized with positions and stored;
/// the two `_prefix` fields are tokenized with positions and not stored;
/// `preview` is tokenized and stored. The per-field options live only here:
/// the verifier has no reading for them beyond the field-name set.
#[verifier::external_body]
pub fn build_schema() -> (r: tantivy::schema::Schema)
    ensures
        schema_field_names(r) == index_field_names(),
{
    let mut b = Schema::builder();
    b.add_text_field("agent", STRING | STORED);
    b.add_text_field("workspace", STRING | STORED);
    b.add_text_field("source_path", STORED);
    b.add_u64_field("msg_idx", INDEXED | STORED);
    b.add_i64_field("created_at", INDEXED | STORED | FAST);
    b.add_text_field("title", text_opts(true));
    b.add_text_field("content", text_opts(true));
    b.add_text_field("title_prefix", text_opts(false));
    b.add_text_field("content_prefix", text_opts(false));
    b.add_text_field("preview", TEXT | STORED);
    b.build()
}

/// Relies on tantivy's text options builder: text tokenized by the custom
/// analyzer with term frequencies and positions, stored when asked.
#[verifier::external_body]
fn text_opts(stored: bool) -> tantivy::schema::TextOptions {
    let indexing = TextFieldIndexing::default().set_tokenizer("hyphen_normalize").set_index_option(
        IndexRecordOption::WithFreqsAndPositions,
    );
    let o = TextOptions::default().set_indexing_options(indexing);
    if stored {
        o.set_stored()
    } else {
        o
    }
}

/// Relies on `Schema::get_field`: looks a field handle up by name, finding
/// one exactly when the schema defines the name; the handle is a pure
/// lookup in the immutable schema.
#[verifier::external_body]
fn schema_get_field(schema: &tantivy::schema::Schema, name: &str) -> (r: Option<
    tantivy::schema::Field,
>)
    ensures
        (match r {
            Option::Some(f) => schema_field_names(*schema).contains(name@) && f
                == schema_field_handle(*schema, name@),
            Option::None => !schema_field_names(*schema).contains(name@),
        }),
{
    schema.get_field(name).ok()
}

/// Extracts the ten field handles from a schema: succeeds exactly when the
/// schema defines all ten names of the library's schema, each handle bound
/// to its same-named field; otherwise the error names a missing field.
pub fn fields_from_schema(schema: &tantivy::schema::Schema) -> (r: Result<
    Fields,
    crate::index::IndexError,
>)
    ensures
        r is Ok <==> index_field_names().subset_of(schema_field_names(*schema)),
        r is Err ==> r->Err_0 is MissingField,
        (match r {
            Result::Ok(f) => {
                &&& f.agent == schema_field_handle(*schema, "agent"@)
                &&& f.workspace == schema_field_handle(*schema, "workspace"@)
                &&& f.source_path == schema_field_handle(*schema, "source_path"@)
                &&& f.msg_idx == schema_field_handle(*schema, "msg_idx"@)
                &&& f.created_at == schema_field_handle(*schema, "created_at"@)
                &&& f.title == schema_field_handle(*schema, "title"@)
                &&& f.content == schema_field_handle(*schema, "content"@)
                &&& f.title_prefix == schema_field_handle(*schema, "title_prefix"@)
                &&& f.content_prefix == schema_field_handle(*schema, "content_prefix"@)
                &&& f.preview == schema_field_handle(*schema, "preview"@)
            },
            Result::Err(_) => true,
        }),
{
    let agent = match schema_get_field(schema, "agent") {
        Option::Some(f) => f,
        Option::None => {
            return Result::Err(crate::index::IndexError::MissingField(String::from_str("agent")));
        },
    };
    let workspace = match schema_get_field(schema, "workspace") {
        Option::Some(f) => f,
        Option::None => {
            return Result::Err(crate::index::IndexError::MissingField(String::from_str("workspace")));
        },
    };
    let source_path = match schema_get_field(schema, "source_path") {
        Option::Some(f) => f,
        Option::None => {
            return Result::Err(crate::index::IndexError::MissingField(String::from_str("source_path")));
        },
    };
    let msg_idx = match schema_get_field(schema, "msg_idx") {
        Option::Some(f) => f,
        Option::None => {
            return Result::Err(crate::index::IndexError::MissingField(String::from_str("msg_idx")));
        },
    };
    let created_at = match schema_get_field(schema, "created_at") {
        Option::Some(f) => f,
        Option::None => {
            return Result::Err(crate::index::IndexError::MissingField(String::from_str("created_at")));
        },
    };
    let title = match schema_get_field(schema, "title") {
        Option::Some(f) => f,
        Option::None => {
            return Result::Err(crate::index::IndexError::MissingField(String::from_str("title")));
        },
    };
    let content = match schema_get_field(schema, "content") {
        Option::Some(f) => f,
        Option::None => {
            return Result::Err(crate::index::IndexError::MissingField(String::from_str("content")));
        },
    };
    let title_prefix = match schema_get_field(schema, "title_prefix") {
        Option::Some(f) => f,
        Option::None => {
            return Result::Err(crate::index::IndexError::MissingField(String::from_str("title_prefix")));
        },
    };
    let content_prefix = match schema_get_field(schema, "content_prefix") {
        Option::Some(f) => f,
        Option::None => {
            return Result::Err(crate::index::IndexError::MissingField(String::from_str("content_prefix")));
        },
    };
    let preview = match schema_get_field(schema, "preview") {
        Option::Some(f) => f,
        Option::None => {
            return Result::Err(crate::index::IndexError::MissingField(String::from_str("preview")));
        },
    };
    Result::Ok(
        Fields {
            agent,
            workspace,
            source_path,
            msg_idx,
            created_at,
            title,
            content,
            title_prefix,
            content_prefix,
            preview,
        },
    )
}

/// Relies on tantivy's tokenizer registry: registers the analyzer used by
/// every tokenized field under the name the schema references — a simple
/// split, lowercasing, and removal of tokens longer than forty characters.
/// Registration touches no segment, so the committed documents stay as they
/// were.
#[verifier::external_body]
pub fn ensure_tokenizer(index: &mut tantivy::Index)
    ensures
        index_committed_docs(*final(index)) == index_committed_docs(*old(index)),
{
    let analyzer = TextAnalyzer::builder(SimpleTokenizer::default()).filter(LowerCaser).filter(
        RemoveLongFilter::limit(40),
    ).build();
    index.tokenizers().register("hyphen_normalize", analyzer);
}

} // verus!

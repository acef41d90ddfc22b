//! The index writer lifecycle: opening or creating the on-disk index,
//! adding one document per message, deleting, committing, and the merge
//! scheduling built on the pure policy of the merge module.
//!
//! The tantivy boundary is modelled by three names: `writer_docs`, the
//! documents the index will hold after the next commit; `writer_flushed`,
//! whether nothing is in the writer's indexing pipeline (deleting
//! everything is exact only then); and `index_committed_docs`, what is
//! committed on disk. Every trusted wrapper states what the call does to
//! them; everything above the wrappers is verified against that.

use vstd::prelude::*;
use vstd::multiset::Multiset;
use crate::index::IndexError;
use crate::index::doc::{spec_doc_for, doc_record_for, DocModel, DocRecord};
use crate::index::merge::{merge_allowed, MergeStatus, MERGE_COOLDOWN_MS, MERGE_SEGMENT_THRESHOLD};
use crate::index::schema::{build_schema, ensure_tokenizer, fields_from_schema, index_committed_docs, index_field_names, schema_field_names, Fields};
use crate::model::{NormalizedConversation, NormalizedMessage};
use std::time::{SystemTime, UNIX_EPOCH};

verus! {

/// Holds the tantivy writer. The writer type is generic over an outside
/// trait, which the verifier cannot carry in a type declaration, so the
/// writer lives behind this opaque handle; every use goes through the
/// trusted wrappers below, whose contracts speak of `writer_docs`.
#[verifier::external_body]
pub struct WriterHandle {
    w: tantivy::IndexWriter,
}

#[verifier::external_type_specification]
#[verifier::external_body]
pub struct ExTantivyDocument(tantivy::TantivyDocument);

#[verifier::external_type_specification]
#[verifier::external_body]
pub struct ExIndexReader(tantivy::IndexReader);

#[verifier::external_type_specification]
#[verifier::external_body]
pub struct ExSegmentId(tantivy::index::SegmentId);

#[verifier::external_type_specification]
#[verifier::external_body]
pub struct ExTantivyError(tantivy::TantivyError);

/// The documents this writer's index will hold after its next commit:
/// what was already committed, plus pending additions, minus pending
/// deletions.
pub uninterp spec fn writer_docs(w: WriterHandle) -> Multiset<DocModel>;

/// Whether the writer has no additions in flight: nothing has been added
/// since it was opened or since its last successful commit. Deleting
/// everything is only exact in this state, because documents still in the
/// writer's indexing pipeline survive a delete-all and surface at the next
/// commit.
pub uninterp spec fn writer_flushed(w: WriterHandle) -> bool;

/// Relies on `TantivyDocument` construction: a document holding exactly the
/// record's fields, each put under its schema field handle, with the
/// optional fields added only when present.
#[verifier::external_body]
fn record_doc(f: &Fields, rec: &DocRecord) -> tantivy::TantivyDocument {
    let mut d = tantivy::TantivyDocument::new();
    d.add_text(f.agent, &rec.agent);
    d.add_text(f.source_path, &rec.source_path);
    d.add_u64(f.msg_idx, rec.msg_idx);
    d.add_text(f.content, &rec.content);
    if let Some(x) = &rec.workspace { d.add_text(f.workspace, x); }
    if let Some(x) = rec.created_at { d.add_i64(f.created_at, x); }
    if let Some(x) = &rec.title { d.add_text(f.title, x); }
    if let Some(x) = &rec.title_prefix { d.add_text(f.title_prefix, x); }
    d.add_text(f.content_prefix, &rec.content_prefix);
    d.add_text(f.preview, &rec.preview);
    d
}

/// Relies on `IndexWriter::add_document`: writes the one document of this
/// record, so the pending document set grows by exactly this record.
#[verifier::external_body]
fn writer_add_record(w: &mut WriterHandle, f: &Fields, rec: &DocRecord) -> (r: Result<
    (),
    tantivy::TantivyError,
>)
    ensures
        r is Ok ==> writer_docs(*final(w)) == writer_docs(*old(w)).insert(rec@),
{
    w.w.add_document(record_doc(f, rec)).map(|_| ())
}

/// Relies on `IndexWriter::delete_all_documents`: clears the committed and
/// registered segments and reverts the operation stamp. An addition still
/// in the indexing pipeline survives and surfaces at the next commit, so
/// the document set is known empty only when the writer was flushed; it
/// adds nothing itself, so a flushed writer stays flushed.
#[verifier::external_body]
fn writer_delete_all(w: &mut WriterHandle) -> (r: Result<(), tantivy::TantivyError>)
    ensures
        r is Ok ==> (writer_flushed(*old(w)) ==> writer_docs(*final(w)) == Multiset::<
            DocModel,
        >::empty()),
        r is Ok ==> (writer_flushed(*old(w)) ==> writer_flushed(*final(w))),
{
    w.w.delete_all_documents().map(|_| ())
}

/// Relies on `IndexWriter::commit`: drains the indexing pipeline and
/// publishes the pending state atomically to subsequent readers; the
/// document set itself does not change, and afterwards nothing is in
/// flight.
#[verifier::external_body]
fn writer_commit(w: &mut WriterHandle) -> (r: Result<(), tantivy::TantivyError>)
    ensures
        r is Ok ==> writer_docs(*final(w)) == writer_docs(*old(w)),
        r is Ok ==> writer_flushed(*final(w)),
{
    w.w.commit().map(|_| ())
}

/// Relies on `IndexWriter::merge`: starts coalescing the given segments on
/// the library's merge thread pool and returns without waiting; merging
/// never changes which documents the index holds and adds nothing to the
/// pipeline. The merge machinery refuses an empty segment list, so one is
/// required here.
#[verifier::external_body]
fn writer_merge_detached(w: &mut WriterHandle, ids: &Vec<tantivy::index::SegmentId>)
    requires
        ids@.len() > 0,
    ensures
        writer_docs(*final(w)) == writer_docs(*old(w)),
        writer_flushed(*final(w)) == writer_flushed(*old(w)),
{
    let _merge_future = w.w.merge(ids);
}

/// Relies on `IndexWriter::merge` and `FutureResult::wait`: merges the given
/// segments and blocks until the merge finishes; merging never changes
/// which documents the index holds and adds nothing to the pipeline. The
/// merge machinery refuses an empty segment list, so one is required here.
#[verifier::external_body]
fn writer_merge_wait(w: &mut WriterHandle, ids: &Vec<tantivy::index::SegmentId>) -> (r: Result<
    (),
    tantivy::TantivyError,
>)
    requires
        ids@.len() > 0,
    ensures
        writer_docs(*final(w)) == writer_docs(*old(w)),
        writer_flushed(*final(w)) == writer_flushed(*old(w)),
{
    w.w.merge(ids).wait().map(|_| ())
}

/// Relies on `Index::searchable_segment_ids`: the ids of the segments a
/// reader would search right now. The listing is a live reading of the
/// on-disk segment state, which commits and background merges move, so no
/// name may pin it: two listings of the same index value can differ, and
/// the contracts state nothing about the ids that come back.
#[verifier::external_body]
fn index_segment_ids(ix: &tantivy::Index) -> (r: Result<
    Vec<tantivy::index::SegmentId>,
    tantivy::TantivyError,
>) {
    ix.searchable_segment_ids()
}

/// Relies on `Index::open_in_dir`: opens the index already present in the
/// directory.
#[verifier::external_body]
fn index_open_in_dir(path: &str) -> (r: Result<tantivy::Index, tantivy::TantivyError>) {
    tantivy::Index::open_in_dir(std::path::Path::new(path))
}

/// Relies on `Index::create_in_dir`: creates a fresh index with this schema
/// in the directory; a freshly created index has no segments, so it holds
/// no documents.
#[verifier::external_body]
fn index_create_in_dir(path: &str, schema: tantivy::schema::Schema) -> (r: Result<
    tantivy::Index,
    tantivy::TantivyError,
>)
    ensures
        (match r {
            Ok(ix) => index_committed_docs(ix) == Multiset::<DocModel>::empty(),
            Err(_) => true,
        }),
{
    tantivy::Index::create_in_dir(std::path::Path::new(path), schema)
}

/// Relies on `Index::writer`: a writer with a bounded heap budget, holding
/// the directory lock for its lifetime. A fresh writer has nothing in
/// flight, and until it changes something the index will keep holding
/// exactly its committed documents. `index_committed_docs` reads the disk
/// state behind the index value: the claim is made once, here, while the
/// lock guarantees no other writer moves that state, and the library
/// acquires one writer per opened index.
#[verifier::external_body]
fn index_writer_for(ix: &tantivy::Index, heap_bytes: usize) -> (r: Result<
    WriterHandle,
    tantivy::TantivyError,
>)
    ensures
        (match r {
            Ok(w) => writer_flushed(w) && writer_docs(w) == index_committed_docs(*ix),
            Err(_) => true,
        }),
{
    ix.writer::<tantivy::TantivyDocument>(heap_bytes).map(|w| WriterHandle { w })
}

/// Relies on `Index::reader`: an immutable snapshot reader; readers obtained
/// before a commit keep observing the pre-commit snapshot.
#[verifier::external_body]
fn index_reader_for(ix: &tantivy::Index) -> (r: Result<
    tantivy::IndexReader,
    tantivy::TantivyError,
>) {
    ix.reader()
}

/// Relies on the system clock: the current time in milliseconds since the
/// epoch, zero when the clock reads before the epoch. Nothing is assumed
/// about the value.
#[verifier::external_body]
fn system_now_millis() -> i64 {
    match SystemTime::now().duration_since(UNIX_EPOCH) {
        Ok(d) => d.as_millis() as i64,
        Err(_) => 0,
    }
}

/// Relies on the error's `Display` implementation for a human-readable text.
#[verifier::external_body]
fn tantivy_error_text(e: &tantivy::TantivyError) -> String {
    format!("{e}")
}

/// The current time in milliseconds, clamped to be non-negative.
fn now_millis() -> (r: i64)
    ensures
        r >= 0,
{
    let t = system_now_millis();
    if t < 0 {
        0
    } else {
        t
    }
}

fn backend_error(e: &tantivy::TantivyError) -> (r: IndexError)
    ensures
        r is Backend,
{
    IndexError::Backend(tantivy_error_text(e))
}

/// The writer's heap budget in bytes; additions buffer here until commit.
pub const WRITER_HEAP_BYTES: usize = 50_000_000;

/// The open index with its writer, the field handles, and the timestamp of
/// the last merge this writer initiated (0 when none has happened). The
/// stamp belongs to the opened index and starts at zero, so the merge
/// cooldown is forgotten across a reopen.
pub struct TantivyIndex {
    pub index: tantivy::Index,
    writer: WriterHandle,
    pub fields: Fields,
    last_merge_ts: i64,
}

/// The documents a conversation's messages turn into, as a multiset.
pub open spec fn docs_multiset(conv: NormalizedConversation, msgs: Seq<NormalizedMessage>) -> Multiset<
    DocModel,
> {
    msgs.map_values(|m: NormalizedMessage| spec_doc_for(conv, m)).to_multiset()
}

/// The documents of a whole set of conversations, in order of the set.
pub open spec fn corpus_docs(convs: Seq<NormalizedConversation>) -> Multiset<DocModel>
    decreases convs.len(),
{
    if convs.len() == 0 {
        Multiset::empty()
    } else {
        corpus_docs(convs.drop_last()).add(
            docs_multiset(convs.last(), convs.last().messages@),
        )
    }
}

/// A multiset never shrinks by adding another to it.
pub proof fn lemma_le_add(a: Multiset<DocModel>, b: Multiset<DocModel>)
    ensures
        a.subset_of(a.add(b)),
{
    broadcast use vstd::multiset::group_multiset_axioms;

    assert forall|x: DocModel| #[trigger] a.count(x) <= a.add(b).count(x) by {
        assert(a.add(b).count(x) == a.count(x) + b.count(x));
    }
}

impl TantivyIndex {
    /// The documents this index will hold after the next commit.
    pub closed spec fn docs(&self) -> Multiset<DocModel> {
        writer_docs(self.writer)
    }

    /// When this writer last initiated a merge, in epoch milliseconds;
    /// zero when it has not.
    pub closed spec fn spec_last_merge_ts(&self) -> i64 {
        self.last_merge_ts
    }

    /// Whether no addition is in flight: nothing has been added since the
    /// index was opened or since the last successful commit. Deleting
    /// everything is exact only in this state.
    pub closed spec fn flushed(&self) -> bool {
        writer_flushed(self.writer)
    }

    /// The underlying index value this writer was opened on.
    pub closed spec fn spec_index(&self) -> tantivy::Index {
        self.index
    }

    /// The merge bookkeeping is well-formed: the last-merge timestamp is
    /// never negative.
    pub open spec fn wf(&self) -> bool {
        self.spec_last_merge_ts() >= 0
    }

    /// Opens the index in a prepared directory: `open_existing` says whether
    /// a compatible index is already there (then it is opened, and the
    /// writer starts from what is committed on disk) or the directory is
    /// empty (then a fresh index is created, holding no documents).
    /// Registers the tokenizer and acquires the writer, which starts with
    /// nothing in flight. The library's own schema always yields its field
    /// handles, so the only failures are the backend's.
    pub fn open_at(path: &str, open_existing: bool) -> (r: Result<TantivyIndex, IndexError>)
        ensures
            (match r {
                Ok(t) => {
                    &&& t.wf()
                    &&& t.spec_last_merge_ts() == 0
                    &&& t.flushed()
                    &&& t.docs() == index_committed_docs(t.spec_index())
                },
                Err(e) => e is Backend,
            }),
            !open_existing ==> (match r {
                Ok(t) => t.docs() == Multiset::<DocModel>::empty(),
                Err(_) => true,
            }),
    {
        let mut index = if open_existing {
            match index_open_in_dir(path) {
                Ok(ix) => ix,
                Err(e) => {
                    return Err(backend_error(&e));
                },
            }
        } else {
            match index_create_in_dir(path, build_schema()) {
                Ok(ix) => ix,
                Err(e) => {
                    return Err(backend_error(&e));
                },
            }
        };
        ensure_tokenizer(&mut index);
        let writer = match index_writer_for(&index, WRITER_HEAP_BYTES) {
            Ok(w) => w,
            Err(e) => {
                return Err(backend_error(&e));
            },
        };
        let schema = build_schema();
        let fields = match fields_from_schema(&schema) {
            Ok(f) => f,
            Err(e) => {
                // The library's schema defines all ten names, so this
                // lookup cannot fail.
                proof {
                    assert(index_field_names().subset_of(schema_field_names(schema)));
                    assert(false);
                }
                return Err(e);
            },
        };
        Ok(TantivyIndex { index, writer, fields, last_merge_ts: 0 })
    }

    /// Adds one document per message: the pending document set grows by
    /// exactly the documents of these messages.
    pub fn add_messages(
        &mut self,
        conv: &NormalizedConversation,
        messages: &Vec<NormalizedMessage>,
    ) -> (r: Result<(), IndexError>)
        requires
            forall|i: int| 0 <= i < messages@.len() ==> (#[trigger] messages@[i]).idx >= 0,
        ensures
            match r {
                Ok(_) => final(self).docs() == old(self).docs().add(
                    docs_multiset(*conv, messages@),
                ),
                Err(_) => true,
            },
            final(self).wf() == old(self).wf(),
            final(self).spec_last_merge_ts() == old(self).spec_last_merge_ts(),
    {
        broadcast use vstd::seq_lib::group_to_multiset_ensures;

        let ghost conv0 = *conv;
        let ghost ms = messages@;
        let ghost f = |m: NormalizedMessage| spec_doc_for(conv0, m);
        let n = messages.len();
        let mut i: usize = 0;
        proof {
            assert(ms.take(0) =~= Seq::<NormalizedMessage>::empty());
            assert(ms.take(0).map_values(f) =~= Seq::<DocModel>::empty());
            assert(Seq::<DocModel>::empty().to_multiset() =~= Multiset::<DocModel>::empty());
            assert(old(self).docs().add(Multiset::<DocModel>::empty()) =~= old(self).docs());
        }
        while i < n
            invariant
                i <= n,
                n == ms.len(),
                ms == messages@,
                conv0 == *conv,
                f == (|m: NormalizedMessage| spec_doc_for(conv0, m)),
                forall|k: int| 0 <= k < ms.len() ==> (#[trigger] ms[k]).idx >= 0,
                writer_docs(self.writer) == writer_docs(old(self).writer).add(
                    ms.take(i as int).map_values(f).to_multiset(),
                ),
                self.fields == old(self).fields,
                self.index == old(self).index,
                self.spec_last_merge_ts() == old(self).spec_last_merge_ts(),
            decreases n - i,
        {
            let rec = doc_record_for(conv, &messages[i]);
            let ghost before = writer_docs(self.writer);
            let res = writer_add_record(&mut self.writer, &self.fields, &rec);
            match res {
                Ok(_) => {},
                Err(e) => {
                    return Err(backend_error(&e));
                },
            }
            proof {
                let taken = ms.take(i as int).map_values(f);
                assert(ms.take(i + 1) =~= ms.take(i as int).push(ms[i as int]));
                assert(ms.take(i + 1).map_values(f) =~= taken.push(f(ms[i as int])));
                vstd::seq_lib::to_multiset_build::<DocModel>(taken, f(ms[i as int]));
                assert(rec@ == f(ms[i as int]));
                assert(writer_docs(self.writer) =~= writer_docs(old(self).writer).add(
                    ms.take(i + 1).map_values(f).to_multiset(),
                ));
            }
            i = i + 1;
        }
        proof {
            assert(ms.take(n as int) =~= ms);
        }
        Ok(())
    }

    /// Adds every message of the conversation.
    pub fn add_conversation(&mut self, conv: &NormalizedConversation) -> (r: Result<
        (),
        IndexError,
    >)
        requires
            forall|i: int|
                0 <= i < conv.messages@.len() ==> (#[trigger] conv.messages@[i]).idx >= 0,
        ensures
            match r {
                Ok(_) => final(self).docs() == old(self).docs().add(
                    docs_multiset(*conv, conv.messages@),
                ),
                Err(_) => true,
            },
            final(self).wf() == old(self).wf(),
            final(self).spec_last_merge_ts() == old(self).spec_last_merge_ts(),
    {
        self.add_messages(conv, &conv.messages)
    }

    /// Marks every document for deletion; the change is published by the
    /// next `commit`. The deletion is exact when the writer has nothing in
    /// flight (as it is right after opening or after a commit): an addition
    /// still in the indexing pipeline survives it.
    pub fn delete_all(&mut self) -> (r: Result<(), IndexError>)
        ensures
            r is Ok ==> (old(self).flushed() ==> final(self).docs() == Multiset::<
                DocModel,
            >::empty()),
            r is Ok ==> (old(self).flushed() ==> final(self).flushed()),
            final(self).wf() == old(self).wf(),
            final(self).spec_last_merge_ts() == old(self).spec_last_merge_ts(),
    {
        let res = writer_delete_all(&mut self.writer);
        match res {
            Ok(_) => Ok(()),
            Err(e) => Err(backend_error(&e)),
        }
    }

    /// Publishes all pending changes atomically to subsequent readers;
    /// afterwards nothing is in flight.
    pub fn commit(&mut self) -> (r: Result<(), IndexError>)
        ensures
            r is Ok ==> final(self).docs() == old(self).docs(),
            r is Ok ==> final(self).flushed(),
            final(self).wf() == old(self).wf(),
            final(self).spec_last_merge_ts() == old(self).spec_last_merge_ts(),
    {
        let res = writer_commit(&mut self.writer);
        match res {
            Ok(_) => Ok(()),
            Err(e) => Err(backend_error(&e)),
        }
    }

    /// A snapshot reader over the last committed state.
    pub fn reader(&self) -> Result<tantivy::IndexReader, IndexError> {
        match index_reader_for(&self.index) {
            Ok(r) => Ok(r),
            Err(e) => Err(backend_error(&e)),
        }
    }

    /// The current number of searchable segments, zero when the index
    /// cannot be read. The count is a live reading of the on-disk segment
    /// state — commits and background merges move it — so no contract can
    /// pin it; the merge policy consumes it only through the exactly
    /// specified pure gate.
    pub fn segment_count(&self) -> usize {
        match index_segment_ids(&self.index) {
            Ok(ids) => ids.len(),
            Err(_) => 0,
        }
    }

    /// A snapshot of the merge scheduler's inputs: the segment count, the
    /// policy constants, and the time since the last merge (-1 when none
    /// has happened yet).
    pub fn merge_status(&self) -> (r: MergeStatus)
        requires
            self.wf(),
        ensures
            r.last_merge_ts == self.spec_last_merge_ts(),
            r.merge_threshold == MERGE_SEGMENT_THRESHOLD,
            r.cooldown_ms == MERGE_COOLDOWN_MS,
            self.spec_last_merge_ts() == 0 ==> r.ms_since_last_merge == -1,
    {
        let now_ms = now_millis();
        let ms_since_last = if self.last_merge_ts > 0 {
            // Both stamps are non-negative, so the difference cannot
            // overflow; a clock that moved backwards gives a negative
            // reading, which the policy treats as "never merged".
            now_ms - self.last_merge_ts
        } else {
            -1
        };
        MergeStatus {
            segment_count: self.segment_count(),
            last_merge_ts: self.last_merge_ts,
            ms_since_last_merge: ms_since_last,
            merge_threshold: MERGE_SEGMENT_THRESHOLD,
            cooldown_ms: MERGE_COOLDOWN_MS,
        }
    }

    /// Initiates a background merge exactly when the pure merge gate allows
    /// it for the current segment count and clock; never waits. Returns
    /// whether a merge was initiated. The document set never changes.
    pub fn optimize_if_idle(&mut self) -> (r: Result<bool, IndexError>)
        requires
            old(self).wf(),
        ensures
            final(self).docs() == old(self).docs(),
            final(self).flushed() == old(self).flushed(),
            final(self).wf(),
            r == Result::<bool, IndexError>::Ok(false) ==> *final(self) == *old(self),
            match r {
                Ok(initiated) => !initiated ==> final(self).spec_last_merge_ts() == old(
                    self,
                ).spec_last_merge_ts(),
                Err(_) => final(self).spec_last_merge_ts() == old(self).spec_last_merge_ts(),
            },
    {
        let segment_ids = match index_segment_ids(&self.index) {
            Ok(ids) => ids,
            Err(e) => {
                return Err(backend_error(&e));
            },
        };
        let now_ms = now_millis();
        if !merge_allowed(segment_ids.len(), self.last_merge_ts, now_ms) {
            return Ok(false);
        }
        writer_merge_detached(&mut self.writer, &segment_ids);
        self.last_merge_ts = now_ms;
        Ok(true)
    }

    /// Re-indexes from scratch: flushes anything still in flight, deletes
    /// every document, adds every message of the given conversations, and
    /// commits. On success the index holds exactly the documents of the
    /// conversations, whatever it held before — so re-indexing unchanged
    /// sources twice gives the same documents.
    pub fn reindex_full(&mut self, convs: &Vec<NormalizedConversation>) -> (r: Result<
        (),
        IndexError,
    >)
        requires
            forall|c: int, i: int|
                0 <= c < convs@.len() && 0 <= i < convs@[c].messages@.len() ==> (#[trigger] convs@[c].messages@[i]).idx
                    >= 0,
        ensures
            r is Ok ==> final(self).docs() == corpus_docs(convs@),
            r is Ok ==> final(self).flushed(),
            final(self).wf() == old(self).wf(),
            final(self).spec_last_merge_ts() == old(self).spec_last_merge_ts(),
    {
        // Drain the indexing pipeline first: deleting everything is exact
        // only on a writer with no additions in flight.
        let res = self.commit();
        match res {
            Ok(_) => {},
            Err(e) => {
                return Err(e);
            },
        }
        let res = self.delete_all();
        match res {
            Ok(_) => {},
            Err(e) => {
                return Err(e);
            },
        }
        let n = convs.len();
        let mut i: usize = 0;
        proof {
            assert(convs@.take(0) =~= Seq::<NormalizedConversation>::empty());
            assert(self.docs() =~= corpus_docs(convs@.take(0)));
        }
        while i < n
            invariant
                i <= n,
                n == convs@.len(),
                forall|c: int, k: int|
                    0 <= c < convs@.len() && 0 <= k < convs@[c].messages@.len() ==> (
                    #[trigger] convs@[c].messages@[k]).idx >= 0,
                self.docs() == corpus_docs(convs@.take(i as int)),
                self.wf() == old(self).wf(),
                self.spec_last_merge_ts() == old(self).spec_last_merge_ts(),
            decreases n - i,
        {
            let res = self.add_conversation(&convs[i]);
            match res {
                Ok(_) => {},
                Err(e) => {
                    return Err(e);
                },
            }
            proof {
                assert(convs@.take(i + 1).drop_last() =~= convs@.take(i as int));
                assert(convs@.take(i + 1).last() == convs@[i as int]);
            }
            i = i + 1;
        }
        proof {
            assert(convs@.take(n as int) =~= convs@);
        }
        self.commit()
    }

    /// Indexes incrementally: adds every message of the given conversations
    /// and commits, deleting nothing. On success the index holds what it
    /// held before plus exactly the new documents; every pre-existing
    /// document is still present.
    pub fn index_incremental(&mut self, convs: &Vec<NormalizedConversation>) -> (r: Result<
        (),
        IndexError,
    >)
        requires
            forall|c: int, i: int|
                0 <= c < convs@.len() && 0 <= i < convs@[c].messages@.len() ==> (#[trigger] convs@[c].messages@[i]).idx
                    >= 0,
        ensures
            r is Ok ==> final(self).docs() == old(self).docs().add(corpus_docs(convs@)),
            r is Ok ==> old(self).docs().subset_of(final(self).docs()),
            r is Ok ==> final(self).flushed(),
            final(self).wf() == old(self).wf(),
            final(self).spec_last_merge_ts() == old(self).spec_last_merge_ts(),
    {
        broadcast use vstd::multiset::group_multiset_axioms;

        let n = convs.len();
        let mut i: usize = 0;
        proof {
            assert(convs@.take(0) =~= Seq::<NormalizedConversation>::empty());
            assert(self.docs() =~= old(self).docs().add(corpus_docs(convs@.take(0))));
        }
        while i < n
            invariant
                i <= n,
                n == convs@.len(),
                forall|c: int, k: int|
                    0 <= c < convs@.len() && 0 <= k < convs@[c].messages@.len() ==> (
                    #[trigger] convs@[c].messages@[k]).idx >= 0,
                self.docs() == old(self).docs().add(corpus_docs(convs@.take(i as int))),
                self.wf() == old(self).wf(),
                self.spec_last_merge_ts() == old(self).spec_last_merge_ts(),
            decreases n - i,
        {
            let res = self.add_conversation(&convs[i]);
            match res {
                Ok(_) => {},
                Err(e) => {
                    return Err(e);
                },
            }
            proof {
                broadcast use vstd::multiset::group_multiset_axioms;

                assert(convs@.take(i + 1).drop_last() =~= convs@.take(i as int));
                assert(convs@.take(i + 1).last() == convs@[i as int]);
                assert(self.docs() =~= old(self).docs().add(corpus_docs(convs@.take(i + 1))));
            }
            i = i + 1;
        }
        proof {
            assert(convs@.take(n as int) =~= convs@);
            lemma_le_add(old(self).docs(), corpus_docs(convs@));
        }
        self.commit()
    }

    /// Merges all current segments and waits for completion; records the
    /// merge time on success; a failure is surfaced and leaves the merge
    /// time untouched. The document set never changes.
    pub fn force_merge(&mut self) -> (r: Result<(), IndexError>)
        requires
            old(self).wf(),
        ensures
            final(self).docs() == old(self).docs(),
            final(self).flushed() == old(self).flushed(),
            final(self).wf(),
            r is Err ==> final(self).spec_last_merge_ts() == old(self).spec_last_merge_ts(),
    {
        let segment_ids = match index_segment_ids(&self.index) {
            Ok(ids) => ids,
            Err(e) => {
                return Err(backend_error(&e));
            },
        };
        if segment_ids.len() == 0 {
            return Ok(());
        }
        let now_ms = now_millis();
        let res = writer_merge_wait(&mut self.writer, &segment_ids);
        match res {
            Ok(_) => {
                self.last_merge_ts = now_ms;
                Ok(())
            },
            Err(e) => Err(backend_error(&e)),
        }
    }
}

} // verus!

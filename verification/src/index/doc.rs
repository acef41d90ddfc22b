//! Per-message document construction: edge n-grams for starts-with matching,
//! bounded previews, and the flattening of conversation fields onto each
//! message.

use vstd::prelude::*;
use crate::model::{NormalizedConversation, NormalizedMessage};
use crate::strutil::{
    chars_vec, gram_lists_of, join_space, lemma_join_space_push, prefixes_of_token, spec_words,
    split_alnum_words, string_of, take_chars, views_of,
};

verus! {

/// The edge n-gram lists of all words of `s`, in order.
pub open spec fn ngram_lists(s: Seq<char>) -> Seq<Seq<Seq<char>>> {
    gram_lists_of(spec_words(s))
}

/// The edge n-grams of `s`, space-separated into one string: for each
/// maximal alphanumeric run of length at least two, all prefixes of lengths
/// two up to the smaller of the run length and twenty.
pub open spec fn spec_edge_ngrams(s: Seq<char>) -> Seq<char> {
    join_space(ngram_lists(s).flatten())
}

/// Appends a part, preceded by a single space unless the buffer is empty.
fn append_part(out: &mut Vec<char>, part: &Vec<char>)
    ensures
        final(out)@ == if old(out)@.len() == 0 {
            part@
        } else {
            old(out)@ + seq![' '] + part@
        },
{
    if out.len() > 0 {
        out.push(' ');
    }
    let n = part.len();
    let mut t: usize = 0;
    let ghost sep = out@;
    while t < n
        invariant
            t <= n,
            n == part@.len(),
            out@ == sep + part@.subrange(0, t as int),
        decreases n - t,
    {
        out.push(part[t]);
        t = t + 1;
        assert(out@ =~= sep + part@.subrange(0, t as int));
    }
    proof {
        assert(sep + part@.subrange(0, n as int) =~= sep + part@);
        if old(out)@.len() == 0 {
            assert(out@ =~= part@);
        }
    }
}

/// Generates the edge n-grams of the text: split on non-alphanumeric
/// characters, and for each word of length at least two emit all prefixes
/// from length two up to at most twenty, space-separated.
pub fn generate_edge_ngrams(text: &str) -> (r: String)
    ensures
        r@ == spec_edge_ngrams(text@),
{
    let cs = chars_vec(text);
    let words = split_alnum_words(&cs);
    let ghost wl = views_of(words@);
    let mut out: Vec<char> = Vec::new();
    let ghost mut flat: Seq<Seq<char>> = Seq::empty();
    proof {
        assert(wl.take(0) =~= Seq::<Seq<char>>::empty());
        assert(gram_lists_of(wl.take(0)) =~= Seq::<Seq<Seq<char>>>::empty());
        assert(gram_lists_of(wl.take(0)).flatten() =~= Seq::<Seq<char>>::empty());
    }
    let nw = words.len();
    let mut wi: usize = 0;
    while wi < nw
        invariant
            wi <= nw,
            nw == words@.len(),
            wl == views_of(words@),
            wl.len() == nw,
            flat == gram_lists_of(wl.take(wi as int)).flatten(),
            out@ == join_space(flat),
            forall|k: int| 0 <= k < flat.len() ==> #[trigger] flat[k].len() >= 2,
        decreases nw - wi,
    {
        let wlen = words[wi].len();
        proof {
            assert(wl[wi as int] == words@[wi as int]@);
        }
        if wlen >= 2 {
            let maxl: usize = if wlen < 20 {
                wlen
            } else {
                20
            };
            let ghost base = flat;
            let ghost grams = prefixes_of_token(wl[wi as int]);
            proof {
                assert(grams.len() == maxl - 1);
                assert(grams.take(0) =~= Seq::<Seq<char>>::empty());
                assert(flat =~= base + grams.take(0));
            }
            let mut l: usize = 2;
            while l <= maxl
                invariant
                    2 <= l <= maxl + 1,
                    maxl <= wlen,
                    wi < nw,
                    nw == words@.len(),
                    wlen == words@[wi as int]@.len(),
                    grams == prefixes_of_token(words@[wi as int]@),
                    grams.len() == maxl - 1,
                    flat == base + grams.take(l - 2),
                    out@ == join_space(flat),
                    forall|k: int| 0 <= k < flat.len() ==> #[trigger] flat[k].len() >= 2,
                decreases maxl + 1 - l,
            {
                let gram = take_chars(&words[wi], l);
                proof {
                    assert(gram@ =~= words@[wi as int]@.subrange(0, l as int));
                    assert(grams[l - 2] == words@[wi as int]@.subrange(0, l as int));
                    lemma_join_space_push(flat, gram@);
                    if flat.len() > 0 {
                        // A non-empty part list joins to a non-empty string.
                        assert(flat[0].len() >= 2);
                        assert(join_space(flat).len() > 0);
                    }
                }
                append_part(&mut out, &gram);
                proof {
                    flat = flat.push(gram@);
                    assert(flat =~= base + grams.take(l - 2 + 1)) by {
                        assert(grams.take(l - 2 + 1) =~= grams.take(l - 2).push(grams[l - 2]));
                    }
                }
                l = l + 1;
            }
            proof {
                assert(grams.take(maxl - 1) =~= grams);
                assert(flat =~= base + grams);
            }
        }
        proof {
            assert(wl.take(wi + 1) =~= wl.take(wi as int).push(wl[wi as int]));
            assert(gram_lists_of(wl.take(wi + 1)) =~= gram_lists_of(wl.take(wi as int)).push(
                prefixes_of_token(wl[wi as int]),
            ));
            gram_lists_of(wl.take(wi as int)).lemma_flatten_push(prefixes_of_token(wl[wi as int]));
            if wlen < 2 {
                assert(prefixes_of_token(wl[wi as int]) =~= Seq::<Seq<char>>::empty());
            }
            assert(flat =~= gram_lists_of(wl.take(wi + 1)).flatten());
        }
        wi = wi + 1;
    }
    proof {
        assert(wl.take(nw as int) =~= wl);
        assert(wl == spec_words(cs@));
        assert(cs@ == text@);
    }
    string_of(&out)
}

/// The preview of a content string: the first `max` characters, with an
/// ellipsis appended when the content is longer.
pub open spec fn spec_preview(s: Seq<char>, max: int) -> Seq<char> {
    if s.len() <= max {
        s
    } else {
        s.subrange(0, max).push('\u{2026}')
    }
}

/// The number of characters a preview keeps.
pub const PREVIEW_MAX_CHARS: usize = 200;

/// Builds the preview of the content: the first `max_chars` characters
/// (user-perceived code points, not bytes), with an ellipsis code point
/// appended when the content was truncated.
pub fn build_preview(content: &str, max_chars: usize) -> (r: String)
    ensures
        r@ == spec_preview(content@, max_chars as int),
{
    let cs = chars_vec(content);
    if cs.len() <= max_chars {
        return string_of(&cs);
    }
    let mut head = take_chars(&cs, max_chars);
    head.push('\u{2026}');
    string_of(&head)
}

/// The plain fields of the document written for one message, with the
/// conversation-level fields flattened onto it.
#[derive(Debug)]
pub struct DocRecord {
    /// Exact-match agent slug.
    pub agent: String,
    /// Exact-match workspace path, when known.
    pub workspace: Option<String>,
    /// Origin file of the conversation; stored, not indexed.
    pub source_path: String,
    /// Position of the message within its conversation.
    pub msg_idx: u64,
    /// Message timestamp, falling back to the conversation start.
    pub created_at: Option<i64>,
    /// Conversation title, when present.
    pub title: Option<String>,
    /// Edge n-grams of the title, when present.
    pub title_prefix: Option<String>,
    /// The searchable body.
    pub content: String,
    /// Edge n-grams of the body.
    pub content_prefix: String,
    /// Bounded preview of the body.
    pub preview: String,
}

/// The mathematical shape of a document record.
pub struct DocModel {
    pub agent: Seq<char>,
    pub workspace: Option<Seq<char>>,
    pub source_path: Seq<char>,
    pub msg_idx: u64,
    pub created_at: Option<i64>,
    pub title: Option<Seq<char>>,
    pub title_prefix: Option<Seq<char>>,
    pub content: Seq<char>,
    pub content_prefix: Seq<char>,
    pub preview: Seq<char>,
}

impl View for DocRecord {
    type V = DocModel;

    open spec fn view(&self) -> DocModel {
        DocModel {
            agent: self.agent@,
            workspace: match self.workspace {
                Option::Some(w) => Option::Some(w@),
                Option::None => Option::None,
            },
            source_path: self.source_path@,
            msg_idx: self.msg_idx,
            created_at: self.created_at,
            title: match self.title {
                Option::Some(t) => Option::Some(t@),
                Option::None => Option::None,
            },
            title_prefix: match self.title_prefix {
                Option::Some(t) => Option::Some(t@),
                Option::None => Option::None,
            },
            content: self.content@,
            content_prefix: self.content_prefix@,
            preview: self.preview@,
        }
    }
}

/// The document written for one message of a conversation: the message body
/// with its edge n-grams and preview, the conversation's agent, workspace,
/// source path and title, and the message timestamp falling back to the
/// conversation start.
pub open spec fn spec_doc_for(conv: NormalizedConversation, msg: NormalizedMessage) -> DocModel {
    DocModel {
        agent: conv.agent_slug@,
        workspace: match conv.workspace {
            Option::Some(w) => Option::Some(w@),
            Option::None => Option::None,
        },
        source_path: conv.source_path@,
        msg_idx: msg.idx as u64,
        created_at: match msg.created_at {
            Option::Some(t) => Option::Some(t),
            Option::None => conv.started_at,
        },
        title: match conv.title {
            Option::Some(t) => Option::Some(t@),
            Option::None => Option::None,
        },
        title_prefix: match conv.title {
            Option::Some(t) => Option::Some(spec_edge_ngrams(t@)),
            Option::None => Option::None,
        },
        content: msg.content@,
        content_prefix: spec_edge_ngrams(msg.content@),
        preview: spec_preview(msg.content@, PREVIEW_MAX_CHARS as int),
    }
}

/// Builds the document record for one message.
pub fn doc_record_for(conv: &NormalizedConversation, msg: &NormalizedMessage) -> (r: DocRecord)
    requires
        msg.idx >= 0,
    ensures
        r@ == spec_doc_for(*conv, *msg),
{
    let workspace = match &conv.workspace {
        Option::Some(w) => Option::Some(w.clone()),
        Option::None => Option::None,
    };
    let created_at = match msg.created_at {
        Option::Some(t) => Option::Some(t),
        Option::None => conv.started_at,
    };
    let (title, title_prefix) = match &conv.title {
        Option::Some(t) => (
            Option::Some(t.clone()),
            Option::Some(generate_edge_ngrams(t.as_str())),
        ),
        Option::None => (Option::None, Option::None),
    };
    DocRecord {
        agent: conv.agent_slug.clone(),
        workspace,
        source_path: conv.source_path.clone(),
        msg_idx: msg.idx as u64,
        created_at,
        title,
        title_prefix,
        content: msg.content.clone(),
        content_prefix: generate_edge_ngrams(msg.content.as_str()),
        preview: build_preview(msg.content.as_str(), PREVIEW_MAX_CHARS),
    }
}

/// The documents of a whole conversation, one per message, in order.
pub open spec fn spec_docs_for(conv: NormalizedConversation) -> Seq<DocModel> {
    conv.messages@.map_values(|m: NormalizedMessage| spec_doc_for(conv, m))
}

/// No document for blank content (law): in a conversation whose messages
/// all have non-blank bodies — which is what every connector emits — every
/// produced document also has a non-blank body.
pub proof fn lemma_no_blank_documents(conv: NormalizedConversation)
    requires
        forall|i: int|
            0 <= i < conv.messages@.len() ==> !crate::strutil::spec_is_blank(
                (#[trigger] conv.messages@[i]).content@,
            ),
    ensures
        forall|i: int|
            0 <= i < spec_docs_for(conv).len() ==> !crate::strutil::spec_is_blank(
                (#[trigger] spec_docs_for(conv)[i]).content,
            ),
{
    assert forall|i: int| 0 <= i < spec_docs_for(conv).len() implies !crate::strutil::spec_is_blank(
        (#[trigger] spec_docs_for(conv)[i]).content,
    ) by {
        assert(spec_docs_for(conv)[i] == spec_doc_for(conv, conv.messages@[i]));
        assert(spec_docs_for(conv)[i].content == conv.messages@[i].content@);
    }
}

/// Builds the document records of a conversation, one per message.
pub fn docs_for_conversation(conv: &NormalizedConversation) -> (r: Vec<DocRecord>)
    requires
        forall|i: int| 0 <= i < conv.messages@.len() ==> (#[trigger] conv.messages@[i]).idx >= 0,
    ensures
        r@.len() == conv.messages@.len(),
        forall|i: int| 0 <= i < r@.len() ==> (#[trigger] r@[i])@ == spec_docs_for(*conv)[i],
{
    let n = conv.messages.len();
    let mut r: Vec<DocRecord> = Vec::new();
    let mut i: usize = 0;
    while i < n
        invariant
            i <= n,
            n == conv.messages@.len(),
            forall|k: int|
                0 <= k < conv.messages@.len() ==> (#[trigger] conv.messages@[k]).idx >= 0,
            r@.len() == i,
            forall|k: int|
                0 <= k < i ==> (#[trigger] r@[k])@ == spec_doc_for(*conv, conv.messages@[k]),
        decreases n - i,
    {
        let d = doc_record_for(conv, &conv.messages[i]);
        r.push(d);
        i = i + 1;
    }
    r
}

} // verus!

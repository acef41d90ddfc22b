//! The query layer: match-type classification, conjunctive filter
//! application, and the blended ranking score that combines textual match
//! quality with recency.
//!
//! Scores are integers in thousandths: a raw relevance of one reads as
//! 1000, quality weights run from 1000 down to 600, and the recency share
//! of a hit is its timestamp's share of the newest timestamp on the page,
//! in thousandths.

use vstd::prelude::*;
use vstd::arithmetic::div_mod::{
    lemma_div_is_ordered, lemma_div_multiples_vanish, lemma_div_pos_is_pos,
    lemma_multiply_divide_lt,
};
use vstd::arithmetic::mul::{lemma_mul_inequality, lemma_mul_strict_inequality};
use crate::strutil::{
    chars_vec, contains_chars, ends_with_chars, lower_of, lowercase, spec_contains,
    spec_ends_with, spec_starts_with, spec_words, split_alnum_words, starts_with_chars, views_of,
};

verus! {

/// How a hit matched the query; drives the quality weighting.
#[derive(Clone, Copy, Debug, PartialEq, Eq, Structural)]
pub enum MatchType {
    /// The whole query occurs as a phrase of whole tokens.
    Exact,
    /// Some token starts with the query.
    Prefix,
    /// Some token ends with the query.
    Suffix,
    /// The query occurs somewhere inside the text.
    Substring,
    /// None of the above: a hit of the tokenized fallback strategy.
    ImplicitWildcard,
}

impl MatchType {
    /// The quality weight in thousandths, strictly descending from exact
    /// matches down to implicit wildcards.
    pub open spec fn spec_quality_factor(self) -> u64 {
        match self {
            MatchType::Exact => 1000,
            MatchType::Prefix => 900,
            MatchType::Suffix => 800,
            MatchType::Substring => 700,
            MatchType::ImplicitWildcard => 600,
        }
    }

    /// The quality weight of this match type, in thousandths.
    #[verifier::when_used_as_spec(spec_quality_factor)]
    pub fn quality_factor(self) -> (r: u64)
        ensures
            r == self.spec_quality_factor(),
    {
        match self {
            MatchType::Exact => 1000,
            MatchType::Prefix => 900,
            MatchType::Suffix => 800,
            MatchType::Substring => 700,
            MatchType::ImplicitWildcard => 600,
        }
    }
}

/// One ranked result.
#[derive(Debug)]
pub struct SearchHit {
    /// Conversation title, or empty.
    pub title: String,
    /// A short display excerpt.
    pub snippet: String,
    /// The message body.
    pub content: String,
    /// Raw relevance score in thousandths.
    pub score: u64,
    /// Origin file of the conversation.
    pub source_path: String,
    /// Producing agent's slug.
    pub agent: String,
    /// Workspace path, or empty.
    pub workspace: String,
    /// Millisecond epoch timestamp, when known.
    pub created_at: Option<i64>,
    /// Line of the source file, when known.
    pub line_number: Option<u64>,
    /// How the hit matched.
    pub match_type: MatchType,
}

/// The filter bag; filters compose conjunctively, and an empty list does
/// not restrict its field.
#[derive(Debug)]
pub struct SearchFilters {
    /// Exact-match agent slugs to keep.
    pub agents: Vec<String>,
    /// Exact-match workspace paths to keep.
    pub workspaces: Vec<String>,
    /// Keep hits with a timestamp at or after this bound.
    pub created_from: Option<i64>,
    /// Keep hits with a timestamp at or before this bound.
    pub created_to: Option<i64>,
}

impl Default for SearchFilters {
    /// No restriction at all.
    fn default() -> (r: Self)
        ensures
            r.agents@.len() == 0,
            r.workspaces@.len() == 0,
            r.created_from is None,
            r.created_to is None,
    {
        SearchFilters {
            agents: Vec::new(),
            workspaces: Vec::new(),
            created_from: Option::None,
            created_to: Option::None,
        }
    }
}

/// Whether some string of the set holds exactly these characters.
pub open spec fn set_has(set: Seq<String>, x: Seq<char>) -> bool {
    exists|i: int| 0 <= i < set.len() && set[i]@ == x
}

fn set_has_exec(set: &Vec<String>, x: &String) -> (r: bool)
    ensures
        r == set_has(set@, x@),
{
    let n = set.len();
    let mut i: usize = 0;
    while i < n
        invariant
            i <= n,
            n == set@.len(),
            forall|k: int| 0 <= k < i ==> set@[k]@ != x@,
        decreases n - i,
    {
        if crate::strutil::str_eq(set[i].as_str(), x.as_str()) {
            return true;
        }
        i = i + 1;
    }
    false
}

/// Whether a hit passes the filter bag: its agent and workspace must be
/// listed where a list is given, and its timestamp must lie within the
/// given bounds (a hit without a timestamp fails any time bound).
pub open spec fn spec_hit_passes(h: SearchHit, f: SearchFilters) -> bool {
    &&& (f.agents@.len() == 0 || set_has(f.agents@, h.agent@))
    &&& (f.workspaces@.len() == 0 || set_has(f.workspaces@, h.workspace@))
    &&& (match f.created_from {
        Option::Some(t) => match h.created_at {
            Option::Some(c) => c >= t,
            Option::None => false,
        },
        Option::None => true,
    })
    &&& (match f.created_to {
        Option::Some(t) => match h.created_at {
            Option::Some(c) => c <= t,
            Option::None => false,
        },
        Option::None => true,
    })
}

/// Decides whether a hit passes the filter bag.
pub fn hit_passes_filters(h: &SearchHit, f: &SearchFilters) -> (r: bool)
    ensures
        r == spec_hit_passes(*h, *f),
{
    if f.agents.len() > 0 && !set_has_exec(&f.agents, &h.agent) {
        return false;
    }
    if f.workspaces.len() > 0 && !set_has_exec(&f.workspaces, &h.workspace) {
        return false;
    }
    match f.created_from {
        Option::Some(t) => match h.created_at {
            Option::Some(c) => {
                if c < t {
                    return false;
                }
            },
            Option::None => {
                return false;
            },
        },
        Option::None => {},
    }
    match f.created_to {
        Option::Some(t) => match h.created_at {
            Option::Some(c) => {
                if c > t {
                    return false;
                }
            },
            Option::None => {
                return false;
            },
        },
        Option::None => {},
    }
    true
}

/// The recency share of a hit in thousandths: its timestamp (clamped into
/// `[0, max]`, an absent one reading as zero) divided by the page's newest
/// timestamp; zero when the page has no positive timestamp.
pub open spec fn spec_recency_permille(created_at: Option<i64>, max_created_at: i64) -> int {
    if max_created_at > 0 {
        let c = match created_at {
            Option::Some(t) => if t < 0 {
                0
            } else if t > max_created_at {
                max_created_at as int
            } else {
                t as int
            },
            Option::None => 0,
        };
        c * 1000 / (max_created_at as int)
    } else {
        0
    }
}

/// The recency share never exceeds one thousand thousandths.
pub proof fn lemma_recency_bounded(created_at: Option<i64>, max_created_at: i64)
    ensures
        0 <= spec_recency_permille(created_at, max_created_at) <= 1000,
{
    if max_created_at > 0 {
        let m = max_created_at as int;
        let c = match created_at {
            Option::Some(t) => if t < 0 {
                0
            } else if t > max_created_at {
                m
            } else {
                t as int
            },
            Option::None => 0,
        };
        assert(0 <= c <= m);
        lemma_div_pos_is_pos(c * 1000, m);
        lemma_mul_inequality(c, m, 1000);
        lemma_div_is_ordered(c * 1000, m * 1000, m);
        lemma_div_multiples_vanish(1000, m);
        assert(m * 1000 == 1000 * m);
    }
}

/// Computes the recency share in thousandths.
pub fn recency_permille(created_at: Option<i64>, max_created_at: i64) -> (r: u64)
    ensures
        r == spec_recency_permille(created_at, max_created_at),
        r <= 1000,
{
    proof {
        lemma_recency_bounded(created_at, max_created_at);
    }
    if max_created_at <= 0 {
        return 0;
    }
    let c: i64 = match created_at {
        Option::Some(t) => if t < 0 {
            0
        } else if t > max_created_at {
            max_created_at
        } else {
            t
        },
        Option::None => 0,
    };
    let wide: i128 = c as i128 * 1000;
    let q: i128 = wide / (max_created_at as i128);
    q as u64
}

/// A bound under which blended scores cannot overflow.
pub const SCORE_INPUT_MAX: u64 = 1_000_000_000;

/// The blended score: the raw relevance weighted by the match quality, plus
/// the caller's recency weight times the recency share. All three inputs
/// are in thousandths; `alpha` of zero disables recency entirely.
pub open spec fn spec_blended(
    raw: u64,
    mt: MatchType,
    alpha: u64,
    created_at: Option<i64>,
    max_created_at: i64,
) -> int {
    raw * mt.spec_quality_factor() + alpha * spec_recency_permille(created_at, max_created_at)
}

/// Computes the blended score of a hit.
pub fn blended_score(
    raw: u64,
    mt: MatchType,
    alpha: u64,
    created_at: Option<i64>,
    max_created_at: i64,
) -> (r: u64)
    requires
        raw <= SCORE_INPUT_MAX,
        alpha <= SCORE_INPUT_MAX,
    ensures
        r == spec_blended(raw, mt, alpha, created_at, max_created_at),
{
    let rp = recency_permille(created_at, max_created_at);
    proof {
        assert(mt.spec_quality_factor() <= 1000);
        assert(raw * mt.spec_quality_factor() <= 1_000_000_000_000u64) by {
            lemma_mul_inequality(raw as int, 1_000_000_000, mt.spec_quality_factor() as int);
            lemma_mul_inequality(mt.spec_quality_factor() as int, 1000, 1_000_000_000);
        }
        assert(alpha * rp <= 1_000_000_000_000u64) by {
            lemma_mul_inequality(alpha as int, 1_000_000_000, rp as int);
            lemma_mul_inequality(rp as int, 1000, 1_000_000_000);
        }
    }
    raw * mt.quality_factor() + alpha * rp
}

/// Ranking quality ordering (law): at equal raw score and equal recency,
/// the strict order of blended scores follows the strict order of quality
/// factors — an exact hit outranks a prefix hit, which outranks a suffix
/// hit, then a substring hit, then an implicit wildcard, for any recency
/// weight.
pub proof fn lemma_quality_ordering(
    raw: u64,
    alpha: u64,
    created_at: Option<i64>,
    max_created_at: i64,
    a: MatchType,
    b: MatchType,
)
    requires
        raw >= 1,
        a.spec_quality_factor() > b.spec_quality_factor(),
    ensures
        spec_blended(raw, a, alpha, created_at, max_created_at) > spec_blended(
            raw,
            b,
            alpha,
            created_at,
            max_created_at,
        ),
{
    lemma_mul_strict_inequality(
        b.spec_quality_factor() as int,
        a.spec_quality_factor() as int,
        raw as int,
    );
}

/// Recency override (law): for any strictly newer suffix hit against an
/// older exact hit at equal raw score, some recency weight makes the newer
/// hit's blended score larger — recency can outweigh quality.
pub proof fn lemma_recency_override(raw: u64, older: i64, newer: i64)
    requires
        raw <= SCORE_INPUT_MAX,
        0 <= older < newer,
    ensures
        exists|alpha: u64|
            spec_blended(raw, MatchType::Suffix, alpha, Option::Some(newer), newer) > spec_blended(
                raw,
                MatchType::Exact,
                alpha,
                Option::Some(older),
                newer,
            ),
{
    let alpha: u64 = (200 * raw + 1) as u64;
    let m = newer as int;
    // The newer hit sits at the page maximum, so its recency share is the
    // full thousand.
    lemma_div_multiples_vanish(1000, m);
    assert(m * 1000 / m == 1000);
    assert(spec_recency_permille(Option::Some(newer), newer) == 1000);
    // The older hit's share is at most 999.
    let q = (older as int) * 1000 / m;
    lemma_recency_bounded(Option::Some(older), newer);
    assert((older as int) * 1000 <= (m - 1) * 1000) by {
        lemma_mul_inequality(older as int, m - 1, 1000);
    }
    assert((m - 1) * 1000 < m * 1000);
    lemma_multiply_divide_lt((older as int) * 1000, m, 1000);
    assert(q <= 999);
    // With the chosen weight, the recency edge of at least one thousandth
    // beats the quality gap of two hundred thousandths of the raw score.
    assert(spec_blended(raw, MatchType::Suffix, alpha, Option::Some(newer), newer) == raw * 800
        + alpha * 1000);
    assert(spec_blended(raw, MatchType::Exact, alpha, Option::Some(older), newer) == raw * 1000
        + alpha * q);
    assert(alpha * q <= alpha * 999) by {
        lemma_mul_inequality(q, 999, alpha as int);
    }
    assert(raw * 800 + alpha * 1000 > raw * 1000 + alpha * 999) by {
        assert(alpha == 200 * raw + 1);
        assert(raw * 1000 == raw * 800 + raw * 200);
    }
}

/// Whether the query tokens occur as a run of whole tokens at position `i`.
pub open spec fn phrase_at(ws: Seq<Seq<char>>, qs: Seq<Seq<char>>, i: int) -> bool {
    &&& 0 <= i
    &&& i + qs.len() <= ws.len()
    &&& forall|k: int| 0 <= k < qs.len() ==> ws[i + k] == qs[k]
}

/// Whether the query tokens occur somewhere as a run of whole tokens.
pub open spec fn has_phrase(ws: Seq<Seq<char>>, qs: Seq<Seq<char>>) -> bool {
    exists|i: int| phrase_at(ws, qs, i)
}

/// The classification of how a text matches a query, best first, over the
/// lowercased forms: the query's tokens occurring as whole tokens is exact;
/// a token starting with the whole query is a prefix hit; a token ending
/// with it is a suffix hit; the query occurring anywhere in the text is a
/// substring hit; anything else is an implicit wildcard (the tokenized
/// fallback matched in some other way).
pub open spec fn spec_classify(q: Seq<char>, text: Seq<char>) -> MatchType {
    let lq = lower_of(q);
    let lt = lower_of(text);
    let qw = spec_words(lq);
    let tw = spec_words(lt);
    if qw.len() > 0 && has_phrase(tw, qw) {
        MatchType::Exact
    } else if exists|i: int| 0 <= i < tw.len() && spec_starts_with(#[trigger] tw[i], lq) {
        MatchType::Prefix
    } else if exists|i: int| 0 <= i < tw.len() && spec_ends_with(#[trigger] tw[i], lq) {
        MatchType::Suffix
    } else if spec_contains(lt, lq) {
        MatchType::Substring
    } else {
        MatchType::ImplicitWildcard
    }
}

fn chars_eq(a: &Vec<char>, b: &Vec<char>) -> (r: bool)
    ensures
        r == (a@ == b@),
{
    let n = a.len();
    if n != b.len() {
        return false;
    }
    let mut i: usize = 0;
    while i < n
        invariant
            i <= n,
            n == a@.len() == b@.len(),
            forall|k: int| 0 <= k < i ==> a@[k] == b@[k],
        decreases n - i,
    {
        if a[i] != b[i] {
            return false;
        }
        i = i + 1;
    }
    proof {
        assert(a@ =~= b@);
    }
    true
}

fn phrase_at_exec(ws: &Vec<Vec<char>>, qs: &Vec<Vec<char>>, at: usize) -> (r: bool)
    requires
        at + qs@.len() <= ws@.len(),
    ensures
        r == phrase_at(views_of(ws@), views_of(qs@), at as int),
{
    let nw = ws.len();
    let m = qs.len();
    let mut k: usize = 0;
    while k < m
        invariant
            k <= m,
            m == qs@.len(),
            nw == ws@.len(),
            at + m <= nw,
            forall|j: int| 0 <= j < k ==> views_of(ws@)[at + j] == views_of(qs@)[j],
        decreases m - k,
    {
        if !chars_eq(&ws[at + k], &qs[k]) {
            proof {
                assert(views_of(ws@)[at + k] == ws@[at + k]@);
                assert(views_of(qs@)[k as int] == qs@[k as int]@);
            }
            return false;
        }
        k = k + 1;
    }
    true
}

/// Classifies how a text matches a query; both are lowercased first, the
/// same normalization the index tokenizer applies.
#[verifier::loop_isolation(false)]
pub fn classify_match(query: &str, text: &str) -> (r: MatchType)
    ensures
        r == spec_classify(query@, text@),
{
    let lq_s = lowercase(query);
    let lt_s = lowercase(text);
    let lq = chars_vec(lq_s.as_str());
    let lt = chars_vec(lt_s.as_str());
    let qw = split_alnum_words(&lq);
    let tw = split_alnum_words(&lt);
    let ghost qws = views_of(qw@);
    let ghost tws = views_of(tw@);
    // Exact: the query's tokens as a run of whole tokens.
    if qw.len() > 0 && qw.len() <= tw.len() {
        let bound = tw.len() - qw.len();
        let mut i: usize = 0;
        while i <= bound
            invariant
                qw@.len() <= tw@.len(),
                bound == tw@.len() - qw@.len(),
                i <= bound + 1,
                qws == views_of(qw@),
                tws == views_of(tw@),
                forall|k: int| 0 <= k < i ==> !phrase_at(tws, qws, k),
            decreases bound + 1 - i,
        {
            if phrase_at_exec(&tw, &qw, i) {
                proof {
                    assert(has_phrase(tws, qws));
                }
                return MatchType::Exact;
            }
            i = i + 1;
        }
        proof {
            assert(forall|k: int| phrase_at(tws, qws, k) ==> 0 <= k <= bound);
            assert(!has_phrase(tws, qws));
        }
    } else {
        proof {
            if qws.len() > 0 {
                assert(forall|k: int| !phrase_at(tws, qws, k));
            }
        }
    }
    // Prefix, then suffix: a token starting or ending with the query.
    let n = tw.len();
    let mut i: usize = 0;
    while i < n
        invariant
            i <= n,
            n == tw@.len(),
            tws == views_of(tw@),
            forall|k: int| 0 <= k < i ==> !spec_starts_with(#[trigger] tws[k], lq@),
        decreases n - i,
    {
        if starts_with_chars(&tw[i], &lq) {
            proof {
                assert(tws[i as int] == tw@[i as int]@);
            }
            return MatchType::Prefix;
        }
        i = i + 1;
    }
    let mut i: usize = 0;
    while i < n
        invariant
            i <= n,
            n == tw@.len(),
            tws == views_of(tw@),
            forall|k: int| 0 <= k < n ==> !spec_starts_with(#[trigger] tws[k], lq@),
            forall|k: int| 0 <= k < i ==> !spec_ends_with(#[trigger] tws[k], lq@),
        decreases n - i,
    {
        if ends_with_chars(&tw[i], &lq) {
            proof {
                assert(tws[i as int] == tw@[i as int]@);
            }
            return MatchType::Suffix;
        }
        i = i + 1;
    }
    if contains_chars(&lt, &lq) {
        return MatchType::Substring;
    }
    MatchType::ImplicitWildcard
}

/// The blended score of one hit against a page maximum.
pub open spec fn spec_hit_blended(h: SearchHit, alpha: u64, max_created_at: i64) -> int {
    spec_blended(h.score, h.match_type, alpha, h.created_at, max_created_at)
}

/// Whether the hits descend by blended score.
pub open spec fn ranked_by_blended(s: Seq<SearchHit>, alpha: u64, max_created_at: i64) -> bool {
    forall|i: int, j: int|
        0 <= i < j < s.len() ==> spec_hit_blended(s[i], alpha, max_created_at) >= spec_hit_blended(
            s[j],
            alpha,
            max_created_at,
        )
}

/// Ranks a page of hits by blended score, best first. The result holds
/// exactly the given hits; ties keep their first-found order.
pub fn rank_hits(hits: Vec<SearchHit>, alpha: u64, max_created_at: i64) -> (r: Vec<SearchHit>)
    requires
        alpha <= SCORE_INPUT_MAX,
        forall|i: int| 0 <= i < hits@.len() ==> (#[trigger] hits@[i]).score <= SCORE_INPUT_MAX,
    ensures
        r@.to_multiset() == hits@.to_multiset(),
        r@.len() == hits@.len(),
        ranked_by_blended(r@, alpha, max_created_at),
{
    broadcast use vstd::seq_lib::group_to_multiset_ensures;

    let mut rest = hits;
    let mut out: Vec<SearchHit> = Vec::new();
    proof {
        assert(out@.to_multiset().add(rest@.to_multiset()) =~= hits@.to_multiset());
    }
    while rest.len() > 0
        invariant
            alpha <= SCORE_INPUT_MAX,
            forall|i: int| 0 <= i < rest@.len() ==> (#[trigger] rest@[i]).score <= SCORE_INPUT_MAX,
            out@.to_multiset().add(rest@.to_multiset()) == hits@.to_multiset(),
            out@.len() + rest@.len() == hits@.len(),
            ranked_by_blended(out@, alpha, max_created_at),
            forall|i: int, j: int|
                0 <= i < out@.len() && 0 <= j < rest@.len() ==> spec_hit_blended(
                    out@[i],
                    alpha,
                    max_created_at,
                ) >= spec_hit_blended(rest@[j], alpha, max_created_at),
        decreases rest@.len(),
    {
        // Find the leftmost maximum of the remaining hits.
        let mut best_at: usize = 0;
        let mut best = blended_score(
            rest[0].score,
            rest[0].match_type,
            alpha,
            rest[0].created_at,
            max_created_at,
        );
        let mut k: usize = 1;
        while k < rest.len()
            invariant
                alpha <= SCORE_INPUT_MAX,
                forall|i: int|
                    0 <= i < rest@.len() ==> (#[trigger] rest@[i]).score <= SCORE_INPUT_MAX,
                k <= rest@.len(),
                best_at < k || (k <= rest@.len() && best_at == 0),
                best_at < rest@.len(),
                best == spec_hit_blended(rest@[best_at as int], alpha, max_created_at),
                forall|j: int|
                    0 <= j < k ==> best >= spec_hit_blended(
                        #[trigger] rest@[j],
                        alpha,
                        max_created_at,
                    ),
            decreases rest@.len() - k,
        {
            let cand = blended_score(
                rest[k].score,
                rest[k].match_type,
                alpha,
                rest[k].created_at,
                max_created_at,
            );
            if cand > best {
                best_at = k;
                best = cand;
            }
            k = k + 1;
        }
        let ghost old_out = out@;
        let ghost old_rest = rest@;
        let h = rest.remove(best_at);
        out.push(h);
        proof {
            vstd::seq_lib::to_multiset_build::<SearchHit>(old_out, h);
            vstd::seq_lib::to_multiset_remove::<SearchHit>(old_rest, best_at as int);
            assert(out@ == old_out.push(h));
            assert(rest@ == old_rest.remove(best_at as int));
            assert(old_rest.to_multiset().count(h) >= 1) by {
                old_rest.to_multiset_ensures();
                assert(old_rest[best_at as int] == h);
                assert(old_rest.contains(h));
            }
            assert(out@.to_multiset().add(rest@.to_multiset()) =~= old_out.to_multiset().add(
                old_rest.to_multiset(),
            ));
            assert(forall|j: int|
                0 <= j < rest@.len() ==> spec_hit_blended(out@[out@.len() - 1], alpha, max_created_at)
                    >= spec_hit_blended(#[trigger] rest@[j], alpha, max_created_at)) by {
                assert(forall|j: int|
                    0 <= j < rest@.len() ==> rest@[j] == old_rest[if j < best_at {
                        j
                    } else {
                        j + 1
                    }]);
            }
        }
    }
    out
}

/// The largest positive timestamp of a page of hits, zero when none has
/// one.
pub open spec fn spec_max_created(hits: Seq<SearchHit>) -> int
    decreases hits.len(),
{
    if hits.len() == 0 {
        0
    } else {
        let rest = spec_max_created(hits.drop_last());
        let c = match hits.last().created_at {
            Option::Some(t) => if t > 0 {
                t as int
            } else {
                0
            },
            Option::None => 0,
        };
        if c > rest {
            c
        } else {
            rest
        }
    }
}

/// The largest positive timestamp of a page of hits.
pub fn max_created(hits: &Vec<SearchHit>) -> (r: i64)
    ensures
        r == spec_max_created(hits@),
        r >= 0,
{
    let n = hits.len();
    let mut best: i64 = 0;
    let mut i: usize = 0;
    proof {
        assert(hits@.take(0) =~= Seq::<SearchHit>::empty());
    }
    while i < n
        invariant
            i <= n,
            n == hits@.len(),
            best >= 0,
            best == spec_max_created(hits@.take(i as int)),
        decreases n - i,
    {
        match hits[i].created_at {
            Option::Some(t) => {
                if t > best {
                    best = t;
                }
            },
            Option::None => {},
        }
        proof {
            assert(hits@.take(i + 1).drop_last() =~= hits@.take(i as int));
            assert(hits@.take(i + 1).last() == hits@[i as int]);
        }
        i = i + 1;
    }
    proof {
        assert(hits@.take(n as int) =~= hits@);
    }
    best
}

} // verus!

//! Character-sequence utilities shared by the connectors, the index and the
//! query layer: trimming, substring search, word splitting and lowercasing.
//!
//! Everything here works on `Seq<char>` models; the only trusted pieces are
//! the character classes and lowercasing of std, which are named rather than
//! restated.

use vstd::prelude::*;
use vstd::string::*;

verus! {

/// What `char::is_alphanumeric` returns for a character; a function of the
/// character alone.
pub uninterp spec fn is_alnum(c: char) -> bool;

/// What `char::is_whitespace` returns for a character; a function of the
/// character alone.
pub uninterp spec fn is_wsp(c: char) -> bool;

/// What `str::to_lowercase` returns; a function of the characters alone.
pub uninterp spec fn lower_of(s: Seq<char>) -> Seq<char>;

/// Relies on `char::is_alphanumeric` of std: the Unicode letter-or-digit test.
pub assume_specification[ char::is_alphanumeric ](c: char) -> (r: bool)
    ensures
        r == is_alnum(c),
;

/// Relies on `char::is_whitespace` of std: the Unicode whitespace test.
pub assume_specification[ char::is_whitespace ](c: char) -> (r: bool)
    ensures
        r == is_wsp(c),
;

/// Relies on `String::push` of std: appends exactly one character.
pub assume_specification[ String::push ](s: &mut String, c: char)
    ensures
        final(s)@ == old(s)@.push(c),
;

/// Relies on `str::to_lowercase` of std: Unicode lowercasing, a function of
/// the characters alone; an empty string stays empty.
#[verifier::external_body]
pub(crate) fn lowercase(s: &str) -> (r: String)
    ensures
        r@ == lower_of(s@),
        s@.len() == 0 ==> r@.len() == 0,
{
    s.to_lowercase()
}

/// The characters of a string, as a vector.
pub fn chars_vec(s: &str) -> (v: Vec<char>)
    ensures
        v@ == s@,
{
    let n = s.unicode_len();
    let mut v: Vec<char> = Vec::new();
    let mut i: usize = 0;
    while i < n
        invariant
            i <= n,
            n == s@.len(),
            v@ == s@.subrange(0, i as int),
        decreases n - i,
    {
        let c = s.get_char(i);
        v.push(c);
        i = i + 1;
        assert(v@ =~= s@.subrange(0, i as int));
    }
    assert(v@ =~= s@);
    v
}

/// A string holding exactly the given characters.
pub fn string_of(v: &Vec<char>) -> (s: String)
    ensures
        s@ == v@,
{
    let mut s = String::new();
    let mut i: usize = 0;
    while i < v.len()
        invariant
            i <= v@.len(),
            s@ == v@.subrange(0, i as int),
        decreases v@.len() - i,
    {
        s.push(v[i]);
        i = i + 1;
        assert(s@ =~= v@.subrange(0, i as int));
    }
    assert(s@ =~= v@);
    s
}

/// A sequence is blank when every character is whitespace; the empty
/// sequence is blank.
pub open spec fn spec_is_blank(s: Seq<char>) -> bool {
    forall|i: int| 0 <= i < s.len() ==> is_wsp(s[i])
}

/// Returns true exactly when every character is whitespace.
pub fn is_blank(v: &Vec<char>) -> (r: bool)
    ensures
        r == spec_is_blank(v@),
{
    let mut i: usize = 0;
    while i < v.len()
        invariant
            i <= v@.len(),
            forall|k: int| 0 <= k < i ==> is_wsp(v@[k]),
        decreases v@.len() - i,
    {
        if !v[i].is_whitespace() {
            return false;
        }
        i = i + 1;
    }
    true
}

/// Returns true exactly when every character of the string is whitespace.
pub fn str_is_blank(s: &str) -> (r: bool)
    ensures
        r == spec_is_blank(s@),
{
    let v = chars_vec(s);
    is_blank(&v)
}

/// The end of the whitespace run starting at `i`: the first index at or
/// after `i` holding a non-whitespace character, or the length.
pub open spec fn wsp_run_end(s: Seq<char>, i: int) -> int
    decreases s.len() - i,
{
    if i < 0 || i >= s.len() || !is_wsp(s[i]) {
        i
    } else {
        wsp_run_end(s, i + 1)
    }
}

/// The start of the whitespace run ending just before `j`: the least index
/// `k` such that all of `s[k..j]` is whitespace.
pub open spec fn wsp_run_start(s: Seq<char>, j: int) -> int
    decreases j,
{
    if j <= 0 || j > s.len() || !is_wsp(s[j - 1]) {
        j
    } else {
        wsp_run_start(s, j - 1)
    }
}

/// The sequence with leading and trailing whitespace removed.
pub open spec fn spec_trim(s: Seq<char>) -> Seq<char> {
    let a = wsp_run_end(s, 0);
    let b = wsp_run_start(s, s.len() as int);
    if a <= b {
        s.subrange(a, b)
    } else {
        Seq::empty()
    }
}

pub proof fn lemma_wsp_run_end(s: Seq<char>, i: int)
    requires
        0 <= i <= s.len(),
    ensures
        i <= wsp_run_end(s, i) <= s.len(),
        forall|k: int| i <= k < wsp_run_end(s, i) ==> is_wsp(s[k]),
        wsp_run_end(s, i) < s.len() ==> !is_wsp(s[wsp_run_end(s, i)]),
    decreases s.len() - i,
{
    if i < s.len() && is_wsp(s[i]) {
        lemma_wsp_run_end(s, i + 1);
    }
}

pub proof fn lemma_wsp_run_end_unique(s: Seq<char>, i: int, j: int)
    requires
        0 <= i <= j <= s.len(),
        forall|k: int| i <= k < j ==> is_wsp(s[k]),
        j < s.len() ==> !is_wsp(s[j]),
    ensures
        wsp_run_end(s, i) == j,
    decreases j - i,
{
    if i < j {
        lemma_wsp_run_end_unique(s, i + 1, j);
    }
}

pub proof fn lemma_wsp_run_start(s: Seq<char>, j: int)
    requires
        0 <= j <= s.len(),
    ensures
        0 <= wsp_run_start(s, j) <= j,
        forall|k: int| wsp_run_start(s, j) <= k < j ==> is_wsp(s[k]),
        wsp_run_start(s, j) > 0 ==> !is_wsp(s[wsp_run_start(s, j) - 1]),
    decreases j,
{
    if j > 0 && is_wsp(s[j - 1]) {
        lemma_wsp_run_start(s, j - 1);
    }
}

pub proof fn lemma_wsp_run_start_unique(s: Seq<char>, i: int, j: int)
    requires
        0 <= i <= j <= s.len(),
        forall|k: int| i <= k < j ==> is_wsp(s[k]),
        i > 0 ==> !is_wsp(s[i - 1]),
    ensures
        wsp_run_start(s, j) == i,
    decreases j - i,
{
    if i < j {
        lemma_wsp_run_start_unique(s, i, j - 1);
    }
}

/// Trimming a sequence that holds some non-whitespace character keeps at
/// least one: trimming never blanks non-blank text.
pub proof fn lemma_trim_not_blank(s: Seq<char>)
    requires
        !spec_is_blank(s),
    ensures
        !spec_is_blank(spec_trim(s)),
        spec_trim(s).len() > 0,
{
    let j = choose|j: int| 0 <= j < s.len() && !is_wsp(s[j]);
    lemma_wsp_run_end(s, 0);
    lemma_wsp_run_start(s, s.len() as int);
    let a = wsp_run_end(s, 0);
    let b = wsp_run_start(s, s.len() as int);
    assert(a <= j) by {
        if j < a {
            assert(is_wsp(s[j]));
        }
    }
    assert(j < b) by {
        if j >= b {
            assert(is_wsp(s[j]));
        }
    }
    assert(spec_trim(s)[j - a] == s[j]);
    assert(!is_wsp(spec_trim(s)[j - a]));
}

/// The characters with leading and trailing whitespace removed.
pub fn trim_chars(v: &Vec<char>) -> (r: Vec<char>)
    ensures
        r@ == spec_trim(v@),
{
    let n = v.len();
    let mut a: usize = 0;
    while a < n && v[a].is_whitespace()
        invariant
            a <= n,
            n == v@.len(),
            forall|k: int| 0 <= k < a ==> is_wsp(v@[k]),
        decreases n - a,
    {
        a = a + 1;
    }
    proof {
        lemma_wsp_run_end_unique(v@, 0, a as int);
    }
    let mut b: usize = n;
    while b > a && v[b - 1].is_whitespace()
        invariant
            a <= b <= n,
            n == v@.len(),
            forall|k: int| b <= k < n ==> is_wsp(v@[k]),
            forall|k: int| 0 <= k < a ==> is_wsp(v@[k]),
            a < n ==> !is_wsp(v@[a as int]),
        decreases b,
    {
        b = b - 1;
    }
    proof {
        if b > a {
            lemma_wsp_run_start_unique(v@, b as int, n as int);
        } else {
            // The second scan only reaches `a` when the whole tail is
            // whitespace, which together with the first scan means the
            // whole sequence is blank.
            assert(a == n);
            lemma_wsp_run_start(v@, n as int);
        }
    }
    let mut r: Vec<char> = Vec::new();
    let mut i: usize = a;
    while i < b
        invariant
            a <= i <= b <= n,
            n == v@.len(),
            r@ == v@.subrange(a as int, i as int),
        decreases b - i,
    {
        r.push(v[i]);
        i = i + 1;
        assert(r@ =~= v@.subrange(a as int, i as int));
    }
    proof {
        if a < b {
            assert(r@ =~= spec_trim(v@));
        } else {
            assert(r@ =~= spec_trim(v@));
        }
    }
    r
}

/// Whether `s[i..i + p.len()]` equals `p`.
pub open spec fn spec_matches_at(s: Seq<char>, p: Seq<char>, i: int) -> bool {
    0 <= i && i + p.len() <= s.len() && s.subrange(i, i + p.len() as int) == p
}

/// Whether `p` occurs as a contiguous subsequence of `s`.
pub open spec fn spec_contains(s: Seq<char>, p: Seq<char>) -> bool {
    exists|i: int| spec_matches_at(s, p, i)
}

/// Whether `p` is a prefix of `s`.
pub open spec fn spec_starts_with(s: Seq<char>, p: Seq<char>) -> bool {
    spec_matches_at(s, p, 0)
}

/// Whether `p` is a suffix of `s`.
pub open spec fn spec_ends_with(s: Seq<char>, p: Seq<char>) -> bool {
    p.len() <= s.len() && spec_matches_at(s, p, s.len() - p.len())
}

fn matches_at(hay: &Vec<char>, needle: &Vec<char>, at: usize) -> (r: bool)
    requires
        at + needle@.len() <= hay@.len(),
    ensures
        r == spec_matches_at(hay@, needle@, at as int),
{
    let n = hay.len();
    let m = needle.len();
    let mut j: usize = 0;
    while j < m
        invariant
            j <= m,
            m == needle@.len(),
            n == hay@.len(),
            at + m <= n,
            forall|k: int| 0 <= k < j ==> hay@[at + k] == needle@[k],
        decreases m - j,
    {
        if hay[at + j] != needle[j] {
            proof {
                assert(hay@.subrange(at as int, at + m as int)[j as int] == hay@[at + j]);
            }
            return false;
        }
        j = j + 1;
    }
    proof {
        assert(hay@.subrange(at as int, at + m as int) =~= needle@);
    }
    true
}

/// Returns true exactly when `needle` occurs contiguously in `hay`.
pub fn contains_chars(hay: &Vec<char>, needle: &Vec<char>) -> (r: bool)
    ensures
        r == spec_contains(hay@, needle@),
{
    let n = hay.len();
    let m = needle.len();
    if m > n {
        proof {
            assert(forall|i: int| !spec_matches_at(hay@, needle@, i));
        }
        return false;
    }
    if m == 0 {
        proof {
            assert(hay@.subrange(0, 0) =~= needle@);
            assert(spec_matches_at(hay@, needle@, 0));
        }
        return true;
    }
    let mut i: usize = 0;
    while i <= n - m
        invariant
            1 <= m <= n,
            n == hay@.len(),
            m == needle@.len(),
            i <= n - m + 1,
            forall|k: int| 0 <= k < i ==> !spec_matches_at(hay@, needle@, k),
        decreases n + 1 - i,
    {
        if matches_at(hay, needle, i) {
            return true;
        }
        i = i + 1;
    }
    proof {
        assert(forall|k: int| spec_matches_at(hay@, needle@, k) ==> 0 <= k <= n - m);
    }
    false
}

/// Returns true exactly when `p` is a prefix of `s`.
pub fn starts_with_chars(s: &Vec<char>, p: &Vec<char>) -> (r: bool)
    ensures
        r == spec_starts_with(s@, p@),
{
    if p.len() > s.len() {
        return false;
    }
    matches_at(s, p, 0)
}

/// Returns true exactly when `p` is a suffix of `s`.
pub fn ends_with_chars(s: &Vec<char>, p: &Vec<char>) -> (r: bool)
    ensures
        r == spec_ends_with(s@, p@),
{
    if p.len() > s.len() {
        return false;
    }
    matches_at(s, p, s.len() - p.len())
}

/// Returns true exactly when the two strings hold the same characters.
pub fn str_eq(a: &str, b: &str) -> (r: bool)
    ensures
        r == (a@ == b@),
{
    let va = chars_vec(a);
    let vb = chars_vec(b);
    let n = va.len();
    if n != vb.len() {
        return false;
    }
    let mut i: usize = 0;
    while i < n
        invariant
            i <= n,
            n == va@.len() == vb@.len(),
            va@ == a@,
            vb@ == b@,
            forall|k: int| 0 <= k < i ==> va@[k] == vb@[k],
        decreases n - i,
    {
        if va[i] != vb[i] {
            return false;
        }
        i = i + 1;
    }
    proof {
        assert(a@ =~= b@);
    }
    true
}

/// The end of the alphanumeric run starting at `i`: the first index at or
/// after `i` holding a non-alphanumeric character, or the length.
pub open spec fn alnum_run_end(s: Seq<char>, i: int) -> int
    decreases s.len() - i,
{
    if i < 0 || i >= s.len() || !is_alnum(s[i]) {
        i
    } else {
        alnum_run_end(s, i + 1)
    }
}

pub proof fn lemma_alnum_run_end(s: Seq<char>, i: int)
    requires
        0 <= i <= s.len(),
    ensures
        i <= alnum_run_end(s, i) <= s.len(),
        forall|k: int| i <= k < alnum_run_end(s, i) ==> is_alnum(s[k]),
        alnum_run_end(s, i) < s.len() ==> !is_alnum(s[alnum_run_end(s, i)]),
    decreases s.len() - i,
{
    if i < s.len() && is_alnum(s[i]) {
        lemma_alnum_run_end(s, i + 1);
    }
}

pub proof fn lemma_alnum_run_end_unique(s: Seq<char>, i: int, j: int)
    requires
        0 <= i <= j <= s.len(),
        forall|k: int| i <= k < j ==> is_alnum(s[k]),
        j < s.len() ==> !is_alnum(s[j]),
    ensures
        alnum_run_end(s, i) == j,
    decreases j - i,
{
    if i < j {
        lemma_alnum_run_end_unique(s, i + 1, j);
    }
}

/// The maximal alphanumeric runs of `s` at or after position `i`, in order.
/// These are the "words" that tokenization and edge-ngram generation use.
pub open spec fn spec_words_from(s: Seq<char>, i: int) -> Seq<Seq<char>>
    decreases s.len() - i,
    via spec_words_from_decreases
{
    if i < 0 || i >= s.len() {
        Seq::empty()
    } else if !is_alnum(s[i]) {
        spec_words_from(s, i + 1)
    } else {
        seq![s.subrange(i, alnum_run_end(s, i))] + spec_words_from(s, alnum_run_end(s, i))
    }
}

#[via_fn]
proof fn spec_words_from_decreases(s: Seq<char>, i: int) {
    if 0 <= i && i < s.len() && is_alnum(s[i]) {
        lemma_alnum_run_end(s, i);
        assert(alnum_run_end(s, i) >= i + 1) by {
            assert(alnum_run_end(s, i) == alnum_run_end(s, i + 1));
            lemma_alnum_run_end(s, i + 1);
        }
    }
}

/// The words of a whole sequence.
pub open spec fn spec_words(s: Seq<char>) -> Seq<Seq<char>> {
    spec_words_from(s, 0)
}

/// The character sequences of a vector of character vectors.
pub open spec fn views_of(ws: Seq<Vec<char>>) -> Seq<Seq<char>> {
    ws.map_values(|w: Vec<char>| w@)
}

/// Splits into maximal alphanumeric runs, dropping the separators.
pub fn split_alnum_words(v: &Vec<char>) -> (words: Vec<Vec<char>>)
    ensures
        views_of(words@) == spec_words(v@),
{
    let n = v.len();
    let mut words: Vec<Vec<char>> = Vec::new();
    let mut i: usize = 0;
    while i < n
        invariant
            i <= n,
            n == v@.len(),
            spec_words(v@) == views_of(words@) + spec_words_from(v@, i as int),
        decreases n - i,
    {
        if !v[i].is_alphanumeric() {
            i = i + 1;
        } else {
            let start = i;
            let mut w: Vec<char> = Vec::new();
            while i < n && v[i].is_alphanumeric()
                invariant
                    start <= i <= n,
                    n == v@.len(),
                    w@ == v@.subrange(start as int, i as int),
                    forall|k: int| start <= k < i ==> is_alnum(v@[k]),
                decreases n - i,
            {
                w.push(v[i]);
                i = i + 1;
                assert(w@ =~= v@.subrange(start as int, i as int));
            }
            proof {
                lemma_alnum_run_end_unique(v@, start as int, i as int);
            }
            let ghost prev = words@;
            words.push(w);
            proof {
                assert(views_of(words@) =~= views_of(prev).push(w@));
                assert(views_of(prev) + (seq![w@] + spec_words_from(v@, i as int)) =~= views_of(
                    words@,
                ) + spec_words_from(v@, i as int));
            }
        }
    }
    proof {
        assert(spec_words(v@) =~= views_of(words@));
    }
    words
}

/// The position of the first line feed at or after `i`, or the length.
pub open spec fn line_break_at(s: Seq<char>, i: int) -> int
    decreases s.len() - i,
{
    if i < 0 || i >= s.len() || s[i] == '\n' {
        i
    } else {
        line_break_at(s, i + 1)
    }
}

pub proof fn lemma_line_break_at(s: Seq<char>, i: int)
    requires
        0 <= i <= s.len(),
    ensures
        i <= line_break_at(s, i) <= s.len(),
        forall|k: int| i <= k < line_break_at(s, i) ==> s[k] != '\n',
        line_break_at(s, i) < s.len() ==> s[line_break_at(s, i)] == '\n',
    decreases s.len() - i,
{
    if i < s.len() && s[i] != '\n' {
        lemma_line_break_at(s, i + 1);
    }
}

pub proof fn lemma_line_break_at_unique(s: Seq<char>, i: int, j: int)
    requires
        0 <= i <= j <= s.len(),
        forall|k: int| i <= k < j ==> s[k] != '\n',
        j < s.len() ==> s[j] == '\n',
    ensures
        line_break_at(s, i) == j,
    decreases j - i,
{
    if i < j {
        lemma_line_break_at_unique(s, i + 1, j);
    }
}

/// A line with one trailing carriage return removed.
pub open spec fn strip_cr(l: Seq<char>) -> Seq<char> {
    if l.len() > 0 && l[l.len() - 1] == '\r' {
        l.drop_last()
    } else {
        l
    }
}

/// The lines of the text at or after position `i`, as `str::lines` reads
/// them: split on line feeds, with one trailing carriage return removed
/// from each line and no final empty line for text that ends in a line
/// feed.
pub open spec fn lines_from(s: Seq<char>, i: int) -> Seq<Seq<char>>
    decreases s.len() + 1 - i,
    via lines_from_decreases
{
    if i < 0 || i >= s.len() {
        Seq::empty()
    } else {
        let e = line_break_at(s, i);
        seq![strip_cr(s.subrange(i, e))] + lines_from(s, e + 1)
    }
}

#[via_fn]
proof fn lines_from_decreases(s: Seq<char>, i: int) {
    if 0 <= i && i < s.len() {
        lemma_line_break_at(s, i);
    }
}

/// The lines of a whole text.
pub open spec fn spec_lines(s: Seq<char>) -> Seq<Seq<char>> {
    lines_from(s, 0)
}

/// Each position yields at most one line.
pub proof fn lemma_lines_from_len(s: Seq<char>, i: int)
    requires
        0 <= i <= s.len() + 1,
    ensures
        lines_from(s, i).len() <= s.len() + 1 - i,
    decreases s.len() + 1 - i,
{
    if 0 <= i && i < s.len() {
        lemma_line_break_at(s, i);
        lemma_lines_from_len(s, line_break_at(s, i) + 1);
    }
}

/// Splits the text into its lines.
pub fn split_lines(v: &Vec<char>) -> (lines: Vec<Vec<char>>)
    ensures
        views_of(lines@) == spec_lines(v@),
{
    let n = v.len();
    let mut lines: Vec<Vec<char>> = Vec::new();
    let mut i: usize = 0;
    proof {
        assert(views_of(lines@) + lines_from(v@, 0) =~= lines_from(v@, 0));
    }
    while i < n
        invariant
            i <= n + 1,
            n == v@.len(),
            spec_lines(v@) == views_of(lines@) + lines_from(v@, i as int),
        decreases n + 1 - i,
    {
        let start = i;
        let mut line: Vec<char> = Vec::new();
        while i < n && v[i] != '\n'
            invariant
                start <= i <= n,
                n == v@.len(),
                line@ == v@.subrange(start as int, i as int),
                forall|k: int| start <= k < i ==> v@[k] != '\n',
            decreases n - i,
        {
            line.push(v[i]);
            i = i + 1;
            assert(line@ =~= v@.subrange(start as int, i as int));
        }
        proof {
            lemma_line_break_at_unique(v@, start as int, i as int);
        }
        if line.len() > 0 && line[line.len() - 1] == '\r' {
            line.pop();
            proof {
                assert(line@ =~= strip_cr(v@.subrange(start as int, i as int)));
            }
        }
        let ghost prev = lines@;
        lines.push(line);
        proof {
            assert(views_of(lines@) =~= views_of(prev).push(line@));
            assert(views_of(prev) + (seq![line@] + lines_from(v@, i + 1)) =~= views_of(lines@)
                + lines_from(v@, i + 1));
        }
        if i < n {
            // Step over the line feed; at the end of the text the remaining
            // line list is already empty.
            i = i + 1;
        } else {
            proof {
                assert(lines_from(v@, i + 1) =~= lines_from(v@, i as int));
            }
        }
    }
    proof {
        if i == n {
            assert(lines_from(v@, n as int) =~= Seq::<Seq<char>>::empty());
        } else {
            assert(lines_from(v@, i as int) =~= Seq::<Seq<char>>::empty());
        }
        assert(spec_lines(v@) =~= views_of(lines@));
    }
    lines
}

/// Appends all characters of `src`.
pub fn append_chars(dst: &mut Vec<char>, src: &Vec<char>)
    ensures
        final(dst)@ == old(dst)@ + src@,
{
    let n = src.len();
    let mut t: usize = 0;
    while t < n
        invariant
            t <= n,
            n == src@.len(),
            dst@ == old(dst)@ + src@.subrange(0, t as int),
        decreases n - t,
    {
        dst.push(src[t]);
        t = t + 1;
        assert(dst@ =~= old(dst)@ + src@.subrange(0, t as int));
    }
    assert(dst@ =~= old(dst)@ + src@);
}

/// The edge n-gram list of one token: its prefixes of lengths two up to
/// the smaller of the token length and twenty; empty for shorter tokens.
pub open spec fn prefixes_of_token(w: Seq<char>) -> Seq<Seq<char>> {
    if w.len() < 2 {
        Seq::empty()
    } else {
        let maxl = if w.len() < 20 {
            w.len() as int
        } else {
            20
        };
        Seq::new((maxl - 1) as nat, |k: int| w.subrange(0, k + 2))
    }
}

/// The edge n-gram lists of each of the tokens, in order.
pub open spec fn gram_lists_of(ws: Seq<Seq<char>>) -> Seq<Seq<Seq<char>>> {
    ws.map_values(|w: Seq<char>| prefixes_of_token(w))
}

/// The parts joined with a single space between successive parts.
pub open spec fn join_space(parts: Seq<Seq<char>>) -> Seq<char>
    decreases parts.len(),
{
    if parts.len() == 0 {
        Seq::empty()
    } else if parts.len() == 1 {
        parts[0]
    } else {
        parts[0] + seq![' '] + join_space(parts.drop_first())
    }
}

pub proof fn lemma_join_space_push(parts: Seq<Seq<char>>, x: Seq<char>)
    ensures
        join_space(parts.push(x)) == if parts.len() == 0 {
            x
        } else {
            join_space(parts) + seq![' '] + x
        },
    decreases parts.len(),
{
    if parts.len() == 0 {
        assert(parts.push(x) =~= seq![x]);
        assert(join_space(seq![x]) == x);
    } else if parts.len() == 1 {
        assert(parts.push(x).drop_first() =~= seq![x]);
        assert(join_space(seq![x]) == x);
        assert(parts.push(x)[0] == parts[0]);
        assert(join_space(parts.push(x)) == parts[0] + seq![' '] + x);
        assert(join_space(parts) == parts[0]);
    } else {
        assert(parts.push(x).drop_first() =~= parts.drop_first().push(x));
        lemma_join_space_push(parts.drop_first(), x);
        assert(join_space(parts.push(x)) =~= join_space(parts) + seq![' '] + x);
    }
}

/// The first `n` characters of `s`, or all of `s` when it is shorter.
pub open spec fn spec_take_chars(s: Seq<char>, n: int) -> Seq<char> {
    if s.len() <= n {
        s
    } else {
        s.subrange(0, n)
    }
}

/// The first `n` characters, or all of them when there are fewer.
pub fn take_chars(v: &Vec<char>, n: usize) -> (r: Vec<char>)
    ensures
        r@ == spec_take_chars(v@, n as int),
{
    let m = if v.len() <= n {
        v.len()
    } else {
        n
    };
    let mut r: Vec<char> = Vec::new();
    let mut i: usize = 0;
    while i < m
        invariant
            i <= m,
            m <= v@.len(),
            r@ == v@.subrange(0, i as int),
        decreases m - i,
    {
        r.push(v[i]);
        i = i + 1;
        assert(r@ =~= v@.subrange(0, i as int));
    }
    proof {
        if v@.len() <= n {
            assert(r@ =~= v@);
        }
    }
    r
}

} // verus!

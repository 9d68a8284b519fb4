//! Extraction of `#hashtags` and `@mentions` from post content.
//!
//! Content is split at whitespace into words.  A word of at least two
//! characters that starts with the sigil is a tag word: its trailing characters
//! that are neither alphanumeric nor `_` are trimmed, the sigil is dropped and
//! the rest is lower-cased; empty results are skipped.  A tag word that trims
//! down to nothing (such as `#!`) cannot be extracted at all: content holding
//! one is rejected.

use vstd::prelude::*;
use crate::text::{
    char_is_alphanumeric, char_is_whitespace, is_alphanumeric, is_whitespace, lowercase,
    str_to_lowercase, string_push,
};

verus! {

/// The characters of a sequence of strings.
pub open spec fn strs(v: Seq<String>) -> Seq<Seq<char>> {
    v.map_values(|s: String| s@)
}

/// Spans as pairs of integers.
pub open spec fn span_view(v: Seq<(usize, usize)>) -> Seq<(int, int)> {
    v.map_values(|p: (usize, usize)| (p.0 as int, p.1 as int))
}

/// A character that survives trimming at the end of a tag word.
pub open spec fn is_tag_char(c: char) -> bool {
    is_alphanumeric(c) || c == '_'
}

/// Which characters of `s` are whitespace.
pub open spec fn white_flags(s: Seq<char>) -> Seq<bool> {
    Seq::new(s.len(), |i: int| is_whitespace(s[i]))
}

/// Which characters of `s` survive trimming at the end of a tag word.
pub open spec fn keep_flags(s: Seq<char>) -> Seq<bool> {
    Seq::new(s.len(), |i: int| is_tag_char(s[i]))
}

/// Where the run of unflagged positions that starts at `i` ends: the first
/// flagged position from `i` on, or the end.
pub open spec fn run_end(white: Seq<bool>, i: int) -> int
    decreases white.len() - i,
{
    if i < 0 || i >= white.len() || white[i] {
        i
    } else {
        run_end(white, i + 1)
    }
}

/// A run that starts inside the text ends after its start and within the text.
pub proof fn lemma_run_end_bounds(white: Seq<bool>, i: int)
    requires
        0 <= i <= white.len(),
    ensures
        i <= run_end(white, i) <= white.len(),
        i < white.len() && !white[i] ==> i < run_end(white, i),
        forall|j: int| i <= j < run_end(white, i) ==> !white[j],
    decreases white.len() - i,
{
    if i < white.len() && !white[i] {
        lemma_run_end_bounds(white, i + 1);
    }
}

/// The words from position `i` on, as spans `[start, end)`: flagged positions
/// are skipped, and each maximal run of unflagged positions is a word.
pub open spec fn runs_from(white: Seq<bool>, i: int) -> Seq<(int, int)>
    decreases white.len() - i,
{
    if i < 0 || i >= white.len() {
        Seq::empty()
    } else if white[i] {
        runs_from(white, i + 1)
    } else {
        let e = run_end(white, i);
        proof {
            lemma_run_end_bounds(white, i);
        }
        seq![(i, e)] + runs_from(white, e)
    }
}

/// The words of a text, given which of its positions are whitespace: its
/// maximal runs of other positions, in order.
pub open spec fn word_spans(white: Seq<bool>) -> Seq<(int, int)> {
    runs_from(white, 0)
}

/// A run of unflagged positions `[st, i)` that meets a flagged position or the
/// end at `i` ends there.
pub proof fn lemma_run_end_at(white: Seq<bool>, st: int, i: int)
    requires
        0 <= st <= i <= white.len(),
        forall|j: int| st <= j < i ==> !white[j],
        i == white.len() || white[i],
    ensures
        run_end(white, st) == i,
    decreases i - st,
{
    if st < i {
        lemma_run_end_at(white, st + 1, i);
    }
}

/// Where the word `[start, end)` ends once its trailing characters not flagged
/// in `keep` are trimmed (`start` if nothing is left).
pub open spec fn trimmed_end(keep: Seq<bool>, start: int, end: int) -> int
    decreases end - start,
{
    if end <= start {
        start
    } else if keep[end - 1] {
        end
    } else {
        trimmed_end(keep, start, end - 1)
    }
}

/// What a word contributes to the extraction.
pub enum WordTag {
    /// Not a tag word.
    Plain,
    /// A tag word that trims down to nothing; extraction fails on it.
    Broken,
    /// A tag word, with its body: the trimmed word without the sigil.
    Body(Seq<char>),
}

/// What the word `[start, end)` of `s` contributes for the given sigil.
pub open spec fn word_tag(s: Seq<char>, keep: Seq<bool>, span: (int, int), sigil: char) -> WordTag {
    if span.1 - span.0 >= 2 && s[span.0] == sigil {
        let t = trimmed_end(keep, span.0, span.1);
        if t == span.0 {
            WordTag::Broken
        } else {
            WordTag::Body(s.subrange(span.0 + 1, t))
        }
    } else {
        WordTag::Plain
    }
}

/// The bodies of the tag words among `spans`, in order; `None` if one of them
/// is broken.
pub open spec fn tag_bodies(s: Seq<char>, keep: Seq<bool>, spans: Seq<(int, int)>, sigil: char)
    -> Option<Seq<Seq<char>>>
    decreases spans.len(),
{
    if spans.len() == 0 {
        Some(Seq::empty())
    } else {
        match tag_bodies(s, keep, spans.drop_last(), sigil) {
            None => None,
            Some(bs) => match word_tag(s, keep, spans.last(), sigil) {
                WordTag::Plain => Some(bs),
                WordTag::Broken => None,
                WordTag::Body(b) => Some(bs.push(b)),
            },
        }
    }
}

/// Tag bodies lower-cased, with the empty results left out.
pub open spec fn finished_tags(bodies: Seq<Seq<char>>) -> Seq<Seq<char>>
    decreases bodies.len(),
{
    if bodies.len() == 0 {
        Seq::empty()
    } else {
        let rest = finished_tags(bodies.drop_last());
        let t = lowercase(bodies.last());
        if t.len() > 0 {
            rest.push(t)
        } else {
            rest
        }
    }
}

/// The tags of `content` for the given sigil, or `None` if the content holds a
/// tag word that trims down to nothing.
pub open spec fn tags_of(content: Seq<char>, sigil: char) -> Option<Seq<Seq<char>>> {
    match tag_bodies(content, keep_flags(content), word_spans(white_flags(content)), sigil) {
        None => None,
        Some(bs) => Some(finished_tags(bs)),
    }
}

/// The hashtags of `content`.
pub open spec fn hashtags_of(content: Seq<char>) -> Option<Seq<Seq<char>>> {
    tags_of(content, '#')
}

/// The mentions of `content`.
pub open spec fn mentions_of(content: Seq<char>) -> Option<Seq<Seq<char>>> {
    tags_of(content, '@')
}

/// Content from which both hashtags and mentions can be extracted.
pub open spec fn content_well_formed(content: Seq<char>) -> bool {
    hashtags_of(content) is Some && mentions_of(content) is Some
}

/// The words of a text, given which of its characters are whitespace, as spans
/// `[start, end)` in order.
pub fn word_spans_of(white: &Vec<bool>) -> (r: Vec<(usize, usize)>)
    ensures
        span_view(r@) == word_spans(white@),
        forall|k: int| 0 <= k < r@.len() ==> (#[trigger] r@[k]).0 < r@[k].1 <= white@.len(),
{
    let mut done: Vec<(usize, usize)> = Vec::new();
    let mut st: usize = 0;
    let mut i: usize = 0;
    while i < white.len()
        invariant
            i <= white.len(),
            st <= i,
            forall|j: int| st <= j < i ==> !white@[j],
            span_view(done@) + runs_from(white@, st as int) == word_spans(white@),
            forall|k: int| 0 <= k < done@.len() ==> (#[trigger] done@[k]).0 < done@[k].1 <= i,
        decreases white.len() - i,
    {
        if white[i] {
            if st < i {
                let ghost before = done@;
                proof {
                    lemma_run_end_at(white@, st as int, i as int);
                    assert(runs_from(white@, st as int) == seq![(st as int, i as int)] + runs_from(
                        white@,
                        i as int,
                    ));
                }
                done.push((st, i));
                assert(span_view(done@) =~= span_view(before).push((st as int, i as int)));
                assert(span_view(done@) + runs_from(white@, i + 1) =~= span_view(before) + (seq![
                    (st as int, i as int),
                ] + runs_from(white@, i as int)));
            }
            st = i + 1;
        }
        i = i + 1;
    }
    if st < white.len() {
        let ghost before = done@;
        proof {
            lemma_run_end_at(white@, st as int, white.len() as int);
            assert(!white@[st as int]);
            assert(runs_from(white@, white.len() as int) == Seq::<(int, int)>::empty());
            assert(runs_from(white@, st as int) == seq![(st as int, white.len() as int)] + runs_from(
                white@,
                white.len() as int,
            ));
        }
        done.push((st, white.len()));
        assert(span_view(done@) =~= span_view(before).push((st as int, white.len() as int)));
        assert(span_view(done@) =~= span_view(before) + runs_from(white@, st as int));
    } else {
        assert(span_view(done@) =~= span_view(done@) + runs_from(white@, st as int));
    }
    done
}

/// The characters of an optional sequence of strings.
pub open spec fn opt_strs(r: Option<Vec<String>>) -> Option<Seq<Seq<char>>> {
    match r {
        None => None,
        Some(v) => Some(strs(v@)),
    }
}

/// What a word contributes, with its body as a string.
enum ScannedTag {
    Plain,
    Broken,
    Body(String),
}

spec fn scanned_view(t: ScannedTag) -> WordTag {
    match t {
        ScannedTag::Plain => WordTag::Plain,
        ScannedTag::Broken => WordTag::Broken,
        ScannedTag::Body(b) => WordTag::Body(b@),
    }
}

/// Where the word `[start, end)` ends once trimmed.
fn trimmed_end_of(keep: &Vec<bool>, start: usize, end: usize) -> (r: usize)
    requires
        start <= end <= keep@.len(),
    ensures
        r as int == trimmed_end(keep@, start as int, end as int),
        start <= r <= end,
{
    let mut e = end;
    while e > start && !keep[e - 1]
        invariant
            start <= e <= end,
            end <= keep@.len(),
            trimmed_end(keep@, start as int, e as int) == trimmed_end(keep@, start as int, end as int),
        decreases e,
    {
        e = e - 1;
    }
    e
}

/// The characters `[from, to)` as a string.
fn string_of_range(chars: &Vec<char>, from: usize, to: usize) -> (r: String)
    requires
        from <= to <= chars@.len(),
    ensures
        r@ == chars@.subrange(from as int, to as int),
{
    let mut r = String::new();
    let mut i = from;
    while i < to
        invariant
            from <= i <= to,
            to <= chars@.len(),
            r@ == chars@.subrange(from as int, i as int),
        decreases to - i,
    {
        string_push(&mut r, chars[i]);
        i = i + 1;
        assert(r@ =~= chars@.subrange(from as int, i as int));
    }
    r
}

/// What the word `span` of `chars` contributes for the given sigil.
fn word_tag_of(chars: &Vec<char>, keep: &Vec<bool>, span: (usize, usize), sigil: char) -> (r: ScannedTag)
    requires
        keep@.len() == chars@.len(),
        span.0 < span.1 <= chars@.len(),
    ensures
        scanned_view(r) == word_tag(chars@, keep@, (span.0 as int, span.1 as int), sigil),
{
    let (start, end) = span;
    if end - start >= 2 && chars[start] == sigil {
        let t = trimmed_end_of(keep, start, end);
        if t == start {
            ScannedTag::Broken
        } else {
            ScannedTag::Body(string_of_range(chars, start + 1, t))
        }
    } else {
        ScannedTag::Plain
    }
}

/// Once the bodies of some first spans are `None`, so are those of all spans.
proof fn lemma_bodies_none_extends(s: Seq<char>, keep: Seq<bool>, spans: Seq<(int, int)>, n: int, sigil: char)
    requires
        0 <= n <= spans.len(),
        tag_bodies(s, keep, spans.take(n), sigil) is None,
    ensures
        tag_bodies(s, keep, spans, sigil) is None,
    decreases spans.len(),
{
    if n < spans.len() {
        assert(spans.drop_last().take(n) =~= spans.take(n));
        lemma_bodies_none_extends(s, keep, spans.drop_last(), n, sigil);
    } else {
        assert(spans.take(n) =~= spans);
    }
}

/// The bodies of the tag words among the given word spans of `chars`, in
/// order, given which characters survive trimming; `None` if one of the tag
/// words trims down to nothing.
pub fn tag_bodies_of(chars: &Vec<char>, keep: &Vec<bool>, spans: &Vec<(usize, usize)>, sigil: char)
    -> (r: Option<Vec<String>>)
    requires
        keep@.len() == chars@.len(),
        forall|k: int| 0 <= k < spans@.len() ==> (#[trigger] spans@[k]).0 < spans@[k].1 <= chars@.len(),
    ensures
        opt_strs(r) == tag_bodies(chars@, keep@, span_view(spans@), sigil),
{
    let ghost all = span_view(spans@);
    let mut out: Vec<String> = Vec::new();
    let mut k: usize = 0;
    assert(all.take(0) =~= Seq::<(int, int)>::empty());
    while k < spans.len()
        invariant
            k <= spans@.len(),
            all == span_view(spans@),
            keep@.len() == chars@.len(),
            forall|j: int| 0 <= j < spans@.len() ==> (#[trigger] spans@[j]).0 < spans@[j].1 <= chars@.len(),
            tag_bodies(chars@, keep@, all.take(k as int), sigil) == Some(strs(out@)),
        decreases spans@.len() - k,
    {
        let span = spans[k];
        let w = word_tag_of(chars, keep, span, sigil);
        assert(all.take(k + 1).drop_last() =~= all.take(k as int));
        assert(all.take(k + 1).last() == (span.0 as int, span.1 as int));
        match w {
            ScannedTag::Plain => {},
            ScannedTag::Broken => {
                proof {
                    lemma_bodies_none_extends(chars@, keep@, all, k + 1, sigil);
                }
                return None;
            },
            ScannedTag::Body(b) => {
                let ghost before = out@;
                out.push(b);
                assert(strs(out@) =~= strs(before).push(b@));
            },
        }
        k = k + 1;
    }
    assert(all.take(k as int) =~= all);
    Some(out)
}

/// The characters of `content`, with which of them are whitespace and which
/// survive trimming at the end of a tag word.
fn classify(content: &str) -> (r: (Vec<char>, Vec<bool>, Vec<bool>))
    ensures
        r.0@ == content@,
        r.1@ == white_flags(content@),
        r.2@ == keep_flags(content@),
{
    broadcast use vstd::string::group_string_axioms;
    let mut chars: Vec<char> = Vec::new();
    let mut white: Vec<bool> = Vec::new();
    let mut keep: Vec<bool> = Vec::new();
    for c in it: content.chars()
        invariant
            it.seq() == content@,
            chars@ == content@.take(it.index()),
            white@ == white_flags(content@).take(it.index()),
            keep@ == keep_flags(content@).take(it.index()),
    {
        let w = char_is_whitespace(c);
        let k = char_is_alphanumeric(c) || c == '_';
        chars.push(c);
        white.push(w);
        keep.push(k);
        assert(chars@ =~= content@.take(it.index() + 1));
        assert(white@ =~= white_flags(content@).take(it.index() + 1));
        assert(keep@ =~= keep_flags(content@).take(it.index() + 1));
    }
    assert(chars@ =~= content@);
    assert(white@ =~= white_flags(content@));
    assert(keep@ =~= keep_flags(content@));
    (chars, white, keep)
}

/// Lower-cases tag bodies and leaves out those that come out empty.
pub fn finish_tags(bodies: &Vec<String>) -> (r: Vec<String>)
    ensures
        strs(r@) == finished_tags(strs(bodies@)),
{
    let ghost all = strs(bodies@);
    let mut out: Vec<String> = Vec::new();
    let mut k: usize = 0;
    assert(all.take(0) =~= Seq::<Seq<char>>::empty());
    while k < bodies.len()
        invariant
            k <= bodies@.len(),
            all == strs(bodies@),
            strs(out@) == finished_tags(all.take(k as int)),
        decreases bodies@.len() - k,
    {
        let t = str_to_lowercase(bodies[k].as_str());
        assert(all.take(k + 1).drop_last() =~= all.take(k as int));
        assert(all.take(k + 1).last() == bodies@[k as int]@);
        if !t.as_str().is_empty() {
            let ghost before = out@;
            out.push(t);
            assert(strs(out@) =~= strs(before).push(lowercase(bodies@[k as int]@)));
        }
        k = k + 1;
    }
    assert(all.take(k as int) =~= all);
    out
}

/// The tags of `content` for the given sigil, in order of appearance; `None`
/// if the content holds a tag word that trims down to nothing.
pub fn try_extract_tags(content: &str, sigil: char) -> (r: Option<Vec<String>>)
    ensures
        opt_strs(r) == tags_of(content@, sigil),
{
    let (chars, white, keep) = classify(content);
    let spans = word_spans_of(&white);
    match tag_bodies_of(&chars, &keep, &spans, sigil) {
        None => None,
        Some(bodies) => Some(finish_tags(&bodies)),
    }
}

/// Whether both hashtags and mentions can be extracted from `content`.
pub fn check_content(content: &str) -> (r: bool)
    ensures
        r == content_well_formed(content@),
{
    let (chars, white, keep) = classify(content);
    let spans = word_spans_of(&white);
    tag_bodies_of(&chars, &keep, &spans, '#').is_some() && tag_bodies_of(&chars, &keep, &spans, '@').is_some()
}

/// The hashtags of `content`: the words that start with `#`, trimmed of
/// trailing characters that are neither alphanumeric nor `_`, without the
/// `#`, lower-cased, the empty ones left out.
pub fn extract_hashtags(content: &str) -> (r: Vec<String>)
    requires
        hashtags_of(content@) is Some,
    ensures
        hashtags_of(content@) == Some(strs(r@)),
{
    match try_extract_tags(content, '#') {
        Some(tags) => tags,
        None => Vec::new(),
    }
}

/// The mentions of `content`: the words that start with `@`, trimmed of
/// trailing characters that are neither alphanumeric nor `_`, without the
/// `@`, lower-cased, the empty ones left out.
pub fn extract_mentions(content: &str) -> (r: Vec<String>)
    requires
        mentions_of(content@) is Some,
    ensures
        mentions_of(content@) == Some(strs(r@)),
{
    match try_extract_tags(content, '@') {
        Some(tags) => tags,
        None => Vec::new(),
    }
}

} // verus!

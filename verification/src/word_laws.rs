//! Laws of tag extraction in terms of words: the tags of a text are the tags
//! of its words one after another, so that only the words that start with the
//! sigil matter, mentions are read exactly like hashtags, and on ASCII text
//! writing the hashtags back as `#words` and reading them again gives them
//! back unchanged.

use vstd::prelude::*;
use crate::parsing::{
    finished_tags, keep_flags, lemma_run_end_at, run_end, runs_from, tag_bodies, tags_of,
    trimmed_end, white_flags, word_spans, word_tag, WordTag,
};
use crate::tag_laws::{
    join_bodies, law_tags_split_at_space, lemma_finished_concat, lemma_word_spans_within,
    lemma_word_tag_shift, spans_unflagged, spans_within,
};
use crate::parsing::is_tag_char;
use crate::text::{
    all_ascii, ascii_lower, is_alphanumeric, is_ascii_alnum, is_ascii_char, is_whitespace, lowercase,
};

verus! {

/// The words of a text, in order.
pub open spec fn words_of(s: Seq<char>) -> Seq<Seq<char>> {
    word_spans(white_flags(s)).map_values(|p: (int, int)| s.subrange(p.0, p.1))
}

/// A word: at least one character, none of them whitespace.
pub open spec fn is_word(w: Seq<char>) -> bool {
    w.len() > 0 && forall|i: int| 0 <= i < w.len() ==> !is_whitespace(#[trigger] w[i])
}

/// A word that starts with the sigil.
pub open spec fn starts_with(w: Seq<char>, sigil: char) -> bool {
    w.len() > 0 && w[0] == sigil
}

/// The tags of some words taken one after another; `None` if one of them
/// fails.
pub open spec fn tags_of_words(ws: Seq<Seq<char>>, sigil: char) -> Option<Seq<Seq<char>>>
    decreases ws.len(),
{
    if ws.len() == 0 {
        Some(Seq::empty())
    } else {
        join_bodies(tags_of_words(ws.drop_last(), sigil), tags_of(ws.last(), sigil))
    }
}

/// Words joined into a text with single spaces.
pub open spec fn join_words(ws: Seq<Seq<char>>) -> Seq<char>
    decreases ws.len(),
{
    if ws.len() == 0 {
        Seq::empty()
    } else if ws.len() == 1 {
        ws[0]
    } else {
        join_words(ws.drop_last()) + seq![' '] + ws.last()
    }
}

/// The words that start with the sigil, in order.
pub open spec fn sigil_words(ws: Seq<Seq<char>>, sigil: char) -> Seq<Seq<char>>
    decreases ws.len(),
{
    if ws.len() == 0 {
        Seq::empty()
    } else if starts_with(ws.last(), sigil) {
        sigil_words(ws.drop_last(), sigil).push(ws.last())
    } else {
        sigil_words(ws.drop_last(), sigil)
    }
}

/// The words that start with `@`, each with its `@` replaced by `#`.
pub open spec fn mentions_as_hashtags(ws: Seq<Seq<char>>) -> Seq<Seq<char>>
    decreases ws.len(),
{
    if ws.len() == 0 {
        Seq::empty()
    } else if starts_with(ws.last(), '@') {
        mentions_as_hashtags(ws.drop_last()).push(seq!['#'] + ws.last().skip(1))
    } else {
        mentions_as_hashtags(ws.drop_last())
    }
}

/// What one word contributes, as a list of tag bodies.
pub open spec fn contribution(t: WordTag) -> Option<Seq<Seq<char>>> {
    match t {
        WordTag::Plain => Some(Seq::empty()),
        WordTag::Broken => None,
        WordTag::Body(b) => Some(seq![b]),
    }
}

/// Tag bodies finished into tags.
pub open spec fn finish(o: Option<Seq<Seq<char>>>) -> Option<Seq<Seq<char>>> {
    match o {
        None => None,
        Some(bs) => Some(finished_tags(bs)),
    }
}

proof fn lemma_finish_join(x: Option<Seq<Seq<char>>>, y: Option<Seq<Seq<char>>>)
    ensures
        finish(join_bodies(x, y)) == join_bodies(finish(x), finish(y)),
{
    if let (Some(a), Some(b)) = (x, y) {
        lemma_finished_concat(a, b);
    }
}

proof fn lemma_join_empty(x: Option<Seq<Seq<char>>>)
    ensures
        join_bodies(x, Some(Seq::empty())) == x,
        join_bodies(Some(Seq::empty()), x) == x,
{
    if let Some(a) = x {
        assert(a + Seq::<Seq<char>>::empty() =~= a);
        assert(Seq::<Seq<char>>::empty() + a =~= a);
    }
}

/// A single word is its own only word span.
proof fn lemma_single_word_spans(w: Seq<char>)
    requires
        is_word(w),
    ensures
        word_spans(white_flags(w)) == seq![(0int, w.len() as int)],
{
    let white = white_flags(w);
    lemma_run_end_at(white, 0, w.len() as int);
    assert(!white[0]);
    assert(runs_from(white, w.len() as int) == Seq::<(int, int)>::empty());
    assert(runs_from(white, 0) == seq![(0int, w.len() as int)] + runs_from(white, w.len() as int));
    assert(seq![(0int, w.len() as int)] + Seq::<(int, int)>::empty() =~= seq![(0int, w.len() as int)]);
}

/// The tags of a single word are what the word contributes, finished.
proof fn lemma_single_word_tags(w: Seq<char>, sigil: char)
    requires
        is_word(w),
    ensures
        tags_of(w, sigil) == finish(contribution(word_tag(w, keep_flags(w), (0, w.len() as int), sigil))),
{
    lemma_single_word_spans(w);
    let k = keep_flags(w);
    let spans = seq![(0int, w.len() as int)];
    assert(spans.drop_last() =~= Seq::<(int, int)>::empty());
    assert(spans.last() == (0int, w.len() as int));
    assert(tag_bodies(w, k, Seq::<(int, int)>::empty(), sigil) == Some(Seq::<Seq<char>>::empty()));
    assert(tag_bodies(w, k, spans, sigil) == contribution(word_tag(w, k, (0, w.len() as int), sigil))) by {
        if let WordTag::Body(b) = word_tag(w, k, (0, w.len() as int), sigil) {
            assert(Seq::<Seq<char>>::empty().push(b) =~= seq![b]);
        }
    }
}

/// A word that does not start with the sigil has no tags for it.
pub proof fn law_plain_word_has_no_tags(w: Seq<char>, sigil: char)
    requires
        is_word(w),
        !starts_with(w, sigil),
    ensures
        tags_of(w, sigil) == Some(Seq::<Seq<char>>::empty()),
{
    lemma_single_word_tags(w, sigil);
}

/// The words of a text are words.
proof fn lemma_words_are_words(s: Seq<char>)
    ensures
        forall|k: int| 0 <= k < words_of(s).len() ==> is_word(#[trigger] words_of(s)[k]),
{
    let spans = word_spans(white_flags(s));
    lemma_word_spans_within(white_flags(s));
    assert forall|k: int| 0 <= k < words_of(s).len() implies is_word(#[trigger] words_of(s)[k]) by {
        let p = spans[k];
        let w = words_of(s)[k];
        assert(w == s.subrange(p.0, p.1));
        assert forall|i: int| 0 <= i < w.len() implies !is_whitespace(#[trigger] w[i]) by {
            assert(w[i] == s[p.0 + i]);
            assert(!white_flags(s)[p.0 + i]);
        }
    }
}

proof fn lemma_prefix_tags(s: Seq<char>, sigil: char, m: int)
    requires
        0 <= m <= word_spans(white_flags(s)).len(),
    ensures
        finish(tag_bodies(s, keep_flags(s), word_spans(white_flags(s)).take(m), sigil)) == tags_of_words(
            words_of(s).take(m),
            sigil,
        ),
    decreases m,
{
    let spans = word_spans(white_flags(s));
    let k = keep_flags(s);
    let ws = words_of(s);
    if m == 0 {
        assert(spans.take(0) =~= Seq::<(int, int)>::empty());
        assert(ws.take(0) =~= Seq::<Seq<char>>::empty());
    } else {
        lemma_prefix_tags(s, sigil, m - 1);
        lemma_word_spans_within(white_flags(s));
        lemma_words_are_words(s);
        let p = spans[m - 1];
        let w = ws[m - 1];
        assert(spans.take(m).drop_last() =~= spans.take(m - 1));
        assert(spans.take(m).last() == p);
        assert(ws.take(m).drop_last() =~= ws.take(m - 1));
        assert(ws.take(m).last() == w);
        assert(w == s.subrange(p.0, p.1));
        assert(0 <= p.0 < p.1 <= s.len());
        assert(is_word(w));
        lemma_word_tag_shift(s, k, w, keep_flags(w), 0, p.1 - p.0, p.0, sigil);
        lemma_single_word_tags(w, sigil);
        let before = tag_bodies(s, k, spans.take(m - 1), sigil);
        let c = contribution(word_tag(s, k, p, sigil));
        assert(tag_bodies(s, k, spans.take(m), sigil) == join_bodies(before, c)) by {
            if let Some(bs) = before {
                if let WordTag::Body(b) = word_tag(s, k, p, sigil) {
                    assert(bs.push(b) =~= bs + seq![b]);
                } else if word_tag(s, k, p, sigil) is Plain {
                    assert(bs + Seq::<Seq<char>>::empty() =~= bs);
                }
            }
        }
        lemma_finish_join(before, c);
    }
}

/// The tags of a text are the tags of its words, one word after another.
pub proof fn law_tags_word_by_word(s: Seq<char>, sigil: char)
    ensures
        tags_of(s, sigil) == tags_of_words(words_of(s), sigil),
{
    let spans = word_spans(white_flags(s));
    lemma_prefix_tags(s, sigil, spans.len() as int);
    assert(spans.take(spans.len() as int) =~= spans);
    assert(words_of(s).take(spans.len() as int) =~= words_of(s));
}

/// The tags of words joined with spaces are the tags of the words one after
/// another.
pub proof fn law_tags_of_joined_words(ws: Seq<Seq<char>>, sigil: char)
    ensures
        tags_of(join_words(ws), sigil) == tags_of_words(ws, sigil),
    decreases ws.len(),
{
    if ws.len() == 0 {
        let e = Seq::<char>::empty();
        assert(runs_from(white_flags(e), 0) == Seq::<(int, int)>::empty());
        assert(tag_bodies(e, keep_flags(e), Seq::<(int, int)>::empty(), sigil) == Some(Seq::<Seq<char>>::empty()));
        assert(finished_tags(Seq::<Seq<char>>::empty()) == Seq::<Seq<char>>::empty());
        assert(tags_of(e, sigil) == Some(Seq::<Seq<char>>::empty()));
    } else if ws.len() == 1 {
        assert(ws.drop_last() =~= Seq::<Seq<char>>::empty());
        assert(ws.last() == ws[0]);
        assert(tags_of_words(ws.drop_last(), sigil) == Some(Seq::<Seq<char>>::empty()));
        lemma_join_empty(tags_of(ws[0], sigil));
    } else {
        law_tags_of_joined_words(ws.drop_last(), sigil);
        law_tags_split_at_space(join_words(ws.drop_last()), ws.last(), sigil);
    }
}

proof fn lemma_sigil_words_tags(ws: Seq<Seq<char>>, sigil: char)
    requires
        forall|j: int| 0 <= j < ws.len() ==> is_word(#[trigger] ws[j]),
    ensures
        tags_of_words(sigil_words(ws, sigil), sigil) == tags_of_words(ws, sigil),
    decreases ws.len(),
{
    if ws.len() > 0 {
        assert(forall|j: int| 0 <= j < ws.drop_last().len() ==> ws.drop_last()[j] == ws[j]);
        lemma_sigil_words_tags(ws.drop_last(), sigil);
        let r = sigil_words(ws.drop_last(), sigil);
        assert(is_word(ws[ws.len() - 1]));
        if starts_with(ws.last(), sigil) {
            assert(r.push(ws.last()).drop_last() =~= r);
        } else {
            law_plain_word_has_no_tags(ws.last(), sigil);
            lemma_join_empty(tags_of_words(ws.drop_last(), sigil));
        }
    }
}

/// Only the words that start with the sigil contribute tags: keeping just
/// those words, joined with spaces, gives the same tags.
pub proof fn law_only_sigil_words_matter(s: Seq<char>, sigil: char)
    ensures
        tags_of(join_words(sigil_words(words_of(s), sigil)), sigil) == tags_of(s, sigil),
{
    lemma_words_are_words(s);
    law_tags_word_by_word(s, sigil);
    law_tags_of_joined_words(sigil_words(words_of(s), sigil), sigil);
    lemma_sigil_words_tags(words_of(s), sigil);
}

/// A word `@x` has the same mentions as the word `#x` has hashtags.
proof fn lemma_mention_word_as_hashtag(w: Seq<char>)
    requires
        is_word(w),
        w[0] == '@',
    ensures
        tags_of(seq!['#'] + w.skip(1), '#') == tags_of(w, '@'),
{
    let h = seq!['#'] + w.skip(1);
    assert(h.len() == w.len());
    assert forall|i: int| 0 <= i < h.len() implies !is_whitespace(#[trigger] h[i]) by {
        if i > 0 {
            assert(h[i] == w[i]);
        }
    }
    assert(!is_alphanumeric('#') && !is_alphanumeric('@'));
    assert(keep_flags(h) =~= keep_flags(w)) by {
        assert forall|i: int| 0 <= i < h.len() implies keep_flags(h)[i] == keep_flags(w)[i] by {
            if i > 0 {
                assert(h[i] == w[i]);
            }
        }
    }
    lemma_single_word_tags(h, '#');
    lemma_single_word_tags(w, '@');
    let n = w.len() as int;
    let t = trimmed_end(keep_flags(w), 0, n);
    assert(trimmed_end(keep_flags(h), 0, n) == t);
    assert(h[0] == '#');
    crate::tag_laws::lemma_trimmed_end_bounds(keep_flags(w), 0, n);
    if t > 0 {
        assert(h.subrange(1, t) =~= w.subrange(1, t));
    }
    assert(word_tag(h, keep_flags(h), (0, n), '#') == word_tag(w, keep_flags(w), (0, n), '@'));
}

proof fn lemma_mentions_as_hashtags_tags(ws: Seq<Seq<char>>)
    requires
        forall|j: int| 0 <= j < ws.len() ==> is_word(#[trigger] ws[j]),
    ensures
        tags_of_words(mentions_as_hashtags(ws), '#') == tags_of_words(ws, '@'),
    decreases ws.len(),
{
    if ws.len() > 0 {
        assert(forall|j: int| 0 <= j < ws.drop_last().len() ==> ws.drop_last()[j] == ws[j]);
        lemma_mentions_as_hashtags_tags(ws.drop_last());
        let r = mentions_as_hashtags(ws.drop_last());
        assert(is_word(ws[ws.len() - 1]));
        if starts_with(ws.last(), '@') {
            let h = seq!['#'] + ws.last().skip(1);
            assert(r.push(h).drop_last() =~= r);
            assert(r.push(h).last() == h);
            lemma_mention_word_as_hashtag(ws.last());
        } else {
            law_plain_word_has_no_tags(ws.last(), '@');
            lemma_join_empty(tags_of_words(ws.drop_last(), '@'));
        }
    }
}

/// Mentions are read exactly like hashtags: the mentions of a text are the
/// hashtags of its `@` words with `@` replaced by `#`, joined with spaces.
pub proof fn law_mentions_read_like_hashtags(s: Seq<char>)
    ensures
        tags_of(s, '@') == tags_of(join_words(mentions_as_hashtags(words_of(s))), '#'),
{
    lemma_words_are_words(s);
    law_tags_word_by_word(s, '@');
    law_tags_of_joined_words(mentions_as_hashtags(words_of(s)), '#');
    lemma_mentions_as_hashtags_tags(words_of(s));
}

/// A tag as extraction yields it from ASCII text: ASCII characters, none of
/// them whitespace, ending with a tag character, and unchanged by lower-casing.
pub open spec fn is_clean_tag(t: Seq<char>) -> bool {
    &&& t.len() > 0
    &&& forall|i: int| 0 <= i < t.len() ==> is_ascii_char(#[trigger] t[i]) && !is_whitespace(t[i])
    &&& is_tag_char(t.last())
    &&& t.map_values(|c: char| ascii_lower(c)) == t
}

/// A tag body cut from ASCII text.
spec fn is_clean_body(b: Seq<char>) -> bool {
    &&& b.len() > 0
    &&& forall|i: int| 0 <= i < b.len() ==> is_ascii_char(#[trigger] b[i]) && !is_whitespace(b[i])
    &&& is_tag_char(b.last())
}

/// Tags written back as `#` words.
pub open spec fn as_hashtag_words(ts: Seq<Seq<char>>) -> Seq<Seq<char>> {
    ts.map_values(|t: Seq<char>| seq!['#'] + t)
}

proof fn lemma_ascii_lower(c: char)
    requires
        is_ascii_char(c),
    ensures
        is_ascii_char(ascii_lower(c)),
        ascii_lower(ascii_lower(c)) == ascii_lower(c),
        !is_whitespace(c) ==> !is_whitespace(ascii_lower(c)),
        is_tag_char(c) ==> is_tag_char(ascii_lower(c)),
{
    if 'A' <= c && c <= 'Z' {
        assert('a' <= ascii_lower(c) && ascii_lower(c) <= 'z');
    }
}

proof fn lemma_trimmed_end_kept(k: Seq<bool>, x: int, e: int)
    requires
        x <= e,
        trimmed_end(k, x, e) > x,
    ensures
        k[trimmed_end(k, x, e) - 1],
    decreases e - x,
{
    if e > x && !k[e - 1] {
        lemma_trimmed_end_kept(k, x, e - 1);
    }
}

proof fn lemma_bodies_clean(s: Seq<char>, spans: Seq<(int, int)>)
    requires
        all_ascii(s),
        spans_within(spans, s.len() as int),
        spans_unflagged(spans, white_flags(s)),
    ensures
        tag_bodies(s, keep_flags(s), spans, '#') matches Some(bs) ==> forall|i: int|
            0 <= i < bs.len() ==> is_clean_body(#[trigger] bs[i]),
    decreases spans.len(),
{
    if spans.len() > 0 {
        let k = keep_flags(s);
        assert(spans_within(spans.drop_last(), s.len() as int));
        assert(spans_unflagged(spans.drop_last(), white_flags(s))) by {
            assert forall|m: int, j: int|
                #![trigger spans.drop_last()[m], white_flags(s)[j]]
                0 <= m < spans.drop_last().len() && spans.drop_last()[m].0 <= j < spans.drop_last()[m].1 implies !white_flags(
                s,
            )[j] by {
                assert(spans.drop_last()[m] == spans[m]);
            }
        }
        lemma_bodies_clean(s, spans.drop_last());
        let p = spans.last();
        assert(p == spans[spans.len() - 1]);
        if let Some(bs) = tag_bodies(s, k, spans, '#') {
            let prev = tag_bodies(s, k, spans.drop_last(), '#')->0;
            if let WordTag::Body(b) = word_tag(s, k, p, '#') {
                let t = trimmed_end(k, p.0, p.1);
                crate::tag_laws::lemma_trimmed_end_bounds(k, p.0, p.1);
                lemma_trimmed_end_kept(k, p.0, p.1);
                assert(s[p.0] == '#');
                assert(!k[p.0]);
                assert(b == s.subrange(p.0 + 1, t));
                assert forall|i: int| 0 <= i < b.len() implies is_ascii_char(#[trigger] b[i]) && !is_whitespace(b[i]) by {
                    assert(b[i] == s[p.0 + 1 + i]);
                    assert(!white_flags(s)[p.0 + 1 + i]);
                }
                assert(b.last() == s[t - 1]);
                assert(bs == prev.push(b));
                assert forall|i: int| 0 <= i < bs.len() implies is_clean_body(#[trigger] bs[i]) by {
                    if i < prev.len() {
                        assert(bs[i] == prev[i]);
                    }
                }
            }
        }
    }
}

proof fn lemma_finished_clean(bs: Seq<Seq<char>>)
    requires
        forall|i: int| 0 <= i < bs.len() ==> is_clean_body(#[trigger] bs[i]),
    ensures
        forall|i: int| 0 <= i < finished_tags(bs).len() ==> is_clean_tag(#[trigger] finished_tags(bs)[i]),
    decreases bs.len(),
{
    if bs.len() > 0 {
        assert(forall|i: int| 0 <= i < bs.drop_last().len() ==> bs.drop_last()[i] == bs[i]);
        lemma_finished_clean(bs.drop_last());
        let b = bs.last();
        assert(is_clean_body(bs[bs.len() - 1]));
        let t = lowercase(b);
        assert(all_ascii(b));
        assert(t == b.map_values(|c: char| ascii_lower(c)));
        assert forall|i: int| 0 <= i < t.len() implies is_ascii_char(#[trigger] t[i]) && !is_whitespace(t[i]) by {
            lemma_ascii_lower(b[i]);
        }
        lemma_ascii_lower(b.last());
        assert(t.last() == ascii_lower(b.last()));
        assert(t.map_values(|c: char| ascii_lower(c)) =~= t) by {
            assert forall|i: int| 0 <= i < t.len() implies #[trigger] ascii_lower(t[i]) == t[i] by {
                lemma_ascii_lower(b[i]);
            }
        }
        let rest = finished_tags(bs.drop_last());
        assert forall|i: int| 0 <= i < finished_tags(bs).len() implies is_clean_tag(#[trigger] finished_tags(bs)[i]) by {
            if i < rest.len() {
                assert(finished_tags(bs)[i] == rest[i]);
            }
        }
    }
}

/// The hashtags of ASCII text are clean tags.
proof fn lemma_ascii_tags_clean(s: Seq<char>)
    requires
        all_ascii(s),
    ensures
        tags_of(s, '#') matches Some(ts) ==> forall|i: int| 0 <= i < ts.len() ==> is_clean_tag(#[trigger] ts[i]),
{
    lemma_word_spans_within(white_flags(s));
    let spans = word_spans(white_flags(s));
    lemma_bodies_clean(s, spans);
    if let Some(bs) = tag_bodies(s, keep_flags(s), spans, '#') {
        lemma_finished_clean(bs);
    }
}

/// A clean tag written back as a `#` word is read as itself.
proof fn lemma_clean_tag_reads_back(t: Seq<char>)
    requires
        is_clean_tag(t),
    ensures
        tags_of(seq!['#'] + t, '#') == Some(seq![t]),
{
    let h = seq!['#'] + t;
    let n = h.len() as int;
    assert forall|i: int| 0 <= i < h.len() implies !is_whitespace(#[trigger] h[i]) by {
        if i > 0 {
            assert(h[i] == t[i - 1]);
        }
    }
    lemma_single_word_tags(h, '#');
    let k = keep_flags(h);
    assert(h[n - 1] == t.last());
    assert(k[n - 1]);
    assert(trimmed_end(k, 0, n) == n);
    assert(h.subrange(1, n) =~= t);
    assert(all_ascii(t));
    assert(lowercase(t) == t);
    let one = seq![t];
    assert(one.drop_last() =~= Seq::<Seq<char>>::empty());
    assert(finished_tags(Seq::<Seq<char>>::empty()) == Seq::<Seq<char>>::empty());
    assert(finished_tags(one) =~= seq![t]);
}

proof fn lemma_clean_tags_read_back(ts: Seq<Seq<char>>)
    requires
        forall|i: int| 0 <= i < ts.len() ==> is_clean_tag(#[trigger] ts[i]),
    ensures
        tags_of_words(as_hashtag_words(ts), '#') == Some(ts),
    decreases ts.len(),
{
    if ts.len() > 0 {
        assert(forall|i: int| 0 <= i < ts.drop_last().len() ==> ts.drop_last()[i] == ts[i]);
        lemma_clean_tags_read_back(ts.drop_last());
        assert(as_hashtag_words(ts).drop_last() =~= as_hashtag_words(ts.drop_last()));
        assert(as_hashtag_words(ts).last() == seq!['#'] + ts.last());
        assert(is_clean_tag(ts[ts.len() - 1]));
        lemma_clean_tag_reads_back(ts.last());
        assert(ts.drop_last() + seq![ts.last()] =~= ts);
    }
}

/// On ASCII text, writing the hashtags back as `#` words joined with spaces
/// and extracting again gives the same hashtags.
pub proof fn law_hashtags_read_back(s: Seq<char>)
    requires
        all_ascii(s),
    ensures
        tags_of(s, '#') matches Some(ts) ==> tags_of(join_words(as_hashtag_words(ts)), '#') == Some(ts),
{
    lemma_ascii_tags_clean(s);
    if let Some(ts) = tags_of(s, '#') {
        law_tags_of_joined_words(as_hashtag_words(ts), '#');
        lemma_clean_tags_read_back(ts);
    }
}

/// Appending a character that is neither alphanumeric, nor `_`, nor whitespace
/// to a word changes none of its tags: such trailing characters are trimmed
/// (the one exception is the lone sigil, which becomes a tag word).
pub proof fn law_trailing_punctuation_is_trimmed(w: Seq<char>, c: char, sigil: char)
    requires
        is_word(w),
        !is_whitespace(c),
        !is_alphanumeric(c),
        c != '_',
        w.len() >= 2 || w[0] != sigil,
    ensures
        tags_of(w.push(c), sigil) == tags_of(w, sigil),
{
    let v = w.push(c);
    let n = w.len() as int;
    assert(is_word(v)) by {
        assert forall|i: int| 0 <= i < v.len() implies !is_whitespace(#[trigger] v[i]) by {
            if i < n {
                assert(v[i] == w[i]);
            }
        }
    }
    lemma_single_word_tags(w, sigil);
    lemma_single_word_tags(v, sigil);
    let kv = keep_flags(v);
    let kw = keep_flags(w);
    assert(!kv[n]);
    assert(trimmed_end(kv, 0, n + 1) == trimmed_end(kv, 0, n));
    crate::tag_laws::lemma_trimmed_end_shift(kv, kw, 0, n, 0);
    crate::tag_laws::lemma_trimmed_end_bounds(kw, 0, n);
    let t = trimmed_end(kw, 0, n);
    assert(v[0] == w[0]);
    if t > 0 {
        assert(v.subrange(1, t) =~= w.subrange(1, t));
    }
    assert(word_tag(v, kv, (0, n + 1), sigil) == word_tag(w, kw, (0, n), sigil));
}

/// Appending an alphanumeric character or `_` to a tag word extends its tag:
/// the word's one tag is the lower-cased text after the sigil, kept unless it
/// lower-cases to nothing.
pub proof fn law_tag_characters_are_kept(w: Seq<char>, c: char, sigil: char)
    requires
        is_word(w),
        w[0] == sigil,
        !is_whitespace(c),
        is_alphanumeric(c) || c == '_',
    ensures
        tags_of(w.push(c), sigil) == if lowercase(w.push(c).skip(1)).len() > 0 {
            Some(seq![lowercase(w.push(c).skip(1))])
        } else {
            Some(Seq::<Seq<char>>::empty())
        },
{
    let v = w.push(c);
    let n = w.len() as int;
    assert(is_word(v)) by {
        assert forall|i: int| 0 <= i < v.len() implies !is_whitespace(#[trigger] v[i]) by {
            if i < n {
                assert(v[i] == w[i]);
            }
        }
    }
    lemma_single_word_tags(v, sigil);
    let kv = keep_flags(v);
    assert(kv[n]);
    assert(trimmed_end(kv, 0, n + 1) == n + 1);
    assert(v.subrange(1, n + 1) =~= v.skip(1));
    let b = v.skip(1);
    let one = seq![b];
    assert(one.drop_last() =~= Seq::<Seq<char>>::empty());
    assert(one.last() == b);
    assert(finished_tags(Seq::<Seq<char>>::empty()) == Seq::<Seq<char>>::empty());
    if lowercase(b).len() > 0 {
        assert(Seq::<Seq<char>>::empty().push(lowercase(b)) =~= seq![lowercase(b)]);
    }
}

/// The hashtags of ASCII text end in an ASCII letter, digit or `_`, and hold
/// no upper-case letter.
pub proof fn law_ascii_hashtags_end_in_tag_characters(s: Seq<char>)
    requires
        all_ascii(s),
    ensures
        tags_of(s, '#') matches Some(ts) ==> forall|i: int|
            0 <= i < ts.len() ==> {
                let t = #[trigger] ts[i];
                &&& t.len() > 0
                &&& is_ascii_alnum(t.last()) || t.last() == '_'
                &&& forall|j: int| 0 <= j < t.len() ==> !('A' <= #[trigger] t[j] && t[j] <= 'Z')
            },
{
    lemma_ascii_tags_clean(s);
    if let Some(ts) = tags_of(s, '#') {
        assert forall|i: int| 0 <= i < ts.len() implies {
            let t = #[trigger] ts[i];
            &&& t.len() > 0
            &&& is_ascii_alnum(t.last()) || t.last() == '_'
            &&& forall|j: int| 0 <= j < t.len() ==> !('A' <= #[trigger] t[j] && t[j] <= 'Z')
        } by {
            let t = ts[i];
            assert(is_clean_tag(t));
            assert(is_ascii_char(t[t.len() - 1]));
            assert forall|j: int| 0 <= j < t.len() implies !('A' <= #[trigger] t[j] && t[j] <= 'Z') by {
                assert(t.map_values(|c: char| ascii_lower(c))[j] == t[j]);
                if 'A' <= t[j] && t[j] <= 'Z' {
                    assert('a' <= ascii_lower(t[j]));
                }
            }
        }
    }
}

} // verus!

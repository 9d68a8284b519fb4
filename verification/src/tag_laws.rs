//! Laws of tag extraction: tags are never empty, content without the sigil has
//! none, and extraction works word by word, so that the tags of two texts
//! joined by whitespace are the tags of the first followed by those of the
//! second.

use vstd::prelude::*;
use crate::parsing::{
    finished_tags, keep_flags, lemma_run_end_bounds, run_end, runs_from, tag_bodies, tags_of,
    trimmed_end, white_flags, word_spans, word_tag, WordTag,
};
use crate::text::is_whitespace;

verus! {

/// Spans moved right by `d` positions.
pub open spec fn shift_spans(spans: Seq<(int, int)>, d: int) -> Seq<(int, int)> {
    spans.map_values(|p: (int, int)| (p.0 + d, p.1 + d))
}

/// Spans that lie inside a text of length `len`, none of them empty.
pub open spec fn spans_within(spans: Seq<(int, int)>, len: int) -> bool {
    forall|k: int| 0 <= k < spans.len() ==> 0 <= (#[trigger] spans[k]).0 < spans[k].1 <= len
}

/// Tag bodies of two span lists one after the other.
pub open spec fn join_bodies(x: Option<Seq<Seq<char>>>, y: Option<Seq<Seq<char>>>) -> Option<Seq<Seq<char>>> {
    match (x, y) {
        (Some(a), Some(b)) => Some(a + b),
        _ => None,
    }
}

/// Spans whose positions are all unflagged.
pub open spec fn spans_unflagged(spans: Seq<(int, int)>, white: Seq<bool>) -> bool {
    forall|k: int, j: int|
        #![trigger spans[k], white[j]]
        0 <= k < spans.len() && spans[k].0 <= j < spans[k].1 ==> !white[j]
}

proof fn lemma_runs_within(white: Seq<bool>, i: int)
    requires
        0 <= i <= white.len(),
    ensures
        spans_within(runs_from(white, i), white.len() as int),
        spans_unflagged(runs_from(white, i), white),
        forall|k: int| 0 <= k < runs_from(white, i).len() ==> i <= (#[trigger] runs_from(white, i)[k]).0,
    decreases white.len() - i,
{
    if i < white.len() {
        if white[i] {
            lemma_runs_within(white, i + 1);
        } else {
            let e = run_end(white, i);
            lemma_run_end_bounds(white, i);
            lemma_runs_within(white, e);
            let rs = runs_from(white, i);
            assert(rs == seq![(i, e)] + runs_from(white, e));
            assert forall|k: int| 0 <= k < rs.len() implies 0 <= (#[trigger] rs[k]).0 < rs[k].1 <= white.len()
                && i <= rs[k].0 by {
                if k > 0 {
                    assert(rs[k] == runs_from(white, e)[k - 1]);
                }
            }
            assert forall|k: int, j: int|
                #![trigger rs[k], white[j]]
                0 <= k < rs.len() && rs[k].0 <= j < rs[k].1 implies !white[j] by {
                if k > 0 {
                    assert(rs[k] == runs_from(white, e)[k - 1]);
                }
            }
        }
    }
}

/// The word spans of a text lie inside it, are not empty, and hold no
/// whitespace.
pub(crate) proof fn lemma_word_spans_within(w: Seq<bool>)
    ensures
        spans_within(word_spans(w), w.len() as int),
        spans_unflagged(word_spans(w), w),
{
    lemma_runs_within(w, 0);
}

proof fn lemma_run_end_concat_a(wa: Seq<bool>, wb: Seq<bool>, i: int)
    requires
        0 <= i <= wa.len(),
    ensures
        run_end(wa + seq![true] + wb, i) == run_end(wa, i),
    decreases wa.len() - i,
{
    let w = wa + seq![true] + wb;
    if i < wa.len() {
        assert(w[i] == wa[i]);
        lemma_run_end_concat_a(wa, wb, i + 1);
    } else {
        assert(w[i]);
    }
}

proof fn lemma_run_end_concat_b(wa: Seq<bool>, wb: Seq<bool>, j: int)
    requires
        0 <= j <= wb.len(),
    ensures
        run_end(wa + seq![true] + wb, wa.len() as int + 1 + j) == run_end(wb, j) + wa.len() as int + 1,
    decreases wb.len() - j,
{
    let w = wa + seq![true] + wb;
    if j < wb.len() {
        assert(w[wa.len() as int + 1 + j] == wb[j]);
        lemma_run_end_concat_b(wa, wb, j + 1);
        assert(wa.len() + 1 + (j + 1) == wa.len() as int + 1 + j + 1);
    }
}

proof fn lemma_runs_concat_b(wa: Seq<bool>, wb: Seq<bool>, j: int)
    requires
        0 <= j <= wb.len(),
    ensures
        runs_from(wa + seq![true] + wb, wa.len() as int + 1 + j) == shift_spans(runs_from(wb, j), wa.len() as int + 1),
    decreases wb.len() - j,
{
    let w = wa + seq![true] + wb;
    let d = wa.len() as int + 1;
    if j < wb.len() {
        assert(w[d + j] == wb[j]);
        if wb[j] {
            lemma_runs_concat_b(wa, wb, j + 1);
            assert(d + (j + 1) == d + j + 1);
        } else {
            let e = run_end(wb, j);
            lemma_run_end_bounds(wb, j);
            lemma_run_end_concat_b(wa, wb, j);
            lemma_runs_concat_b(wa, wb, e);
            assert(runs_from(w, d + j) == seq![(d + j, e + d)] + runs_from(w, e + d));
            assert(shift_spans(seq![(j, e)] + runs_from(wb, e), d) =~= seq![(d + j, e + d)] + shift_spans(
                runs_from(wb, e),
                d,
            ));
        }
    } else {
        assert(shift_spans(Seq::<(int, int)>::empty(), d) =~= Seq::<(int, int)>::empty());
    }
}

proof fn lemma_runs_concat_a(wa: Seq<bool>, wb: Seq<bool>, i: int)
    requires
        0 <= i <= wa.len(),
    ensures
        runs_from(wa + seq![true] + wb, i) == runs_from(wa, i) + shift_spans(runs_from(wb, 0), wa.len() as int + 1),
    decreases wa.len() - i,
{
    let w = wa + seq![true] + wb;
    let tail = shift_spans(runs_from(wb, 0), wa.len() as int + 1);
    if i < wa.len() {
        assert(w[i] == wa[i]);
        if wa[i] {
            lemma_runs_concat_a(wa, wb, i + 1);
        } else {
            let e = run_end(wa, i);
            lemma_run_end_bounds(wa, i);
            lemma_run_end_concat_a(wa, wb, i);
            lemma_runs_concat_a(wa, wb, e);
            assert(seq![(i, e)] + (runs_from(wa, e) + tail) =~= (seq![(i, e)] + runs_from(wa, e)) + tail);
        }
    } else {
        assert(w[i]);
        lemma_runs_concat_b(wa, wb, 0);
        assert(runs_from(wa, i) + tail =~= tail);
    }
}

/// The words of two texts joined by a whitespace character are the words of
/// the first followed by those of the second.
proof fn lemma_word_spans_concat(wa: Seq<bool>, wb: Seq<bool>)
    ensures
        word_spans(wa + seq![true] + wb) == word_spans(wa) + shift_spans(word_spans(wb), wa.len() as int + 1),
{
    lemma_runs_concat_a(wa, wb, 0);
}

pub(crate) proof fn lemma_trimmed_end_bounds(k: Seq<bool>, x: int, e: int)
    requires
        x <= e,
    ensures
        x <= trimmed_end(k, x, e) <= e,
    decreases e - x,
{
    if e > x && !k[e - 1] {
        lemma_trimmed_end_bounds(k, x, e - 1);
    }
}

pub(crate) proof fn lemma_trimmed_end_shift(k1: Seq<bool>, k2: Seq<bool>, x: int, e: int, d: int)
    requires
        x <= e,
        forall|i: int| x <= i < e ==> k1[i + d] == k2[i],
    ensures
        trimmed_end(k1, x + d, e + d) == trimmed_end(k2, x, e) + d,
    decreases e - x,
{
    if e > x {
        assert(k1[(e - 1) + d] == k2[e - 1]);
        assert(e + d - 1 == (e - 1) + d);
        if !k2[e - 1] {
            lemma_trimmed_end_shift(k1, k2, x, e - 1, d);
        }
    }
}

/// Where the word sits in the text makes no difference to what it
/// contributes.
pub(crate) proof fn lemma_word_tag_shift(
    s1: Seq<char>,
    k1: Seq<bool>,
    s2: Seq<char>,
    k2: Seq<bool>,
    x: int,
    y: int,
    d: int,
    sigil: char,
)
    requires
        0 <= x < y <= s2.len(),
        0 <= x + d,
        y + d <= s1.len(),
        forall|i: int| x <= i < y ==> s1[i + d] == s2[i] && k1[i + d] == k2[i],
    ensures
        word_tag(s1, k1, (x + d, y + d), sigil) == word_tag(s2, k2, (x, y), sigil),
{
    assert(s1[x + d] == s2[x]);
    lemma_trimmed_end_shift(k1, k2, x, y, d);
    lemma_trimmed_end_bounds(k2, x, y);
    let t = trimmed_end(k2, x, y);
    if t > x {
        assert forall|j: int| 0 <= j < t - (x + 1) implies #[trigger] s1.subrange(x + d + 1, t + d)[j] == s2.subrange(
            x + 1,
            t,
        )[j] by {
            assert(s1[(x + 1 + j) + d] == s2[x + 1 + j]);
        }
        assert(s1.subrange(x + d + 1, t + d) =~= s2.subrange(x + 1, t));
    }
}

proof fn lemma_bodies_shift(
    s1: Seq<char>,
    k1: Seq<bool>,
    s2: Seq<char>,
    k2: Seq<bool>,
    spans: Seq<(int, int)>,
    d: int,
    sigil: char,
)
    requires
        spans_within(spans, s2.len() as int),
        0 <= d,
        s2.len() + d <= s1.len(),
        forall|i: int| 0 <= i < s2.len() ==> s1[i + d] == s2[i] && k1[i + d] == k2[i],
    ensures
        tag_bodies(s1, k1, shift_spans(spans, d), sigil) == tag_bodies(s2, k2, spans, sigil),
    decreases spans.len(),
{
    if spans.len() > 0 {
        assert(shift_spans(spans, d).drop_last() =~= shift_spans(spans.drop_last(), d));
        lemma_bodies_shift(s1, k1, s2, k2, spans.drop_last(), d, sigil);
        let last = spans.last();
        assert(spans[spans.len() - 1] == last);
        lemma_word_tag_shift(s1, k1, s2, k2, last.0, last.1, d, sigil);
    }
}

proof fn lemma_bodies_concat(s: Seq<char>, k: Seq<bool>, xs: Seq<(int, int)>, ys: Seq<(int, int)>, sigil: char)
    ensures
        tag_bodies(s, k, xs + ys, sigil) == join_bodies(
            tag_bodies(s, k, xs, sigil),
            tag_bodies(s, k, ys, sigil),
        ),
    decreases ys.len(),
{
    if ys.len() == 0 {
        assert(xs + ys =~= xs);
        if let Some(bx) = tag_bodies(s, k, xs, sigil) {
            assert(bx + Seq::<Seq<char>>::empty() =~= bx);
        }
    } else {
        assert((xs + ys).drop_last() =~= xs + ys.drop_last());
        assert((xs + ys).last() == ys.last());
        lemma_bodies_concat(s, k, xs, ys.drop_last(), sigil);
        if let Some(bx) = tag_bodies(s, k, xs, sigil) {
            if let Some(by) = tag_bodies(s, k, ys.drop_last(), sigil) {
                if let WordTag::Body(b) = word_tag(s, k, ys.last(), sigil) {
                    assert((bx + by).push(b) =~= bx + by.push(b));
                }
            }
        }
    }
}

pub(crate) proof fn lemma_finished_concat(xs: Seq<Seq<char>>, ys: Seq<Seq<char>>)
    ensures
        finished_tags(xs + ys) == finished_tags(xs) + finished_tags(ys),
    decreases ys.len(),
{
    if ys.len() == 0 {
        assert(xs + ys =~= xs);
        assert(finished_tags(xs) + Seq::<Seq<char>>::empty() =~= finished_tags(xs));
    } else {
        assert((xs + ys).drop_last() =~= xs + ys.drop_last());
        assert((xs + ys).last() == ys.last());
        lemma_finished_concat(xs, ys.drop_last());
        let t = crate::text::lowercase(ys.last());
        assert((finished_tags(xs) + finished_tags(ys.drop_last())).push(t) =~= finished_tags(xs) + finished_tags(
            ys.drop_last(),
        ).push(t));
    }
}

/// Extraction works word by word: the tags of two texts joined by a
/// whitespace character are the tags of the first followed by the tags of the
/// second, and extraction fails on the joined text exactly when it fails on
/// one of the two.
pub proof fn law_tags_split_at_whitespace(a: Seq<char>, sep: char, b: Seq<char>, sigil: char)
    requires
        is_whitespace(sep),
    ensures
        tags_of(a + seq![sep] + b, sigil) == join_bodies(tags_of(a, sigil), tags_of(b, sigil)),
{
    let s = a + seq![sep] + b;
    let n = a.len() as int;
    assert(white_flags(s) =~= white_flags(a) + seq![true] + white_flags(b));
    lemma_word_spans_concat(white_flags(a), white_flags(b));
    let spans_a = word_spans(white_flags(a));
    let spans_b = word_spans(white_flags(b));
    lemma_word_spans_within(white_flags(a));
    lemma_word_spans_within(white_flags(b));
    let ks = keep_flags(s);
    lemma_bodies_concat(s, ks, spans_a, shift_spans(spans_b, n + 1), sigil);
    assert(shift_spans(spans_a, 0) =~= spans_a);
    assert forall|i: int| 0 <= i < a.len() implies s[i + 0] == a[i] && ks[i + 0] == keep_flags(a)[i] by {}
    lemma_bodies_shift(s, ks, a, keep_flags(a), spans_a, 0, sigil);
    assert forall|i: int| 0 <= i < b.len() implies s[i + (n + 1)] == b[i] && ks[i + (n + 1)] == keep_flags(
        b,
    )[i] by {}
    lemma_bodies_shift(s, ks, b, keep_flags(b), spans_b, n + 1, sigil);
    let ba = tag_bodies(a, keep_flags(a), spans_a, sigil);
    let bb = tag_bodies(b, keep_flags(b), spans_b, sigil);
    if let (Some(x), Some(y)) = (ba, bb) {
        lemma_finished_concat(x, y);
    }
}

/// The tags of two texts joined by a space are the tags of the first followed
/// by those of the second.
pub proof fn law_tags_split_at_space(a: Seq<char>, b: Seq<char>, sigil: char)
    ensures
        tags_of(a + seq![' '] + b, sigil) == join_bodies(tags_of(a, sigil), tags_of(b, sigil)),
{
    law_tags_split_at_whitespace(a, ' ', b, sigil);
}

/// Every extracted tag has at least one character.
pub proof fn law_tags_nonempty(content: Seq<char>, sigil: char)
    ensures
        tags_of(content, sigil) matches Some(ts) ==> forall|i: int|
            0 <= i < ts.len() ==> (#[trigger] ts[i]).len() > 0,
{
    if let Some(bs) = tag_bodies(
        content,
        keep_flags(content),
        word_spans(white_flags(content)),
        sigil,
    ) {
        lemma_finished_nonempty(bs);
    }
}

proof fn lemma_finished_nonempty(bs: Seq<Seq<char>>)
    ensures
        forall|i: int| 0 <= i < finished_tags(bs).len() ==> (#[trigger] finished_tags(bs)[i]).len() > 0,
    decreases bs.len(),
{
    if bs.len() > 0 {
        lemma_finished_nonempty(bs.drop_last());
        let rest = finished_tags(bs.drop_last());
        assert forall|i: int| 0 <= i < finished_tags(bs).len() implies (#[trigger] finished_tags(bs)[i]).len()
            > 0 by {
            if i < rest.len() {
                assert(finished_tags(bs)[i] == rest[i]);
            }
        }
    }
}

proof fn lemma_bodies_without_sigil(s: Seq<char>, k: Seq<bool>, spans: Seq<(int, int)>, sigil: char)
    requires
        spans_within(spans, s.len() as int),
        !s.contains(sigil),
    ensures
        tag_bodies(s, k, spans, sigil) == Some(Seq::<Seq<char>>::empty()),
    decreases spans.len(),
{
    if spans.len() > 0 {
        lemma_bodies_without_sigil(s, k, spans.drop_last(), sigil);
        let last = spans.last();
        assert(spans[spans.len() - 1] == last);
        assert(s[last.0] != sigil);
    }
}

/// Content in which the sigil never occurs has no tags for it.
pub proof fn law_no_sigil_no_tags(content: Seq<char>, sigil: char)
    requires
        !content.contains(sigil),
    ensures
        tags_of(content, sigil) == Some(Seq::<Seq<char>>::empty()),
{
    lemma_word_spans_within(white_flags(content));
    lemma_bodies_without_sigil(content, keep_flags(content), word_spans(white_flags(content)), sigil);
}

} // verus!

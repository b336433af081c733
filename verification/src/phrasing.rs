//! Caption phrasing: a spoken line cut into short on-screen phrases.
//!
//! Words are gathered greedily into phrases of at most 38 bytes, and a phrase
//! closes early after a word ending a clause (`.` `!` `?` `;` `:`) once it is
//! 14 bytes long. When a line is on screen long enough to need more cues, the
//! longest phrase of several words is halved at its middle word until there
//! are enough phrases. The timing of the cues is left to the caller.
use vstd::prelude::*;

use crate::captions::{closed_and_open, lemma_join_concat, lemma_join_two, normalized, utf8_len_of};
use crate::text::{
    append_chars, chars_of, is_word, join, join_chars, lemma_join_push,
    lemma_words_from_append_word, lemma_words_from_are_words, lemma_words_from_word,
    lemma_words_of_join, split_whitespace, string_of, string_views, strings_of, utf8_len, views,
    words,
};

verus! {

// ---------------------------------------------------------------------------
// Specifications
// ---------------------------------------------------------------------------

/// A word that ends a clause: its last character is `.`, `!`, `?`, `;` or `:`.
pub open spec fn ends_clause(w: Seq<char>) -> bool {
    w.len() > 0 && {
        let c = w.last();
        c == '.' || c == '!' || c == '?' || c == ';' || c == ':'
    }
}

/// Greedy phrasing of the remaining words `ws`, with phrase `cur` open and
/// `done` already closed.
pub open spec fn phrase_from(
    ws: Seq<Seq<char>>,
    cur: Seq<char>,
    done: Seq<Seq<char>>,
) -> Seq<Seq<char>>
    decreases ws.len(),
{
    if ws.len() == 0 {
        closed_and_open(done, cur)
    } else {
        let w = ws[0];
        let breaks = cur.len() > 0 && utf8_len(cur) + 1 + utf8_len(w) > 38;
        let done2 = if breaks {
            done.push(cur)
        } else {
            done
        };
        let base = if breaks {
            seq![]
        } else {
            cur
        };
        let next = if base.len() > 0 {
            base.push(' ') + w
        } else {
            w
        };
        if ends_clause(w) && utf8_len(next) >= 14 {
            phrase_from(ws.drop_first(), seq![], done2.push(next))
        } else {
            phrase_from(ws.drop_first(), next, done2)
        }
    }
}

/// The phrases of a caption line before any halving.
pub open spec fn clause_phrases(text: Seq<char>) -> Seq<Seq<char>> {
    phrase_from(words(text), seq![], seq![])
}

/// A phrase in normal form: non-empty, and its words joined by single spaces.
pub open spec fn phrase_form(p: Seq<char>) -> bool {
    words(p).len() > 0 && join(words(p), seq![' ']) == p
}

// ---------------------------------------------------------------------------
// Lemmas of the greedy stage
// ---------------------------------------------------------------------------

proof fn lemma_word_form(w: Seq<char>)
    requires
        is_word(w),
    ensures
        phrase_form(w),
        words(w) == seq![w],
{
    lemma_words_from_word(w, seq![]);
    assert(Seq::<char>::empty() + w =~= w);
}

proof fn lemma_extend_form(cur: Seq<char>, w: Seq<char>)
    requires
        phrase_form(cur),
        is_word(w),
    ensures
        phrase_form(cur.push(' ') + w),
{
    assert(cur.push(' ') + w =~= cur + seq![' '] + w);
    lemma_words_from_append_word(cur, w, seq![]);
    lemma_join_push(words(cur), seq![' '], w);
    assert(words(cur) + seq![w] =~= words(cur).push(w));
}

/// One step of the greedy phrasing keeps the text and the normal form.
proof fn lemma_phrase_from(ws: Seq<Seq<char>>, cur: Seq<char>, done: Seq<Seq<char>>)
    requires
        forall|i: int| 0 <= i < ws.len() ==> is_word(#[trigger] ws[i]),
        forall|i: int| 0 <= i < done.len() ==> phrase_form(#[trigger] done[i]),
        cur.len() > 0 ==> phrase_form(cur),
    ensures
        join(phrase_from(ws, cur, done), seq![' ']) == join(
            closed_and_open(done, cur) + ws,
            seq![' '],
        ),
        forall|i: int|
            0 <= i < phrase_from(ws, cur, done).len() ==> phrase_form(
                #[trigger] phrase_from(ws, cur, done)[i],
            ),
    decreases ws.len(),
{
    let sep = seq![' '];
    if ws.len() == 0 {
        assert(closed_and_open(done, cur) + ws =~= closed_and_open(done, cur));
        assert forall|i: int| 0 <= i < closed_and_open(done, cur).len() implies phrase_form(
            #[trigger] closed_and_open(done, cur)[i],
        ) by {
            if i < done.len() {
                assert(closed_and_open(done, cur)[i] == done[i]);
            }
        }
    } else {
        let w = ws[0];
        let rest = ws.drop_first();
        let breaks = cur.len() > 0 && utf8_len(cur) + 1 + utf8_len(w) > 38;
        let done2 = if breaks {
            done.push(cur)
        } else {
            done
        };
        let base = if breaks {
            seq![]
        } else {
            cur
        };
        let next = if base.len() > 0 {
            base.push(' ') + w
        } else {
            w
        };
        assert forall|i: int| 0 <= i < rest.len() implies is_word(#[trigger] rest[i]) by {
            assert(rest[i] == ws[i + 1]);
        }
        assert forall|i: int| 0 <= i < done2.len() implies phrase_form(#[trigger] done2[i]) by {
            if i < done.len() {
                assert(done2[i] == done[i]);
            }
        }
        assert(is_word(w));
        if base.len() > 0 {
            lemma_extend_form(base, w);
        } else {
            lemma_word_form(w);
        }
        assert(next.len() > 0);
        if ends_clause(w) && utf8_len(next) >= 14 {
            assert forall|i: int| 0 <= i < done2.push(next).len() implies phrase_form(
                #[trigger] done2.push(next)[i],
            ) by {
                if i < done2.len() {
                    assert(done2.push(next)[i] == done2[i]);
                }
            }
            lemma_phrase_from(rest, seq![], done2.push(next));
            assert(closed_and_open(done2.push(next), seq![]) == done2.push(next));
        } else {
            lemma_phrase_from(rest, next, done2);
        }
        // both branches continue from the phrases `closed_and_open(done2, next)`
        assert(closed_and_open(done2, next) == done2.push(next));
        let before = closed_and_open(done, cur) + ws;
        let after = done2.push(next) + rest;
        if cur.len() == 0 {
            assert(after =~= done.push(w) + rest);
            assert(before =~= done + ws);
            assert(done.push(w) + rest =~= done + ws);
        } else if breaks {
            assert(after =~= done.push(cur).push(w) + rest);
            assert(before =~= done.push(cur) + ws);
            assert(done.push(cur).push(w) + rest =~= done.push(cur) + ws);
        } else {
            assert(after =~= done.push(cur.push(' ') + w) + rest);
            assert(before =~= done.push(cur).push(w) + rest);
            lemma_join_two(done, cur, w);
            if rest.len() > 0 {
                lemma_join_concat(done.push(cur.push(' ') + w), rest, sep);
                lemma_join_concat(done.push(cur).push(w), rest, sep);
            } else {
                assert(done.push(cur.push(' ') + w) + rest =~= done.push(cur.push(' ') + w));
                assert(done.push(cur).push(w) + rest =~= done.push(cur).push(w));
            }
        }
    }
}

/// The greedy phrases, which word-aligned captions keep as they are, hold the
/// authored line unchanged: joined with single spaces they are the normalized
/// line, and each is its words joined by single spaces.
pub proof fn clause_phrases_keep_words(text: Seq<char>)
    ensures
        join(clause_phrases(text), seq![' ']) == normalized(text),
        forall|i: int|
            0 <= i < clause_phrases(text).len() ==> phrase_form(#[trigger] clause_phrases(text)[i]),
{
    lemma_words_from_are_words(text, seq![]);
    lemma_phrase_from(words(text), seq![], seq![]);
    assert(closed_and_open(seq![], seq![]) + words(text) =~= words(text));
}

// ---------------------------------------------------------------------------
// Implementation of the greedy stage
// ---------------------------------------------------------------------------

/// Whether a word ends a clause.
fn word_ends_clause(w: &Vec<char>) -> (r: bool)
    ensures
        r == ends_clause(w@),
{
    if w.len() == 0 {
        return false;
    }
    let c = w[w.len() - 1];
    c == '.' || c == '!' || c == '?' || c == ';' || c == ':'
}

/// Word spans `spans` cut the words `ws` into the phrases `texts`: the spans
/// follow one another from the first word to the last, none is empty, and
/// each phrase is exactly the words of its span joined by single spaces.
pub open spec fn spans_cover(ws: Seq<Seq<char>>, spans: Seq<(int, int)>, texts: Seq<Seq<char>>) -> bool {
    &&& spans.len() == texts.len()
    &&& spans.len() == 0 ==> ws.len() == 0
    &&& spans.len() > 0 ==> spans[0].0 == 0 && spans.last().1 == ws.len()
    &&& forall|g: int|
        0 <= g < spans.len() ==> 0 <= (#[trigger] spans[g]).0 < spans[g].1 <= ws.len()
            && texts[g] == join(ws.subrange(spans[g].0, spans[g].1), seq![' '])
    &&& forall|g: int| 0 <= g < spans.len() - 1 ==> (#[trigger] spans[g]).1 == spans[g + 1].0
}

/// Word spans as integers.
pub open spec fn span_ints(v: Seq<(usize, usize)>) -> Seq<(int, int)> {
    Seq::new(v.len(), |g: int| (v[g].0 as int, v[g].1 as int))
}

proof fn lemma_extend_span(all: Seq<Seq<char>>, first: int, i: int, cur: Seq<char>)
    requires
        0 <= first <= i < all.len(),
        first < i ==> cur == join(all.subrange(first, i), seq![' ']) && cur.len() > 0,
        first == i ==> cur.len() == 0,
    ensures
        (if cur.len() > 0 {
            cur.push(' ') + all[i]
        } else {
            cur + all[i]
        }) == join(all.subrange(first, i + 1), seq![' ']),
{
    let parts = all.subrange(first, i);
    assert(all.subrange(first, i + 1) =~= parts.push(all[i]));
    lemma_join_push(parts, seq![' '], all[i]);
    if first < i {
        assert(cur.push(' ') + all[i] =~= cur + seq![' '] + all[i]);
    } else {
        assert(cur + all[i] =~= all[i]);
    }
}

/// The greedy phrases of a caption line, on characters, with the word span
/// of each.
pub fn clause_phrases_of(v: &Vec<char>) -> (r: (Vec<Vec<char>>, Vec<(usize, usize)>))
    ensures
        views(r.0@) == clause_phrases(v@),
        spans_cover(words(v@), span_ints(r.1@), views(r.0@)),
{
    let ws = split_whitespace(v);
    let ghost all = views(ws@);
    proof {
        lemma_words_from_are_words(v@, seq![]);
    }
    let mut done: Vec<Vec<char>> = Vec::new();
    let mut spans: Vec<(usize, usize)> = Vec::new();
    let mut cur: Vec<char> = Vec::new();
    let mut first: usize = 0;
    let mut i: usize = 0;
    assert(all.skip(0) =~= all);
    assert(cur@ =~= Seq::<char>::empty());
    assert(views(done@) =~= Seq::<Seq<char>>::empty());
    while i < ws.len()
        invariant
            i <= ws.len(),
            all == views(ws@),
            all == words(v@),
            forall|k: int| 0 <= k < all.len() ==> is_word(#[trigger] all[k]),
            phrase_from(all, seq![], seq![]) == phrase_from(
                all.skip(i as int),
                cur@,
                views(done@),
            ),
            first <= i,
            first < i ==> cur@ == join(all.subrange(first as int, i as int), seq![' '])
                && cur@.len() > 0,
            first == i ==> cur@.len() == 0,
            spans.len() == done.len(),
            spans.len() == 0 ==> first == 0,
            spans.len() > 0 ==> spans@[0].0 == 0 && spans@.last().1 == first,
            forall|g: int|
                0 <= g < spans.len() ==> (#[trigger] spans@[g]).0 < spans@[g].1 <= first
                    && views(done@)[g] == join(
                    all.subrange(spans@[g].0 as int, spans@[g].1 as int),
                    seq![' '],
                ),
            forall|g: int| 0 <= g < spans.len() - 1 ==> (#[trigger] spans@[g]).1 == spans@[g + 1].0,
        decreases ws.len() - i,
    {
        let w = &ws[i];
        let ghost rest = all.skip(i as int);
        assert(rest.drop_first() =~= all.skip(i + 1));
        assert(rest[0] == w@);
        assert(all[i as int] == w@);
        let cur_len = utf8_len_of(&cur);
        let w_len = utf8_len_of(w);
        if cur.len() > 0 && cur_len + 1 + w_len > 38 {
            let ghost old_done = views(done@);
            let ghost closed = cur@;
            if first == i {
                assert(false);
            }
            done.push(cur);
            spans.push((first, i));
            first = i;
            cur = Vec::new();
            assert(views(done@) =~= old_done.push(closed));
        }
        proof {
            lemma_extend_span(all, first as int, i as int, cur@);
        }
        if cur.len() > 0 {
            cur.push(' ');
        }
        append_chars(&mut cur, w);
        let cur_now = utf8_len_of(&cur);
        if word_ends_clause(w) && cur_now >= 14 {
            let ghost old_done = views(done@);
            let ghost closed = cur@;
            done.push(cur);
            spans.push((first, i + 1));
            first = i + 1;
            cur = Vec::new();
            assert(views(done@) =~= old_done.push(closed));
            assert(cur@ =~= Seq::<char>::empty());
        } else {
            assert(is_word(all[i as int]));
            assert(cur@.len() > 0);
        }
        i += 1;
    }
    if cur.len() > 0 {
        let ghost old_done = views(done@);
        let ghost closed = cur@;
        if first == i {
            assert(false);
        }
        done.push(cur);
        spans.push((first, i));
        assert(views(done@) =~= old_done.push(closed));
    }
    proof {
        let sp = span_ints(spans@);
        assert forall|g: int| 0 <= g < sp.len() implies 0 <= (#[trigger] sp[g]).0 < sp[g].1
            <= all.len() && views(done@)[g] == join(all.subrange(sp[g].0, sp[g].1), seq![' ']) by {
            assert(sp[g] == (spans@[g].0 as int, spans@[g].1 as int));
        }
        assert forall|g: int| 0 <= g < sp.len() - 1 implies (#[trigger] sp[g]).1 == sp[g + 1].0 by {
            assert(sp[g] == (spans@[g].0 as int, spans@[g].1 as int));
            assert(sp[g + 1] == (spans@[g + 1].0 as int, spans@[g + 1].1 as int));
        }
    }
    (done, spans)
}

/// The greedy phrases of a caption line, each with the span of the line's
/// words it holds (first word, one past the last), so that word timings can
/// be laid over the authored text without rewriting it.
pub fn clause_phrase_groups(text: &str) -> (r: Vec<(usize, usize, String)>)
    ensures
        Seq::new(r@.len(), |g: int| r@[g].2@) == clause_phrases(text@),
        spans_cover(
            words(text@),
            Seq::new(r@.len(), |g: int| (r@[g].0 as int, r@[g].1 as int)),
            Seq::new(r@.len(), |g: int| r@[g].2@),
        ),
{
    let v = chars_of(text);
    let (ps, spans) = clause_phrases_of(&v);
    let mut out: Vec<(usize, usize, String)> = Vec::new();
    let mut g: usize = 0;
    while g < ps.len()
        invariant
            g <= ps.len(),
            spans.len() == ps.len(),
            out.len() == g,
            forall|k: int|
                0 <= k < g ==> (#[trigger] out@[k]).0 == spans@[k].0 && out@[k].1 == spans@[k].1
                    && out@[k].2@ == ps@[k]@,
        decreases ps.len() - g,
    {
        out.push((spans[g].0, spans[g].1, string_of(&ps[g])));
        g += 1;
    }
    proof {
        assert(Seq::new(out@.len(), |k: int| out@[k].2@) =~= views(ps@));
        assert(Seq::new(out@.len(), |k: int| (out@[k].0 as int, out@[k].1 as int)) =~= span_ints(
            spans@,
        ));
    }
    out
}

// ---------------------------------------------------------------------------
// Specifications of the halving stage
// ---------------------------------------------------------------------------

/// A phrase of more than one word, which can be halved.
pub open spec fn splittable(p: Seq<char>) -> bool {
    words(p).len() > 1
}

/// Phrase `i` is the one halved next: of the phrases of several words, the
/// longest in bytes, and the last of them where several are equally long.
pub open spec fn is_longest(ps: Seq<Seq<char>>, i: int) -> bool {
    &&& 0 <= i < ps.len()
    &&& splittable(ps[i])
    &&& forall|j: int|
        0 <= j < ps.len() && splittable(#[trigger] ps[j]) ==> utf8_len(ps[j]) <= utf8_len(ps[i])
    &&& forall|j: int|
        i < j < ps.len() && splittable(#[trigger] ps[j]) ==> utf8_len(ps[j]) < utf8_len(ps[i])
}

/// The words of a phrase before its middle word, joined with single spaces.
pub open spec fn left_half(p: Seq<char>) -> Seq<char> {
    join(words(p).take(words(p).len() as int / 2), seq![' '])
}

/// The words of a phrase from its middle word on, joined with single spaces.
pub open spec fn right_half(p: Seq<char>) -> Seq<char> {
    join(words(p).skip(words(p).len() as int / 2), seq![' '])
}

/// The phrases with phrase `i` replaced by its two halves.
pub open spec fn halved_at(ps: Seq<Seq<char>>, i: int) -> Seq<Seq<char>> {
    ps.take(i) + seq![left_half(ps[i]), right_half(ps[i])] + ps.skip(i + 1)
}

/// Halving the longest phrase of several words until there are `minimum`
/// phrases or none is left to halve.
pub open spec fn refined(ps: Seq<Seq<char>>, minimum: nat) -> Seq<Seq<char>>
    decreases minimum - ps.len(),
{
    if ps.len() < minimum && exists|i: int| is_longest(ps, i) {
        let i = choose|i: int| is_longest(ps, i);
        refined(halved_at(ps, i), minimum)
    } else {
        ps
    }
}

/// The on-screen phrases of a caption line that needs at least `minimum` cues.
pub open spec fn caption_phrasing(text: Seq<char>, minimum: nat) -> Seq<Seq<char>> {
    refined(clause_phrases(text), minimum)
}

// ---------------------------------------------------------------------------
// Lemmas of the halving stage
// ---------------------------------------------------------------------------

proof fn lemma_longest_unique(ps: Seq<Seq<char>>, i: int, j: int)
    requires
        is_longest(ps, i),
        is_longest(ps, j),
    ensures
        i == j,
{
    if i < j {
        assert(splittable(ps[j]));
    } else if j < i {
        assert(splittable(ps[i]));
    }
}

/// Where some phrase has several words, one of them is halved next.
proof fn lemma_longest_exists(ps: Seq<Seq<char>>, k: int)
    requires
        0 <= k < ps.len(),
        splittable(ps[k]),
    ensures
        exists|i: int| is_longest(ps, i),
    decreases ps.len(),
{
    let n = ps.len() - 1;
    let init = ps.drop_last();
    if k == n && !(exists|j: int| 0 <= j < init.len() && splittable(#[trigger] init[j])) {
        assert forall|j: int| 0 <= j < ps.len() && splittable(#[trigger] ps[j]) implies utf8_len(
            ps[j],
        ) <= utf8_len(ps[n]) by {
            if j < n {
                assert(init[j] == ps[j]);
            }
        }
        assert(is_longest(ps, n));
    } else {
        let k2 = if k < n {
            k
        } else {
            choose|j: int| 0 <= j < init.len() && splittable(#[trigger] init[j])
        };
        assert(init[k2] == ps[k2]);
        lemma_longest_exists(init, k2);
        let b = choose|i: int| is_longest(init, i);
        assert(init[b] == ps[b]);
        if splittable(ps[n]) && utf8_len(ps[n]) >= utf8_len(ps[b]) {
            assert forall|j: int| 0 <= j < ps.len() && splittable(#[trigger] ps[j]) implies utf8_len(
                ps[j],
            ) <= utf8_len(ps[n]) by {
                if j < n {
                    assert(init[j] == ps[j]);
                }
            }
            assert(is_longest(ps, n));
        } else {
            assert forall|j: int| 0 <= j < ps.len() && splittable(#[trigger] ps[j]) implies utf8_len(
                ps[j],
            ) <= utf8_len(ps[b]) by {
                if j < n {
                    assert(init[j] == ps[j]);
                }
            }
            assert forall|j: int| b < j < ps.len() && splittable(#[trigger] ps[j]) implies utf8_len(
                ps[j],
            ) < utf8_len(ps[b]) by {
                if j < n {
                    assert(init[j] == ps[j]);
                }
            }
            assert(is_longest(ps, b));
        }
    }
}

/// Joining a sequence of phrases split in two.
proof fn lemma_join_append(a: Seq<Seq<char>>, b: Seq<Seq<char>>)
    ensures
        join(a + b, seq![' ']) == if a.len() == 0 {
            join(b, seq![' '])
        } else if b.len() == 0 {
            join(a, seq![' '])
        } else {
            join(a, seq![' ']) + seq![' '] + join(b, seq![' '])
        },
{
    if a.len() == 0 {
        assert(a + b =~= b);
    } else if b.len() == 0 {
        assert(a + b =~= a);
    } else {
        lemma_join_concat(a, b, seq![' ']);
    }
}

/// Replacing a non-empty middle stretch by another with the same join keeps
/// the join of the whole.
proof fn lemma_join_middle(
    a: Seq<Seq<char>>,
    m1: Seq<Seq<char>>,
    m2: Seq<Seq<char>>,
    b: Seq<Seq<char>>,
)
    requires
        m1.len() > 0,
        m2.len() > 0,
        join(m1, seq![' ']) == join(m2, seq![' ']),
    ensures
        join(a + m1 + b, seq![' ']) == join(a + m2 + b, seq![' ']),
{
    lemma_join_append(a, m1);
    lemma_join_append(a, m2);
    lemma_join_append(a + m1, b);
    lemma_join_append(a + m2, b);
}

/// The two halves of a phrase of several words are in normal form and, joined
/// by a space, give the phrase back.
proof fn lemma_halves(p: Seq<char>)
    requires
        phrase_form(p),
        splittable(p),
    ensures
        phrase_form(left_half(p)),
        phrase_form(right_half(p)),
        join(seq![left_half(p), right_half(p)], seq![' ']) == p,
{
    let ws = words(p);
    let mid = ws.len() as int / 2;
    let l = ws.take(mid);
    let r = ws.skip(mid);
    lemma_words_from_are_words(p, seq![]);
    assert forall|i: int| 0 <= i < l.len() implies is_word(#[trigger] l[i]) by {
        assert(l[i] == ws[i]);
    }
    assert forall|i: int| 0 <= i < r.len() implies is_word(#[trigger] r[i]) by {
        assert(r[i] == ws[i + mid]);
    }
    lemma_words_of_join(l);
    lemma_words_of_join(r);
    lemma_join_concat(l, r, seq![' ']);
    assert(l + r =~= ws);
    let two = seq![left_half(p), right_half(p)];
    assert(two.drop_last() =~= seq![left_half(p)]);
    assert(join(two.drop_last(), seq![' ']) == left_half(p));
    assert(join(two, seq![' ']) == left_half(p) + seq![' '] + right_half(p));
    assert(join(l + r, seq![' ']) == join(ws, seq![' ']));
}

/// Halving the longest phrase keeps the text and the normal form.
proof fn lemma_halved_at(ps: Seq<Seq<char>>, i: int)
    requires
        forall|j: int| 0 <= j < ps.len() ==> phrase_form(#[trigger] ps[j]),
        is_longest(ps, i),
    ensures
        join(halved_at(ps, i), seq![' ']) == join(ps, seq![' ']),
        forall|j: int|
            0 <= j < halved_at(ps, i).len() ==> phrase_form(#[trigger] halved_at(ps, i)[j]),
        halved_at(ps, i).len() == ps.len() + 1,
{
    let p = ps[i];
    lemma_halves(p);
    let a = ps.take(i);
    let b = ps.skip(i + 1);
    lemma_join_middle(a, seq![left_half(p), right_half(p)], seq![p], b);
    assert(a + seq![p] + b =~= ps);
    let h = halved_at(ps, i);
    assert forall|j: int| 0 <= j < h.len() implies phrase_form(#[trigger] h[j]) by {
        if j < i {
            assert(h[j] == ps[j]);
        } else if j == i {
            assert(h[j] == left_half(p));
        } else if j == i + 1 {
            assert(h[j] == right_half(p));
        } else {
            assert(h[j] == ps[j - 1]);
        }
    }
}

/// Halving keeps the text and the normal form, and ends with at least
/// `minimum` phrases or with every phrase a single word.
proof fn lemma_refined(ps: Seq<Seq<char>>, minimum: nat)
    requires
        forall|j: int| 0 <= j < ps.len() ==> phrase_form(#[trigger] ps[j]),
    ensures
        join(refined(ps, minimum), seq![' ']) == join(ps, seq![' ']),
        forall|j: int|
            0 <= j < refined(ps, minimum).len() ==> phrase_form(#[trigger] refined(ps, minimum)[j]),
        refined(ps, minimum).len() >= minimum || forall|j: int|
            0 <= j < refined(ps, minimum).len() ==> !splittable(
                #[trigger] refined(ps, minimum)[j],
            ),
        refined(ps, minimum).len() >= ps.len(),
    decreases minimum - ps.len(),
{
    if ps.len() < minimum && exists|i: int| is_longest(ps, i) {
        let i = choose|i: int| is_longest(ps, i);
        lemma_halved_at(ps, i);
        lemma_refined(halved_at(ps, i), minimum);
    } else if ps.len() < minimum {
        assert forall|j: int| 0 <= j < ps.len() implies !splittable(#[trigger] ps[j]) by {
            if splittable(ps[j]) {
                lemma_longest_exists(ps, j);
            }
        }
    }
}

// ---------------------------------------------------------------------------
// Laws
// ---------------------------------------------------------------------------

/// Phrasing keeps every word of the line, in order: the phrases joined with
/// single spaces are the normalized line, and no phrase is empty.
pub proof fn phrasing_keeps_words(text: Seq<char>, minimum: nat)
    ensures
        join(caption_phrasing(text, minimum), seq![' ']) == normalized(text),
        forall|j: int|
            0 <= j < caption_phrasing(text, minimum).len() ==> (#[trigger] caption_phrasing(
                text,
                minimum,
            )[j]).len() > 0,
{
    clause_phrases_keep_words(text);
    lemma_refined(clause_phrases(text), minimum);
    let r = caption_phrasing(text, minimum);
    assert forall|j: int| 0 <= j < r.len() implies (#[trigger] r[j]).len() > 0 by {
        assert(phrase_form(r[j]));
        if r[j].len() == 0 {
            assert(words(r[j]) =~= Seq::<Seq<char>>::empty());
        }
    }
}

/// Phrasing gives at least the asked number of phrases, unless every phrase is
/// already a single word.
pub proof fn phrasing_reaches_minimum(text: Seq<char>, minimum: nat)
    ensures
        caption_phrasing(text, minimum).len() >= minimum || forall|j: int|
            0 <= j < caption_phrasing(text, minimum).len() ==> words(
                #[trigger] caption_phrasing(text, minimum)[j],
            ).len() == 1,
{
    clause_phrases_keep_words(text);
    lemma_refined(clause_phrases(text), minimum);
    let r = caption_phrasing(text, minimum);
    if r.len() < minimum {
        assert forall|j: int| 0 <= j < r.len() implies words(#[trigger] r[j]).len() == 1 by {
            assert(phrase_form(r[j]));
            assert(!splittable(r[j]));
        }
    }
}

// ---------------------------------------------------------------------------
// Implementation of the halving stage
// ---------------------------------------------------------------------------

/// The phrase halved next, or `None` when every phrase is a single word.
fn longest_splittable(ps: &Vec<Vec<char>>) -> (r: Option<usize>)
    ensures
        match r {
            Some(i) => is_longest(views(ps@), i as int),
            None => forall|j: int|
                0 <= j < ps.len() ==> !splittable(#[trigger] views(ps@)[j]),
        },
{
    let ghost vs = views(ps@);
    let mut best: Option<usize> = None;
    let mut best_len: u128 = 0;
    let mut j: usize = 0;
    while j < ps.len()
        invariant
            j <= ps.len(),
            vs == views(ps@),
            vs.len() == ps.len(),
            match best {
                Some(b) => {
                    &&& b < j
                    &&& splittable(vs[b as int])
                    &&& best_len == utf8_len(vs[b as int])
                    &&& forall|k: int|
                        0 <= k < j && splittable(#[trigger] vs[k]) ==> utf8_len(vs[k]) <= best_len
                    &&& forall|k: int|
                        b < k < j && splittable(#[trigger] vs[k]) ==> utf8_len(vs[k]) < best_len
                },
                None => forall|k: int| 0 <= k < j ==> !splittable(#[trigger] vs[k]),
            },
        decreases ps.len() - j,
    {
        let ws = split_whitespace(&ps[j]);
        assert(vs[j as int] == ps@[j as int]@);
        let len = utf8_len_of(&ps[j]);
        if ws.len() > 1 {
            let take = match best {
                Some(_) => len >= best_len,
                None => true,
            };
            if take {
                best = Some(j);
                best_len = len;
            }
        }
        j += 1;
    }
    best
}

/// The two halves of a phrase, split at its middle word.
fn halves_of(p: &Vec<char>) -> (r: (Vec<char>, Vec<char>))
    ensures
        r.0@ == left_half(p@),
        r.1@ == right_half(p@),
{
    let mut ws = split_whitespace(p);
    let ghost all = views(ws@);
    let mid = ws.len() / 2;
    let right = ws.split_off(mid);
    assert(views(ws@) =~= all.take(mid as int));
    assert(views(right@) =~= all.skip(mid as int));
    let mut sep: Vec<char> = Vec::new();
    sep.push(' ');
    assert(sep@ =~= seq![' ']);
    let l = join_chars(&ws, &sep);
    let r = join_chars(&right, &sep);
    (l, r)
}

/// Halve the longest phrase of several words until there are at least
/// `minimum` phrases or every phrase is a single word.
pub fn refine_phrases(phrases: Vec<Vec<char>>, minimum: usize) -> (r: Vec<Vec<char>>)
    ensures
        views(r@) == refined(views(phrases@), minimum as nat),
{
    let mut ps = phrases;
    while ps.len() < minimum
        invariant
            refined(views(phrases@), minimum as nat) == refined(views(ps@), minimum as nat),
        decreases minimum - ps.len(),
    {
        let found = longest_splittable(&ps);
        match found {
            None => {
                proof {
                    let vs = views(ps@);
                    assert(!(exists|i: int| is_longest(vs, i))) by {
                        if exists|i: int| is_longest(vs, i) {
                            let i = choose|i: int| is_longest(vs, i);
                            assert(splittable(vs[i]));
                        }
                    }
                    assert(refined(vs, minimum as nat) == vs);
                }
                return ps;
            },
            Some(i) => {
                let ghost vs = views(ps@);
                proof {
                    let c = choose|k: int| is_longest(vs, k);
                    lemma_longest_unique(vs, i as int, c);
                }
                let p = ps.remove(i);
                assert(p@ == vs[i as int]);
                let (l, r) = halves_of(&p);
                ps.insert(i, r);
                ps.insert(i, l);
                assert(views(ps@) =~= halved_at(vs, i as int));
            },
        }
    }
    ps
}

/// The on-screen phrases of a caption line that needs at least `minimum`
/// cues: greedy phrases of at most 38 bytes, closed early after a clause, then
/// the longest phrase of several words halved until there are `minimum`
/// phrases or none is left to halve. The timing of each cue is the caller's.
pub fn caption_phrase_texts(text: &str, minimum: usize) -> (r: Vec<String>)
    ensures
        string_views(r@) == caption_phrasing(text@, minimum as nat),
{
    let v = chars_of(text);
    let (ps, _) = clause_phrases_of(&v);
    let refined_ps = refine_phrases(ps, minimum);
    strings_of(&refined_ps)
}

} // verus!

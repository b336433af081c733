//! Character-level text utilities shared by captions, validation and prompts.
//!
//! Text is handled as sequences of Unicode scalar values (`Seq<char>`), the
//! view Verus gives to `str` and `String`.
use vstd::prelude::*;

verus! {

// ---------------------------------------------------------------------------
// Specifications
// ---------------------------------------------------------------------------

/// Unicode `White_Space`, the property behind `char::is_whitespace`.
pub open spec fn is_ws(c: char) -> bool {
    let u = c as u32;
    ||| 0x09 <= u <= 0x0d
    ||| u == 0x20
    ||| u == 0x85
    ||| u == 0xa0
    ||| u == 0x1680
    ||| 0x2000 <= u <= 0x200a
    ||| u == 0x2028
    ||| u == 0x2029
    ||| u == 0x202f
    ||| u == 0x205f
    ||| u == 0x3000
}

/// Views of a sequence of character vectors.
pub open spec fn views(v: Seq<Vec<char>>) -> Seq<Seq<char>> {
    Seq::new(v.len(), |i: int| v[i]@)
}

/// Views of a sequence of string slices.
pub open spec fn str_views(v: Seq<&str>) -> Seq<Seq<char>> {
    Seq::new(v.len(), |i: int| v[i]@)
}

/// Views of a sequence of strings.
pub open spec fn string_views(v: Seq<String>) -> Seq<Seq<char>> {
    Seq::new(v.len(), |i: int| v[i]@)
}

/// Splitting on whitespace, scanning left to right with the word `cur` in progress.
pub open spec fn words_from(s: Seq<char>, cur: Seq<char>) -> Seq<Seq<char>>
    decreases s.len(),
{
    if s.len() == 0 {
        if cur.len() == 0 {
            seq![]
        } else {
            seq![cur]
        }
    } else if is_ws(s[0]) {
        (if cur.len() == 0 {
            Seq::<Seq<char>>::empty()
        } else {
            seq![cur]
        }) + words_from(s.drop_first(), seq![])
    } else {
        words_from(s.drop_first(), cur.push(s[0]))
    }
}

/// The whitespace-separated words of `s` (`str::split_whitespace`).
pub open spec fn words(s: Seq<char>) -> Seq<Seq<char>> {
    words_from(s, seq![])
}

/// `parts` joined with `sep` between consecutive parts.
pub open spec fn join(parts: Seq<Seq<char>>, sep: Seq<char>) -> Seq<char>
    decreases parts.len(),
{
    if parts.len() == 0 {
        seq![]
    } else if parts.len() == 1 {
        parts[0]
    } else {
        join(parts.drop_last(), sep) + sep + parts.last()
    }
}

/// `s` without leading whitespace.
pub open spec fn trim_start(s: Seq<char>) -> Seq<char>
    decreases s.len(),
{
    if s.len() > 0 && is_ws(s[0]) {
        trim_start(s.drop_first())
    } else {
        s
    }
}

/// `s` without trailing whitespace.
pub open spec fn trim_end(s: Seq<char>) -> Seq<char>
    decreases s.len(),
{
    if s.len() > 0 && is_ws(s.last()) {
        trim_end(s.drop_last())
    } else {
        s
    }
}

/// `s` without leading or trailing whitespace (`str::trim`).
pub open spec fn trim(s: Seq<char>) -> Seq<char> {
    trim_end(trim_start(s))
}

/// `needle` occurs in `hay` starting at position `i`.
pub open spec fn occurs_at(hay: Seq<char>, needle: Seq<char>, i: int) -> bool {
    0 <= i && i + needle.len() <= hay.len() && hay.subrange(i, i + needle.len()) == needle
}

/// `needle` occurs somewhere in `hay` (`str::contains`).
pub open spec fn contains_seq(hay: Seq<char>, needle: Seq<char>) -> bool {
    exists|i: int| occurs_at(hay, needle, i)
}

/// ASCII lowercase of one character (`char::to_ascii_lowercase`).
pub open spec fn ascii_lower(c: char) -> char {
    if 'A' <= c <= 'Z' {
        ((c as u32) + 32) as char
    } else {
        c
    }
}

/// ASCII uppercase of one character (`char::to_ascii_uppercase`).
pub open spec fn ascii_upper(c: char) -> char {
    if 'a' <= c <= 'z' {
        ((c as u32) - 32) as char
    } else {
        c
    }
}

/// ASCII uppercase of a string (`str::to_ascii_uppercase`).
pub open spec fn ascii_upper_seq(s: Seq<char>) -> Seq<char> {
    Seq::new(s.len(), |i: int| ascii_upper(s[i]))
}

/// ASCII lowercase of a string (`str::to_ascii_lowercase`).
pub open spec fn ascii_lower_seq(s: Seq<char>) -> Seq<char> {
    Seq::new(s.len(), |i: int| ascii_lower(s[i]))
}

/// Number of bytes of one character in UTF-8.
pub open spec fn utf8_width(c: char) -> nat {
    let u = c as u32;
    if u < 0x80 {
        1
    } else if u < 0x800 {
        2
    } else if u < 0x10000 {
        3
    } else {
        4
    }
}

/// Number of bytes of a string in UTF-8 (`str::len`).
pub open spec fn utf8_len(s: Seq<char>) -> nat
    decreases s.len(),
{
    if s.len() == 0 {
        0
    } else {
        utf8_len(s.drop_last()) + utf8_width(s.last())
    }
}

/// The decimal digit for `d < 10`.
pub open spec fn digit_char(d: nat) -> char {
    (('0' as u32) + d) as char
}

/// Decimal rendering of `n` without leading zeros.
pub open spec fn decimal(n: nat) -> Seq<char>
    decreases n,
{
    if n < 10 {
        seq![digit_char(n)]
    } else {
        decimal(n / 10).push(digit_char(n % 10))
    }
}

/// `n` copies of `c`.
pub open spec fn repeat_char(c: char, n: nat) -> Seq<char> {
    Seq::new(n, |i: int| c)
}

/// Decimal rendering of `n`, left-padded with zeros to at least `width` characters
/// (`format!("{:0width$}", n)`).
pub open spec fn zero_padded(n: nat, width: nat) -> Seq<char> {
    let d = decimal(n);
    if d.len() < width {
        repeat_char('0', (width - d.len()) as nat) + d
    } else {
        d
    }
}

/// Every character of `s` replaced by `f` of it, concatenated.
pub open spec fn map_chars(s: Seq<char>, f: spec_fn(char) -> Seq<char>) -> Seq<char>
    decreases s.len(),
{
    if s.len() == 0 {
        seq![]
    } else {
        map_chars(s.drop_last(), f) + f(s.last())
    }
}

/// Each occurrence of `from` replaced by `to` (`str::replace` with a `char` pattern).
pub open spec fn replace_char(s: Seq<char>, from: char, to: Seq<char>) -> Seq<char> {
    map_chars(s, replacing(from, to))
}

/// The per-character map of `replace_char`.
pub open spec fn replacing(from: char, to: Seq<char>) -> spec_fn(char) -> Seq<char> {
    |c: char| if c == from { to } else { seq![c] }
}

/// Non-overlapping occurrences of `pat`, found left to right, replaced by `to`
/// (`str::replace` with a non-empty string pattern).
pub open spec fn replace_seq(s: Seq<char>, pat: Seq<char>, to: Seq<char>) -> Seq<char>
    recommends
        pat.len() > 0,
    decreases s.len(),
{
    if s.len() == 0 || pat.len() == 0 {
        s
    } else if s.len() >= pat.len() && s.take(pat.len() as int) == pat {
        to + replace_seq(s.skip(pat.len() as int), pat, to)
    } else {
        seq![s[0]] + replace_seq(s.drop_first(), pat, to)
    }
}

/// Lowercase of a string as `str::to_lowercase` computes it from Unicode's tables.
pub uninterp spec fn unicode_lowercase(s: Seq<char>) -> Seq<char>;

// ---------------------------------------------------------------------------
// Lemmas
// ---------------------------------------------------------------------------

/// No character of `w` is whitespace.
pub open spec fn no_ws(w: Seq<char>) -> bool {
    forall|k: int| 0 <= k < w.len() ==> !is_ws(#[trigger] w[k])
}

/// A word of a split: non-empty and free of whitespace.
pub open spec fn is_word(w: Seq<char>) -> bool {
    w.len() > 0 && no_ws(w)
}

/// Scanning a whitespace-free stretch only extends the word in progress.
pub proof fn lemma_words_from_word(w: Seq<char>, cur: Seq<char>)
    requires
        no_ws(w),
        (cur + w).len() > 0,
    ensures
        words_from(w, cur) == seq![cur + w],
    decreases w.len(),
{
    if w.len() == 0 {
        assert(cur + w =~= cur);
    } else {
        assert(w.drop_first() + Seq::<char>::empty() =~= w.drop_first());
        assert(no_ws(w.drop_first())) by {
            assert forall|k: int| 0 <= k < w.drop_first().len() implies !is_ws(
                #[trigger] w.drop_first()[k],
            ) by {
                assert(w.drop_first()[k] == w[k + 1]);
            }
        }
        assert(!is_ws(w[0]));
        lemma_words_from_word(w.drop_first(), cur.push(w[0]));
        assert(cur.push(w[0]) + w.drop_first() =~= cur + w);
    }
}

/// A space and a word after `s` add exactly that word to the split of `s`.
pub proof fn lemma_words_from_append_word(s: Seq<char>, w: Seq<char>, cur: Seq<char>)
    requires
        is_word(w),
    ensures
        words_from(s + seq![' '] + w, cur) == words_from(s, cur) + seq![w],
    decreases s.len(),
{
    if s.len() == 0 {
        let t = s + seq![' '] + w;
        assert(t =~= seq![' '] + w);
        assert(t.drop_first() =~= w);
        assert(is_ws(t[0]));
        lemma_words_from_word(w, seq![]);
        assert(Seq::<char>::empty() + w =~= w);
    } else {
        let t = s + seq![' '] + w;
        assert(t[0] == s[0]);
        assert(t.drop_first() =~= s.drop_first() + seq![' '] + w);
        if is_ws(s[0]) {
            lemma_words_from_append_word(s.drop_first(), w, seq![]);
        } else {
            lemma_words_from_append_word(s.drop_first(), w, cur.push(s[0]));
        }
    }
}

/// Words separated by single spaces split back into the same words.
pub proof fn lemma_words_of_join(ws: Seq<Seq<char>>)
    requires
        forall|i: int| 0 <= i < ws.len() ==> is_word(#[trigger] ws[i]),
    ensures
        words(join(ws, seq![' '])) == ws,
    decreases ws.len(),
{
    if ws.len() == 0 {
    } else if ws.len() == 1 {
        lemma_words_from_word(ws[0], seq![]);
        assert(Seq::<char>::empty() + ws[0] =~= ws[0]);
        assert(seq![ws[0]] =~= ws);
    } else {
        let init = ws.drop_last();
        assert forall|i: int| 0 <= i < init.len() implies is_word(#[trigger] init[i]) by {
            assert(init[i] == ws[i]);
        }
        lemma_words_of_join(init);
        assert(is_word(ws[ws.len() - 1]));
        lemma_words_from_append_word(join(init, seq![' ']), ws.last(), seq![]);
        assert(init.push(ws.last()) =~= ws);
    }
}

/// Every word of a split is non-empty and free of whitespace.
pub proof fn lemma_words_from_are_words(s: Seq<char>, cur: Seq<char>)
    requires
        no_ws(cur),
    ensures
        forall|i: int|
            0 <= i < words_from(s, cur).len() ==> is_word(#[trigger] words_from(s, cur)[i]),
    decreases s.len(),
{
    if s.len() == 0 {
        if cur.len() > 0 {
            assert(words_from(s, cur) =~= seq![cur]);
            assert(is_word(words_from(s, cur)[0]));
        } else {
            assert(words_from(s, cur).len() == 0);
        }
    } else if is_ws(s[0]) {
        lemma_words_from_are_words(s.drop_first(), seq![]);
        let pre = if cur.len() == 0 {
            Seq::<Seq<char>>::empty()
        } else {
            seq![cur]
        };
        let rest = words_from(s.drop_first(), seq![]);
        assert(words_from(s, cur) == pre + rest);
        assert forall|i: int| 0 <= i < (pre + rest).len() implies is_word(#[trigger] (pre
            + rest)[i]) by {
            if i < pre.len() {
                assert((pre + rest)[i] == cur);
            } else {
                assert((pre + rest)[i] == rest[i - pre.len()]);
            }
        }
    } else {
        assert(no_ws(cur.push(s[0]))) by {
            assert forall|k: int| 0 <= k < cur.push(s[0]).len() implies !is_ws(
                #[trigger] cur.push(s[0])[k],
            ) by {
                if k < cur.len() {
                    assert(cur.push(s[0])[k] == cur[k]);
                }
            }
        }
        lemma_words_from_are_words(s.drop_first(), cur.push(s[0]));
        assert(words_from(s, cur) == words_from(s.drop_first(), cur.push(s[0])));
    }
}

/// Collapsing whitespace runs is idempotent: joining the words of `s` with
/// single spaces and splitting again gives the same words.
pub proof fn lemma_words_join_words(s: Seq<char>)
    ensures
        words(join(words(s), seq![' '])) == words(s),
{
    lemma_words_from_are_words(s, seq![]);
    lemma_words_of_join(words(s));
}

/// A split has no more words than characters.
pub proof fn lemma_words_from_len(s: Seq<char>, cur: Seq<char>)
    ensures
        words_from(s, cur).len() <= s.len() + if cur.len() > 0 {
            1int
        } else {
            0int
        },
    decreases s.len(),
{
    if s.len() > 0 {
        if is_ws(s[0]) {
            lemma_words_from_len(s.drop_first(), seq![]);
        } else {
            lemma_words_from_len(s.drop_first(), cur.push(s[0]));
        }
    }
}

pub proof fn lemma_join_push(parts: Seq<Seq<char>>, sep: Seq<char>, p: Seq<char>)
    ensures
        join(parts.push(p), sep) == if parts.len() == 0 {
            p
        } else {
            join(parts, sep) + sep + p
        },
{
    assert(parts.push(p).drop_last() =~= parts);
}

pub proof fn lemma_map_chars_push(s: Seq<char>, c: char, f: spec_fn(char) -> Seq<char>)
    ensures
        map_chars(s.push(c), f) == map_chars(s, f) + f(c),
{
    assert(s.push(c).drop_last() =~= s);
}

pub proof fn lemma_utf8_len_push(s: Seq<char>, c: char)
    ensures
        utf8_len(s.push(c)) == utf8_len(s) + utf8_width(c),
{
    assert(s.push(c).drop_last() =~= s);
}

pub proof fn lemma_utf8_len_append(a: Seq<char>, b: Seq<char>)
    ensures
        utf8_len(a + b) == utf8_len(a) + utf8_len(b),
    decreases b.len(),
{
    if b.len() == 0 {
        assert(a + b =~= a);
    } else {
        lemma_utf8_len_append(a, b.drop_last());
        assert((a + b).drop_last() =~= a + b.drop_last());
    }
}

pub proof fn lemma_utf8_len_bounds(s: Seq<char>)
    ensures
        s.len() <= utf8_len(s) <= 4 * s.len(),
    decreases s.len(),
{
    if s.len() > 0 {
        lemma_utf8_len_bounds(s.drop_last());
    }
}

// ---------------------------------------------------------------------------
// Executable helpers
// ---------------------------------------------------------------------------

/// Appends one character to a `String` (`String::push`).
#[verifier::external_body]
pub(crate) fn push_char(s: &mut String, c: char)
    ensures
        final(s)@ == old(s)@.push(c),
{
    s.push(c);
}

/// The characters of a string slice, in order.
pub fn chars_of(s: &str) -> (r: Vec<char>)
    ensures
        r@ == s@,
{
    let mut out: Vec<char> = Vec::new();
    for c in it: s.chars()
        invariant
            out@ == it.seq().take(it.index() as int),
    {
        out.push(c);
    }
    out
}

/// A `String` holding the given characters.
pub fn string_of(v: &Vec<char>) -> (r: String)
    ensures
        r@ == v@,
{
    let mut out = String::new();
    let mut i: usize = 0;
    while i < v.len()
        invariant
            i <= v.len(),
            out@ == v@.take(i as int),
        decreases v.len() - i,
    {
        push_char(&mut out, v[i]);
        assert(v@.take(i as int).push(v@[i as int]) =~= v@.take(i + 1));
        i += 1;
    }
    assert(v@.take(v.len() as int) =~= v@);
    out
}

/// `String`s for each character vector.
pub fn strings_of(v: &Vec<Vec<char>>) -> (r: Vec<String>)
    ensures
        string_views(r@) == views(v@),
{
    let mut out: Vec<String> = Vec::new();
    let mut i: usize = 0;
    while i < v.len()
        invariant
            i <= v.len(),
            out.len() == i,
            forall|k: int| 0 <= k < i ==> #[trigger] out@[k]@ == v@[k]@,
        decreases v.len() - i,
    {
        let s = string_of(&v[i]);
        out.push(s);
        i += 1;
    }
    assert(string_views(out@) =~= views(v@));
    out
}

/// Equality of two string slices by content.
pub fn str_eq(a: &str, b: &str) -> (r: bool)
    ensures
        r == (a@ == b@),
{
    let va = chars_of(a);
    let vb = chars_of(b);
    seq_eq(&va, &vb)
}

/// Equality of two character vectors by content.
pub fn seq_eq(a: &Vec<char>, b: &Vec<char>) -> (r: bool)
    ensures
        r == (a@ == b@),
{
    if a.len() != b.len() {
        return false;
    }
    let mut i: usize = 0;
    while i < a.len()
        invariant
            a.len() == b.len(),
            i <= a.len(),
            forall|k: int| 0 <= k < i ==> a@[k] == b@[k],
        decreases a.len() - i,
    {
        if a[i] != b[i] {
            return false;
        }
        i += 1;
    }
    assert(a@ =~= b@);
    true
}

/// `char::is_whitespace`.
pub fn is_whitespace(c: char) -> (r: bool)
    ensures
        r == is_ws(c),
{
    let u = c as u32;
    (0x09 <= u && u <= 0x0d) || u == 0x20 || u == 0x85 || u == 0xa0 || u == 0x1680 || (0x2000
        <= u && u <= 0x200a) || u == 0x2028 || u == 0x2029 || u == 0x202f || u == 0x205f || u
        == 0x3000
}

/// The whitespace-separated words of `s` (`str::split_whitespace`).
pub fn split_whitespace(s: &Vec<char>) -> (r: Vec<Vec<char>>)
    ensures
        views(r@) == words(s@),
{
    let mut acc: Vec<Vec<char>> = Vec::new();
    let mut cur: Vec<char> = Vec::new();
    let mut i: usize = 0;
    assert(s@.skip(0) =~= s@);
    while i < s.len()
        invariant
            i <= s.len(),
            views(acc@) + words_from(s@.skip(i as int), cur@) == words(s@),
        decreases s.len() - i,
    {
        let c = s[i];
        let ghost rest = s@.skip(i as int);
        assert(rest.drop_first() =~= s@.skip(i + 1));
        assert(rest[0] == c);
        if is_whitespace(c) {
            if cur.len() > 0 {
                let ghost old_acc = views(acc@);
                let ghost w = cur@;
                acc.push(cur);
                cur = Vec::new();
                assert(views(acc@) =~= old_acc.push(w));
                assert(old_acc + (seq![w] + words_from(s@.skip(i + 1), seq![])) =~= old_acc.push(
                    w,
                ) + words_from(s@.skip(i + 1), seq![]));
            } else {
                assert(cur@ =~= Seq::<char>::empty());
                assert(Seq::<Seq<char>>::empty() + words_from(s@.skip(i + 1), seq![])
                    =~= words_from(s@.skip(i + 1), seq![]));
            }
        } else {
            cur.push(c);
        }
        i += 1;
    }
    if cur.len() > 0 {
        let ghost old_acc = views(acc@);
        let ghost w = cur@;
        acc.push(cur);
        assert(views(acc@) =~= old_acc.push(w));
    } else {
        assert(views(acc@) + Seq::<Seq<char>>::empty() =~= views(acc@));
    }
    acc
}

/// `parts` joined with `sep`.
pub fn join_chars(parts: &Vec<Vec<char>>, sep: &Vec<char>) -> (r: Vec<char>)
    ensures
        r@ == join(views(parts@), sep@),
{
    let mut out: Vec<char> = Vec::new();
    let mut i: usize = 0;
    while i < parts.len()
        invariant
            i <= parts.len(),
            out@ == join(views(parts@).take(i as int), sep@),
        decreases parts.len() - i,
    {
        proof {
            lemma_join_push(views(parts@).take(i as int), sep@, parts@[i as int]@);
            assert(views(parts@).take(i as int).push(parts@[i as int]@) =~= views(parts@).take(
                i + 1,
            ));
        }
        if i > 0 {
            append_chars(&mut out, sep);
        }
        append_chars(&mut out, &parts[i]);
        i += 1;
    }
    assert(views(parts@).take(parts.len() as int) =~= views(parts@));
    out
}

/// Appends `b` to `a`.
pub fn append_chars(a: &mut Vec<char>, b: &Vec<char>)
    ensures
        final(a)@ == old(a)@ + b@,
{
    let mut i: usize = 0;
    while i < b.len()
        invariant
            i <= b.len(),
            a@ == old(a)@ + b@.take(i as int),
        decreases b.len() - i,
    {
        a.push(b[i]);
        assert(old(a)@ + b@.take(i + 1) =~= (old(a)@ + b@.take(i as int)).push(b@[i as int]));
        i += 1;
    }
    assert(b@.take(b.len() as int) =~= b@);
}

/// Appends the characters of `b` to `a`.
pub fn append_str(a: &mut Vec<char>, b: &str)
    ensures
        final(a)@ == old(a)@ + b@,
{
    let v = chars_of(b);
    append_chars(a, &v);
}

/// Index of the first non-whitespace character of `s` (or its length).
fn leading_ws_end(s: &Vec<char>) -> (start: usize)
    ensures
        start <= s.len(),
        trim_start(s@) == s@.skip(start as int),
{
    let mut start: usize = 0;
    assert(s@.skip(0) =~= s@);
    while start < s.len() && is_whitespace(s[start])
        invariant
            start <= s.len(),
            trim_start(s@) == trim_start(s@.skip(start as int)),
        decreases s.len() - start,
    {
        assert(s@.skip(start as int).drop_first() =~= s@.skip(start + 1));
        start += 1;
    }
    start
}

/// End of `s[start..]` once trailing whitespace is removed.
fn trailing_ws_start(s: &Vec<char>, start: usize) -> (end: usize)
    requires
        start <= s.len(),
    ensures
        start <= end <= s.len(),
        trim_end(s@.skip(start as int)) == s@.subrange(start as int, end as int),
{
    let mut end: usize = s.len();
    assert(s@.skip(start as int) =~= s@.subrange(start as int, end as int));
    while end > start && is_whitespace(s[end - 1])
        invariant
            start <= end <= s.len(),
            trim_end(s@.skip(start as int)) == trim_end(s@.subrange(start as int, end as int)),
        decreases end,
    {
        assert(s@.subrange(start as int, end as int).drop_last() =~= s@.subrange(
            start as int,
            end - 1,
        ));
        end -= 1;
    }
    end
}

/// `s[start..end]`.
pub fn slice_chars(s: &Vec<char>, start: usize, end: usize) -> (r: Vec<char>)
    requires
        start <= end <= s.len(),
    ensures
        r@ == s@.subrange(start as int, end as int),
{
    let mut out: Vec<char> = Vec::new();
    let mut k: usize = start;
    while k < end
        invariant
            start <= k <= end <= s.len(),
            out@ == s@.subrange(start as int, k as int),
        decreases end - k,
    {
        out.push(s[k]);
        assert(s@.subrange(start as int, k + 1) =~= s@.subrange(start as int, k as int).push(
            s@[k as int],
        ));
        k += 1;
    }
    out
}

/// `s` without leading or trailing whitespace (`str::trim`).
pub fn trim_chars(s: &Vec<char>) -> (r: Vec<char>)
    ensures
        r@ == trim(s@),
        r.len() <= s.len(),
{
    let start = leading_ws_end(s);
    let end = trailing_ws_start(s, start);
    slice_chars(s, start, end)
}

/// `needle` occurs in `hay` (`str::contains`).
pub fn contains_chars(hay: &Vec<char>, needle: &Vec<char>) -> (r: bool)
    ensures
        r == contains_seq(hay@, needle@),
{
    if needle.len() > hay.len() {
        assert forall|i: int| !occurs_at(hay@, needle@, i) by {}
        return false;
    }
    let mut i: usize = 0;
    while i <= hay.len() - needle.len()
        invariant
            needle.len() <= hay.len(),
            i <= hay.len() - needle.len() + 1,
            forall|k: int| 0 <= k < i ==> !occurs_at(hay@, needle@, k),
        decreases hay.len() - i,
    {
        let mut j: usize = 0;
        let mut ok = true;
        while j < needle.len()
            invariant
                i + needle.len() <= hay.len(),
                j <= needle.len(),
                ok == (forall|k: int| 0 <= k < j ==> hay@[i + k] == needle@[k]),
            decreases needle.len() - j,
        {
            if hay[i + j] != needle[j] {
                ok = false;
            }
            j += 1;
        }
        if ok {
            assert(hay@.subrange(i as int, i + needle.len()) =~= needle@);
            assert(occurs_at(hay@, needle@, i as int));
            return true;
        }
        assert(!occurs_at(hay@, needle@, i as int)) by {
            if hay@.subrange(i as int, i + needle.len()) == needle@ {
                assert forall|k: int| 0 <= k < needle.len() implies hay@[i + k] == needle@[k] by {
                    assert(hay@.subrange(i as int, i + needle.len())[k] == hay@[i + k]);
                }
            }
        }
        i += 1;
    }
    assert forall|k: int| !occurs_at(hay@, needle@, k) by {
        if 0 <= k && k + needle.len() <= hay.len() {
            assert(k < i);
        }
    }
    false
}

/// ASCII lowercase of a string (`str::to_ascii_lowercase`).
pub fn ascii_lowercase(s: &Vec<char>) -> (r: Vec<char>)
    ensures
        r@ == ascii_lower_seq(s@),
{
    let mut out: Vec<char> = Vec::new();
    let mut i: usize = 0;
    while i < s.len()
        invariant
            i <= s.len(),
            out@ =~= ascii_lower_seq(s@.take(i as int)),
        decreases s.len() - i,
    {
        let c = s[i];
        let l = if 'A' <= c && c <= 'Z' {
            let u = (c as u32) + 32;
            assert(0x61 <= u <= 0x7a);
            char_from_ascii(u)
        } else {
            c
        };
        out.push(l);
        i += 1;
    }
    assert(s@.take(s.len() as int) =~= s@);
    out
}

/// The character with ASCII code `u`.
pub fn char_from_ascii(u: u32) -> (c: char)
    requires
        u < 0x80,
    ensures
        c as u32 == u,
        c == u as char,
{
    let b = u as u8;
    b as char
}

/// Lowercase of a string (`str::to_lowercase`).
#[verifier::external_body]
pub(crate) fn to_lowercase(s: &str) -> (r: String)
    ensures
        r@ == unicode_lowercase(s@),
{
    s.to_lowercase()
}

/// The character for decimal digit `d`.
pub fn digit(d: u64) -> (c: char)
    requires
        d < 10,
    ensures
        c == digit_char(d as nat),
{
    char_from_ascii(('0' as u32) + d as u32)
}

/// Decimal rendering of `n` (`n.to_string()`).
pub fn decimal_chars(n: u64) -> (r: Vec<char>)
    ensures
        r@ == decimal(n as nat),
    decreases n,
{
    if n < 10 {
        let mut v: Vec<char> = Vec::new();
        v.push(digit(n));
        v
    } else {
        let mut v = decimal_chars(n / 10);
        v.push(digit(n % 10));
        v
    }
}

/// Decimal rendering of `n`, zero-padded to `width` characters.
pub fn zero_padded_chars(n: u64, width: usize) -> (r: Vec<char>)
    ensures
        r@ == zero_padded(n as nat, width as nat),
{
    let d = decimal_chars(n);
    let mut out: Vec<char> = Vec::new();
    if d.len() < width {
        let pad = width - d.len();
        let mut i: usize = 0;
        while i < pad
            invariant
                i <= pad,
                out@ =~= repeat_char('0', i as nat),
            decreases pad - i,
        {
            out.push('0');
            i += 1;
        }
    }
    append_chars(&mut out, &d);
    proof {
        if d@.len() >= width {
            assert(out@ =~= d@);
        }
    }
    out
}

/// Each occurrence of `from` in `s` replaced by `to`.
pub fn replace_char_chars(s: &Vec<char>, from: char, to: &Vec<char>) -> (r: Vec<char>)
    ensures
        r@ == replace_char(s@, from, to@),
{
    let ghost f = replacing(from, to@);
    let mut out: Vec<char> = Vec::new();
    let mut i: usize = 0;
    while i < s.len()
        invariant
            i <= s.len(),
            f == replacing(from, to@),
            out@ == map_chars(s@.take(i as int), f),
        decreases s.len() - i,
    {
        proof {
            lemma_map_chars_push(s@.take(i as int), s@[i as int], f);
            assert(s@.take(i as int).push(s@[i as int]) =~= s@.take(i + 1));
        }
        if s[i] == from {
            append_chars(&mut out, to);
        } else {
            out.push(s[i]);
        }
        assert(out@ =~= map_chars(s@.take(i + 1), f));
        i += 1;
    }
    assert(s@.take(s.len() as int) =~= s@);
    out
}

/// Non-overlapping occurrences of a non-empty `pat` replaced by `to`, left to right.
pub fn replace_seq_chars(s: &Vec<char>, pat: &Vec<char>, to: &Vec<char>) -> (r: Vec<char>)
    requires
        pat@.len() > 0,
    ensures
        r@ == replace_seq(s@, pat@, to@),
{
    let mut out: Vec<char> = Vec::new();
    let mut i: usize = 0;
    assert(s@.skip(0) =~= s@);
    while i < s.len()
        invariant
            i <= s@.len(),
            pat@.len() > 0,
            out@ + replace_seq(s@.skip(i as int), pat@, to@) == replace_seq(s@, pat@, to@),
        decreases s@.len() - i,
    {
        let ghost rest = s@.skip(i as int);
        let mut hit = s.len() - i >= pat.len();
        let mut k: usize = 0;
        while hit && k < pat.len()
            invariant
                i < s@.len(),
                rest == s@.skip(i as int),
                k <= pat@.len(),
                hit ==> rest.len() >= pat@.len(),
                hit ==> i + pat@.len() <= s@.len(),
                hit ==> forall|j: int| 0 <= j < k ==> rest[j] == pat@[j],
                !hit ==> !(rest.len() >= pat@.len() && rest.take(pat@.len() as int) == pat@),
            decreases pat@.len() - k,
        {
            let n = s.len();
            assert(i + k < n);
            if s[i + k] != pat[k] {
                hit = false;
                assert(rest.take(pat@.len() as int)[k as int] != pat@[k as int]);
                k = pat.len();
            } else {
                k += 1;
            }
        }
        if hit {
            assert(rest.take(pat@.len() as int) =~= pat@);
            assert(rest.skip(pat@.len() as int) =~= s@.skip(i + pat@.len()));
            let ghost before = out@;
            append_chars(&mut out, to);
            assert(before + (to@ + replace_seq(rest.skip(pat@.len() as int), pat@, to@)) =~= out@
                + replace_seq(s@.skip(i + pat@.len()), pat@, to@));
            i = i + pat.len();
        } else {
            assert(rest.drop_first() =~= s@.skip(i + 1));
            let ghost before = out@;
            out.push(s[i]);
            assert(before + (seq![rest[0]] + replace_seq(rest.drop_first(), pat@, to@)) =~= out@
                + replace_seq(s@.skip(i + 1), pat@, to@));
            i = i + 1;
        }
    }
    assert(s@.skip(i as int) =~= Seq::<char>::empty());
    assert(out@ + Seq::<char>::empty() =~= out@);
    out
}

} // verus!

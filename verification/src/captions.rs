//! Caption text: normalization, escaping for the subtitle formats, and
//! greedy phone-width wrapping.
use vstd::prelude::*;

use crate::text::{
    append_chars, append_str, chars_of, decimal, decimal_chars, is_word, join, join_chars,
    lemma_map_chars_push, lemma_utf8_len_append, lemma_utf8_len_push, lemma_words_from_are_words,
    lemma_words_join_words, map_chars, no_ws, replace_char, replace_char_chars, replacing,
    split_whitespace, string_of, string_views, strings_of, utf8_len, utf8_width, views, words,
};

verus! {

// ---------------------------------------------------------------------------
// Specifications
// ---------------------------------------------------------------------------

/// Caption text with every whitespace run collapsed to one space and the ends trimmed.
pub open spec fn normalized(raw: Seq<char>) -> Seq<char> {
    join(words(raw), seq![' '])
}

/// How one character is written in an ASS `Text` field.
pub open spec fn ass_escaped_char() -> spec_fn(char) -> Seq<char> {
    |c: char|
        if c == '\\' {
            seq!['\\', '\\']
        } else if c == ',' {
            seq!['\\', ',']
        } else if c == '\n' {
            seq!['\\', 'N']
        } else {
            seq![c]
        }
}

/// A caption escaped for the ASS `Text` field (after normalization).
pub open spec fn ass_escaped(t: Seq<char>) -> Seq<char> {
    map_chars(normalized(t), ass_escaped_char())
}

/// A caption escaped for a single-quoted ffmpeg `drawtext` value: straight quotes
/// become typographic ones, `:` and `%` get a backslash.
pub open spec fn drawtext_escaped(s: Seq<char>) -> Seq<char> {
    replace_char(
        replace_char(replace_char(s, '\'', seq!['\u{2019}']), ':', seq!['\\', ':']),
        '%',
        seq!['\\', '%'],
    )
}

/// Greedy wrapping of the remaining words `ws`, with line `cur` open and
/// `lines` already closed. A word goes to a new line when the open line would
/// exceed `cap` bytes (`line + ' ' + word`).
pub open spec fn wrap_from(
    ws: Seq<Seq<char>>,
    cap: nat,
    cur: Seq<char>,
    lines: Seq<Seq<char>>,
) -> Seq<Seq<char>>
    decreases ws.len(),
{
    if ws.len() == 0 {
        if cur.len() == 0 {
            lines
        } else {
            lines.push(cur)
        }
    } else {
        let w = ws[0];
        let breaks = utf8_len(cur) + utf8_len(w) + 1 > cap && cur.len() > 0;
        let lines2 = if breaks {
            lines.push(cur)
        } else {
            lines
        };
        let cur2 = if breaks {
            seq![]
        } else {
            cur
        };
        let cur3 = if cur2.len() > 0 {
            cur2.push(' ') + w
        } else {
            cur2 + w
        };
        wrap_from(ws.drop_first(), cap, cur3, lines2)
    }
}

/// The effective line capacity: at least one byte.
pub open spec fn line_cap(max_chars: nat) -> nat {
    if max_chars < 1 {
        1
    } else {
        max_chars
    }
}

/// Lines of `text` greedily wrapped at `max_chars` bytes.
pub open spec fn wrapped_lines(text: Seq<char>, max_chars: nat) -> Seq<Seq<char>> {
    wrap_from(words(text), line_cap(max_chars), seq![], seq![])
}

/// The burned-in caption: at most two 20-byte lines joined by the two-character
/// drawtext line-break escape `\n`.
pub open spec fn drawtext_caption(text: Seq<char>) -> Seq<char> {
    let lines = wrapped_lines(text, 20);
    join(
        if lines.len() > 2 {
            lines.take(2)
        } else {
            lines
        },
        seq!['\\', 'n'],
    )
}

/// The text of one ASS dialogue event: the normalized caption wrapped at
/// `wrap` bytes, each line escaped, the lines joined by the ASS line break
/// `\N`.
pub open spec fn ass_caption(text: Seq<char>, wrap: nat) -> Seq<char> {
    join(wrapped_lines(normalized(text), wrap).map_values(|l: Seq<char>| ass_escaped(l)), seq!['\\', 'N'])
}

/// The height of the burned-in caption: 160 pixels above the bottom, and at
/// least 60 from the top.
pub open spec fn caption_y(height: nat) -> nat {
    let above = if height >= 160 {
        (height - 160) as nat
    } else {
        0
    };
    if above < 60 {
        60
    } else {
        above
    }
}

/// One ffmpeg `drawtext` clause: the wrapped, escaped caption in single
/// quotes (the value that must come first), the font reference, the style,
/// and the time window `between(t,start,end)`.
pub open spec fn drawtext_clause(
    text: Seq<char>,
    font_ref: Seq<char>,
    height: nat,
    start: Seq<char>,
    end: Seq<char>,
) -> Seq<char> {
    "drawtext=text='"@ + drawtext_escaped(drawtext_caption(text)) + "'"@ + font_ref
        + ":fontcolor=white:bordercolor=black:borderw=4:fontsize=46:text_shaping=1:x=(w-text_w)/2:y="@
        + decimal(caption_y(height)) + ":enable='between(t,"@ + start + ","@ + end + ")'"@
}

/// The caption filters appended to a filter chain: nothing without captions,
/// else a comma and the clauses joined by commas. Each cue is the caption
/// text and its start and end times as written.
pub open spec fn caption_filter_chain(
    cues: Seq<(Seq<char>, Seq<char>, Seq<char>)>,
    font_ref: Seq<char>,
    height: nat,
) -> Seq<char> {
    if cues.len() == 0 {
        seq![]
    } else {
        seq![','] + join(
            cues.map_values(
                |c: (Seq<char>, Seq<char>, Seq<char>)| drawtext_clause(c.0, font_ref, height, c.1, c.2),
            ),
            seq![','],
        )
    }
}

/// Fonts tried, in order, when no usable font is configured.
pub open spec fn system_fonts() -> Seq<Seq<char>> {
    seq![
        "C:/Windows/Fonts/arial.ttf"@,
        "C:/Windows/Fonts/segoeui.ttf"@,
        "/usr/share/fonts/truetype/dejavu/DejaVuSans.ttf"@,
    ]
}

/// The font chosen given which files exist.
pub open spec fn chosen_font(
    configured: Seq<char>,
    configured_exists: bool,
    exists: Seq<bool>,
) -> Seq<char> {
    if configured.len() > 0 && configured_exists {
        configured
    } else if exists.len() > 0 && exists[0] {
        system_fonts()[0]
    } else if exists.len() > 1 && exists[1] {
        system_fonts()[1]
    } else if exists.len() > 2 && exists[2] {
        system_fonts()[2]
    } else {
        seq![]
    }
}

// ---------------------------------------------------------------------------
// Laws
// ---------------------------------------------------------------------------

/// Normalizing a normalized caption changes nothing.
pub proof fn normalization_is_idempotent(raw: Seq<char>)
    ensures
        normalized(normalized(raw)) == normalized(raw),
{
    lemma_words_join_words(raw);
}

proof fn lemma_map_chars_avoids(s: Seq<char>, f: spec_fn(char) -> Seq<char>, x: char)
    requires
        forall|c: char| !(#[trigger] f(c)).contains(x),
    ensures
        !map_chars(s, f).contains(x),
    decreases s.len(),
{
    if s.len() > 0 {
        lemma_map_chars_avoids(s.drop_last(), f, x);
        let a = map_chars(s.drop_last(), f);
        let b = f(s.last());
        if (a + b).contains(x) {
            let k = choose|k: int| 0 <= k < (a + b).len() && (a + b)[k] == x;
            if k < a.len() {
                assert(a[k] == x);
            } else {
                assert(b[k - a.len()] == x);
            }
        }
    }
}

/// An escaped caption never holds a raw newline, which would end the ASS
/// dialogue line.
pub proof fn escaped_caption_has_no_newline(t: Seq<char>)
    ensures
        !ass_escaped(t).contains('\n'),
{
    let f = ass_escaped_char();
    assert forall|c: char| !(#[trigger] f(c)).contains('\n') by {
        let fc = f(c);
        assert forall|k: int| 0 <= k < fc.len() implies fc[k] != '\n' by {
            if k == 0 {
            } else {
            }
        }
    }
    lemma_map_chars_avoids(normalized(t), f, '\n');
}

proof fn lemma_join_avoids(parts: Seq<Seq<char>>, sep: Seq<char>, x: char)
    requires
        !sep.contains(x),
        forall|i: int| 0 <= i < parts.len() ==> !(#[trigger] parts[i]).contains(x),
    ensures
        !join(parts, sep).contains(x),
    decreases parts.len(),
{
    if parts.len() > 1 {
        lemma_join_avoids(parts.drop_last(), sep, x);
        let a = join(parts.drop_last(), sep);
        let b = parts.last();
        assert(!b.contains(x));
        if (a + sep + b).contains(x) {
            let k = choose|k: int| 0 <= k < (a + sep + b).len() && (a + sep + b)[k] == x;
            if k < a.len() {
                assert(a[k] == x);
            } else if k < a.len() + sep.len() {
                assert(sep[k - a.len()] == x);
            } else {
                assert(b[k - a.len() - sep.len()] == x);
            }
        }
    } else if parts.len() == 1 {
        assert(!parts[0].contains(x));
    }
}

/// The text of an ASS dialogue event never holds a raw newline, so every
/// caption is exactly one `Dialogue:` line of the subtitle file.
pub proof fn ass_caption_is_one_line(text: Seq<char>, wrap: nat)
    ensures
        !ass_caption(text, wrap).contains('\n'),
{
    let lines = wrapped_lines(normalized(text), wrap);
    let escaped = lines.map_values(|l: Seq<char>| ass_escaped(l));
    assert forall|i: int| 0 <= i < escaped.len() implies !(#[trigger] escaped[i]).contains('\n') by {
        escaped_caption_has_no_newline(lines[i]);
    }
    let sep = seq!['\\', 'N'];
    assert(!sep.contains('\n')) by {
        assert forall|k: int| 0 <= k < sep.len() implies sep[k] != '\n' by {
            if k == 0 {
            } else {
            }
        }
    }
    lemma_join_avoids(escaped, sep, '\n');
}

proof fn lemma_map_chars_keeps_out(s: Seq<char>, f: spec_fn(char) -> Seq<char>, x: char)
    requires
        !s.contains(x),
        forall|c: char| c != x ==> !(#[trigger] f(c)).contains(x),
    ensures
        !map_chars(s, f).contains(x),
    decreases s.len(),
{
    if s.len() > 0 {
        assert(!s.drop_last().contains(x)) by {
            if s.drop_last().contains(x) {
                let k = choose|k: int| 0 <= k < s.drop_last().len() && s.drop_last()[k] == x;
                assert(s[k] == x);
            }
        }
        lemma_map_chars_keeps_out(s.drop_last(), f, x);
        assert(s.last() != x) by {
            assert(s[s.len() - 1] == s.last());
        }
        let a = map_chars(s.drop_last(), f);
        let b = f(s.last());
        if (a + b).contains(x) {
            let k = choose|k: int| 0 <= k < (a + b).len() && (a + b)[k] == x;
            if k < a.len() {
                assert(a[k] == x);
            } else {
                assert(b[k - a.len()] == x);
            }
        }
    }
}

/// A caption escaped for a single-quoted `drawtext` value holds no straight
/// quote, so no caption can close the quoting and add filter options.
pub proof fn drawtext_text_stays_quoted(s: Seq<char>)
    ensures
        !drawtext_escaped(s).contains('\''),
{
    let q = '\'';
    let f1 = replacing(q, seq!['\u{2019}']);
    assert forall|c: char| !(#[trigger] f1(c)).contains(q) by {
        let fc = f1(c);
        assert forall|k: int| 0 <= k < fc.len() implies fc[k] != q by {}
    }
    lemma_map_chars_avoids(s, f1, q);
    let s1 = replace_char(s, q, seq!['\u{2019}']);
    let f2 = replacing(':', seq!['\\', ':']);
    assert forall|c: char| c != q implies !(#[trigger] f2(c)).contains(q) by {
        let fc = f2(c);
        assert forall|k: int| 0 <= k < fc.len() implies fc[k] != q by {
            if c == ':' {
                if k == 0 {
                } else {
                }
            }
        }
    }
    lemma_map_chars_keeps_out(s1, f2, q);
    let s2 = replace_char(s1, ':', seq!['\\', ':']);
    let f3 = replacing('%', seq!['\\', '%']);
    assert forall|c: char| c != q implies !(#[trigger] f3(c)).contains(q) by {
        let fc = f3(c);
        assert forall|k: int| 0 <= k < fc.len() implies fc[k] != q by {
            if c == '%' {
                if k == 0 {
                } else {
                }
            }
        }
    }
    lemma_map_chars_keeps_out(s2, f3, q);
}

/// The lines closed so far and the open line, if any.
pub open spec fn closed_and_open(lines: Seq<Seq<char>>, cur: Seq<char>) -> Seq<Seq<char>> {
    if cur.len() == 0 {
        lines
    } else {
        lines.push(cur)
    }
}

/// A caption line is within `cap` bytes, or is a single word too long to
/// break.
pub open spec fn line_fits(line: Seq<char>, cap: nat) -> bool {
    utf8_len(line) <= cap || no_ws(line)
}

pub proof fn lemma_join_concat(a: Seq<Seq<char>>, b: Seq<Seq<char>>, sep: Seq<char>)
    requires
        a.len() > 0,
        b.len() > 0,
    ensures
        join(a + b, sep) == join(a, sep) + sep + join(b, sep),
    decreases b.len(),
{
    if b.len() == 1 {
        assert((a + b).drop_last() =~= a);
        assert((a + b).last() == b[0]);
    } else {
        lemma_join_concat(a, b.drop_last(), sep);
        assert((a + b).drop_last() =~= a + b.drop_last());
        assert((a + b).last() == b.last());
    }
}

pub proof fn lemma_join_two(x: Seq<Seq<char>>, u: Seq<char>, v: Seq<char>)
    ensures
        join(x.push(u.push(' ') + v), seq![' ']) == join(x.push(u).push(v), seq![' ']),
{
    let sep = seq![' '];
    let w = u.push(' ') + v;
    assert(w =~= u + sep + v);
    assert(x.push(u).push(v).drop_last() =~= x.push(u));
    assert(x.push(u).push(v).last() == v);
    assert(join(x.push(u).push(v), sep) == join(x.push(u), sep) + sep + v);
    if x.len() == 0 {
        assert(join(x.push(u), sep) == u);
        assert(join(x.push(w), sep) == w);
    } else {
        assert(x.push(w).drop_last() =~= x);
        assert(x.push(u).drop_last() =~= x);
        assert(join(x.push(w), sep) == join(x, sep) + sep + w);
        assert(join(x.push(u), sep) == join(x, sep) + sep + u);
        assert(join(x, sep) + sep + w =~= join(x, sep) + sep + u + sep + v);
    }
}

/// One step of the greedy wrap keeps the text and the line bound.
proof fn lemma_wrap_from(ws: Seq<Seq<char>>, cap: nat, cur: Seq<char>, lines: Seq<Seq<char>>)
    requires
        cap >= 1,
        forall|i: int| 0 <= i < ws.len() ==> is_word(#[trigger] ws[i]),
        forall|i: int| 0 <= i < lines.len() ==> (#[trigger] lines[i]).len() > 0,
        forall|i: int| 0 <= i < lines.len() ==> line_fits(#[trigger] lines[i], cap),
        line_fits(cur, cap),
    ensures
        join(wrap_from(ws, cap, cur, lines), seq![' ']) == join(
            closed_and_open(lines, cur) + ws,
            seq![' '],
        ),
        forall|i: int|
            0 <= i < wrap_from(ws, cap, cur, lines).len() ==> line_fits(
                #[trigger] wrap_from(ws, cap, cur, lines)[i],
                cap,
            ),
    decreases ws.len(),
{
    let sep = seq![' '];
    if ws.len() == 0 {
        assert(closed_and_open(lines, cur) + ws =~= closed_and_open(lines, cur));
    } else {
        let w = ws[0];
        let breaks = utf8_len(cur) + utf8_len(w) + 1 > cap && cur.len() > 0;
        let lines2 = if breaks {
            lines.push(cur)
        } else {
            lines
        };
        let cur2 = if breaks {
            seq![]
        } else {
            cur
        };
        let cur3 = if cur2.len() > 0 {
            cur2.push(' ') + w
        } else {
            cur2 + w
        };
        assert forall|i: int| 0 <= i < ws.drop_first().len() implies is_word(
            #[trigger] ws.drop_first()[i],
        ) by {
            assert(ws.drop_first()[i] == ws[i + 1]);
        }
        assert forall|i: int| 0 <= i < lines2.len() implies (#[trigger] lines2[i]).len() > 0
            && line_fits(lines2[i], cap) by {
            if i < lines.len() {
                assert(lines2[i] == lines[i]);
            }
        }
        assert(is_word(w));
        if cur2.len() > 0 {
            lemma_utf8_len_append(cur2.push(' '), w);
            lemma_utf8_len_push(cur2, ' ');
            assert(utf8_len(cur3) <= cap);
        } else {
            assert(cur3 =~= w);
        }
        assert(cur3.len() > 0);
        lemma_wrap_from(ws.drop_first(), cap, cur3, lines2);
        // the text is unchanged by the step
        let before = closed_and_open(lines, cur) + ws;
        let after = closed_and_open(lines2, cur3) + ws.drop_first();
        let rest = ws.drop_first();
        if cur.len() == 0 {
            assert(after =~= lines.push(w) + rest);
            assert(before =~= lines + ws);
            assert(lines.push(w) + rest =~= lines + ws);
        } else if breaks {
            assert(after =~= lines.push(cur).push(w) + rest);
            assert(before =~= lines.push(cur) + ws);
            assert(lines.push(cur).push(w) + rest =~= lines.push(cur) + ws);
        } else {
            assert(after =~= lines.push(cur.push(' ') + w) + rest);
            assert(before =~= lines.push(cur).push(w) + rest);
            lemma_join_two(lines, cur, w);
            if rest.len() > 0 {
                lemma_join_concat(lines.push(cur.push(' ') + w), rest, sep);
                lemma_join_concat(lines.push(cur).push(w), rest, sep);
            } else {
                assert(lines.push(cur.push(' ') + w) + rest =~= lines.push(cur.push(' ') + w));
                assert(lines.push(cur).push(w) + rest =~= lines.push(cur).push(w));
            }
        }
    }
}

/// Wrapping keeps every word of the caption, in order: the lines joined with
/// single spaces are the normalized caption. Every line is within the byte
/// capacity unless it is a single word longer than the capacity.
pub proof fn wrapping_keeps_words(text: Seq<char>, max_chars: nat)
    ensures
        join(wrapped_lines(text, max_chars), seq![' ']) == normalized(text),
        forall|i: int|
            0 <= i < wrapped_lines(text, max_chars).len() ==> line_fits(
                #[trigger] wrapped_lines(text, max_chars)[i],
                line_cap(max_chars),
            ),
{
    lemma_words_from_are_words(text, seq![]);
    assert(utf8_len(Seq::<char>::empty()) == 0);
    lemma_wrap_from(words(text), line_cap(max_chars), seq![], seq![]);
    assert(closed_and_open(seq![], seq![]) + words(text) =~= words(text));
}

// ---------------------------------------------------------------------------
// Implementation
// ---------------------------------------------------------------------------

/// Canonical caption normalization: all whitespace (newlines, tabs, runs of
/// spaces) collapses to a single space and the result is trimmed, so a stray
/// newline can no longer fuse two words.
pub fn normalize_caption_text(raw: &str) -> (r: String)
    ensures
        r@ == normalized(raw@),
{
    let v = chars_of(raw);
    let n = normalize_chars(&v);
    string_of(&n)
}

/// [`normalize_caption_text`] on characters.
pub fn normalize_chars(v: &Vec<char>) -> (r: Vec<char>)
    ensures
        r@ == normalized(v@),
{
    let ws = split_whitespace(v);
    let mut sep: Vec<char> = Vec::new();
    sep.push(' ');
    assert(sep@ =~= seq![' ']);
    join_chars(&ws, &sep)
}

/// Escape a caption for the ASS `Text` field: backslash and comma are reserved,
/// a newline would be `\N` (normalization has already turned it into a space).
pub fn escape_ass(t: &str) -> (r: String)
    ensures
        r@ == ass_escaped(t@),
{
    let v = chars_of(t);
    let n = normalize_chars(&v);
    let ghost f = ass_escaped_char();
    let mut out: Vec<char> = Vec::new();
    let mut i: usize = 0;
    while i < n.len()
        invariant
            i <= n.len(),
            f == ass_escaped_char(),
            out@ == map_chars(n@.take(i as int), f),
        decreases n.len() - i,
    {
        let c = n[i];
        proof {
            lemma_map_chars_push(n@.take(i as int), c, f);
            assert(n@.take(i as int).push(c) =~= n@.take(i + 1));
        }
        if c == '\\' {
            out.push('\\');
            out.push('\\');
        } else if c == ',' {
            out.push('\\');
            out.push(',');
        } else if c == '\n' {
            out.push('\\');
            out.push('N');
        } else {
            out.push(c);
        }
        assert(out@ =~= map_chars(n@.take(i + 1), f));
        i += 1;
    }
    assert(n@.take(n.len() as int) =~= n@);
    string_of(&out)
}

/// Escape a caption for a single-quoted ffmpeg `drawtext` value. Backslashes are
/// left alone so the `\n` line-break escape survives.
pub fn escape_drawtext(s: &str) -> (r: String)
    ensures
        r@ == drawtext_escaped(s@),
{
    let v = chars_of(s);
    let mut quote: Vec<char> = Vec::new();
    quote.push('\u{2019}');
    let mut colon: Vec<char> = Vec::new();
    colon.push('\\');
    colon.push(':');
    let mut percent: Vec<char> = Vec::new();
    percent.push('\\');
    percent.push('%');
    proof {
        assert(quote@ =~= seq!['\u{2019}']);
        assert(colon@ =~= seq!['\\', ':']);
        assert(percent@ =~= seq!['\\', '%']);
    }
    let a = replace_char_chars(&v, '\'', &quote);
    let b = replace_char_chars(&a, ':', &colon);
    let c = replace_char_chars(&b, '%', &percent);
    string_of(&c)
}

/// Number of UTF-8 bytes of a character.
pub fn utf8_width_of(c: char) -> (n: u128)
    ensures
        n == utf8_width(c),
{
    let u = c as u32;
    if u < 0x80 {
        1
    } else if u < 0x800 {
        2
    } else if u < 0x10000 {
        3
    } else {
        4
    }
}

/// Number of UTF-8 bytes of a character sequence.
pub fn utf8_len_of(v: &Vec<char>) -> (n: u128)
    ensures
        n == utf8_len(v@),
        n <= 4 * v.len(),
{
    let mut n: u128 = 0;
    let mut i: usize = 0;
    while i < v.len()
        invariant
            i <= v.len(),
            n == utf8_len(v@.take(i as int)),
            n <= 4 * i,
        decreases v.len() - i,
    {
        proof {
            lemma_utf8_len_push(v@.take(i as int), v@[i as int]);
            assert(v@.take(i as int).push(v@[i as int]) =~= v@.take(i + 1));
        }
        n = n + utf8_width_of(v[i]);
        i += 1;
    }
    assert(v@.take(v.len() as int) =~= v@);
    n
}

/// Greedy word-wrap into lines of at most `max_chars` bytes each; a single word
/// longer than that stays on its own line. Every line is kept, so nothing of
/// the caption is hidden.
pub fn wrap_caption_lines(text: &str, max_chars: usize) -> (r: Vec<String>)
    ensures
        string_views(r@) == wrapped_lines(text@, max_chars as nat),
{
    let v = chars_of(text);
    let lines = wrap_chars(&v, max_chars);
    strings_of(&lines)
}

/// [`wrap_caption_lines`] on characters.
pub fn wrap_chars(v: &Vec<char>, max_chars: usize) -> (r: Vec<Vec<char>>)
    ensures
        views(r@) == wrapped_lines(v@, max_chars as nat),
{
    let cap: usize = if max_chars < 1 {
        1
    } else {
        max_chars
    };
    let ws = split_whitespace(v);
    let ghost all = views(ws@);
    let mut lines: Vec<Vec<char>> = Vec::new();
    let mut cur: Vec<char> = Vec::new();
    let mut i: usize = 0;
    assert(all.skip(0) =~= all);
    assert(cur@ =~= Seq::<char>::empty());
    assert(views(lines@) =~= Seq::<Seq<char>>::empty());
    while i < ws.len()
        invariant
            i <= ws.len(),
            cap == line_cap(max_chars as nat),
            all == views(ws@),
            all == words(v@),
            wrap_from(all, cap as nat, seq![], seq![]) == wrap_from(
                all.skip(i as int),
                cap as nat,
                cur@,
                views(lines@),
            ),
        decreases ws.len() - i,
    {
        let w = &ws[i];
        let ghost rest = all.skip(i as int);
        assert(rest.drop_first() =~= all.skip(i + 1));
        assert(rest[0] == w@);
        let cur_len = utf8_len_of(&cur);
        let w_len = utf8_len_of(w);
        if cur_len + w_len + 1 > cap as u128 && cur.len() > 0 {
            let ghost old_lines = views(lines@);
            let ghost closed = cur@;
            lines.push(cur);
            cur = Vec::new();
            assert(views(lines@) =~= old_lines.push(closed));
        }
        if cur.len() > 0 {
            cur.push(' ');
        }
        append_chars(&mut cur, w);
        i += 1;
    }
    if cur.len() > 0 {
        let ghost old_lines = views(lines@);
        let ghost closed = cur@;
        lines.push(cur);
        assert(views(lines@) =~= old_lines.push(closed));
    }
    lines
}

/// Phone-readable burned-in caption: at most two 20-byte lines, joined with the
/// two-character sequence `\n` that drawtext renders as a line break.
pub fn wrap_caption(text: &str) -> (r: String)
    ensures
        r@ == drawtext_caption(text@),
{
    let v = chars_of(text);
    let mut lines = wrap_chars(&v, 20);
    let ghost all = views(lines@);
    lines.truncate(2);
    assert(views(lines@) =~= if all.len() > 2 {
        all.take(2)
    } else {
        all
    });
    let mut sep: Vec<char> = Vec::new();
    sep.push('\\');
    sep.push('n');
    assert(sep@ =~= seq!['\\', 'n']);
    let j = join_chars(&lines, &sep);
    string_of(&j)
}

/// The text of one ASS dialogue event: the caption normalized, wrapped at
/// `wrap_width` bytes so the encoded layout is the one validated, each line
/// escaped, and the lines joined by the ASS line break `\N`.
pub fn ass_caption_text(text: &str, wrap_width: usize) -> (r: String)
    ensures
        r@ == ass_caption(text@, wrap_width as nat),
{
    let v = chars_of(text);
    let n = normalize_chars(&v);
    let lines = wrap_chars(&n, wrap_width);
    let ghost ls = views(lines@);
    let mut escaped: Vec<Vec<char>> = Vec::new();
    let mut i: usize = 0;
    while i < lines.len()
        invariant
            i <= lines.len(),
            ls == views(lines@),
            views(escaped@) == ls.take(i as int).map_values(|l: Seq<char>| ass_escaped(l)),
        decreases lines.len() - i,
    {
        let line = string_of(&lines[i]);
        let e = escape_ass(line.as_str());
        let ev = chars_of(e.as_str());
        let ghost before = views(escaped@);
        escaped.push(ev);
        assert(views(escaped@) =~= before.push(ass_escaped(ls[i as int])));
        assert(ls.take(i + 1).map_values(|l: Seq<char>| ass_escaped(l)) =~= ls.take(
            i as int,
        ).map_values(|l: Seq<char>| ass_escaped(l)).push(ass_escaped(ls[i as int])));
        i += 1;
    }
    assert(ls.take(i as int) =~= ls);
    let mut sep: Vec<char> = Vec::new();
    sep.push('\\');
    sep.push('N');
    assert(sep@ =~= seq!['\\', 'N']);
    let j = join_chars(&escaped, &sep);
    string_of(&j)
}

/// One ffmpeg `drawtext` clause burning a caption in during its time
/// window; `start` and `end` are the times as written into the filter.
pub fn drawtext_clause_of(text: &str, font_ref: &str, height: u32, start: &str, end: &str) -> (r:
    Vec<char>)
    ensures
        r@ == drawtext_clause(text@, font_ref@, height as nat, start@, end@),
{
    let wrapped = wrap_caption(text);
    let escaped = escape_drawtext(wrapped.as_str());
    let above: u32 = if height >= 160 {
        height - 160
    } else {
        0
    };
    let y: u32 = if above < 60 {
        60
    } else {
        above
    };
    let mut out = chars_of("drawtext=text='");
    append_str(&mut out, escaped.as_str());
    append_str(&mut out, "'");
    append_str(&mut out, font_ref);
    append_str(
        &mut out,
        ":fontcolor=white:bordercolor=black:borderw=4:fontsize=46:text_shaping=1:x=(w-text_w)/2:y=",
    );
    let digits = decimal_chars(y as u64);
    append_chars(&mut out, &digits);
    append_str(&mut out, ":enable='between(t,");
    append_str(&mut out, start);
    append_str(&mut out, ",");
    append_str(&mut out, end);
    append_str(&mut out, ")'");
    out
}

/// The caption filters appended to the video filter chain: nothing without
/// captions, else a comma and one `drawtext` clause per caption, joined by
/// commas. Each cue is the caption text and its start and end times as
/// written into the filter.
pub fn build_caption_filter(cues: &Vec<(String, String, String)>, font_ref: &str, height: u32) -> (r:
    String)
    ensures
        r@ == caption_filter_chain(
            Seq::new(cues@.len(), |i: int| (cues@[i].0@, cues@[i].1@, cues@[i].2@)),
            font_ref@,
            height as nat,
        ),
{
    let ghost cs = Seq::new(cues@.len(), |i: int| (cues@[i].0@, cues@[i].1@, cues@[i].2@));
    let ghost f = |c: (Seq<char>, Seq<char>, Seq<char>)|
        drawtext_clause(c.0, font_ref@, height as nat, c.1, c.2);
    if cues.len() == 0 {
        return String::new();
    }
    let mut clauses: Vec<Vec<char>> = Vec::new();
    let mut i: usize = 0;
    while i < cues.len()
        invariant
            i <= cues.len(),
            cs == Seq::new(cues@.len(), |i: int| (cues@[i].0@, cues@[i].1@, cues@[i].2@)),
            views(clauses@) == cs.take(i as int).map_values(
                |c: (Seq<char>, Seq<char>, Seq<char>)|
                    drawtext_clause(c.0, font_ref@, height as nat, c.1, c.2),
            ),
        decreases cues.len() - i,
    {
        let clause = drawtext_clause_of(
            cues[i].0.as_str(),
            font_ref,
            height,
            cues[i].1.as_str(),
            cues[i].2.as_str(),
        );
        let ghost before = views(clauses@);
        clauses.push(clause);
        assert(cs[i as int] == (cues@[i as int].0@, cues@[i as int].1@, cues@[i as int].2@));
        assert(views(clauses@) =~= before.push(
            drawtext_clause(cs[i as int].0, font_ref@, height as nat, cs[i as int].1, cs[i as int].2),
        ));
        assert(cs.take(i + 1).map_values(
            |c: (Seq<char>, Seq<char>, Seq<char>)|
                drawtext_clause(c.0, font_ref@, height as nat, c.1, c.2),
        ) =~= cs.take(i as int).map_values(
            |c: (Seq<char>, Seq<char>, Seq<char>)|
                drawtext_clause(c.0, font_ref@, height as nat, c.1, c.2),
        ).push(
            drawtext_clause(cs[i as int].0, font_ref@, height as nat, cs[i as int].1, cs[i as int].2),
        ));
        i += 1;
    }
    assert(cs.take(i as int) =~= cs);
    let mut comma: Vec<char> = Vec::new();
    comma.push(',');
    assert(comma@ =~= seq![',']);
    let joined = join_chars(&clauses, &comma);
    let mut out: Vec<char> = Vec::new();
    out.push(',');
    append_chars(&mut out, &joined);
    assert(out@ =~= seq![','] + joined@);
    string_of(&out)
}

/// The fonts tried, in order, when no usable font is configured.
pub fn system_font_candidates() -> (r: Vec<&'static str>)
    ensures
        r.len() == 3,
        forall|i: int| 0 <= i < 3 ==> #[trigger] r@[i]@ == system_fonts()[i],
{
    let mut r: Vec<&'static str> = Vec::new();
    r.push("C:/Windows/Fonts/arial.ttf");
    r.push("C:/Windows/Fonts/segoeui.ttf");
    r.push("/usr/share/fonts/truetype/dejavu/DejaVuSans.ttf");
    r
}

/// Choose the caption font: the configured one when it is set and exists,
/// otherwise the first of [`system_font_candidates`] that exists, otherwise
/// none (the empty string). `exists[i]` says whether candidate `i` exists.
pub fn resolve_font(configured: &str, configured_exists: bool, exists: &Vec<bool>) -> (r: String)
    ensures
        r@ == chosen_font(configured@, configured_exists, exists@),
{
    if !configured.is_empty() && configured_exists {
        let v = chars_of(configured);
        return string_of(&v);
    }
    let fonts = system_font_candidates();
    let mut i: usize = 0;
    while i < 3
        invariant
            i <= 3,
            fonts.len() == 3,
            forall|k: int| 0 <= k < 3 ==> #[trigger] fonts@[k]@ == system_fonts()[k],
            !(configured@.len() > 0 && configured_exists),
            forall|k: int| 0 <= k < i ==> !(k < exists.len() && #[trigger] exists@[k]),
        decreases 3 - i,
    {
        if i < exists.len() && exists[i] {
            let v = chars_of(fonts[i]);
            return string_of(&v);
        }
        i += 1;
    }
    String::new()
}

} // verus!

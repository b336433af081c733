//! The BVH motion-capture text format: the joint hierarchy and the frame
//! table, read into joints and numeric tokens.
//!
//! Numbers stay in their decimal spelling here; a token is accepted where it
//! has the shape of a decimal floating-point literal, and the caller turns the
//! accepted tokens into numbers.
use vstd::prelude::*;

use crate::text::{
    ascii_lower_seq, ascii_lowercase, chars_of, lemma_words_from_len, occurs_at, seq_eq, slice_chars,
    split_whitespace, string_of, string_views, trim, trim_chars, views, words,
};

verus! {

// ---------------------------------------------------------------------------
// Number tokens
// ---------------------------------------------------------------------------

/// An ASCII decimal digit.
pub open spec fn is_digit(c: char) -> bool {
    '0' <= c <= '9'
}

/// Every character is a decimal digit.
pub open spec fn all_digits(s: Seq<char>) -> bool {
    forall|k: int| 0 <= k < s.len() ==> is_digit(#[trigger] s[k])
}

/// The value of a string of decimal digits.
pub open spec fn digits_value(s: Seq<char>) -> nat
    decreases s.len(),
{
    if s.len() == 0 {
        0
    } else {
        digits_value(s.drop_last()) * 10 + ((s.last() as nat) - ('0' as nat)) as nat
    }
}

/// The value of an unsigned integer token (`usize::from_str`): an optional
/// `+` and at least one digit, within `usize`.
pub open spec fn usize_token(t: Seq<char>) -> Option<nat> {
    let d = if t.len() > 0 && t[0] == '+' {
        t.drop_first()
    } else {
        t
    };
    if d.len() > 0 && all_digits(d) && digits_value(d) <= usize::MAX {
        Some(digits_value(d))
    } else {
        None
    }
}

/// The first position of `c` in `s`, if any.
pub open spec fn first_index(s: Seq<char>, c: char) -> Option<int>
    decreases s.len(),
{
    if s.len() == 0 {
        None
    } else if s[0] == c {
        Some(0)
    } else {
        match first_index(s.drop_first(), c) {
            Some(i) => Some(i + 1),
            None => None,
        }
    }
}

/// A mantissa: digits, optionally with one decimal point, and at least one digit.
pub open spec fn is_mantissa(s: Seq<char>) -> bool {
    match first_index(s, '.') {
        None => s.len() > 0 && all_digits(s),
        Some(p) => s.len() > 1 && all_digits(s.take(p)) && all_digits(s.skip(p + 1)),
    }
}

/// The digits of an exponent, with an optional sign.
pub open spec fn is_exponent(s: Seq<char>) -> bool {
    let d = if s.len() > 0 && (s[0] == '+' || s[0] == '-') {
        s.drop_first()
    } else {
        s
    };
    d.len() > 0 && all_digits(d)
}

/// A decimal number: a mantissa and an optional `e` exponent.
pub open spec fn is_decimal_number(u: Seq<char>) -> bool {
    match first_index(u, 'e') {
        None => is_mantissa(u),
        Some(k) => is_mantissa(u.take(k)) && is_exponent(u.skip(k + 1)),
    }
}

/// The shape of a floating-point literal (the grammar of `f32::from_str`, read
/// after lowercasing): an optional sign, then `inf`, `infinity`, `nan` or a
/// decimal number.
pub open spec fn is_float_token(t: Seq<char>) -> bool {
    let l = ascii_lower_seq(t);
    let u = if l.len() > 0 && (l[0] == '+' || l[0] == '-') {
        l.drop_first()
    } else {
        l
    };
    u == "inf"@ || u == "infinity"@ || u == "nan"@ || is_decimal_number(u)
}

proof fn lemma_digits_value_grows(s: Seq<char>, i: int, j: int)
    requires
        0 <= i <= j <= s.len(),
        all_digits(s),
    ensures
        digits_value(s.take(i)) <= digits_value(s.take(j)),
    decreases j - i,
{
    if i < j {
        lemma_digits_value_grows(s, i, j - 1);
        assert(s.take(j).drop_last() =~= s.take(j - 1));
        assert(is_digit(s[j - 1]));
    }
}

fn is_digit_char(c: char) -> (r: bool)
    ensures
        r == is_digit(c),
{
    '0' <= c && c <= '9'
}

/// Whether every character of `s[from..to]` is a digit.
fn digits_between(s: &Vec<char>, from: usize, to: usize) -> (r: bool)
    requires
        from <= to <= s.len(),
    ensures
        r == all_digits(s@.subrange(from as int, to as int)),
{
    let mut k: usize = from;
    while k < to
        invariant
            from <= k <= to <= s.len(),
            forall|m: int| from <= m < k ==> is_digit(#[trigger] s@[m]),
        decreases to - k,
    {
        if !is_digit_char(s[k]) {
            assert(!is_digit(s@.subrange(from as int, to as int)[k - from]));
            return false;
        }
        k += 1;
    }
    assert forall|m: int| 0 <= m < to - from implies is_digit(
        #[trigger] s@.subrange(from as int, to as int)[m],
    ) by {
        assert(s@.subrange(from as int, to as int)[m] == s@[from + m]);
    }
    true
}

/// Parse an unsigned integer token (`usize::from_str`).
pub fn parse_usize_token(t: &Vec<char>) -> (r: Option<usize>)
    ensures
        match r {
            Some(v) => usize_token(t@) == Some(v as nat),
            None => usize_token(t@) is None,
        },
{
    let start: usize = if t.len() > 0 && t[0] == '+' {
        1
    } else {
        0
    };
    let ghost d = t@.skip(start as int);
    assert(d == if t@.len() > 0 && t@[0] == '+' {
        t@.drop_first()
    } else {
        t@
    });
    if start >= t.len() {
        return None;
    }
    if !digits_between(t, start, t.len()) {
        assert(t@.subrange(start as int, t.len() as int) =~= d);
        return None;
    }
    assert(t@.subrange(start as int, t.len() as int) =~= d);
    let mut acc: usize = 0;
    let mut k: usize = start;
    while k < t.len()
        invariant
            start <= k <= t.len(),
            d == t@.skip(start as int),
            d == if t@.len() > 0 && t@[0] == '+' {
                t@.drop_first()
            } else {
                t@
            },
            d.len() > 0,
            all_digits(d),
            acc == digits_value(d.take(k - start)),
        decreases t.len() - k,
    {
        let c = t[k];
        assert(d[k - start] == c);
        assert(is_digit(c));
        let digit = (c as u32 - '0' as u32) as usize;
        assert(d.take(k - start + 1).drop_last() =~= d.take(k - start));
        if acc > (usize::MAX - digit) / 10 {
            proof {
                lemma_digits_value_grows(d, k - start + 1, d.len() as int);
                assert(d.take(d.len() as int) =~= d);
                assert(d.take(k - start + 1).last() == c);
                assert(digits_value(d.take(k - start + 1)) == acc * 10 + digit);
                assert(acc * 10 + digit > usize::MAX) by (nonlinear_arith)
                    requires
                        acc > (usize::MAX - digit) / 10,
                        digit <= 9,
                ;
            }
            return None;
        }
        assert(acc * 10 + digit <= usize::MAX) by (nonlinear_arith)
            requires
                acc <= (usize::MAX - digit) / 10,
                digit <= 9,
        ;
        acc = acc * 10 + digit;
        k += 1;
    }
    assert(d.take(d.len() as int) =~= d);
    Some(acc)
}

/// The first position of `c` in `s[from..]`, if any.
fn first_index_from(s: &Vec<char>, c: char) -> (r: Option<usize>)
    ensures
        match r {
            Some(i) => i < s.len() && first_index(s@, c) == Some(i as int),
            None => first_index(s@, c) is None,
        },
{
    let mut k: usize = s.len();
    let mut found: Option<usize> = None;
    // scan from the end so that the answer for each suffix is known
    assert(first_index(s@.skip(s.len() as int), c) is None);
    while k > 0
        invariant
            k <= s.len(),
            match found {
                Some(i) => k <= i < s.len() && first_index(s@.skip(k as int), c) == Some(
                    i - k,
                ),
                None => first_index(s@.skip(k as int), c) is None,
            },
        decreases k,
    {
        k -= 1;
        let ghost suf = s@.skip(k as int);
        assert(suf.drop_first() =~= s@.skip(k + 1));
        assert(suf[0] == s@[k as int]);
        if s[k] == c {
            found = Some(k);
        }
    }
    assert(s@.skip(0) =~= s@);
    found
}

/// Whether a token has the shape of a floating-point literal.
pub fn float_token_ok(t: &Vec<char>) -> (r: bool)
    ensures
        r == is_float_token(t@),
{
    let l = ascii_lowercase(t);
    let start: usize = if l.len() > 0 && (l[0] == '+' || l[0] == '-') {
        1
    } else {
        0
    };
    let u = slice_chars(&l, start, l.len());
    assert(u@ =~= if l@.len() > 0 && (l@[0] == '+' || l@[0] == '-') {
        l@.drop_first()
    } else {
        l@
    });
    let inf = chars_of("inf");
    let infinity = chars_of("infinity");
    let nan = chars_of("nan");
    if seq_eq(&u, &inf) || seq_eq(&u, &infinity) || seq_eq(&u, &nan) {
        return true;
    }
    decimal_number_ok(&u)
}

/// Whether `u` is a decimal number.
fn decimal_number_ok(u: &Vec<char>) -> (r: bool)
    ensures
        r == is_decimal_number(u@),
{
    match first_index_from(u, 'e') {
        None => {
            assert(u@.take(u.len() as int) =~= u@);
            mantissa_ok(u, u.len())
        },
        Some(k) => {
            let m = mantissa_ok(u, k);
            assert(u@.subrange(0, k as int) =~= u@.take(k as int));
            if !m {
                return false;
            }
            let rest = slice_chars(u, k + 1, u.len());
            assert(rest@ =~= u@.skip(k + 1));
            exponent_ok(&rest)
        },
    }
}

/// Whether `u[..end]` is a mantissa.
fn mantissa_ok(u: &Vec<char>, end: usize) -> (r: bool)
    requires
        end <= u.len(),
    ensures
        r == is_mantissa(u@.take(end as int)),
{
    let s = slice_chars(u, 0, end);
    assert(s@ =~= u@.take(end as int));
    match first_index_from(&s, '.') {
        None => s.len() > 0 && digits_between(&s, 0, s.len()) && {
            assert(s@.subrange(0, s.len() as int) =~= s@);
            true
        },
        Some(p) => {
            if s.len() <= 1 {
                return false;
            }
            let a = digits_between(&s, 0, p);
            let b = digits_between(&s, p + 1, s.len());
            assert(s@.subrange(0, p as int) =~= s@.take(p as int));
            assert(s@.subrange(p + 1, s.len() as int) =~= s@.skip(p + 1));
            a && b
        },
    }
}

/// Whether `s` is the digits of an exponent.
fn exponent_ok(s: &Vec<char>) -> (r: bool)
    ensures
        r == is_exponent(s@),
{
    let start: usize = if s.len() > 0 && (s[0] == '+' || s[0] == '-') {
        1
    } else {
        0
    };
    if start >= s.len() {
        return false;
    }
    let r = digits_between(s, start, s.len());
    assert(s@.subrange(start as int, s.len() as int) =~= if s@.len() > 0 && (s@[0] == '+'
        || s@[0] == '-') {
        s@.drop_first()
    } else {
        s@
    });
    r
}

// ---------------------------------------------------------------------------
// Lines
// ---------------------------------------------------------------------------

/// Splitting on newlines, with the line `cur` in progress.
pub open spec fn pieces_from(s: Seq<char>, cur: Seq<char>) -> Seq<Seq<char>>
    decreases s.len(),
{
    if s.len() == 0 {
        seq![cur]
    } else if s[0] == '\n' {
        seq![cur] + pieces_from(s.drop_first(), seq![])
    } else {
        pieces_from(s.drop_first(), cur.push(s[0]))
    }
}

/// The newline-separated lines of `s`. Every line is read trimmed and blank
/// lines carry nothing, so a carriage return before a newline and a final
/// newline make no difference.
pub open spec fn text_lines(s: Seq<char>) -> Seq<Seq<char>> {
    pieces_from(s, seq![])
}

/// `s` begins with `p`.
pub open spec fn starts_with(s: Seq<char>, p: Seq<char>) -> bool {
    p.len() <= s.len() && s.take(p.len() as int) == p
}

/// The newline-separated lines of `s`.
pub fn split_lines(s: &Vec<char>) -> (r: Vec<Vec<char>>)
    ensures
        views(r@) == text_lines(s@),
        forall|i: int| 0 <= i < r.len() ==> (#[trigger] r@[i]).len() <= s.len(),
        total_len(views(r@)) <= s.len(),
{
    let mut acc: Vec<Vec<char>> = Vec::new();
    let mut cur: Vec<char> = Vec::new();
    let mut i: usize = 0;
    assert(s@.skip(0) =~= s@);
    while i < s.len()
        invariant
            i <= s.len(),
            views(acc@) + pieces_from(s@.skip(i as int), cur@) == text_lines(s@),
            cur.len() <= i,
            forall|k: int| 0 <= k < acc.len() ==> (#[trigger] acc@[k]).len() <= s.len(),
            total_len(views(acc@)) + acc.len() + cur.len() == i,
        decreases s.len() - i,
    {
        let c = s[i];
        let ghost rest = s@.skip(i as int);
        assert(rest.drop_first() =~= s@.skip(i + 1));
        assert(rest[0] == c);
        if c == '\n' {
            let ghost old_acc = views(acc@);
            let ghost w = cur@;
            acc.push(cur);
            cur = Vec::new();
            assert(views(acc@) =~= old_acc.push(w));
            assert(views(acc@).drop_last() =~= old_acc);
            assert(old_acc + (seq![w] + pieces_from(s@.skip(i + 1), seq![])) =~= old_acc.push(w)
                + pieces_from(s@.skip(i + 1), seq![]));
            assert(cur@ =~= Seq::<char>::empty());
        } else {
            cur.push(c);
        }
        i += 1;
    }
    let ghost old_acc = views(acc@);
    let ghost w = cur@;
    acc.push(cur);
    assert(views(acc@) =~= old_acc.push(w));
    assert(views(acc@).drop_last() =~= old_acc);
    assert(pieces_from(s@.skip(i as int), w) =~= seq![w]);
    acc
}

/// Whether `s` begins with the characters of `p`.
fn starts_with_str(s: &Vec<char>, p: &str) -> (r: bool)
    ensures
        r == starts_with(s@, p@),
{
    let pv = chars_of(p);
    if pv.len() > s.len() {
        return false;
    }
    let head = slice_chars(s, 0, pv.len());
    assert(head@ =~= s@.take(pv.len() as int));
    seq_eq(&head, &pv)
}

// ---------------------------------------------------------------------------
// The joint hierarchy
// ---------------------------------------------------------------------------

/// A joint as read: its name, parent joint, `OFFSET` tokens (none, or the
/// first three) and channel names.
pub struct JointView {
    pub name: Seq<char>,
    pub parent: Option<int>,
    pub offset: Seq<Seq<char>>,
    pub channels: Seq<Seq<char>>,
}

/// The state of reading the hierarchy: the joints so far, the joints whose
/// `{` block is open, and the joint waiting for its `{`.
pub struct Hierarchy {
    pub joints: Seq<JointView>,
    pub stack: Seq<int>,
    pub pending: Option<int>,
}

/// The top of the block stack.
pub open spec fn top(stack: Seq<int>) -> Option<int> {
    if stack.len() == 0 {
        None
    } else {
        Some(stack.last())
    }
}

/// The first token that is not a floating-point literal.
pub open spec fn first_bad(toks: Seq<Seq<char>>) -> Option<Seq<char>>
    decreases toks.len(),
{
    if toks.len() == 0 {
        None
    } else if !is_float_token(toks[0]) {
        Some(toks[0])
    } else {
        first_bad(toks.drop_first())
    }
}

/// The channel names of a `CHANNELS` line: the count, then that many names
/// (as many as there are).
pub open spec fn channel_names(parts: Seq<Seq<char>>) -> Seq<Seq<char>> {
    if parts.len() == 0 {
        seq![]
    } else {
        let count: int = match usize_token(parts[0]) {
            Some(c) => c as int,
            None => 0,
        };
        let rest = parts.drop_first();
        if count < rest.len() {
            rest.take(count)
        } else {
            rest
        }
    }
}

/// The hierarchy with joint `i` changed.
pub open spec fn with_joint(h: Hierarchy, i: int, j: JointView) -> Hierarchy {
    Hierarchy { joints: h.joints.update(i, j), stack: h.stack, pending: h.pending }
}

/// One trimmed line of the hierarchy; an invalid number in an `OFFSET` line
/// stops the reading with that token.
pub open spec fn hier_step(h: Hierarchy, l: Seq<char>) -> Result<Hierarchy, Seq<char>> {
    if starts_with(l, "ROOT "@) || starts_with(l, "JOINT "@) {
        let name = if starts_with(l, "ROOT "@) {
            trim(l.skip(5))
        } else {
            trim(l.skip(6))
        };
        Ok(
            Hierarchy {
                joints: h.joints.push(
                    JointView { name, parent: top(h.stack), offset: seq![], channels: seq![] },
                ),
                stack: h.stack,
                pending: Some(h.joints.len() as int),
            },
        )
    } else if l == "{"@ {
        match h.pending {
            Some(i) => Ok(Hierarchy { joints: h.joints, stack: h.stack.push(i), pending: None }),
            None => Ok(h),
        }
    } else if l == "}"@ {
        Ok(
            Hierarchy {
                joints: h.joints,
                stack: if h.stack.len() == 0 {
                    h.stack
                } else {
                    h.stack.drop_last()
                },
                pending: h.pending,
            },
        )
    } else if starts_with(l, "OFFSET "@) {
        if h.stack.len() == 0 {
            Ok(h)
        } else {
            let toks = words(l.skip(7));
            let i = h.stack.last();
            match first_bad(toks) {
                Some(t) => Err(t),
                None => if toks.len() >= 3 {
                    Ok(
                        with_joint(
                            h,
                            i,
                            JointView {
                                name: h.joints[i].name,
                                parent: h.joints[i].parent,
                                offset: toks.take(3),
                                channels: h.joints[i].channels,
                            },
                        ),
                    )
                } else {
                    Ok(h)
                },
            }
        }
    } else if starts_with(l, "CHANNELS "@) {
        if h.stack.len() == 0 {
            Ok(h)
        } else {
            let i = h.stack.last();
            Ok(
                with_joint(
                    h,
                    i,
                    JointView {
                        name: h.joints[i].name,
                        parent: h.joints[i].parent,
                        offset: h.joints[i].offset,
                        channels: channel_names(words(l.skip(9))),
                    },
                ),
            )
        }
    } else {
        Ok(h)
    }
}

/// Reading the remaining lines of the hierarchy.
pub open spec fn hier_from(ls: Seq<Seq<char>>, h: Hierarchy) -> Result<Hierarchy, Seq<char>>
    decreases ls.len(),
{
    if ls.len() == 0 {
        Ok(h)
    } else {
        match hier_step(h, trim(ls[0])) {
            Err(t) => Err(t),
            Ok(h2) => hier_from(ls.drop_first(), h2),
        }
    }
}

/// The empty hierarchy.
pub open spec fn empty_hierarchy() -> Hierarchy {
    Hierarchy { joints: seq![], stack: seq![], pending: None }
}

/// The joints of a hierarchy section, or the first invalid `OFFSET` number.
pub open spec fn read_hierarchy(s: Seq<char>) -> Result<Seq<JointView>, Seq<char>> {
    match hier_from(text_lines(s), empty_hierarchy()) {
        Ok(h) => Ok(h.joints),
        Err(t) => Err(t),
    }
}

/// The number of channels over all joints.
pub open spec fn channel_total(js: Seq<JointView>) -> int
    decreases js.len(),
{
    if js.len() == 0 {
        0
    } else {
        channel_total(js.drop_last()) + js.last().channels.len()
    }
}

/// The number of characters over all lines.
pub open spec fn total_len(ps: Seq<Seq<char>>) -> int
    decreases ps.len(),
{
    if ps.len() == 0 {
        0
    } else {
        total_len(ps.drop_last()) + ps.last().len()
    }
}

proof fn lemma_channel_total_push(js: Seq<JointView>, j: JointView)
    ensures
        channel_total(js.push(j)) == channel_total(js) + j.channels.len(),
{
    assert(js.push(j).drop_last() =~= js);
}

proof fn lemma_channel_total_update(js: Seq<JointView>, i: int, j: JointView)
    requires
        0 <= i < js.len(),
    ensures
        channel_total(js.update(i, j)) == channel_total(js) - js[i].channels.len()
            + j.channels.len(),
    decreases js.len(),
{
    let u = js.update(i, j);
    if i == js.len() - 1 {
        assert(u.drop_last() =~= js.drop_last());
    } else {
        lemma_channel_total_update(js.drop_last(), i, j);
        assert(u.drop_last() =~= js.drop_last().update(i, j));
    }
}

proof fn lemma_channel_total_prefix(js: Seq<JointView>, i: int)
    requires
        0 <= i <= js.len(),
    ensures
        0 <= channel_total(js.take(i)) <= channel_total(js),
    decreases js.len() - i,
{
    if i < js.len() {
        lemma_channel_total_prefix(js, i + 1);
        assert(js.take(i + 1).drop_last() =~= js.take(i));
        lemma_channel_total_nonneg(js.take(i));
    } else {
        assert(js.take(i) =~= js);
        lemma_channel_total_nonneg(js);
    }
}

proof fn lemma_channel_total_nonneg(js: Seq<JointView>)
    ensures
        channel_total(js) >= 0,
    decreases js.len(),
{
    if js.len() > 0 {
        lemma_channel_total_nonneg(js.drop_last());
    }
}

proof fn lemma_total_len_prefix(ps: Seq<Seq<char>>, i: int)
    requires
        0 <= i < ps.len(),
    ensures
        total_len(ps.take(i + 1)) == total_len(ps.take(i)) + ps[i].len(),
{
    assert(ps.take(i + 1).drop_last() =~= ps.take(i));
}

// ---------------------------------------------------------------------------
// Reading the hierarchy
// ---------------------------------------------------------------------------

/// A joint of a BVH hierarchy: its name, parent joint, `OFFSET` tokens (none,
/// or the first three) and channel names.
#[derive(Debug, Clone)]
pub struct BvhJoint {
    pub name: String,
    pub parent: Option<usize>,
    pub offset: Vec<String>,
    pub channels: Vec<String>,
}

/// An optional index as an integer.
pub open spec fn opt_int(p: Option<usize>) -> Option<int> {
    match p {
        Some(x) => Some(x as int),
        None => None,
    }
}

impl View for BvhJoint {
    type V = JointView;

    open spec fn view(&self) -> JointView {
        JointView {
            name: self.name@,
            parent: opt_int(self.parent),
            offset: string_views(self.offset@),
            channels: string_views(self.channels@),
        }
    }
}

/// Views of a sequence of joints.
pub open spec fn joint_views(v: Seq<BvhJoint>) -> Seq<JointView> {
    Seq::new(v.len(), |i: int| v[i]@)
}

/// A sequence of indices as integers.
pub open spec fn int_seq(v: Seq<usize>) -> Seq<int> {
    Seq::new(v.len(), |i: int| v[i] as int)
}

proof fn lemma_first_bad_at(ts: Seq<Seq<char>>, i: int)
    requires
        0 <= i < ts.len(),
        forall|k: int| 0 <= k < i ==> is_float_token(#[trigger] ts[k]),
        !is_float_token(ts[i]),
    ensures
        first_bad(ts) == Some(ts[i]),
    decreases i,
{
    if i > 0 {
        assert forall|k: int| 0 <= k < i - 1 implies is_float_token(
            #[trigger] ts.drop_first()[k],
        ) by {
            assert(ts.drop_first()[k] == ts[k + 1]);
        }
        assert(is_float_token(ts[0]));
        lemma_first_bad_at(ts.drop_first(), i - 1);
    }
}

proof fn lemma_first_bad_none(ts: Seq<Seq<char>>)
    requires
        forall|k: int| 0 <= k < ts.len() ==> is_float_token(#[trigger] ts[k]),
    ensures
        first_bad(ts) is None,
    decreases ts.len(),
{
    if ts.len() > 0 {
        assert(is_float_token(ts[0]));
        assert forall|k: int| 0 <= k < ts.len() - 1 implies is_float_token(
            #[trigger] ts.drop_first()[k],
        ) by {
            assert(ts.drop_first()[k] == ts[k + 1]);
        }
        lemma_first_bad_none(ts.drop_first());
    }
}

/// The first token that is not a floating-point literal.
fn first_bad_token(toks: &Vec<Vec<char>>) -> (r: Option<usize>)
    ensures
        match r {
            Some(i) => i < toks.len() && first_bad(views(toks@)) == Some(views(toks@)[i as int]),
            None => first_bad(views(toks@)) is None,
        },
{
    let ghost ts = views(toks@);
    let mut i: usize = 0;
    while i < toks.len()
        invariant
            i <= toks.len(),
            ts == views(toks@),
            forall|k: int| 0 <= k < i ==> is_float_token(#[trigger] ts[k]),
        decreases toks.len() - i,
    {
        if !float_token_ok(&toks[i]) {
            proof {
                lemma_first_bad_at(ts, i as int);
            }
            return Some(i);
        }
        i += 1;
    }
    proof {
        lemma_first_bad_none(ts);
    }
    None
}

/// `v[from..to]` as strings.
fn strings_between(v: &Vec<Vec<char>>, from: usize, to: usize) -> (r: Vec<String>)
    requires
        from <= to <= v.len(),
    ensures
        string_views(r@) == views(v@).subrange(from as int, to as int),
        r.len() == to - from,
{
    let mut out: Vec<String> = Vec::new();
    let mut k: usize = from;
    while k < to
        invariant
            from <= k <= to <= v.len(),
            string_views(out@) == views(v@).subrange(from as int, k as int),
            out.len() == k - from,
        decreases to - k,
    {
        let st = string_of(&v[k]);
        let ghost before = string_views(out@);
        out.push(st);
        assert(string_views(out@) =~= before.push(v@[k as int]@));
        assert(views(v@).subrange(from as int, k + 1) =~= views(v@).subrange(
            from as int,
            k as int,
        ).push(v@[k as int]@));
        k += 1;
    }
    out
}

/// The channel names of a `CHANNELS` line.
fn channel_names_of(rest: &Vec<char>) -> (r: Vec<String>)
    ensures
        string_views(r@) == channel_names(words(rest@)),
        r.len() <= rest.len(),
{
    let parts = split_whitespace(rest);
    proof {
        lemma_words_from_len(rest@, seq![]);
    }
    if parts.len() == 0 {
        let out: Vec<String> = Vec::new();
        assert(string_views(out@) =~= Seq::<Seq<char>>::empty());
        return out;
    }
    let count: usize = match parse_usize_token(&parts[0]) {
        Some(c) => c,
        None => 0,
    };
    let avail = parts.len() - 1;
    let take = if count < avail {
        count
    } else {
        avail
    };
    let out = strings_between(&parts, 1, 1 + take);
    let ghost ps = views(parts@);
    assert(ps[0] == parts@[0]@);
    if count < avail {
        assert(ps.drop_first().take(take as int) =~= ps.subrange(1, 1 + take));
    } else {
        assert(ps.drop_first() =~= ps.subrange(1, 1 + take));
    }
    out
}

/// One trimmed hierarchy line applied to the joints, block stack and
/// pending joint.
fn hier_line(
    l: &Vec<char>,
    joints: &mut Vec<BvhJoint>,
    stack: &mut Vec<usize>,
    pending: &mut Option<usize>,
) -> (r: Option<Vec<char>>)
    requires
        forall|k: int| 0 <= k < old(stack).len() ==> #[trigger] old(stack)@[k] < old(joints).len(),
        match *old(pending) {
            Some(p) => p < old(joints).len(),
            None => true,
        },
        old(joints).len() < usize::MAX,
    ensures
        match r {
            Some(t) => hier_step(
                Hierarchy {
                    joints: joint_views(old(joints)@),
                    stack: int_seq(old(stack)@),
                    pending: opt_int(*old(pending)),
                },
                l@,
            ) == Err::<Hierarchy, Seq<char>>(t@),
            None => hier_step(
                Hierarchy {
                    joints: joint_views(old(joints)@),
                    stack: int_seq(old(stack)@),
                    pending: opt_int(*old(pending)),
                },
                l@,
            ) == Ok::<Hierarchy, Seq<char>>(
                Hierarchy {
                    joints: joint_views(final(joints)@),
                    stack: int_seq(final(stack)@),
                    pending: opt_int(*final(pending)),
                },
            ),
        },
        forall|k: int|
            0 <= k < final(stack).len() ==> #[trigger] final(stack)@[k] < final(joints).len(),
        match *final(pending) {
            Some(p) => p < final(joints).len(),
            None => true,
        },
        channel_total(joint_views(final(joints)@)) <= channel_total(joint_views(old(joints)@))
            + l.len(),
        final(joints).len() <= old(joints).len() + 1,
{
    let ghost h = Hierarchy {
        joints: joint_views(joints@),
        stack: int_seq(stack@),
        pending: opt_int(*pending),
    };
    proof {
        reveal_strlit("ROOT ");
        reveal_strlit("JOINT ");
        reveal_strlit("OFFSET ");
        reveal_strlit("CHANNELS ");
        reveal_strlit("{");
        reveal_strlit("}");
    }
    let is_root = starts_with_str(l, "ROOT ");
    let is_joint = starts_with_str(l, "JOINT ");
    if is_root || is_joint {
        let skip: usize = if is_root {
            5
        } else {
            6
        };
        let rest = slice_chars(l, skip, l.len());
        assert(rest@ =~= l@.skip(skip as int));
        let name = trim_chars(&rest);
        let parent: Option<usize> = if stack.len() == 0 {
            None
        } else {
            Some(stack[stack.len() - 1])
        };
        let no_offset: Vec<String> = Vec::new();
        let no_channels: Vec<String> = Vec::new();
        assert(string_views(no_offset@) =~= Seq::<Seq<char>>::empty());
        assert(string_views(no_channels@) =~= Seq::<Seq<char>>::empty());
        let joint = BvhJoint {
            name: string_of(&name),
            parent,
            offset: no_offset,
            channels: no_channels,
        };
        let ghost old_joints = joint_views(joints@);
        let idx = joints.len();
        joints.push(joint);
        *pending = Some(idx);
        proof {
            assert(joint_views(joints@) =~= old_joints.push(
                JointView { name: name@, parent: top(h.stack), offset: seq![], channels: seq![] },
            ));
            assert(int_seq(stack@) == h.stack);
            lemma_channel_total_push(old_joints, joint_views(joints@).last());
        }
        return None;
    }
    let open_brace = chars_of("{");
    if seq_eq(l, &open_brace) {
        match *pending {
            Some(i) => {
                let ghost old_stack = int_seq(stack@);
                stack.push(i);
                *pending = None;
                assert(int_seq(stack@) =~= old_stack.push(i as int));
            },
            None => {},
        }
        return None;
    }
    let close_brace = chars_of("}");
    if seq_eq(l, &close_brace) {
        if stack.len() > 0 {
            let ghost old_stack = int_seq(stack@);
            stack.pop();
            assert(int_seq(stack@) =~= old_stack.drop_last());
        }
        return None;
    }
    if starts_with_str(l, "OFFSET ") {
        if stack.len() == 0 {
            return None;
        }
        let i = stack[stack.len() - 1];
        let rest = slice_chars(l, 7, l.len());
        assert(rest@ =~= l@.skip(7));
        let toks = split_whitespace(&rest);
        match first_bad_token(&toks) {
            Some(b) => {
                let bad = slice_chars(&toks[b], 0, toks[b].len());
                assert(bad@ =~= toks@[b as int]@);
                return Some(bad);
            },
            None => {
                if toks.len() >= 3 {
                    let offset = strings_between(&toks, 0, 3);
                    assert(views(toks@).subrange(0, 3) =~= views(toks@).take(3));
                    let ghost old_joints = joint_views(joints@);
                    let mut jt = joints.remove(i);
                    jt.offset = offset;
                    joints.insert(i, jt);
                    assert(joint_views(joints@) =~= old_joints.update(
                        i as int,
                        JointView {
                            name: old_joints[i as int].name,
                            parent: old_joints[i as int].parent,
                            offset: views(toks@).take(3),
                            channels: old_joints[i as int].channels,
                        },
                    ));
                    proof {
                        lemma_channel_total_update(old_joints, i as int, joint_views(joints@)[i as int]);
                    }
                }
                return None;
            },
        }
    }
    if starts_with_str(l, "CHANNELS ") {
        if stack.len() == 0 {
            return None;
        }
        let i = stack[stack.len() - 1];
        let rest = slice_chars(l, 9, l.len());
        assert(rest@ =~= l@.skip(9));
        let channels = channel_names_of(&rest);
        let ghost old_joints = joint_views(joints@);
        let mut jt = joints.remove(i);
        jt.channels = channels;
        joints.insert(i, jt);
        assert(joint_views(joints@) =~= old_joints.update(
            i as int,
            JointView {
                name: old_joints[i as int].name,
                parent: old_joints[i as int].parent,
                offset: old_joints[i as int].offset,
                channels: channel_names(words(l@.skip(9))),
            },
        ));
        proof {
            lemma_channel_total_update(old_joints, i as int, joint_views(joints@)[i as int]);
            lemma_channel_total_nonneg(old_joints.take(i as int));
        }
        return None;
    }
    None
}

/// Read the hierarchy section: its joints, or the first invalid `OFFSET`
/// number.
fn read_hierarchy_of(s: &Vec<char>) -> (r: Result<Vec<BvhJoint>, Vec<char>>)
    ensures
        match r {
            Ok(js) => read_hierarchy(s@) == Ok::<Seq<JointView>, Seq<char>>(joint_views(js@))
                && channel_total(joint_views(js@)) <= s.len(),
            Err(t) => read_hierarchy(s@) == Err::<Seq<JointView>, Seq<char>>(t@),
        },
{
    let lines = split_lines(s);
    let ghost ls = views(lines@);
    let mut joints: Vec<BvhJoint> = Vec::new();
    let mut stack: Vec<usize> = Vec::new();
    let mut pending: Option<usize> = None;
    let mut k: usize = 0;
    assert(ls.skip(0) =~= ls);
    assert(joint_views(joints@) =~= Seq::<JointView>::empty());
    assert(int_seq(stack@) =~= Seq::<int>::empty());
    assert(ls.take(0) =~= Seq::<Seq<char>>::empty());
    while k < lines.len()
        invariant
            k <= lines.len(),
            ls == views(lines@),
            ls == text_lines(s@),
            total_len(ls) <= s.len(),
            hier_from(ls, empty_hierarchy()) == hier_from(
                ls.skip(k as int),
                Hierarchy {
                    joints: joint_views(joints@),
                    stack: int_seq(stack@),
                    pending: opt_int(pending),
                },
            ),
            forall|j: int| 0 <= j < stack.len() ==> #[trigger] stack@[j] < joints.len(),
            match pending {
                Some(p) => p < joints.len(),
                None => true,
            },
            joints.len() <= k,
            channel_total(joint_views(joints@)) <= total_len(ls.take(k as int)),
        decreases lines.len() - k,
    {
        let l = trim_chars(&lines[k]);
        let ghost rest = ls.skip(k as int);
        assert(rest[0] == ls[k as int]);
        assert(rest.drop_first() =~= ls.skip(k + 1));
        proof {
            lemma_total_len_prefix(ls, k as int);
        }
        let res = hier_line(&l, &mut joints, &mut stack, &mut pending);
        match res {
            Some(t) => {
                return Err(t);
            },
            None => {},
        }
        k += 1;
    }
    assert(ls.take(k as int) =~= ls);
    Ok(joints)
}

// ---------------------------------------------------------------------------
// The motion section and the whole file
// ---------------------------------------------------------------------------

/// Why a BVH file or clip was refused.
pub enum BvhFault {
    MissingMotion,
    InvalidFrameMetadata,
    InvalidNumber(Seq<char>),
    ChannelCount(int, int, int),
    NoFrames,
    SidecarFrameCount,
}

/// Why a BVH file or clip was refused.
#[derive(Debug, Clone)]
pub enum BvhError {
    /// The file has no `MOTION` section.
    MissingMotion,
    /// The `Frames:` or `Frame Time:` line is missing or unreadable, or
    /// fewer frames follow than it announces.
    InvalidFrameMetadata,
    /// A token that should be a number is not.
    InvalidNumber(String),
    /// A frame has another number of values than the hierarchy has channels.
    ChannelCount { frame: usize, actual: usize, expected: usize },
    /// The motion has no frames.
    NoFrames,
    /// The sidecar does not have one entry per frame.
    SidecarFrameCount,
}

impl View for BvhError {
    type V = BvhFault;

    open spec fn view(&self) -> BvhFault {
        match self {
            BvhError::MissingMotion => BvhFault::MissingMotion,
            BvhError::InvalidFrameMetadata => BvhFault::InvalidFrameMetadata,
            BvhError::InvalidNumber(t) => BvhFault::InvalidNumber(t@),
            BvhError::ChannelCount { frame, actual, expected } => BvhFault::ChannelCount(
                *frame as int,
                *actual as int,
                *expected as int,
            ),
            BvhError::NoFrames => BvhFault::NoFrames,
            BvhError::SidecarFrameCount => BvhFault::SidecarFrameCount,
        }
    }
}

/// A BVH file as read: its joints, the frame time and each frame's values,
/// all numbers as their tokens.
pub struct MotionView {
    pub joints: Seq<JointView>,
    pub frame_time: Seq<char>,
    pub frames: Seq<Seq<Seq<char>>>,
}

/// A BVH file as read: its joints, the frame time and each frame's values,
/// all numbers as tokens of floating-point literals.
#[derive(Debug, Clone)]
pub struct BvhMotion {
    pub joints: Vec<BvhJoint>,
    pub frame_time: String,
    pub frames: Vec<Vec<String>>,
}

/// Views of frame rows of tokens.
pub open spec fn row_views(v: Seq<Vec<String>>) -> Seq<Seq<Seq<char>>> {
    Seq::new(v.len(), |i: int| string_views(v[i]@))
}

impl View for BvhMotion {
    type V = MotionView;

    open spec fn view(&self) -> MotionView {
        MotionView {
            joints: joint_views(self.joints@),
            frame_time: self.frame_time@,
            frames: row_views(self.frames@),
        }
    }
}

/// The first position at or after `i` where `needle` occurs in `hay`.
pub open spec fn find_from(hay: Seq<char>, needle: Seq<char>, i: int) -> Option<int>
    decreases hay.len() - i,
{
    if i < 0 || i >= hay.len() || i + needle.len() > hay.len() {
        None
    } else if occurs_at(hay, needle, i) {
        Some(i)
    } else {
        find_from(hay, needle, i + 1)
    }
}

/// The trimmed lines that are not blank.
pub open spec fn content_lines(ls: Seq<Seq<char>>) -> Seq<Seq<char>>
    decreases ls.len(),
{
    if ls.len() == 0 {
        seq![]
    } else {
        (if trim(ls[0]).len() > 0 {
            seq![trim(ls[0])]
        } else {
            Seq::<Seq<char>>::empty()
        }) + content_lines(ls.drop_first())
    }
}

/// The frame count and frame-time token announced by the first two lines of
/// the motion section.
pub open spec fn frame_metadata(ls: Seq<Seq<char>>) -> Option<(nat, Seq<char>)> {
    if ls.len() >= 2 && starts_with(ls[0], "Frames:"@) && usize_token(trim(ls[0].skip(7))) is Some
        && starts_with(ls[1], "Frame Time:"@) && is_float_token(trim(ls[1].skip(11))) {
        Some((usize_token(trim(ls[0].skip(7)))->0, trim(ls[1].skip(11))))
    } else {
        None
    }
}

/// The first fault among frame rows numbered from `start`: an invalid number,
/// or another count of values than `expected`.
pub open spec fn frame_fault(rows: Seq<Seq<char>>, expected: int, start: int) -> Option<BvhFault>
    decreases rows.len(),
{
    if rows.len() == 0 {
        None
    } else {
        let vals = words(rows[0]);
        match first_bad(vals) {
            Some(t) => Some(BvhFault::InvalidNumber(t)),
            None => if vals.len() != expected {
                Some(BvhFault::ChannelCount(start, vals.len() as int, expected))
            } else {
                frame_fault(rows.drop_first(), expected, start + 1)
            },
        }
    }
}

/// The frame rows: as many lines after the metadata as announced, at most.
pub open spec fn frame_rows(ls: Seq<Seq<char>>, n: nat) -> Seq<Seq<char>> {
    let body = ls.skip(2);
    if n < body.len() {
        body.take(n as int)
    } else {
        body
    }
}

/// Reading a BVH file: the hierarchy before the first `MOTION`, then the
/// frame count, the frame time and the frame rows after it.
pub open spec fn bvh_parse(s: Seq<char>) -> Result<MotionView, BvhFault> {
    match find_from(s, "MOTION"@, 0) {
        None => Err(BvhFault::MissingMotion),
        Some(k) => match read_hierarchy(s.take(k)) {
            Err(t) => Err(BvhFault::InvalidNumber(t)),
            Ok(joints) => {
                let ls = content_lines(text_lines(s.skip(k + 6)));
                match frame_metadata(ls) {
                    None => Err(BvhFault::InvalidFrameMetadata),
                    Some(meta) => {
                        let rows = frame_rows(ls, meta.0);
                        match frame_fault(rows, channel_total(joints), 0) {
                            Some(f) => Err(f),
                            None => if rows.len() != meta.0 {
                                Err(BvhFault::InvalidFrameMetadata)
                            } else {
                                Ok(
                                    MotionView {
                                        joints,
                                        frame_time: meta.1,
                                        frames: rows.map_values(|r: Seq<char>| words(r)),
                                    },
                                )
                            },
                        }
                    },
                }
            },
        },
    }
}

/// The first position where `needle` occurs in `hay`.
fn find_chars(hay: &Vec<char>, needle: &Vec<char>) -> (r: Option<usize>)
    ensures
        match r {
            Some(i) => find_from(hay@, needle@, 0) == Some(i as int) && i + needle.len()
                <= hay.len(),
            None => find_from(hay@, needle@, 0) is None,
        },
{
    let mut i: usize = 0;
    while i < hay.len() && needle.len() <= hay.len() - i
        invariant
            i <= hay.len(),
            find_from(hay@, needle@, 0) == find_from(hay@, needle@, i as int),
        decreases hay.len() - i,
    {
        let window = slice_chars(hay, i, i + needle.len());
        if seq_eq(&window, needle) {
            assert(occurs_at(hay@, needle@, i as int));
            return Some(i);
        }
        assert(!occurs_at(hay@, needle@, i as int));
        i += 1;
    }
    None
}

/// The trimmed lines that are not blank.
fn content_lines_of(lines: &Vec<Vec<char>>) -> (r: Vec<Vec<char>>)
    ensures
        views(r@) == content_lines(views(lines@)),
{
    let ghost ls = views(lines@);
    let mut out: Vec<Vec<char>> = Vec::new();
    let mut j: usize = 0;
    assert(views(out@) =~= Seq::<Seq<char>>::empty());
    assert(ls.skip(0) =~= ls);
    assert(views(out@) + content_lines(ls) =~= content_lines(ls));
    while j < lines.len()
        invariant
            j <= lines.len(),
            ls == views(lines@),
            content_lines(ls) == views(out@) + content_lines(ls.skip(j as int)),
        decreases lines.len() - j,
    {
        let ghost rest = ls.skip(j as int);
        assert(rest[0] == ls[j as int]);
        assert(rest.drop_first() =~= ls.skip(j + 1));
        let t = trim_chars(&lines[j]);
        if t.len() > 0 {
            let ghost before = views(out@);
            let ghost tv = t@;
            out.push(t);
            assert(views(out@) =~= before.push(tv));
            assert(before + (seq![tv] + content_lines(ls.skip(j + 1))) =~= before.push(tv)
                + content_lines(ls.skip(j + 1)));
        } else {
            assert(Seq::<Seq<char>>::empty() + content_lines(ls.skip(j + 1)) =~= content_lines(
                ls.skip(j + 1),
            ));
        }
        j += 1;
    }
    assert(views(out@) + Seq::<Seq<char>>::empty() =~= views(out@));
    out
}

/// The number of channels over all joints.
fn total_channels(joints: &Vec<BvhJoint>, bound: usize) -> (r: usize)
    requires
        channel_total(joint_views(joints@)) <= bound,
    ensures
        r == channel_total(joint_views(joints@)),
{
    let ghost js = joint_views(joints@);
    let mut acc: usize = 0;
    let mut i: usize = 0;
    assert(js.take(0) =~= Seq::<JointView>::empty());
    while i < joints.len()
        invariant
            i <= joints.len(),
            js == joint_views(joints@),
            channel_total(js) <= bound,
            acc == channel_total(js.take(i as int)),
        decreases joints.len() - i,
    {
        proof {
            assert(js.take(i + 1).drop_last() =~= js.take(i as int));
            lemma_channel_total_prefix(js, i + 1);
        }
        acc = acc + joints[i].channels.len();
        i += 1;
    }
    assert(js.take(i as int) =~= js);
    acc
}

/// Read frame rows `rows[from..to]` against the expected number of values.
fn read_frames(rows: &Vec<Vec<char>>, from: usize, to: usize, expected: usize) -> (r: Result<
    Vec<Vec<String>>,
    BvhError,
>)
    requires
        from <= to <= rows.len(),
    ensures
        match r {
            Ok(fs) => frame_fault(views(rows@).subrange(from as int, to as int), expected as int, 0)
                is None && row_views(fs@) == views(rows@).subrange(from as int, to as int).map_values(
                |row: Seq<char>| words(row),
            ),
            Err(e) => frame_fault(
                views(rows@).subrange(from as int, to as int),
                expected as int,
                0,
            ) == Some(e@),
        },
{
    let ghost sub = views(rows@).subrange(from as int, to as int);
    let mut out: Vec<Vec<String>> = Vec::new();
    let mut i: usize = from;
    assert(sub.skip(0) =~= sub);
    assert(row_views(out@) =~= sub.take(0).map_values(|row: Seq<char>| words(row)));
    while i < to
        invariant
            from <= i <= to <= rows.len(),
            sub == views(rows@).subrange(from as int, to as int),
            frame_fault(sub, expected as int, 0) == frame_fault(
                sub.skip(i - from),
                expected as int,
                i - from,
            ),
            row_views(out@) == sub.take(i - from).map_values(|row: Seq<char>| words(row)),
        decreases to - i,
    {
        let ghost rest = sub.skip(i - from);
        assert(rest[0] == rows@[i as int]@);
        assert(rest.drop_first() =~= sub.skip(i + 1 - from));
        let vals = split_whitespace(&rows[i]);
        match first_bad_token(&vals) {
            Some(b) => {
                let bad = slice_chars(&vals[b], 0, vals[b].len());
                assert(bad@ =~= vals@[b as int]@);
                return Err(BvhError::InvalidNumber(string_of(&bad)));
            },
            None => {},
        }
        if vals.len() != expected {
            return Err(BvhError::ChannelCount { frame: i - from, actual: vals.len(), expected });
        }
        let row = strings_between(&vals, 0, vals.len());
        assert(views(vals@).subrange(0, vals.len() as int) =~= views(vals@));
        let ghost before = row_views(out@);
        out.push(row);
        assert(row_views(out@) =~= before.push(words(rows@[i as int]@)));
        assert(sub.take(i + 1 - from) =~= sub.take(i - from).push(rows@[i as int]@));
        assert(sub.take(i + 1 - from).map_values(|row: Seq<char>| words(row)) =~= sub.take(
            i - from,
        ).map_values(|row: Seq<char>| words(row)).push(words(rows@[i as int]@)));
        i += 1;
    }
    assert(sub.skip(i - from) =~= Seq::<Seq<char>>::empty());
    assert(sub.take(i - from) =~= sub);
    Ok(out)
}

/// Read a BVH file: the joint hierarchy before the first `MOTION`, then the
/// announced frame count and frame time, then that many frame rows. Each
/// refusal comes as the original order of reading meets it: a missing
/// `MOTION`, an invalid `OFFSET` number, unreadable frame metadata, then per
/// frame an invalid number or a wrong count of values, and finally too few
/// frames.
pub fn parse_bvh(input: &str) -> (r: Result<BvhMotion, BvhError>)
    ensures
        match r {
            Ok(m) => bvh_parse(input@) == Ok::<MotionView, BvhFault>(m@),
            Err(e) => bvh_parse(input@) == Err::<MotionView, BvhFault>(e@),
        },
{
    proof {
        reveal_strlit("MOTION");
        reveal_strlit("Frames:");
        reveal_strlit("Frame Time:");
    }
    let s = chars_of(input);
    let motion_word = chars_of("MOTION");
    let k = match find_chars(&s, &motion_word) {
        None => {
            return Err(BvhError::MissingMotion);
        },
        Some(k) => k,
    };
    let hier = slice_chars(&s, 0, k);
    assert(hier@ =~= s@.take(k as int));
    let joints = match read_hierarchy_of(&hier) {
        Err(t) => {
            return Err(BvhError::InvalidNumber(string_of(&t)));
        },
        Ok(js) => js,
    };
    let mot = slice_chars(&s, k + 6, s.len());
    assert(mot@ =~= s@.skip(k + 6));
    let lines = split_lines(&mot);
    let ls = content_lines_of(&lines);
    let ghost lv = views(ls@);
    if ls.len() < 2 {
        return Err(BvhError::InvalidFrameMetadata);
    }
    assert(lv[0] == ls@[0]@ && lv[1] == ls@[1]@);
    if !starts_with_str(&ls[0], "Frames:") {
        return Err(BvhError::InvalidFrameMetadata);
    }
    let count_text = slice_chars(&ls[0], 7, ls[0].len());
    assert(count_text@ =~= lv[0].skip(7));
    let count_tok = trim_chars(&count_text);
    let n = match parse_usize_token(&count_tok) {
        None => {
            return Err(BvhError::InvalidFrameMetadata);
        },
        Some(n) => n,
    };
    if !starts_with_str(&ls[1], "Frame Time:") {
        return Err(BvhError::InvalidFrameMetadata);
    }
    let time_text = slice_chars(&ls[1], 11, ls[1].len());
    assert(time_text@ =~= lv[1].skip(11));
    let frame_time = trim_chars(&time_text);
    if !float_token_ok(&frame_time) {
        return Err(BvhError::InvalidFrameMetadata);
    }
    let expected = total_channels(&joints, hier.len());
    let body_len = ls.len() - 2;
    let take = if n < body_len {
        n
    } else {
        body_len
    };
    assert(views(ls@).subrange(2, 2 + take) =~= frame_rows(lv, n as nat));
    let frames = match read_frames(&ls, 2, 2 + take, expected) {
        Err(e) => {
            return Err(e);
        },
        Ok(fs) => fs,
    };
    if take != n {
        return Err(BvhError::InvalidFrameMetadata);
    }
    Ok(BvhMotion { joints, frame_time: string_of(&frame_time), frames })
}

/// The frame checks before a motion becomes a runtime clip: it must have
/// frames, one root position per frame, and, where foot contacts are given,
/// one contact row per frame.
pub fn clip_frame_check(frames: usize, root_positions: usize, foot_contacts: usize) -> (r: Result<
    (),
    BvhError,
>)
    ensures
        frames == 0 ==> r matches Err(BvhError::NoFrames),
        frames > 0 && (root_positions != frames || (foot_contacts != 0 && foot_contacts
            != frames)) ==> r matches Err(BvhError::SidecarFrameCount),
        frames > 0 && root_positions == frames && (foot_contacts == 0 || foot_contacts == frames)
            ==> r is Ok,
{
    if frames == 0 {
        return Err(BvhError::NoFrames);
    }
    if root_positions != frames || (foot_contacts != 0 && foot_contacts != frames) {
        return Err(BvhError::SidecarFrameCount);
    }
    Ok(())
}

// ---------------------------------------------------------------------------
// Laws
// ---------------------------------------------------------------------------

/// Every parent joint comes before its child.
pub open spec fn parents_precede(js: Seq<JointView>) -> bool {
    forall|j: int|
        0 <= j < js.len() ==> match (#[trigger] js[j]).parent {
            Some(p) => 0 <= p < j,
            None => true,
        }
}

/// The reading state is coherent: parents precede children, and the block
/// stack and the pending joint name existing joints.
pub open spec fn coherent(h: Hierarchy) -> bool {
    &&& parents_precede(h.joints)
    &&& forall|k: int| 0 <= k < h.stack.len() ==> 0 <= #[trigger] h.stack[k] < h.joints.len()
    &&& match h.pending {
        Some(p) => 0 <= p < h.joints.len(),
        None => true,
    }
}

proof fn lemma_hier_step_coherent(h: Hierarchy, l: Seq<char>)
    requires
        coherent(h),
    ensures
        hier_step(h, l) matches Ok(h2) ==> coherent(h2),
{
    if let Ok(h2) = hier_step(h, l) {
        if starts_with(l, "ROOT "@) || starts_with(l, "JOINT "@) {
            assert forall|j: int| 0 <= j < h2.joints.len() implies match (
            #[trigger] h2.joints[j]).parent {
                Some(p) => 0 <= p < j,
                None => true,
            } by {
                if j < h.joints.len() {
                    assert(h2.joints[j] == h.joints[j]);
                }
            }
        } else if l == "{"@ {
        } else if l == "}"@ {
            assert forall|k: int| 0 <= k < h2.stack.len() implies 0 <= #[trigger] h2.stack[k]
                < h2.joints.len() by {
                assert(h2.stack[k] == h.stack[k]);
            }
        } else {
            assert forall|j: int| 0 <= j < h2.joints.len() implies match (
            #[trigger] h2.joints[j]).parent {
                Some(p) => 0 <= p < j,
                None => true,
            } by {
                assert(h2.joints[j].parent == h.joints[j].parent);
            }
        }
    }
}

proof fn lemma_hier_from_coherent(ls: Seq<Seq<char>>, h: Hierarchy)
    requires
        coherent(h),
    ensures
        hier_from(ls, h) matches Ok(h2) ==> coherent(h2),
    decreases ls.len(),
{
    if ls.len() > 0 {
        lemma_hier_step_coherent(h, trim(ls[0]));
        if let Ok(h2) = hier_step(h, trim(ls[0])) {
            lemma_hier_from_coherent(ls.drop_first(), h2);
        }
    }
}

proof fn lemma_first_bad_none_all(ts: Seq<Seq<char>>)
    requires
        first_bad(ts) is None,
    ensures
        forall|k: int| 0 <= k < ts.len() ==> is_float_token(#[trigger] ts[k]),
    decreases ts.len(),
{
    if ts.len() > 0 {
        lemma_first_bad_none_all(ts.drop_first());
        assert forall|k: int| 0 <= k < ts.len() implies is_float_token(#[trigger] ts[k]) by {
            if k > 0 {
                assert(ts[k] == ts.drop_first()[k - 1]);
            }
        }
    }
}

proof fn lemma_frame_fault_none(rows: Seq<Seq<char>>, expected: int, start: int)
    requires
        frame_fault(rows, expected, start) is None,
    ensures
        forall|i: int| 0 <= i < rows.len() ==> words(#[trigger] rows[i]).len() == expected,
        forall|i: int, k: int|
            0 <= i < rows.len() && 0 <= k < words(rows[i]).len() ==> is_float_token(
                #[trigger] words(rows[i])[k],
            ),
    decreases rows.len(),
{
    if rows.len() > 0 {
        lemma_first_bad_none_all(words(rows[0]));
        lemma_frame_fault_none(rows.drop_first(), expected, start + 1);
        assert forall|i: int| 0 <= i < rows.len() implies words(#[trigger] rows[i]).len()
            == expected by {
            if i > 0 {
                assert(rows[i] == rows.drop_first()[i - 1]);
            }
        }
        assert forall|i: int, k: int|
            0 <= i < rows.len() && 0 <= k < words(rows[i]).len() implies is_float_token(
            #[trigger] words(rows[i])[k],
        ) by {
            if i > 0 {
                assert(rows[i] == rows.drop_first()[i - 1]);
            }
        }
    }
}

/// A BVH file that reads is consistent: every parent joint comes before its
/// child, the frame time is a number, and every frame has one number per
/// channel of the hierarchy.
pub proof fn parsed_motion_is_consistent(s: Seq<char>)
    requires
        bvh_parse(s) is Ok,
    ensures
        ({
            let m = bvh_parse(s)->Ok_0;
            &&& parents_precede(m.joints)
            &&& is_float_token(m.frame_time)
            &&& forall|f: int|
                0 <= f < m.frames.len() ==> (#[trigger] m.frames[f]).len() == channel_total(
                    m.joints,
                )
            &&& forall|f: int, t: int|
                0 <= f < m.frames.len() && 0 <= t < m.frames[f].len() ==> is_float_token(
                    #[trigger] m.frames[f][t],
                )
        }),
{
    let k = find_from(s, "MOTION"@, 0)->Some_0;
    let h0 = empty_hierarchy();
    lemma_hier_from_coherent(text_lines(s.take(k)), h0);
    let ls = content_lines(text_lines(s.skip(k + 6)));
    let meta = frame_metadata(ls)->Some_0;
    let joints = read_hierarchy(s.take(k))->Ok_0;
    let rows = frame_rows(ls, meta.0);
    lemma_frame_fault_none(rows, channel_total(joints), 0);
    let m = bvh_parse(s)->Ok_0;
    assert forall|f: int| 0 <= f < m.frames.len() implies (#[trigger] m.frames[f]).len()
        == channel_total(m.joints) by {
        assert(m.frames[f] == words(rows[f]));
    }
    assert forall|f: int, t: int|
        0 <= f < m.frames.len() && 0 <= t < m.frames[f].len() implies is_float_token(
        #[trigger] m.frames[f][t],
    ) by {
        assert(m.frames[f] == words(rows[f]));
    }
}

/// A joint declared in the hierarchy hangs from the innermost joint whose
/// `{` block is still open (the last one opened and not yet closed), or from
/// none when no block is open. The earlier joints and the open blocks are
/// unchanged, and the new joint is the one the next `{` opens.
pub proof fn joints_hang_from_the_innermost_open_block(h: Hierarchy, l: Seq<char>)
    requires
        starts_with(l, "ROOT "@) || starts_with(l, "JOINT "@),
    ensures
        hier_step(h, l) is Ok,
        hier_step(h, l)->Ok_0.joints.len() == h.joints.len() + 1,
        hier_step(h, l)->Ok_0.joints.last().parent == (if h.stack.len() == 0 {
            None
        } else {
            Some(h.stack[h.stack.len() - 1])
        }),
        forall|j: int| 0 <= j < h.joints.len() ==> hier_step(h, l)->Ok_0.joints[j] == h.joints[j],
        hier_step(h, l)->Ok_0.stack == h.stack,
        hier_step(h, l)->Ok_0.pending == Some(h.joints.len() as int),
{
}

/// A joint declared directly inside another joint's block hangs from that
/// joint, whatever blocks enclose the two: in `JOINT x {` followed by
/// `JOINT y`, `y`'s parent is `x`.
pub proof fn nested_joint_hangs_from_its_enclosing_joint(h: Hierarchy, x: Seq<char>, y: Seq<char>)
    ensures
        ({
            let h1 = hier_step(h, "JOINT "@ + x);
            let h2 = hier_step(h1->Ok_0, "{"@);
            let h3 = hier_step(h2->Ok_0, "JOINT "@ + y);
            &&& h1 is Ok
            &&& h2 is Ok
            &&& h3 is Ok
            &&& h3->Ok_0.joints.len() == h.joints.len() + 2
            &&& h3->Ok_0.joints[h.joints.len() as int + 1].parent == Some(h.joints.len() as int)
        }),
{
    reveal_strlit("JOINT ");
    reveal_strlit("ROOT ");
    reveal_strlit("{");
    let jx = "JOINT "@ + x;
    let jy = "JOINT "@ + y;
    assert(jx.take(6) =~= "JOINT "@);
    assert(jy.take(6) =~= "JOINT "@);
    assert(starts_with(jx, "JOINT "@));
    assert(starts_with(jy, "JOINT "@));
    joints_hang_from_the_innermost_open_block(h, jx);
    let h1 = hier_step(h, jx)->Ok_0;
    assert(!starts_with("{"@, "ROOT "@));
    assert(!starts_with("{"@, "JOINT "@));
    let h2 = hier_step(h1, "{"@)->Ok_0;
    assert(h2.stack == h.stack.push(h.joints.len() as int));
    joints_hang_from_the_innermost_open_block(h2, jy);
}

/// A `{` opens the block of the joint declared just before it, and a `}`
/// closes the innermost open block, leaving the blocks around it open;
/// neither changes a joint.
pub proof fn braces_open_and_close_the_innermost_block(h: Hierarchy)
    ensures
        h.pending is Some ==> (hier_step(h, "{"@) matches Ok(h2) && h2.joints == h.joints
            && h2.stack == h.stack.push(h.pending->Some_0) && h2.pending is None),
        h.stack.len() > 0 ==> (hier_step(h, "}"@) matches Ok(h2) && h2.joints == h.joints
            && h2.stack.len() == h.stack.len() - 1 && forall|k: int|
            0 <= k < h2.stack.len() ==> h2.stack[k] == h.stack[k]),
{
    reveal_strlit("JOINT ");
    reveal_strlit("ROOT ");
    reveal_strlit("{");
    reveal_strlit("}");
    assert(!starts_with("{"@, "ROOT "@));
    assert(!starts_with("{"@, "JOINT "@));
    assert(!starts_with("}"@, "ROOT "@));
    assert(!starts_with("}"@, "JOINT "@));
    assert("{"@[0] != "}"@[0]);
}

/// A `CHANNELS` line sets the channels of the innermost open joint, and only
/// those: every other joint and the open blocks are unchanged.
pub proof fn channels_belong_to_the_innermost_open_joint(h: Hierarchy, l: Seq<char>)
    requires
        starts_with(l, "CHANNELS "@),
        h.stack.len() > 0,
        0 <= h.stack[h.stack.len() - 1] < h.joints.len(),
    ensures
        hier_step(h, l) matches Ok(h2) && h2.joints.len() == h.joints.len() && h2.stack == h.stack
            && h2.joints[h.stack[h.stack.len() - 1]].channels == channel_names(words(l.skip(9)))
            && h2.joints[h.stack[h.stack.len() - 1]].name == h.joints[h.stack[h.stack.len()
            - 1]].name && forall|j: int|
            0 <= j < h.joints.len() && j != h.stack[h.stack.len() - 1] ==> h2.joints[j]
                == h.joints[j],
{
    reveal_strlit("JOINT ");
    reveal_strlit("ROOT ");
    reveal_strlit("{");
    reveal_strlit("}");
    reveal_strlit("CHANNELS ");
    reveal_strlit("OFFSET ");
    assert(l.take(9) == "CHANNELS "@);
    assert(l.take(5) == "CHANNELS "@.take(5));
    assert(!starts_with(l, "ROOT "@)) by {
        assert(l.take(5)[0] != "ROOT "@[0]);
    }
    assert(!starts_with(l, "JOINT "@)) by {
        assert(l.take(6) == "CHANNELS "@.take(6));
        assert(l.take(6)[0] != "JOINT "@[0]);
    }
    assert(l != "{"@) by {
        assert(l.len() >= 9);
    }
    assert(l != "}"@) by {
        assert(l.len() >= 9);
    }
    assert(!starts_with(l, "OFFSET "@)) by {
        assert(l.take(7) == "CHANNELS "@.take(7));
        assert(l.take(7)[0] != "OFFSET "@[0]);
    }
}

} // verus!

//! What the language-model author decides without the network: the system
//! prompt, how a JSON object is found in a reply, and the record of one call.
use vstd::prelude::*;

use crate::protocol::{known_actions, known_actions_list, known_camera_intents, known_camera_intents_list};
use crate::text::{
    append_chars, append_str, chars_of, join, join_chars, slice_chars, str_views, string_of, trim,
    trim_chars,
};

verus! {

/// One request on the wire, as written to the diagnostics log.
#[derive(Debug, Clone)]
pub struct WireCall {
    pub seq: u64,
    pub purpose: String,
    pub format: String,
    pub start_utc: String,
    pub start_unix_ms: u128,
    pub wall_ms: u128,
    pub model: Option<String>,
    pub prompt_tokens: u32,
    pub completion_tokens: u32,
    pub finish_reason: Option<String>,
    pub ok: bool,
    pub err: Option<String>,
    pub content_len: usize,
    pub reasoning_len: usize,
}

// ---------------------------------------------------------------------------
// Finding the JSON object in a reply
// ---------------------------------------------------------------------------

/// Scanning `t` from `i` for the brace that closes the object, with `depth`
/// braces open, inside a string literal or not, and after a backslash in a
/// string or not: the position just past the closing brace, if it comes.
/// Braces inside string literals do not count.
pub open spec fn scan_object(t: Seq<char>, i: int, depth: int, in_str: bool, esc: bool) -> Option<
    int,
>
    decreases t.len() - i,
{
    if i < 0 || i >= t.len() {
        None
    } else if esc {
        scan_object(t, i + 1, depth, in_str, false)
    } else {
        let c = t[i];
        if c == '\\' && in_str {
            scan_object(t, i + 1, depth, in_str, true)
        } else if c == '"' {
            scan_object(t, i + 1, depth, !in_str, false)
        } else if c == '{' && !in_str {
            scan_object(t, i + 1, depth + 1, in_str, false)
        } else if c == '}' && !in_str {
            if depth - 1 == 0 {
                Some(i + 1)
            } else {
                scan_object(t, i + 1, depth - 1, in_str, false)
            }
        } else {
            scan_object(t, i + 1, depth, in_str, false)
        }
    }
}

/// The position of the first `{` of `t`.
pub open spec fn first_brace(t: Seq<char>) -> Option<int>
    decreases t.len(),
{
    if t.len() == 0 {
        None
    } else if t.last() == '{' {
        match first_brace(t.drop_last()) {
            Some(p) => Some(p),
            None => Some(t.len() - 1),
        }
    } else {
        first_brace(t.drop_last())
    }
}

/// The first balanced JSON object in a reply that may carry markdown fences
/// or prose around it: from the first `{` of the trimmed reply to the brace
/// that closes it.
pub open spec fn json_object_in(s: Seq<char>) -> Option<Seq<char>> {
    let t = trim(s);
    match first_brace(t) {
        Some(p) => match scan_object(t, p, 0, false, false) {
            Some(e) => Some(t.subrange(p, e)),
            None => None,
        },
        None => None,
    }
}

proof fn lemma_first_brace_step(t: Seq<char>, k: int)
    requires
        0 <= k < t.len(),
        first_brace(t.take(k)) is None,
    ensures
        first_brace(t.take(k + 1)) == (if t[k] == '{' {
            Some(k)
        } else {
            None::<int>
        }),
{
    assert(t.take(k + 1).drop_last() =~= t.take(k));
}

proof fn lemma_first_brace_found(t: Seq<char>, k: int)
    requires
        0 <= k <= t.len(),
        first_brace(t.take(k)) is Some,
    ensures
        first_brace(t) == first_brace(t.take(k)),
    decreases t.len() - k,
{
    if k < t.len() {
        assert(t.take(k + 1).drop_last() =~= t.take(k));
        lemma_first_brace_found(t, k + 1);
    } else {
        assert(t.take(k) =~= t);
    }
}

/// The first balanced JSON object in a model reply, if there is one.
pub fn extract_json(s: &str) -> (r: Option<String>)
    ensures
        match r {
            Some(o) => json_object_in(s@) == Some(o@),
            None => json_object_in(s@) is None,
        },
{
    let t = trim_chars(&chars_of(s));
    let n = t.len();
    let mut start: usize = 0;
    assert(t@.take(0) =~= Seq::<char>::empty());
    while start < n
        invariant_except_break
            n == t@.len(),
            start <= n,
            first_brace(t@.take(start as int)) is None,
        ensures
            start <= n,
            start < n ==> first_brace(t@.take(start as int + 1)) == Some(start as int),
            start == n ==> first_brace(t@.take(n as int)) is None,
        decreases n - start,
    {
        proof {
            lemma_first_brace_step(t@, start as int);
        }
        if t[start] == '{' {
            break;
        }
        start += 1;
    }
    if start == n {
        assert(t@.take(n as int) =~= t@);
        return None;
    }
    proof {
        lemma_first_brace_found(t@, start as int + 1);
    }
    let mut i: usize = start;
    let mut depth: i128 = 0;
    let mut in_str = false;
    let mut esc = false;
    while i < n
        invariant_except_break
            n == t@.len(),
            start <= i <= n,
            -(i as int) <= depth <= i,
            scan_object(t@, i as int, depth as int, in_str, esc) == scan_object(
                t@,
                start as int,
                0,
                false,
                false,
            ),
        ensures
            start <= i,
            match scan_object(t@, start as int, 0, false, false) {
                Some(e) => i < n && e == i + 1,
                None => i >= n,
            },
        decreases n - i,
    {
        let c = t[i];
        if esc {
            esc = false;
        } else if c == '\\' && in_str {
            esc = true;
        } else if c == '"' {
            in_str = !in_str;
        } else if c == '{' && !in_str {
            depth = depth + 1;
        } else if c == '}' && !in_str {
            depth = depth - 1;
            if depth == 0 {
                break;
            }
        }
        i += 1;
    }
    if i < n {
        let body = slice_chars(&t, start, i + 1);
        Some(string_of(&body))
    } else {
        None
    }
}

/// `extract_json`, for capturing into diagnostics.
pub fn extract_json_owned(s: &str) -> (r: Option<String>)
    ensures
        match r {
            Some(o) => json_object_in(s@) == Some(o@),
            None => json_object_in(s@) is None,
        },
{
    extract_json(s)
}

// ---------------------------------------------------------------------------
// The system prompt
// ---------------------------------------------------------------------------

/// The fixed part of the system prompt before the action vocabulary.
pub open spec fn prompt_head() -> Seq<char> {
    "You are the showrunner for 'Infinite Backlot', an autonomous surreal comedy set in an apartment building where impossible events are treated as ordinary maintenance problems. You author SHORT, WATCHABLE episodes. Every response MUST be a single valid JSON object matching the requested schema. Do not output prose, markdown, or commentary outside the JSON fields. Keep dialogue short (1-2 sentences). Aim for a hook in the first 3 seconds, a clear character goal by 10 seconds, and at least two meaningful escalations. Use ONLY these action tokens: "@
}

/// The fixed part between the action and camera vocabularies.
pub open spec fn prompt_middle() -> Seq<char> {
    ". Use ONLY these camera intents: "@
}

/// The fixed end of the system prompt.
pub open spec fn prompt_tail() -> Seq<char> {
    ". Reference only entities (characters, props, locations, staging marks) that exist in the provided world."@
}

/// The system prompt: the show's brief with the action and camera
/// vocabularies listed, comma separated.
pub open spec fn system_prompt_text() -> Seq<char> {
    prompt_head() + join(known_actions(), ", "@) + prompt_middle() + join(
        known_camera_intents(),
        ", "@,
    ) + prompt_tail()
}

fn comma_list(items: &Vec<&'static str>) -> (r: Vec<char>)
    ensures
        r@ == join(str_views(items@), ", "@),
{
    let mut parts: Vec<Vec<char>> = Vec::new();
    let mut i: usize = 0;
    while i < items.len()
        invariant
            i <= items@.len(),
            parts@.len() == i,
            forall|k: int| 0 <= k < i ==> #[trigger] parts@[k]@ == items@[k]@,
        decreases items@.len() - i,
    {
        parts.push(chars_of(items[i]));
        i += 1;
    }
    assert(crate::text::views(parts@) =~= str_views(items@));
    let sep = chars_of(", ");
    join_chars(&parts, &sep)
}

/// The system prompt given to the model author.
pub fn system_prompt() -> (r: String)
    ensures
        r@ == system_prompt_text(),
{
    let mut out = chars_of("You are the showrunner for 'Infinite Backlot', an autonomous surreal comedy set in an apartment building where impossible events are treated as ordinary maintenance problems. You author SHORT, WATCHABLE episodes. Every response MUST be a single valid JSON object matching the requested schema. Do not output prose, markdown, or commentary outside the JSON fields. Keep dialogue short (1-2 sentences). Aim for a hook in the first 3 seconds, a clear character goal by 10 seconds, and at least two meaningful escalations. Use ONLY these action tokens: ");
    append_chars(&mut out, &comma_list(&known_actions_list()));
    append_str(&mut out, ". Use ONLY these camera intents: ");
    append_chars(&mut out, &comma_list(&known_camera_intents_list()));
    append_str(&mut out, ". Reference only entities (characters, props, locations, staging marks) that exist in the provided world.");
    string_of(&out)
}

} // verus!

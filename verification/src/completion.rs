//! The chat-completions exchange of the structured-output client, apart from
//! the network: the request body, what a reply carries, and the order of
//! attempts (a lenient `json_object` request, then strict `json_schema`
//! retries). The sampling temperature is a float and is added to the body by
//! the caller.
use vstd::prelude::*;

use crate::json::{get, json_view, text_of, text_or_empty, Json, JsonView};
use crate::llm::{extract_json, json_object_in};
use crate::text::{append_chars, append_str, chars_of, decimal, decimal_chars, string_of};

verus! {

fn text(s: &str) -> (r: String)
    ensures
        r@ == s@,
{
    string_of(&chars_of(s))
}

// ---------------------------------------------------------------------------
// The request
// ---------------------------------------------------------------------------

/// The output format a request asks of the server.
#[derive(Debug)]
pub enum ResponseFormat {
    /// Any single JSON object.
    JsonObject,
    /// An object conforming strictly to the named schema.
    JsonSchema { name: String, schema: Json },
}

/// A string value.
pub open spec fn jstr(s: Seq<char>) -> JsonView {
    JsonView::Str(s)
}

/// The `response_format` member of a request.
pub open spec fn response_format_body(f: ResponseFormat) -> JsonView {
    match f {
        ResponseFormat::JsonObject => JsonView::Object(seq![("type"@, jstr("json_object"@))]),
        ResponseFormat::JsonSchema { name, schema } => JsonView::Object(
            seq![
                ("type"@, jstr("json_schema"@)),
                (
                    "json_schema"@,
                    JsonView::Object(
                        seq![
                            ("name"@, jstr(name@)),
                            ("schema"@, json_view(schema)),
                            ("strict"@, JsonView::Bool(true)),
                        ],
                    ),
                ),
            ],
        ),
    }
}

/// One chat message.
pub open spec fn message_body(role: Seq<char>, content: Seq<char>) -> JsonView {
    JsonView::Object(seq![("role"@, jstr(role)), ("content"@, jstr(content))])
}

/// The body of a chat-completions request: the model, a system and a user
/// message, the token limit and the response format.
pub open spec fn completion_body(
    model: Seq<char>,
    system: Seq<char>,
    user: Seq<char>,
    format: ResponseFormat,
    max_tokens: nat,
) -> JsonView {
    JsonView::Object(
        seq![
            ("model"@, jstr(model)),
            (
                "messages"@,
                JsonView::Array(
                    seq![message_body("system"@, system), message_body("user"@, user)],
                ),
            ),
            ("max_tokens"@, JsonView::Number(decimal(max_tokens))),
            ("response_format"@, response_format_body(format)),
        ],
    )
}

fn str_value(s: &str) -> (r: Json)
    ensures
        json_view(r) == jstr(s@),
{
    Json::Str(text(s))
}

fn message(role: &str, content: &str) -> (r: Json)
    ensures
        json_view(r) == message_body(role@, content@),
{
    let r = Json::Object(vec![(text("role"), str_value(role)), (text("content"), str_value(content))]);
    assert(json_view(r) == message_body(role@, content@)) by {
        if let JsonView::Object(m) = json_view(r) {
            assert(m =~= seq![("role"@, jstr(role@)), ("content"@, jstr(content@))]);
        }
    }
    r
}

fn format_value(format: &ResponseFormat) -> (r: Json)
    ensures
        json_view(r) == response_format_body(*format),
{
    match format {
        ResponseFormat::JsonObject => {
            let r = Json::Object(vec![(text("type"), str_value("json_object"))]);
            assert(json_view(r) == response_format_body(*format)) by {
                if let JsonView::Object(m) = json_view(r) {
                    assert(m =~= seq![("type"@, jstr("json_object"@))]);
                }
            }
            r
        },
        ResponseFormat::JsonSchema { name, schema } => {
            let copied = schema.duplicate();
            let strict = Json::Bool(true);
            assert(json_view(strict) == JsonView::Bool(true));
            let inner = Json::Object(
                vec![
                    (text("name"), str_value(name.as_str())),
                    (text("schema"), copied),
                    (text("strict"), strict),
                ],
            );
            let ghost iv = JsonView::Object(
                seq![
                    ("name"@, jstr(name@)),
                    ("schema"@, json_view(*schema)),
                    ("strict"@, JsonView::Bool(true)),
                ],
            );
            assert(json_view(inner) == iv) by {
                if let JsonView::Object(m) = json_view(inner) {
                    if let JsonView::Object(n) = iv {
                        assert(m =~= n);
                    }
                }
            }
            let r = Json::Object(vec![(text("type"), str_value("json_schema")), (text("json_schema"), inner)]);
            assert(json_view(r) == response_format_body(*format)) by {
                if let JsonView::Object(m) = json_view(r) {
                    assert(m =~= seq![("type"@, jstr("json_schema"@)), ("json_schema"@, iv)]);
                }
            }
            r
        },
    }
}

/// The body of a chat-completions request for `model`, with a system and a
/// user message, at most `max_tokens` tokens and the given output format.
pub fn completion_request(
    model: &str,
    system: &str,
    user: &str,
    format: &ResponseFormat,
    max_tokens: u32,
) -> (r: Json)
    ensures
        json_view(r) == completion_body(model@, system@, user@, *format, max_tokens as nat),
{
    let messages = Json::Array(vec![message("system", system), message("user", user)]);
    let ghost mv = JsonView::Array(seq![message_body("system"@, system@), message_body("user"@, user@)]);
    assert(json_view(messages) == mv) by {
        if let JsonView::Array(a) = json_view(messages) {
            if let JsonView::Array(b) = mv {
                assert(a =~= b);
            }
        }
    }
    let tokens = Json::Number(string_of(&decimal_chars(max_tokens as u64)));
    assert(json_view(tokens) == JsonView::Number(decimal(max_tokens as nat)));
    let model_value = str_value(model);
    let format_json = format_value(format);
    let r = Json::Object(
        vec![
            (text("model"), model_value),
            (text("messages"), messages),
            (text("max_tokens"), tokens),
            (text("response_format"), format_json),
        ],
    );
    assert(json_view(r) == completion_body(model@, system@, user@, *format, max_tokens as nat)) by {
        if let JsonView::Object(m) = json_view(r) {
            if let JsonView::Object(n) = completion_body(
                model@,
                system@,
                user@,
                *format,
                max_tokens as nat,
            ) {
                assert(m =~= n);
            }
        }
    }
    r
}

/// The schema a request carries: the one given, or, where the schema text
/// could not be read, any object.
pub fn schema_or_object(parsed: Option<Json>) -> (r: Json)
    ensures
        match parsed {
            Some(j) => r == j,
            None => json_view(r) == JsonView::Object(seq![("type"@, jstr("object"@))]),
        },
{
    match parsed {
        Some(j) => j,
        None => {
            let r = Json::Object(vec![(text("type"), str_value("object"))]);
            assert(json_view(r) == JsonView::Object(seq![("type"@, jstr("object"@))])) by {
                if let JsonView::Object(m) = json_view(r) {
                    assert(m =~= seq![("type"@, jstr("object"@))]);
                }
            }
            r
        },
    }
}

// ---------------------------------------------------------------------------
// Attempts
// ---------------------------------------------------------------------------

/// The instruction appended to the user prompt of strict retry `attempt`.
pub open spec fn retry_instruction(schema_name: Seq<char>, attempt: nat) -> Seq<char> {
    "Output ONLY a single valid JSON object conforming to the schema named `"@ + schema_name
        + "`. Do not include commentary, markdown fences, or multiple objects. (retry "@
        + decimal(attempt) + ")"@
}

/// The user prompt of an attempt: the prompt itself for the lenient first
/// attempt, and with the retry instruction after a blank line for strict
/// retry `k`.
pub open spec fn attempt_prompt(user: Seq<char>, schema_name: Seq<char>, retry: Option<nat>) -> Seq<
    char,
> {
    match retry {
        None => user,
        Some(k) => user + "\n\n"@ + retry_instruction(schema_name, k),
    }
}

/// The user prompt of the first attempt (`retry` is `None`) or of strict
/// retry `k`.
pub fn attempt_user_prompt(user: &str, schema_name: &str, retry: Option<u32>) -> (r: String)
    ensures
        r@ == attempt_prompt(
            user@,
            schema_name@,
            match retry {
                Some(k) => Some(k as nat),
                None => None,
            },
        ),
{
    match retry {
        None => text(user),
        Some(k) => {
            let mut out = chars_of(user);
            append_str(&mut out, "\n\nOutput ONLY a single valid JSON object conforming to the schema named `");
            append_str(&mut out, schema_name);
            append_str(&mut out, "`. Do not include commentary, markdown fences, or multiple objects. (retry ");
            append_chars(&mut out, &decimal_chars(k as u64));
            append_str(&mut out, ")");
            proof {
                reveal_strlit("\n\n");
                reveal_strlit("\n\nOutput ONLY a single valid JSON object conforming to the schema named `");
                reveal_strlit("Output ONLY a single valid JSON object conforming to the schema named `");
                assert(out@ =~= attempt_prompt(user@, schema_name@, Some(k as nat)));
            }
            string_of(&out)
        },
    }
}

/// The output format of an attempt: any object for the first, the strict
/// schema for every retry.
pub fn attempt_format(retry: Option<u32>, schema_name: &str, schema: &Json) -> (r: ResponseFormat)
    ensures
        match retry {
            None => r is JsonObject,
            Some(_) => r matches ResponseFormat::JsonSchema { name, schema: s } && name@
                == schema_name@ && json_view(s) == json_view(*schema),
        },
{
    match retry {
        None => ResponseFormat::JsonObject,
        Some(_) => ResponseFormat::JsonSchema { name: text(schema_name), schema: schema.duplicate() },
    }
}

// ---------------------------------------------------------------------------
// The reply
// ---------------------------------------------------------------------------

/// Every character is a decimal digit.
pub open spec fn all_digits(t: Seq<char>) -> bool {
    forall|i: int| 0 <= i < t.len() ==> '0' <= #[trigger] t[i] <= '9'
}

/// The value of a run of decimal digits.
pub open spec fn digits_value(t: Seq<char>) -> nat
    decreases t.len(),
{
    if t.len() == 0 {
        0
    } else {
        digits_value(t.drop_last()) * 10 + ((t.last() as int) - ('0' as int)) as nat
    }
}

/// A number as an unsigned 64-bit integer (`Value::as_u64`): a non-empty run
/// of digits whose value fits.
pub open spec fn number_u64(o: Option<Json>) -> Option<nat> {
    match o {
        Some(Json::Number(t)) => if t@.len() > 0 && all_digits(t@) && digits_value(t@)
            <= u64::MAX {
            Some(digits_value(t@))
        } else {
            None
        },
        _ => None,
    }
}

proof fn lemma_digits_prefix(t: Seq<char>, i: int, j: int)
    requires
        0 <= i <= j <= t.len(),
        all_digits(t),
    ensures
        digits_value(t.take(i)) <= digits_value(t.take(j)),
    decreases j - i,
{
    if i < j {
        lemma_digits_prefix(t, i, j - 1);
        assert(t.take(j).drop_last() =~= t.take(j - 1));
        assert(t.take(j).last() == t[j - 1]);
    }
}

/// The value of a number member, when it is an unsigned 64-bit integer.
pub fn number_as_u64(o: Option<&Json>) -> (r: Option<u64>)
    ensures
        match r {
            Some(n) => number_u64(
                match o {
                    Some(j) => Some(*j),
                    None => None,
                },
            ) == Some(n as nat),
            None => number_u64(
                match o {
                    Some(j) => Some(*j),
                    None => None,
                },
            ) is None,
        },
{
    let t = match o {
        Some(Json::Number(t)) => t,
        _ => {
            return None;
        },
    };
    let c = chars_of(t.as_str());
    if c.len() == 0 {
        return None;
    }
    let mut v: u64 = 0;
    let mut i: usize = 0;
    while i < c.len()
        invariant
            c@ == t@,
            c@.len() > 0,
            match o {
                Some(j) => *j == Json::Number(*t),
                None => false,
            },
            i <= c@.len(),
            all_digits(c@.take(i as int)),
            v == digits_value(c@.take(i as int)),
        decreases c@.len() - i,
    {
        assert(c@.take(i + 1).drop_last() =~= c@.take(i as int));
        let ch = c[i];
        if ch < '0' || ch > '9' {
            assert(!all_digits(c@));
            return None;
        }
        let d: u64 = (ch as u32 - '0' as u32) as u64;
        match v.checked_mul(10) {
            Some(m) => match m.checked_add(d) {
                Some(n) => {
                    v = n;
                },
                None => {
                    proof {
                        if all_digits(c@) {
                            lemma_digits_prefix(c@, i + 1, c@.len() as int);
                            assert(c@.take(c@.len() as int) =~= c@);
                        }
                    }
                    return None;
                },
            },
            None => {
                proof {
                    if all_digits(c@) {
                        lemma_digits_prefix(c@, i + 1, c@.len() as int);
                        assert(c@.take(c@.len() as int) =~= c@);
                    }
                }
                return None;
            },
        }
        i += 1;
    }
    assert(c@.take(c@.len() as int) =~= c@);
    Some(v)
}

/// The member `key` of a value, if there is the value.
pub open spec fn get_in(o: Option<Json>, key: Seq<char>) -> Option<Json> {
    match o {
        Some(j) => get(j, key),
        None => None,
    }
}

/// The first of the reply's choices.
pub open spec fn first_choice(reply: Json) -> Option<Json> {
    match get(reply, "choices"@) {
        Some(Json::Array(v)) => if v@.len() > 0 {
            Some(v@[0])
        } else {
            None
        },
        _ => None,
    }
}

/// The message of the first choice.
pub open spec fn reply_message(reply: Json) -> Option<Json> {
    get_in(first_choice(reply), "message"@)
}

/// The reasoning a reasoning model returned beside its answer.
pub open spec fn reply_reasoning(reply: Json) -> Option<Seq<char>> {
    match text_of(get_in(reply_message(reply), "reasoning_content"@)) {
        Some(s) => Some(s),
        None => text_of(get_in(reply_message(reply), "reasoning"@)),
    }
}

/// A token count as recorded (`as_u64().unwrap_or(0) as u32`).
pub open spec fn token_count(o: Option<Json>) -> nat {
    match number_u64(o) {
        Some(n) => n % 0x1_0000_0000,
        None => 0,
    }
}

/// The text searched for the structured answer: the content, then the
/// reasoning on a line of its own when there is some.
pub open spec fn combined_text(content: Seq<char>, reasoning: Option<Seq<char>>) -> Seq<char> {
    match reasoning {
        Some(r) => content + "\n"@ + r,
        None => content,
    }
}

/// What one chat-completions reply carries.
#[derive(Debug)]
pub struct CompletionReply {
    pub content: String,
    pub reasoning: Option<String>,
    pub finish_reason: Option<String>,
    pub model: Option<String>,
    pub id: Option<String>,
    pub created: Option<u64>,
    pub prompt_tokens: u32,
    pub completion_tokens: u32,
    /// The JSON object found in the content and reasoning.
    pub extracted: Option<String>,
}

/// The text of an optional string.
pub open spec fn opt_text(o: Option<String>) -> Option<Seq<char>> {
    match o {
        Some(s) => Some(s@),
        None => None,
    }
}

fn text_member(o: Option<&Json>) -> (r: Option<String>)
    ensures
        opt_text(r) == text_of(
            match o {
                Some(j) => Some(*j),
                None => None,
            },
        ),
{
    match o {
        Some(j) => match j.as_str() {
            Some(s) => Some(text(s)),
            None => None,
        },
        None => None,
    }
}

fn member_of<'a>(o: Option<&'a Json>, key: &str) -> (r: Option<&'a Json>)
    ensures
        match r {
            Some(v) => get_in(
                match o {
                    Some(j) => Some(*j),
                    None => None,
                },
                key@,
            ) == Some(*v),
            None => get_in(
                match o {
                    Some(j) => Some(*j),
                    None => None,
                },
                key@,
            ) is None,
        },
{
    match o {
        Some(j) => j.get(key),
        None => None,
    }
}

fn token_member(o: Option<&Json>) -> (r: u32)
    ensures
        r as nat == token_count(
            match o {
                Some(j) => Some(*j),
                None => None,
            },
        ),
{
    match number_as_u64(o) {
        Some(n) => (n % 0x1_0000_0000) as u32,
        None => 0,
    }
}

/// Read a chat-completions reply: the first choice's content (empty when
/// absent), its reasoning (`reasoning_content`, else `reasoning`), its finish
/// reason, the model, id and creation time, the token counts of its usage
/// (0 where absent), and the JSON object found in the content followed by the
/// reasoning.
pub fn read_completion(reply: &Json) -> (r: CompletionReply)
    ensures
        r.content@ == text_or_empty(get_in(reply_message(*reply), "content"@)),
        opt_text(r.reasoning) == reply_reasoning(*reply),
        opt_text(r.finish_reason) == text_of(get_in(first_choice(*reply), "finish_reason"@)),
        opt_text(r.model) == text_of(get(*reply, "model"@)),
        opt_text(r.id) == text_of(get(*reply, "id"@)),
        match r.created {
            Some(n) => number_u64(get(*reply, "created"@)) == Some(n as nat),
            None => number_u64(get(*reply, "created"@)) is None,
        },
        r.prompt_tokens as nat == token_count(get_in(get(*reply, "usage"@), "prompt_tokens"@)),
        r.completion_tokens as nat == token_count(
            get_in(get(*reply, "usage"@), "completion_tokens"@),
        ),
        opt_text(r.extracted) == json_object_in(
            combined_text(r.content@, opt_text(r.reasoning)),
        ),
{
    let choice: Option<&Json> = match reply.get("choices") {
        Some(Json::Array(v)) => if v.len() > 0 {
            Some(&v[0])
        } else {
            None
        },
        _ => None,
    };
    let message = member_of(choice, "message");
    let content = match text_member(member_of(message, "content")) {
        Some(s) => s,
        None => String::new(),
    };
    let reasoning = match text_member(member_of(message, "reasoning_content")) {
        Some(s) => Some(s),
        None => text_member(member_of(message, "reasoning")),
    };
    let finish_reason = text_member(member_of(choice, "finish_reason"));
    let model = text_member(reply.get("model"));
    let id = text_member(reply.get("id"));
    let created = number_as_u64(reply.get("created"));
    let usage = reply.get("usage");
    let prompt_tokens = token_member(member_of(usage, "prompt_tokens"));
    let completion_tokens = token_member(member_of(usage, "completion_tokens"));
    let mut all = chars_of(content.as_str());
    match &reasoning {
        Some(r) => {
            append_str(&mut all, "\n");
            append_str(&mut all, r.as_str());
        },
        None => {},
    }
    let combined = string_of(&all);
    proof {
        reveal_strlit("\n");
        assert(combined@ =~= combined_text(content@, opt_text(reasoning)));
    }
    let extracted = extract_json(combined.as_str());
    CompletionReply {
        content,
        reasoning,
        finish_reason,
        model,
        id,
        created,
        prompt_tokens,
        completion_tokens,
        extracted,
    }
}

// ---------------------------------------------------------------------------
// The order of attempts
// ---------------------------------------------------------------------------

/// Where a structured call stands.
#[derive(Debug, Clone, Copy, PartialEq, Eq, Structural)]
pub enum StructuredState {
    /// Nothing asked yet.
    Idle,
    /// The lenient `json_object` request is out.
    AwaitLenient,
    /// Strict retry `k` is out.
    AwaitStrict(u32),
    /// The call returned an object.
    Done,
    /// The call failed.
    Failed,
}

/// What the caller reports to a structured call.
#[derive(Debug)]
pub enum AttemptOutcome {
    /// Start the call.
    Begin,
    /// The reply held this JSON object.
    Extracted(String),
    /// The reply held no JSON object.
    NoObject,
    /// The request failed, for the reason given.
    RequestFailed(String),
}

/// What a structured call asks of the caller next.
#[derive(Debug)]
pub enum StructuredAction {
    /// Send the first, lenient attempt (`None`) or strict retry `k`.
    Post(Option<u32>),
    /// The call is over with this JSON object.
    Return(String),
    /// The call is over with this error.
    Fail(String),
}

/// An outcome as data.
pub enum OutcomeView {
    Begin,
    Extracted(Seq<char>),
    NoObject,
    RequestFailed(Seq<char>),
}

/// An action as data.
pub enum StructuredActionView {
    Post(Option<u32>),
    Return(Seq<char>),
    Fail(Seq<char>),
}

/// What an outcome holds.
pub open spec fn outcome_view(e: AttemptOutcome) -> OutcomeView {
    match e {
        AttemptOutcome::Begin => OutcomeView::Begin,
        AttemptOutcome::Extracted(x) => OutcomeView::Extracted(x@),
        AttemptOutcome::NoObject => OutcomeView::NoObject,
        AttemptOutcome::RequestFailed(m) => OutcomeView::RequestFailed(m@),
    }
}

/// What an action holds.
pub open spec fn structured_action_view(a: StructuredAction) -> StructuredActionView {
    match a {
        StructuredAction::Post(k) => StructuredActionView::Post(k),
        StructuredAction::Return(x) => StructuredActionView::Return(x@),
        StructuredAction::Fail(m) => StructuredActionView::Fail(m@),
    }
}

/// How many strict retries a call may make: `max_retries`, and at least one.
pub open spec fn retry_limit(max_retries: u32) -> nat {
    if max_retries == 0 {
        1
    } else {
        max_retries as nat
    }
}

/// The error of a call whose every attempt came back without an object.
pub open spec fn exhausted_message() -> Seq<char> {
    "could not obtain structured output"@
}

/// The error of an outcome that does not fit where the call stands.
pub open spec fn out_of_order_message() -> Seq<char> {
    "structured call out of order"@
}

/// One step of a structured call: the first attempt is lenient; a reply
/// without an object moves on to the next strict retry until the limit is
/// reached; an object ends the call, as does a failed request.
pub open spec fn structured_step_spec(s: StructuredState, e: OutcomeView, max_retries: u32) -> (
    StructuredState,
    StructuredActionView,
) {
    let waiting = s is AwaitLenient || s is AwaitStrict;
    match e {
        OutcomeView::Begin => if s is Idle {
            (StructuredState::AwaitLenient, StructuredActionView::Post(None))
        } else {
            (StructuredState::Failed, StructuredActionView::Fail(out_of_order_message()))
        },
        OutcomeView::Extracted(x) => if waiting {
            (StructuredState::Done, StructuredActionView::Return(x))
        } else {
            (StructuredState::Failed, StructuredActionView::Fail(out_of_order_message()))
        },
        OutcomeView::RequestFailed(m) => if waiting {
            (StructuredState::Failed, StructuredActionView::Fail(m))
        } else {
            (StructuredState::Failed, StructuredActionView::Fail(out_of_order_message()))
        },
        OutcomeView::NoObject => match s {
            StructuredState::AwaitLenient => (
                StructuredState::AwaitStrict(0),
                StructuredActionView::Post(Some(0)),
            ),
            StructuredState::AwaitStrict(k) => if k + 1 < retry_limit(max_retries) {
                (
                    StructuredState::AwaitStrict((k + 1) as u32),
                    StructuredActionView::Post(Some((k + 1) as u32)),
                )
            } else {
                (StructuredState::Failed, StructuredActionView::Fail(exhausted_message()))
            },
            _ => (StructuredState::Failed, StructuredActionView::Fail(out_of_order_message())),
        },
    }
}

/// One step of a structured call (see `structured_step_spec`); the caller
/// performs the action and reports what came of it.
pub fn structured_step(s: StructuredState, e: AttemptOutcome, max_retries: u32) -> (r: (
    StructuredState,
    StructuredAction,
))
    ensures
        (r.0, structured_action_view(r.1)) == structured_step_spec(s, outcome_view(e), max_retries),
{
    let waiting = match s {
        StructuredState::AwaitLenient => true,
        StructuredState::AwaitStrict(_) => true,
        _ => false,
    };
    match e {
        AttemptOutcome::Begin => match s {
            StructuredState::Idle => (StructuredState::AwaitLenient, StructuredAction::Post(None)),
            _ => (StructuredState::Failed, StructuredAction::Fail(text("structured call out of order"))),
        },
        AttemptOutcome::Extracted(x) => if waiting {
            (StructuredState::Done, StructuredAction::Return(x))
        } else {
            (StructuredState::Failed, StructuredAction::Fail(text("structured call out of order")))
        },
        AttemptOutcome::RequestFailed(m) => if waiting {
            (StructuredState::Failed, StructuredAction::Fail(m))
        } else {
            (StructuredState::Failed, StructuredAction::Fail(text("structured call out of order")))
        },
        AttemptOutcome::NoObject => match s {
            StructuredState::AwaitLenient => (
                StructuredState::AwaitStrict(0),
                StructuredAction::Post(Some(0)),
            ),
            StructuredState::AwaitStrict(k) => {
                let limit: u32 = if max_retries == 0 {
                    1
                } else {
                    max_retries
                };
                if k < limit - 1 {
                    (StructuredState::AwaitStrict(k + 1), StructuredAction::Post(Some(k + 1)))
                } else {
                    (
                        StructuredState::Failed,
                        StructuredAction::Fail(text("could not obtain structured output")),
                    )
                }
            },
            _ => (StructuredState::Failed, StructuredAction::Fail(text("structured call out of order"))),
        },
    }
}

/// A call starts with the lenient `json_object` attempt.
pub proof fn first_attempt_is_lenient(max_retries: u32)
    ensures
        structured_step_spec(StructuredState::Idle, OutcomeView::Begin, max_retries)
            == (StructuredState::AwaitLenient, StructuredActionView::Post(None)),
{
}

/// Every strict retry a call asks for is numbered below the retry limit, so a
/// call sends at most one lenient request and `max(max_retries, 1)` strict
/// ones; the state records the retry that is out.
pub proof fn strict_retries_stay_within_limit(s: StructuredState, e: OutcomeView, max_retries: u32)
    requires
        s matches StructuredState::AwaitStrict(k) ==> k < retry_limit(max_retries),
    ensures
        structured_step_spec(s, e, max_retries).1 matches StructuredActionView::Post(Some(k)) ==> k
            < retry_limit(max_retries) && structured_step_spec(s, e, max_retries).0
            == StructuredState::AwaitStrict(k),
        structured_step_spec(s, e, max_retries).0 matches StructuredState::AwaitStrict(k) ==> k
            < retry_limit(max_retries),
{
}

/// A reply that holds an object ends the call with that object; the last
/// strict retry without one ends it with an error.
pub proof fn objects_end_the_call(s: StructuredState, x: Seq<char>, max_retries: u32)
    requires
        s is AwaitLenient || s is AwaitStrict,
    ensures
        structured_step_spec(s, OutcomeView::Extracted(x), max_retries) == (
            StructuredState::Done,
            StructuredActionView::Return(x),
        ),
        s matches StructuredState::AwaitStrict(k) && k + 1 >= retry_limit(max_retries)
            ==> structured_step_spec(s, OutcomeView::NoObject, max_retries) == (
            StructuredState::Failed,
            StructuredActionView::Fail(exhausted_message()),
        ),
{
}

/// Where a call stands, and what it last asked, after `n` replies in a row
/// without an object, starting from `s`.
pub open spec fn after_misses(s: StructuredState, n: nat, max_retries: u32) -> (
    StructuredState,
    StructuredActionView,
)
    decreases n,
{
    if n == 0 {
        (s, StructuredActionView::Post(None))
    } else {
        structured_step_spec(after_misses(s, (n - 1) as nat, max_retries).0, OutcomeView::NoObject, max_retries)
    }
}

/// A reply without an object to strict retry `k` sends strict retry `k + 1`
/// while `k + 1` is below `max(max_retries, 1)`.
pub proof fn misses_send_the_next_retry(k: u32, max_retries: u32)
    requires
        k + 1 < (if max_retries == 0 {
            1
        } else {
            max_retries as int
        }),
    ensures
        structured_step_spec(StructuredState::AwaitStrict(k), OutcomeView::NoObject, max_retries)
            == (StructuredState::AwaitStrict((k + 1) as u32), StructuredActionView::Post(
            Some((k + 1) as u32),
        )),
{
}

/// A call whose replies never hold an object makes exactly
/// `max(max_retries, 1)` strict attempts: after the lenient attempt and `n`
/// misses in all, strict retry `n - 1` is out for every `n` up to that
/// limit, and the next miss fails the call.
pub proof fn strict_attempts_exhaust_the_limit(max_retries: u32, n: nat)
    ensures
        1 <= n <= (if max_retries == 0 {
            1
        } else {
            max_retries as int
        }) ==> after_misses(StructuredState::AwaitLenient, n, max_retries) == (
            StructuredState::AwaitStrict((n - 1) as u32),
            StructuredActionView::Post(Some((n - 1) as u32)),
        ),
        n == (if max_retries == 0 {
            1
        } else {
            max_retries as int
        }) + 1 ==> after_misses(StructuredState::AwaitLenient, n, max_retries) == (
            StructuredState::Failed,
            StructuredActionView::Fail(exhausted_message()),
        ),
    decreases n,
{
    reveal_with_fuel(after_misses, 2);
    if n > 1 {
        strict_attempts_exhaust_the_limit(max_retries, (n - 1) as nat);
    }
}

/// A failed request ends a waiting call with the request's own error, and a
/// lenient attempt without an object moves on to the first strict retry.
pub proof fn failures_end_and_lenient_misses_retry(s: StructuredState, m: Seq<char>, max_retries: u32)
    requires
        s is AwaitLenient || s is AwaitStrict,
    ensures
        structured_step_spec(s, OutcomeView::RequestFailed(m), max_retries) == (
            StructuredState::Failed,
            StructuredActionView::Fail(m),
        ),
        structured_step_spec(StructuredState::AwaitLenient, OutcomeView::NoObject, max_retries) == (
            StructuredState::AwaitStrict(0),
            StructuredActionView::Post(Some(0)),
        ),
{
}

} // verus!

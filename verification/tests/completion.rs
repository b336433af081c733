use backlot::completion::{
    attempt_format, attempt_user_prompt, completion_request, number_as_u64, read_completion,
    schema_or_object, structured_step, AttemptOutcome, ResponseFormat, StructuredAction,
    StructuredState,
};
use backlot::json::Json;

fn s(t: &str) -> Json {
    Json::Str(t.to_string())
}

fn obj(members: Vec<(&str, Json)>) -> Json {
    Json::Object(members.into_iter().map(|(k, v)| (k.to_string(), v)).collect())
}

fn text_of(j: Option<&Json>) -> Option<&str> {
    j.and_then(|v| v.as_str())
}

#[test]
fn request_body_carries_model_messages_limit_and_format() {
    let body = completion_request("local-model", "be terse", "plan it", &ResponseFormat::JsonObject, 2048);
    assert_eq!(text_of(body.get("model")), Some("local-model"));
    match body.get("messages") {
        Some(Json::Array(m)) => {
            assert_eq!(m.len(), 2);
            assert_eq!(text_of(m[0].get("role")), Some("system"));
            assert_eq!(text_of(m[0].get("content")), Some("be terse"));
            assert_eq!(text_of(m[1].get("role")), Some("user"));
            assert_eq!(text_of(m[1].get("content")), Some("plan it"));
        }
        other => panic!("messages: {other:?}"),
    }
    match body.get("max_tokens") {
        Some(Json::Number(n)) => assert_eq!(n, "2048"),
        other => panic!("max_tokens: {other:?}"),
    }
    let rf = body.get("response_format").unwrap();
    assert_eq!(text_of(rf.get("type")), Some("json_object"));
    assert!(body.get("temperature").is_none());
}

#[test]
fn strict_format_names_the_schema() {
    let schema = schema_or_object(None);
    assert_eq!(text_of(schema.get("type")), Some("object"));
    let format = attempt_format(Some(0), "EpisodePlan", &schema);
    let body = completion_request("m", "sys", "u", &format, 16);
    let rf = body.get("response_format").unwrap();
    assert_eq!(text_of(rf.get("type")), Some("json_schema"));
    let js = rf.get("json_schema").unwrap();
    assert_eq!(text_of(js.get("name")), Some("EpisodePlan"));
    assert!(matches!(js.get("strict"), Some(Json::Bool(true))));
    assert_eq!(text_of(js.get("schema").unwrap().get("type")), Some("object"));
    assert!(matches!(attempt_format(None, "EpisodePlan", &schema), ResponseFormat::JsonObject));
    let given = schema_or_object(Some(obj(vec![("title", s("Beat"))])));
    assert_eq!(text_of(given.get("title")), Some("Beat"));
}

#[test]
fn retry_prompts_append_the_instruction() {
    assert_eq!(attempt_user_prompt("Write it.", "BeatCommand", None), "Write it.");
    assert_eq!(
        attempt_user_prompt("Write it.", "BeatCommand", Some(2)),
        "Write it.\n\nOutput ONLY a single valid JSON object conforming to the schema named \
         `BeatCommand`. Do not include commentary, markdown fences, or multiple objects. (retry 2)"
    );
}

#[test]
fn numbers_read_as_unsigned_integers() {
    let n = |t: &str| Json::Number(t.to_string());
    assert_eq!(number_as_u64(Some(&n("0"))), Some(0));
    assert_eq!(number_as_u64(Some(&n("18446744073709551615"))), Some(u64::MAX));
    assert_eq!(number_as_u64(Some(&n("18446744073709551616"))), None);
    assert_eq!(number_as_u64(Some(&n("-3"))), None);
    assert_eq!(number_as_u64(Some(&n("1.5"))), None);
    assert_eq!(number_as_u64(Some(&s("12"))), None);
    assert_eq!(number_as_u64(None), None);
}

#[test]
fn reply_is_read_with_reasoning_fallback() {
    let reply = obj(vec![
        ("id", s("cmpl-1")),
        ("model", s("qwen")),
        ("created", Json::Number("1700000000".into())),
        (
            "choices",
            Json::Array(vec![obj(vec![
                (
                    "message",
                    obj(vec![
                        ("content", s("Sure:")),
                        ("reasoning", s("thinking {\"a\": \"}\"} done")),
                    ]),
                ),
                ("finish_reason", s("stop")),
            ])]),
        ),
        (
            "usage",
            obj(vec![
                ("prompt_tokens", Json::Number("4294967297".into())),
                ("completion_tokens", Json::Number("12".into())),
            ]),
        ),
    ]);
    let r = read_completion(&reply);
    assert_eq!(r.content, "Sure:");
    assert_eq!(r.reasoning.as_deref(), Some("thinking {\"a\": \"}\"} done"));
    assert_eq!(r.finish_reason.as_deref(), Some("stop"));
    assert_eq!(r.model.as_deref(), Some("qwen"));
    assert_eq!(r.id.as_deref(), Some("cmpl-1"));
    assert_eq!(r.created, Some(1_700_000_000));
    assert_eq!(r.prompt_tokens, 1);
    assert_eq!(r.completion_tokens, 12);
    assert_eq!(r.extracted.as_deref(), Some("{\"a\": \"}\"}"));

    let empty = read_completion(&obj(vec![("choices", Json::Array(vec![]))]));
    assert_eq!(empty.content, "");
    assert!(empty.reasoning.is_none());
    assert!(empty.extracted.is_none());
    assert_eq!(empty.prompt_tokens, 0);
}

#[test]
fn attempts_go_lenient_then_strict_until_the_limit() {
    let (st, a) = structured_step(StructuredState::Idle, AttemptOutcome::Begin, 2);
    assert_eq!(st, StructuredState::AwaitLenient);
    assert!(matches!(a, StructuredAction::Post(None)));
    let (st, a) = structured_step(st, AttemptOutcome::NoObject, 2);
    assert_eq!(st, StructuredState::AwaitStrict(0));
    assert!(matches!(a, StructuredAction::Post(Some(0))));
    let (st, a) = structured_step(st, AttemptOutcome::NoObject, 2);
    assert_eq!(st, StructuredState::AwaitStrict(1));
    assert!(matches!(a, StructuredAction::Post(Some(1))));
    let (st, a) = structured_step(st, AttemptOutcome::NoObject, 2);
    assert_eq!(st, StructuredState::Failed);
    assert!(matches!(a, StructuredAction::Fail(ref m) if m == "could not obtain structured output"));

    // With no retries configured there is still one strict attempt.
    let (st, _) = structured_step(StructuredState::AwaitLenient, AttemptOutcome::NoObject, 0);
    let (st, a) = structured_step(st, AttemptOutcome::NoObject, 0);
    assert_eq!(st, StructuredState::Failed);
    assert!(matches!(a, StructuredAction::Fail(_)));

    let (st, a) = structured_step(StructuredState::AwaitStrict(0), AttemptOutcome::Extracted("{}".into()), 3);
    assert_eq!(st, StructuredState::Done);
    assert!(matches!(a, StructuredAction::Return(ref o) if o == "{}"));
    let (st, a) = structured_step(
        StructuredState::AwaitLenient,
        AttemptOutcome::RequestFailed("transport: refused".into()),
        3,
    );
    assert_eq!(st, StructuredState::Failed);
    assert!(matches!(a, StructuredAction::Fail(ref m) if m == "transport: refused"));
    let (st, a) = structured_step(StructuredState::Done, AttemptOutcome::NoObject, 3);
    assert_eq!(st, StructuredState::Failed);
    assert!(matches!(a, StructuredAction::Fail(ref m) if m == "structured call out of order"));
}

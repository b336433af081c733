use backlot::llm::{extract_json, extract_json_owned, system_prompt};

#[test]
fn json_is_found_inside_fences_and_prose() {
    let reply = "Sure! Here it is:\n```json\n{\"a\": {\"b\": 1}, \"c\": \"}\"}\n```\nDone.";
    assert_eq!(extract_json(reply).as_deref(), Some("{\"a\": {\"b\": 1}, \"c\": \"}\"}"));
    assert_eq!(extract_json_owned(reply), extract_json(reply));
}

#[test]
fn escaped_quotes_do_not_end_strings() {
    let reply = "{\"line\": \"she said \\\"}\\\" twice\"} trailing";
    assert_eq!(extract_json(reply).as_deref(), Some("{\"line\": \"she said \\\"}\\\" twice\"}"));
}

#[test]
fn unbalanced_or_missing_objects_give_nothing() {
    assert_eq!(extract_json("no json here"), None);
    assert_eq!(extract_json("{\"open\": {\"still\": 1}"), None);
    assert_eq!(extract_json("   {}   "), Some("{}".to_string()));
}

#[test]
fn system_prompt_lists_the_vocabularies() {
    let p = system_prompt();
    assert!(p.starts_with("You are the showrunner for 'Infinite Backlot'"));
    assert!(p.contains("Use ONLY these action tokens: move_to, enter_room, exit_room,"));
    assert!(p.contains("Use ONLY these camera intents: establish, follow, conversation,"));
    assert!(p.ends_with("that exist in the provided world."));
}

use backlot::phrasing::{caption_phrase_texts, clause_phrase_groups};

fn phrases(text: &str, minimum: usize) -> Vec<String> {
    caption_phrase_texts(text, minimum)
}

#[test]
fn phrasing_closes_after_a_clause_and_at_the_width() {
    assert_eq!(
        phrases(
            "Hello there friend. This is a long line that needs to be split somewhere soon.",
            1
        ),
        vec![
            "Hello there friend.".to_string(),
            "This is a long line that needs to be".to_string(),
            "split somewhere soon.".to_string(),
        ]
    );
}

#[test]
fn phrasing_keeps_short_clauses_together() {
    assert_eq!(phrases("Hi. Okay then, we go now.", 1), vec!["Hi. Okay then, we go now.".to_string()]);
}

#[test]
fn phrasing_halves_the_last_longest_phrase() {
    assert_eq!(
        phrases("Hi. Okay then, we go now.", 4),
        vec!["Hi.".to_string(), "Okay then,".to_string(), "we".to_string(), "go now.".to_string()]
    );
    assert_eq!(
        phrases("one two three four", 3),
        vec!["one two".to_string(), "three".to_string(), "four".to_string()]
    );
}

#[test]
fn phrasing_stops_at_single_words_and_drops_blank_lines() {
    assert_eq!(phrases("single", 5), vec!["single".to_string()]);
    assert!(phrases("   ", 2).is_empty());
}

#[test]
fn phrasing_keeps_every_word_in_order() {
    let text = "The elevator doors open;   everyone steps back\nand waits for the lights to flicker twice.";
    let out = phrases(text, 5);
    assert_eq!(
        out,
        vec![
            "The elevator doors open;".to_string(),
            "everyone steps back".to_string(),
            "and waits for the".to_string(),
            "lights to".to_string(),
            "flicker twice.".to_string(),
        ]
    );
    assert_eq!(out.join(" "), text.split_whitespace().collect::<Vec<_>>().join(" "));
}

#[test]
fn phrase_groups_carry_their_word_spans() {
    let groups = clause_phrase_groups(
        "Hello there friend. This is a long line that needs to be split somewhere soon.",
    );
    assert_eq!(
        groups,
        vec![
            (0, 3, "Hello there friend.".to_string()),
            (3, 12, "This is a long line that needs to be".to_string()),
            (12, 15, "split somewhere soon.".to_string()),
        ]
    );
    assert!(clause_phrase_groups("  \n ").is_empty());
}

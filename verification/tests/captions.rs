use backlot::captions::{
    ass_caption_text, build_caption_filter, escape_ass, escape_drawtext, normalize_caption_text, resolve_font, system_font_candidates,
    wrap_caption, wrap_caption_lines,
};

#[test]
fn caption_normalization_fixes_fused_words() {
    // The original corruption fused "The elevator's" into "Thenelevator's"
    // because a stray newline ate the space. Normalization must restore it.
    assert_eq!(
        normalize_caption_text("The\nelevator's feeling warm tonight"),
        "The elevator's feeling warm tonight"
    );
    assert_eq!(normalize_caption_text("  too   many   spaces  "), "too many spaces");
    // Punctuation and apostrophes are preserved verbatim.
    assert_eq!(normalize_caption_text("don't — it's fine."), "don't — it's fine.");
}

#[test]
fn escape_ass_reserves_backslash_comma_newline() {
    assert_eq!(escape_ass("a,b"), "a\\,b");
    assert_eq!(escape_ass("a\\b"), "a\\\\b");
    // a literal newline in a caption is normalized to a space (fused-words
    // fix); it must never survive as a raw newline or an ASS \N break.
    assert_eq!(escape_ass("line1\nline2"), "line1 line2");
    // apostrophe must survive unescaped
    assert_eq!(escape_ass("it's"), "it's");
}

#[test]
fn normalization_is_idempotent_on_examples() {
    for raw in ["  a \t b\n\nc ", "", "   ", "one", "x  y"] {
        let once = normalize_caption_text(raw);
        assert_eq!(normalize_caption_text(&once), once);
    }
    assert_eq!(normalize_caption_text("\t\n "), "");
}

#[test]
fn drawtext_escapes_quote_colon_percent() {
    assert_eq!(escape_drawtext("it's 5:00 at 100%"), "it\u{2019}s 5\\:00 at 100\\%");
    assert_eq!(escape_drawtext("plain"), "plain");
}

#[test]
fn wrapping_keeps_every_word_in_order() {
    let lines = wrap_caption_lines("the elevator is feeling creative today", 12);
    assert_eq!(lines, vec!["the elevator", "is feeling", "creative", "today"]);
    assert_eq!(lines.join(" "), "the elevator is feeling creative today");
    // a word longer than the cap stands alone on its line
    assert_eq!(wrap_caption_lines("supercalifragilistic ok", 5), vec!["supercalifragilistic", "ok"]);
    assert!(wrap_caption_lines("   ", 10).is_empty());
    // a zero cap counts as one byte per line
    assert_eq!(wrap_caption_lines("a b", 0), vec!["a", "b"]);
}

#[test]
fn burned_caption_keeps_two_lines() {
    assert_eq!(
        wrap_caption("one two three four five six seven eight nine ten"),
        "one two three four\\nfive six seven eight"
    );
    assert_eq!(wrap_caption("short"), "short");
}

#[test]
fn font_resolution_prefers_configured_then_system() {
    let n = system_font_candidates().len();
    let none = vec![false; n];
    assert_eq!(resolve_font("/my/font.ttf", true, &none), "/my/font.ttf");
    let mut second = vec![false; n];
    second[1] = true;
    let picked = resolve_font("/missing.ttf", false, &second);
    assert_eq!(picked, system_font_candidates()[1]);
    assert_eq!(resolve_font("", false, &none), "");
}

#[test]
fn ass_caption_text_wraps_escapes_and_stays_on_one_line() {
    assert_eq!(ass_caption_text("The\nelevator's feeling warm", 31), "The elevator's feeling warm");
    let t = ass_caption_text("Well, the elevator is warm,   and nobody asked why", 20);
    assert_eq!(t, "Well\\, the elevator\\Nis warm\\, and nobody\\Nasked why");
    assert!(!t.contains('\n'));
}

#[test]
fn caption_filters_quote_each_caption_and_its_window() {
    let style = ":fontcolor=white:bordercolor=black:borderw=4:fontsize=46:text_shaping=1:x=(w-text_w)/2";
    let one = vec![("Don't crowd the door".to_string(), "2.500".to_string(), "4.000".to_string())];
    assert_eq!(
        build_caption_filter(&one, "", 1920),
        format!(",drawtext=text='Don\u{2019}t crowd the door'{style}:y=1760:enable='between(t,2.500,4.000)'")
    );
    let two = vec![
        ("50% off: now".to_string(), "0.000".to_string(), "1.000".to_string()),
        ("ok".to_string(), "1.000".to_string(), "2.000".to_string()),
    ];
    assert_eq!(
        build_caption_filter(&two, ":fontfile='f.ttf'", 100),
        format!(
            ",drawtext=text='50\\% off\\: now':fontfile='f.ttf'{style}:y=60:enable='between(t,0.000,1.000)',drawtext=text='ok':fontfile='f.ttf'{style}:y=60:enable='between(t,1.000,2.000)'"
        )
    );
    assert_eq!(build_caption_filter(&Vec::new(), "", 1920), "");
}

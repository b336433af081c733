use backlot::asr::{alignment_cache_file, alignment_id, runs_alignment, successful_responses, AlignmentResponse};

#[test]
fn alignment_cache_is_named_by_the_clip_digest() {
    let audio: &[u8] = b"RIFF....WAVEfmt ";
    assert_eq!(
        alignment_cache_file(Some(audio), "clips/a.wav"),
        format!("parakeet_{}.words.json", blake3::hash(audio).to_hex())
    );
    assert_eq!(
        alignment_cache_file(None, "clips/a.wav"),
        format!("parakeet_{}.words.json", blake3::hash(b"clips/a.wav").to_hex())
    );
    assert_ne!(alignment_cache_file(Some(audio), "x"), alignment_cache_file(None, "x"));
}

#[test]
fn alignment_ids_digest_actor_and_text() {
    assert_eq!(alignment_id("mara", "Hold the door."), blake3::hash(b"mara\0Hold the door.").to_hex().to_string());
    assert_ne!(alignment_id("mara", "hi"), alignment_id("mar", "ahi"));
}

#[test]
fn only_parakeet_batches_with_clips_run() {
    assert!(runs_alignment("parakeet", 2));
    assert!(!runs_alignment("parakeet", 0));
    assert!(!runs_alignment("whisper", 2));
}

#[test]
fn unsuccessful_responses_are_dropped() {
    let r = |id: &str, ok: bool| AlignmentResponse { id: id.into(), output: format!("{id}.json"), success: ok };
    let kept = successful_responses(vec![r("a", true), r("b", false), r("c", true)]);
    let ids: Vec<&str> = kept.iter().map(|k| k.id.as_str()).collect();
    assert_eq!(ids, vec!["a", "c"]);
    assert!(successful_responses(vec![]).is_empty());
}

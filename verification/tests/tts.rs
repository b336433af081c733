use backlot::protocol::DeliveryPace;
use backlot::tts::{
    checked_reference_hash, gepard_cache_key, is_placeholder_provider, line_key, normalize_spoken_text, parse_wav_header, shape_prosody_text, spoken_word_count,
    wav_sample_rate, EstimatingTts, GepardTts, GepardTtsConfig, VoiceProfileConfig,
};

fn wav(sample_rate: u32, channels: u16, bits: u16, data_len: u32, extra_chunk: bool) -> Vec<u8> {
    let block_align = channels * (bits / 8);
    let byte_rate = sample_rate * block_align as u32;
    let mut buf: Vec<u8> = Vec::new();
    buf.extend_from_slice(b"RIFF");
    buf.extend_from_slice(&(36 + data_len).to_le_bytes());
    buf.extend_from_slice(b"WAVE");
    buf.extend_from_slice(b"fmt ");
    buf.extend_from_slice(&16u32.to_le_bytes());
    buf.extend_from_slice(&1u16.to_le_bytes());
    buf.extend_from_slice(&channels.to_le_bytes());
    buf.extend_from_slice(&sample_rate.to_le_bytes());
    buf.extend_from_slice(&byte_rate.to_le_bytes());
    buf.extend_from_slice(&block_align.to_le_bytes());
    buf.extend_from_slice(&bits.to_le_bytes());
    if extra_chunk {
        buf.extend_from_slice(b"LIST");
        buf.extend_from_slice(&3u32.to_le_bytes());
        buf.extend_from_slice(&[1, 2, 3, 0]);
    }
    buf.extend_from_slice(b"data");
    buf.extend_from_slice(&data_len.to_le_bytes());
    buf.resize(buf.len() + data_len as usize, 0);
    buf
}

#[test]
fn wav_header_reports_rate_channels_alignment_and_data() {
    let bytes = wav(44100, 1, 16, 88200, false);
    let h = parse_wav_header(&bytes).expect("valid header");
    assert_eq!(h.sample_rate, 44100);
    assert_eq!(h.channels, 1);
    assert_eq!(h.block_align, 2);
    assert_eq!(h.data_size, 88200);
    assert_eq!(wav_sample_rate(&bytes), Some(44100));
}

#[test]
fn wav_chunks_are_walked_with_padding() {
    let bytes = wav(22050, 2, 16, 400, true);
    let h = parse_wav_header(&bytes).expect("valid header");
    assert_eq!(h.channels, 2);
    assert_eq!(h.block_align, 4);
    assert_eq!(h.data_size, 400);
}

#[test]
fn wav_without_riff_or_data_is_rejected() {
    let mut bytes = wav(44100, 1, 16, 8, false);
    bytes[0] = b'X';
    assert_eq!(parse_wav_header(&bytes), None);
    assert_eq!(wav_sample_rate(&bytes), None);
    let short = wav(44100, 1, 16, 0, false);
    let truncated = &short[..40];
    assert_eq!(parse_wav_header(truncated), None);
    assert_eq!(wav_sample_rate(truncated), Some(44100));
    assert_eq!(wav_sample_rate(&truncated[..20]), None);
}

#[test]
fn spoken_text_is_whitespace_normalized() {
    assert_eq!(normalize_spoken_text("  Hello,\n  world  "), "Hello, world");
    assert_eq!(spoken_word_count(""), 1);
    assert_eq!(spoken_word_count("one two  three"), 3);
}

#[test]
fn prosody_follows_pace() {
    let line = "Well, then, fine";
    assert_eq!(shape_prosody_text(line, Some(DeliveryPace::Slow)), "Well,  then,  fine");
    assert_eq!(shape_prosody_text(line, Some(DeliveryPace::Measured)), "Well,  then,  fine");
    assert_eq!(shape_prosody_text(line, Some(DeliveryPace::Fast)), "Well then fine");
    assert_eq!(shape_prosody_text(line, Some(DeliveryPace::Natural)), line);
    assert_eq!(shape_prosody_text("a ,  b", None), "a , b");
}

#[test]
fn line_keys_hash_normalized_text_and_voice() {
    let a = line_key("Hello   there", "mara");
    assert_eq!(a, line_key(" Hello there ", "mara"));
    assert_ne!(a, line_key("Hello there", "ellis"));
    assert_eq!(a, blake3::hash("Hello there\0mara".as_bytes()).to_hex().to_string());
    assert_eq!(a.len(), 64);
}

fn profile(character: &str, seed: u64) -> VoiceProfileConfig {
    VoiceProfileConfig {
        character_id: character.into(),
        reference_wav: format!("voices/{character}.wav"),
        reference_hash: String::new(),
        seed,
    }
}

#[test]
fn voice_profiles_resolve_by_key_then_character() {
    let cfg = GepardTtsConfig {
        runtime_root: "rt".into(),
        model_root: "models".into(),
        model_revision: "r1".into(),
        codec_revision: "c1".into(),
        profiles: vec![
            ("mara_voice".into(), profile("mara", 1)),
            ("ellis".into(), profile("ellis", 2)),
        ],
    };
    let tts = GepardTts::new(cfg, "cache".into());
    assert_eq!(tts.profile("mara_voice").map(|p| p.seed), Some(1));
    assert_eq!(tts.profile("mara").map(|p| p.seed), Some(1));
    assert_eq!(tts.profile("ellis").map(|p| p.seed), Some(2));
    assert!(tts.profile("voss").is_none());
    assert_eq!(EstimatingTts.provider_name(), "estimating");
    let ids: Vec<String> = ["mara", "voss", "ellis", ""].iter().map(|s| s.to_string()).collect();
    assert_eq!(tts.unserved_requests(&ids), vec![false, true, false, true]);
}

#[test]
fn voice_table_maps_ids_and_falls_back_to_the_default() {
    let table = backlot::tts::VoiceTable {
        default_voice: "en-us".to_string(),
        voices: vec![
            ("mara".to_string(), "en-gb+f3".to_string()),
            ("otto".to_string(), "de+m2".to_string()),
        ],
    };
    assert_eq!(table.voice_for("otto"), "de+m2");
    assert_eq!(table.voice_for("mara"), "en-gb+f3");
    assert_eq!(table.voice_for("nobody"), "en-us");
}

#[test]
fn placeholder_providers_are_flagged() {
    assert!(is_placeholder_provider("estimating"));
    assert!(is_placeholder_provider(EstimatingTts.provider_name()));
    assert!(is_placeholder_provider("gepard-failed"));
    assert!(is_placeholder_provider("-failed"));
    assert!(!is_placeholder_provider("gepard"));
    assert!(!is_placeholder_provider("failed"));
    assert!(!is_placeholder_provider("estimating-ok"));
    assert!(!is_placeholder_provider(""));
}

#[test]
fn reference_recordings_are_checked_against_their_pin() {
    let audio: &[u8] = b"reference audio";
    let digest = blake3::hash(audio).to_hex().to_string();
    assert_eq!(checked_reference_hash(audio, ""), Some(digest.clone()));
    assert_eq!(checked_reference_hash(audio, &digest), Some(digest.clone()));
    assert_eq!(checked_reference_hash(audio, "0000"), None);
}

#[test]
fn gepard_cache_key_digests_the_sorted_payload() {
    let cfg = GepardTtsConfig {
        runtime_root: "rt".into(),
        model_root: "models".into(),
        model_revision: "r1".into(),
        codec_revision: "c\"2".into(),
        profiles: vec![],
    };
    let profile = VoiceProfileConfig {
        character_id: "mara".into(),
        reference_wav: "mara.wav".into(),
        reference_hash: String::new(),
        seed: 42,
    };
    let key = gepard_cache_key(&cfg, &profile, "abc", "  Hold   the door. ", "null");
    let mut m = serde_json::Map::new();
    m.insert("model_revision".into(), serde_json::Value::from("r1"));
    m.insert("codec_revision".into(), serde_json::Value::from("c\"2"));
    m.insert("reference_hash".into(), serde_json::Value::from("abc"));
    m.insert("character".into(), serde_json::Value::from("mara"));
    m.insert("text".into(), serde_json::Value::from("Hold the door."));
    m.insert("delivery".into(), serde_json::Value::Null);
    m.insert("seed".into(), serde_json::Value::from(42u64));
    let expected = blake3::hash(serde_json::Value::Object(m).to_string().as_bytes()).to_hex().to_string();
    assert_eq!(key, expected);

    let tts = GepardTts::new(cfg, "cache".into());
    let audio: &[u8] = b"ref";
    let via = tts.cache_key(&profile, Some(audio), "Hold the door.", "null").unwrap();
    let direct = gepard_cache_key(
        &GepardTtsConfig {
            runtime_root: "rt".into(),
            model_root: "models".into(),
            model_revision: "r1".into(),
            codec_revision: "c\"2".into(),
            profiles: vec![],
        },
        &profile,
        &blake3::hash(audio).to_hex().to_string(),
        "Hold the door.",
        "null",
    );
    assert_eq!(via, direct);
    assert!(tts.cache_key(&profile, None, "x", "null").is_none());
    let pinned = VoiceProfileConfig { reference_hash: "ffff".into(), ..profile };
    assert!(tts.cache_key(&pinned, Some(audio), "x", "null").is_none());
    assert_eq!(GepardTts::wav_name("k1"), "gepard_k1.wav");
}

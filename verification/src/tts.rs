//! Speech-synthesis decisions that need no audio engine: the text a voice is
//! asked to speak, the cache key of a line, which voice profile serves a
//! character, and the fields of a WAV header.
use vstd::prelude::*;
use vstd::utf8::encode_utf8;

use crate::digest::{blake3_hex, blake3_hex_of, is_lower_hex};
use crate::json::{json_string, json_string_text};
use crate::protocol::DeliveryPace;
use crate::text::{
    append_chars, append_str, chars_of, decimal, decimal_chars, join, join_chars, replace_seq, replace_seq_chars, seq_eq, slice_chars,
    split_whitespace, string_of, words,
};
use crate::world::{first_index, lemma_first_index};

verus! {

// ---------------------------------------------------------------------------
// Spoken text
// ---------------------------------------------------------------------------

/// A line as it is spoken: its words separated by single spaces.
pub open spec fn spoken(text: Seq<char>) -> Seq<char> {
    join(words(text), seq![' '])
}

/// The line with whitespace runs collapsed to one space and the ends trimmed.
pub fn normalize_spoken_text(text: &str) -> (r: String)
    ensures
        r@ == spoken(text@),
{
    let ws = split_whitespace(&chars_of(text));
    let mut sep: Vec<char> = Vec::new();
    sep.push(' ');
    let joined = join_chars(&ws, &sep);
    assert(sep@ =~= seq![' ']);
    string_of(&joined)
}

/// How many words a duration estimate counts: the words of the line, and at
/// least one.
pub fn spoken_word_count(text: &str) -> (r: usize)
    ensures
        r as int == if words(text@).len() == 0 {
            1
        } else {
            words(text@).len() as int
        },
{
    let ws = split_whitespace(&chars_of(text));
    if ws.len() == 0 {
        1
    } else {
        ws.len()
    }
}

/// The text handed to the voice model: the spoken line with the pause after
/// each comma lengthened for slow and measured delivery and dropped for fast
/// delivery.
pub open spec fn prosody_text(text: Seq<char>, pace: Option<DeliveryPace>) -> Seq<char> {
    match pace {
        Some(DeliveryPace::Slow) | Some(DeliveryPace::Measured) => replace_seq(
            spoken(text),
            seq![',', ' '],
            seq![',', ' ', ' '],
        ),
        Some(DeliveryPace::Fast) => replace_seq(spoken(text), seq![',', ' '], seq![' ']),
        _ => spoken(text),
    }
}

/// Shape a line's pauses for its delivery pace (none when no delivery is given).
pub fn shape_prosody_text(text: &str, pace: Option<DeliveryPace>) -> (r: String)
    ensures
        r@ == prosody_text(text@, pace),
{
    let shaped = normalize_spoken_text(text);
    let v = chars_of(shaped.as_str());
    let mut pat: Vec<char> = Vec::new();
    pat.push(',');
    pat.push(' ');
    assert(pat@ =~= seq![',', ' ']);
    match pace {
        Some(DeliveryPace::Slow) | Some(DeliveryPace::Measured) => {
            let mut to: Vec<char> = Vec::new();
            to.push(',');
            to.push(' ');
            to.push(' ');
            assert(to@ =~= seq![',', ' ', ' ']);
            string_of(&replace_seq_chars(&v, &pat, &to))
        },
        Some(DeliveryPace::Fast) => {
            let mut to: Vec<char> = Vec::new();
            to.push(' ');
            assert(to@ =~= seq![' ']);
            string_of(&replace_seq_chars(&v, &pat, &to))
        },
        _ => shaped,
    }
}

/// The bytes a line's cache key hashes: the spoken line, a NUL, the voice id.
pub open spec fn line_payload(text: Seq<char>, voice_id: Seq<char>) -> Seq<u8> {
    encode_utf8(spoken(text) + seq!['\0'] + voice_id)
}

/// The cache key of a synthesized line.
pub fn line_key(text: &str, voice_id: &str) -> (r: String)
    ensures
        r@ == blake3_hex(line_payload(text@, voice_id@)),
        r@.len() == 64,
        forall|i: int| 0 <= i < 64 ==> is_lower_hex(#[trigger] r@[i]),
{
    let spoken_text = normalize_spoken_text(text);
    let mut v = chars_of(spoken_text.as_str());
    v.push('\0');
    append_str(&mut v, voice_id);
    assert(v@ == spoken(text@) + seq!['\0'] + voice_id@);
    let payload = string_of(&v);
    let bytes = payload.as_str().as_bytes();
    blake3_hex_of(bytes)
}

// ---------------------------------------------------------------------------
// Providers and voice profiles
// ---------------------------------------------------------------------------

/// The duration-only provider used when no audio engine is configured.
#[derive(Debug, Clone, Copy, Default)]
pub struct EstimatingTts;

impl EstimatingTts {
    /// The provider's id in diagnostics.
    pub fn provider_name(&self) -> (r: &'static str)
        ensures
            r@ == "estimating"@,
    {
        "estimating"
    }
}

/// A provider name that stands for no production-quality audio: the
/// duration-only estimator, or a provider that failed (its name ends in
/// `-failed`).
pub open spec fn placeholder_provider(p: Seq<char>) -> bool {
    p == "estimating"@ || (p.len() >= 7 && p.subrange(p.len() - 7, p.len() as int) == "-failed"@)
}

/// Whether the provider recorded for a run gave no production-quality audio,
/// so that the run's diagnostics flag it.
pub fn is_placeholder_provider(provider: &str) -> (r: bool)
    ensures
        r == placeholder_provider(provider@),
{
    let p = chars_of(provider);
    if seq_eq(&p, &chars_of("estimating")) {
        return true;
    }
    if p.len() < 7 {
        return false;
    }
    seq_eq(&slice_chars(&p, p.len() - 7, p.len()), &chars_of("-failed"))
}

/// A character's cloned voice: its reference recording, the recording's
/// expected digest (empty when not pinned) and the sampling seed.
#[derive(Debug)]
pub struct VoiceProfileConfig {
    pub character_id: String,
    pub reference_wav: String,
    pub reference_hash: String,
    pub seed: u64,
}

/// The Gepard worker's configuration; profiles are keyed by voice id.
#[derive(Debug)]
pub struct GepardTtsConfig {
    pub runtime_root: String,
    pub model_root: String,
    pub model_revision: String,
    pub codec_revision: String,
    pub profiles: Vec<(String, VoiceProfileConfig)>,
}

/// The voice ids of a profile list.
pub open spec fn profile_keys(p: Seq<(String, VoiceProfileConfig)>) -> Seq<Seq<char>> {
    Seq::new(p.len(), |i: int| p[i].0@)
}

/// The character ids of a profile list.
pub open spec fn profile_characters(p: Seq<(String, VoiceProfileConfig)>) -> Seq<Seq<char>> {
    Seq::new(p.len(), |i: int| p[i].1.character_id@)
}

/// The position of the profile that serves `voice_id`: the one keyed by it,
/// else the first that belongs to the character of that id.
pub open spec fn profile_position(p: Seq<(String, VoiceProfileConfig)>, voice_id: Seq<char>) -> Option<
    int,
> {
    match first_index(profile_keys(p), voice_id) {
        Some(i) => Some(i),
        None => first_index(profile_characters(p), voice_id),
    }
}

/// The project-owned Gepard provider: one batch worker run per set of cache
/// misses.
#[derive(Debug)]
pub struct GepardTts {
    cfg: GepardTtsConfig,
    cache_dir: String,
}

impl GepardTts {
    /// The provider's configuration.
    pub closed spec fn config(&self) -> GepardTtsConfig {
        self.cfg
    }

    /// Where synthesized lines are cached.
    pub closed spec fn cache_dir_view(&self) -> Seq<char> {
        self.cache_dir@
    }

    /// A provider over `cfg` caching into `cache_dir`.
    pub fn new(cfg: GepardTtsConfig, cache_dir: String) -> (r: Self)
        ensures
            r.config() == cfg,
            r.cache_dir_view() == cache_dir@,
    {
        GepardTts { cfg, cache_dir }
    }

    /// The voice profile that serves `voice_id`: the profile keyed by it, else
    /// one whose character id it is.
    pub fn profile(&self, voice_id: &str) -> (r: Option<&VoiceProfileConfig>)
        ensures
            match profile_position(self.config().profiles@, voice_id@) {
                Some(i) => r matches Some(v) && *v == self.config().profiles@[i].1,
                None => r is None,
            },
    {
        let p = &self.cfg.profiles;
        let mut i: usize = 0;
        while i < p.len()
            invariant
                p@ == self.cfg.profiles@,
                i <= p@.len(),
                forall|j: int| 0 <= j < i ==> #[trigger] profile_keys(p@)[j] != voice_id@,
            decreases p@.len() - i,
        {
            if crate::text::str_eq(p[i].0.as_str(), voice_id) {
                proof {
                    assert(profile_keys(p@)[i as int] == voice_id@);
                    lemma_first_index(profile_keys(p@), voice_id@);
                    assert(profile_position(p@, voice_id@) == Some(i as int));
                }
                return Some(&p[i].1);
            }
            i += 1;
        }
        proof {
            lemma_first_index(profile_keys(p@), voice_id@);
        }
        let mut k: usize = 0;
        while k < p.len()
            invariant
                p@ == self.cfg.profiles@,
                k <= p@.len(),
                first_index(profile_keys(p@), voice_id@) is None,
                forall|j: int| 0 <= j < k ==> #[trigger] profile_characters(p@)[j] != voice_id@,
            decreases p@.len() - k,
        {
            if crate::text::str_eq(p[k].1.character_id.as_str(), voice_id) {
                proof {
                    assert(profile_characters(p@)[k as int] == voice_id@);
                    lemma_first_index(profile_characters(p@), voice_id@);
                    assert(profile_position(p@, voice_id@) == Some(k as int));
                }
                return Some(&p[k].1);
            }
            k += 1;
        }
        proof {
            lemma_first_index(profile_characters(p@), voice_id@);
        }
        None
    }
}

impl GepardTts {
    /// Which requests of a batch fail at once because no voice profile serves
    /// their voice: one flag per request, in order. The others go on to the
    /// cache and the synthesis worker.
    pub fn unserved_requests(&self, voice_ids: &[String]) -> (r: Vec<bool>)
        ensures
            r@.len() == voice_ids@.len(),
            forall|i: int|
                0 <= i < r@.len() ==> #[trigger] r@[i] == (profile_position(
                    self.config().profiles@,
                    voice_ids@[i]@,
                ) is None),
    {
        let mut out: Vec<bool> = Vec::new();
        let mut i: usize = 0;
        while i < voice_ids.len()
            invariant
                i <= voice_ids@.len(),
                out@.len() == i,
                forall|k: int|
                    0 <= k < i ==> #[trigger] out@[k] == (profile_position(
                        self.config().profiles@,
                        voice_ids@[k]@,
                    ) is None),
            decreases voice_ids@.len() - i,
        {
            let unserved = self.profile(voice_ids[i].as_str()).is_none();
            out.push(unserved);
            i += 1;
        }
        out
    }
}

/// A voice profile's reference recording, checked against its pin: the
/// recording's digest, unless a digest is pinned and differs.
pub fn checked_reference_hash(reference: &[u8], pinned: &str) -> (r: Option<String>)
    ensures
        r matches Some(h) ==> h@ == blake3_hex(reference@),
        (r is Some) <==> (pinned@.len() == 0 || pinned@ == blake3_hex(reference@)),
{
    let actual = blake3_hex_of(reference);
    if pinned.unicode_len() != 0 && !crate::text::str_eq(pinned, actual.as_str()) {
        return None;
    }
    Some(actual)
}

/// The JSON object a synthesized Gepard line is keyed by, as `serde_json`
/// writes it: its members in key order (character, codec revision, delivery,
/// model revision, reference digest, seed, spoken text), with `delivery`
/// already written as JSON (`null` when there is none).
pub open spec fn gepard_payload(
    model_revision: Seq<char>,
    codec_revision: Seq<char>,
    reference_hash: Seq<char>,
    character: Seq<char>,
    text: Seq<char>,
    delivery_json: Seq<char>,
    seed: u64,
) -> Seq<char> {
    "{\"character\":"@ + json_string_text(character) + ",\"codec_revision\":"@ + json_string_text(
        codec_revision,
    ) + ",\"delivery\":"@ + delivery_json + ",\"model_revision\":"@ + json_string_text(
        model_revision,
    ) + ",\"reference_hash\":"@ + json_string_text(reference_hash) + ",\"seed\":"@ + decimal(
        seed as nat,
    ) + ",\"text\":"@ + json_string_text(spoken(text)) + "}"@
}

/// The cache key of a Gepard line: the digest of its payload object.
pub fn gepard_cache_key(
    cfg: &GepardTtsConfig,
    profile: &VoiceProfileConfig,
    reference_hash: &str,
    text: &str,
    delivery_json: &str,
) -> (r: String)
    ensures
        r@ == blake3_hex(
            encode_utf8(
                gepard_payload(
                    cfg.model_revision@,
                    cfg.codec_revision@,
                    reference_hash@,
                    profile.character_id@,
                    text@,
                    delivery_json@,
                    profile.seed,
                ),
            ),
        ),
        r@.len() == 64,
{
    let mut v = chars_of("{\"character\":");
    append_str(&mut v, json_string(profile.character_id.as_str()).as_str());
    append_str(&mut v, ",\"codec_revision\":");
    append_str(&mut v, json_string(cfg.codec_revision.as_str()).as_str());
    append_str(&mut v, ",\"delivery\":");
    append_str(&mut v, delivery_json);
    append_str(&mut v, ",\"model_revision\":");
    append_str(&mut v, json_string(cfg.model_revision.as_str()).as_str());
    append_str(&mut v, ",\"reference_hash\":");
    append_str(&mut v, json_string(reference_hash).as_str());
    append_str(&mut v, ",\"seed\":");
    append_chars(&mut v, &decimal_chars(profile.seed));
    append_str(&mut v, ",\"text\":");
    let spoken_text = normalize_spoken_text(text);
    append_str(&mut v, json_string(spoken_text.as_str()).as_str());
    append_str(&mut v, "}");
    proof {
        assert(v@ =~= gepard_payload(
            cfg.model_revision@,
            cfg.codec_revision@,
            reference_hash@,
            profile.character_id@,
            text@,
            delivery_json@,
            profile.seed,
        ));
    }
    let payload = string_of(&v);
    blake3_hex_of(payload.as_str().as_bytes())
}

impl GepardTts {
    /// The cache key of a line spoken with `profile`, given the profile's
    /// reference recording (`None` when it could not be read) and the line's
    /// delivery as JSON: none when the recording is missing or does not match
    /// its pinned digest.
    pub fn cache_key(
        &self,
        profile: &VoiceProfileConfig,
        reference: Option<&[u8]>,
        text: &str,
        delivery_json: &str,
    ) -> (r: Option<String>)
        ensures
            match reference {
                None => r is None,
                Some(b) => if profile.reference_hash@.len() == 0 || profile.reference_hash@
                    == blake3_hex(b@) {
                    r matches Some(k) && k@ == blake3_hex(
                        encode_utf8(
                            gepard_payload(
                                self.config().model_revision@,
                                self.config().codec_revision@,
                                blake3_hex(b@),
                                profile.character_id@,
                                text@,
                                delivery_json@,
                                profile.seed,
                            ),
                        ),
                    )
                } else {
                    r is None
                },
            },
    {
        let bytes = match reference {
            Some(b) => b,
            None => {
                return None;
            },
        };
        match checked_reference_hash(bytes, profile.reference_hash.as_str()) {
            Some(h) => Some(gepard_cache_key(&self.cfg, profile, h.as_str(), text, delivery_json)),
            None => None,
        }
    }

    /// The file a line with this cache key is synthesized into.
    pub fn wav_name(key: &str) -> (r: String)
        ensures
            r@ == "gepard_"@ + key@ + ".wav"@,
    {
        let mut v = chars_of("gepard_");
        append_str(&mut v, key);
        append_str(&mut v, ".wav");
        string_of(&v)
    }
}

/// The voice names of a local speech engine: a voice per voice id, and the
/// voice used for any other id.
#[derive(Debug)]
pub struct VoiceTable {
    pub default_voice: String,
    pub voices: Vec<(String, String)>,
}

/// The voice ids of a voice list.
pub open spec fn voice_keys(v: Seq<(String, String)>) -> Seq<Seq<char>> {
    Seq::new(v.len(), |i: int| v[i].0@)
}

/// The voice name that serves `voice_id`.
pub open spec fn voice_name(t: VoiceTable, voice_id: Seq<char>) -> Seq<char> {
    match first_index(voice_keys(t.voices@), voice_id) {
        Some(i) => t.voices@[i].1@,
        None => t.default_voice@,
    }
}

impl VoiceTable {
    /// The engine voice for a character's voice id: the one mapped to it, else
    /// the default voice.
    pub fn voice_for(&self, voice_id: &str) -> (r: String)
        ensures
            r@ == voice_name(*self, voice_id@),
    {
        let v = &self.voices;
        let mut i: usize = 0;
        while i < v.len()
            invariant
                v@ == self.voices@,
                i <= v@.len(),
                forall|j: int| 0 <= j < i ==> #[trigger] voice_keys(v@)[j] != voice_id@,
            decreases v@.len() - i,
        {
            if crate::text::str_eq(v[i].0.as_str(), voice_id) {
                proof {
                    assert(voice_keys(v@)[i as int] == voice_id@);
                    lemma_first_index(voice_keys(v@), voice_id@);
                }
                let name = crate::text::chars_of(v[i].1.as_str());
                return crate::text::string_of(&name);
            }
            i += 1;
        }
        proof {
            lemma_first_index(voice_keys(v@), voice_id@);
        }
        let name = crate::text::chars_of(self.default_voice.as_str());
        crate::text::string_of(&name)
    }
}

// ---------------------------------------------------------------------------
// WAV headers
// ---------------------------------------------------------------------------

/// The fields of a PCM WAV header that a duration is computed from.
#[derive(Debug, Clone, Copy, PartialEq, Eq, Structural)]
pub struct WavHeader {
    /// Frames per second, from the `fmt ` chunk at byte 24.
    pub sample_rate: u32,
    /// Channel count, at byte 22.
    pub channels: u16,
    /// Bytes per frame, from the last `fmt ` chunk before `data` (2 when none).
    pub block_align: u32,
    /// Size in bytes of the `data` chunk.
    pub data_size: u32,
}

/// The little-endian 16-bit value at `i`.
pub open spec fn le16(b: Seq<u8>, i: int) -> nat {
    (b[i] as nat) + 256 * (b[i + 1] as nat)
}

/// The little-endian 32-bit value at `i`.
pub open spec fn le32(b: Seq<u8>, i: int) -> nat {
    (b[i] as nat) + 256 * (b[i + 1] as nat) + 65536 * (b[i + 2] as nat) + 16777216 * (b[i
        + 3] as nat)
}

/// The four bytes at `i` spell `tag`.
pub open spec fn tag_at(b: Seq<u8>, i: int, tag: Seq<u8>) -> bool {
    b.subrange(i, i + 4) == tag
}

/// `RIFF`, `WAVE`, `data` and `fmt ` in bytes.
pub open spec fn riff_tag() -> Seq<u8> {
    seq![82u8, 73u8, 70u8, 70u8]
}

pub open spec fn wave_tag() -> Seq<u8> {
    seq![87u8, 65u8, 86u8, 69u8]
}

pub open spec fn data_tag() -> Seq<u8> {
    seq![100u8, 97u8, 116u8, 97u8]
}

pub open spec fn fmt_tag() -> Seq<u8> {
    seq![102u8, 109u8, 116u8, 32u8]
}

/// Walk the chunks from `i`, tracking the block alignment `align` read from
/// `fmt ` chunks, until the `data` chunk: its size, and the alignment then.
/// A chunk is eight header bytes, its body, and a pad byte after an odd body.
pub open spec fn walk_chunks(b: Seq<u8>, i: nat, align: nat) -> (Option<nat>, nat)
    decreases (if i <= b.len() {
        b.len() - i + 1
    } else {
        0
    }),
{
    if i + 8 > b.len() {
        (None, align)
    } else if tag_at(b, i as int, data_tag()) {
        (Some(le32(b, i + 4int)), align)
    } else {
        let size = le32(b, i + 4int);
        let align2 = if tag_at(b, i as int, fmt_tag()) && i + 22 <= b.len() {
            le16(b, i + 20int)
        } else {
            align
        };
        walk_chunks(b, i + 8 + size + size % 2, align2)
    }
}

/// A file that starts like a RIFF/WAVE file of at least `min` bytes.
pub open spec fn riff_wave(b: Seq<u8>, min: nat) -> bool {
    b.len() >= min && tag_at(b, 0, riff_tag()) && tag_at(b, 8, wave_tag())
}

/// The header of a WAV file: none unless it is a RIFF/WAVE file of at least 44
/// bytes with a `data` chunk.
pub open spec fn wav_header(b: Seq<u8>) -> Option<WavHeader> {
    if !riff_wave(b, 44) {
        None
    } else {
        match walk_chunks(b, 12, 2) {
            (Some(size), align) => Some(
                WavHeader {
                    sample_rate: le32(b, 24) as u32,
                    channels: le16(b, 22) as u16,
                    block_align: align as u32,
                    data_size: size as u32,
                },
            ),
            (None, _) => None,
        }
    }
}

fn le16_at(b: &[u8], i: usize) -> (r: u32)
    requires
        i + 2 <= b@.len(),
    ensures
        r as nat == le16(b@, i as int),
        r < 65536,
{
    (b[i] as u32) + 256 * (b[i + 1] as u32)
}

fn le32_at(b: &[u8], i: usize) -> (r: u32)
    requires
        i + 4 <= b@.len(),
    ensures
        r as nat == le32(b@, i as int),
{
    (b[i] as u32) + 256 * (b[i + 1] as u32) + 65536 * (b[i + 2] as u32) + 16777216 * (b[i
        + 3] as u32)
}

fn tag_matches(b: &[u8], i: usize, t0: u8, t1: u8, t2: u8, t3: u8) -> (r: bool)
    requires
        i + 4 <= b@.len(),
    ensures
        r == tag_at(b@, i as int, seq![t0, t1, t2, t3]),
{
    let r = b[i] == t0 && b[i + 1] == t1 && b[i + 2] == t2 && b[i + 3] == t3;
    assert(r == (b@.subrange(i as int, i + 4) =~= seq![t0, t1, t2, t3]));
    r
}

/// Parse a WAV header from the file's bytes.
pub fn parse_wav_header(bytes: &[u8]) -> (r: Option<WavHeader>)
    ensures
        r == wav_header(bytes@),
{
    if bytes.len() < 44 || !tag_matches(bytes, 0, 82, 73, 70, 70) || !tag_matches(
        bytes,
        8,
        87,
        65,
        86,
        69,
    ) {
        return None;
    }
    let n = bytes.len();
    let mut i: usize = 12;
    let mut align: u32 = 2;
    let mut found: Option<u32> = None;
    while n - i >= 8
        invariant_except_break
            n == bytes@.len(),
            12 <= i <= n,
            found is None,
            walk_chunks(bytes@, i as nat, align as nat) == walk_chunks(bytes@, 12, 2),
        ensures
            match found {
                Some(size) => walk_chunks(bytes@, 12, 2) == (Some(size as nat), align as nat),
                None => walk_chunks(bytes@, 12, 2) == (None::<nat>, align as nat),
            },
        decreases n - i,
    {
        let size = le32_at(bytes, i + 4);
        if tag_matches(bytes, i, 100, 97, 116, 97) {
            found = Some(size);
            break;
        }
        let align2 = if tag_matches(bytes, i, 102, 109, 116, 32) && n - i >= 22 {
            le16_at(bytes, i + 20)
        } else {
            align
        };
        let step: u64 = 8 + (size as u64) + (size as u64) % 2;
        if step > (n - i) as u64 {
            proof {
                let next = i + 8 + size + size % 2;
                assert(walk_chunks(bytes@, next as nat, align2 as nat) == (None::<nat>, align2 as nat));
            }
            align = align2;
            assert(walk_chunks(bytes@, 12, 2) == (None::<nat>, align as nat));
            i = n;
        } else {
            align = align2;
            i = i + step as usize;
        }
    }
    match found {
        Some(size) => {
            let sample_rate = le32_at(bytes, 24);
            let channels = le16_at(bytes, 22);
            Some(
                WavHeader {
                    sample_rate,
                    channels: channels as u16,
                    block_align: align,
                    data_size: size,
                },
            )
        },
        None => None,
    }
}

/// The sample rate of a WAV file: none unless it is a RIFF/WAVE file of at
/// least 28 bytes.
pub fn wav_sample_rate(bytes: &[u8]) -> (r: Option<u32>)
    ensures
        r == (if riff_wave(bytes@, 28) {
            Some(le32(bytes@, 24) as u32)
        } else {
            None
        }),
{
    if bytes.len() < 28 || !tag_matches(bytes, 0, 82, 73, 70, 70) || !tag_matches(
        bytes,
        8,
        87,
        65,
        86,
        69,
    ) {
        return None;
    }
    Some(le32_at(bytes, 24))
}

} // verus!

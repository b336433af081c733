//! Runtime, director and text-to-speech configuration defaults.
//!
//! Loading `data/config.toml` is file I/O done by the application; the values
//! it falls back to, and the director switches, live here.
use vstd::prelude::*;

use crate::text::{chars_of, string_of};

verus! {

fn own(s: &str) -> (r: String)
    ensures
        r@ == s@,
{
    let v = chars_of(s);
    string_of(&v)
}

/// How episodes are authored when a model is, or is not, reachable.
#[derive(Debug, Clone, Copy, PartialEq, Eq, Structural)]
pub struct DirectorConfig {
    /// When no model is reachable (or disabled) the built-in deterministic
    /// director authors episodes instead.
    pub allow_fallback_director: bool,
    /// Disable the real model entirely (always use the fallback).
    pub force_fallback: bool,
    /// Require the configured model: fail clearly instead of falling back.
    pub require_llm: bool,
    /// How many times one model piece may be repaired before giving up.
    pub max_repairs: u32,
}

impl Default for DirectorConfig {
    fn default() -> (r: Self)
        ensures
            r.allow_fallback_director,
            !r.force_fallback,
            !r.require_llm,
            r.max_repairs == 2,
    {
        DirectorConfig {
            allow_fallback_director: true,
            force_fallback: false,
            require_llm: false,
            max_repairs: 2,
        }
    }
}

/// Default model of an HTTP speech provider.
pub fn default_http_tts_model() -> (r: String)
    ensures
        r@ == "tts-1"@,
{
    own("tts-1")
}

/// Default audio format of an HTTP speech provider.
pub fn default_http_tts_format() -> (r: String)
    ensures
        r@ == "wav"@,
{
    own("wav")
}

/// Default voice of an HTTP speech provider.
pub fn default_http_tts_voice() -> (r: String)
    ensures
        r@ == "alloy"@,
{
    own("alloy")
}

/// Default cap on completion tokens.
pub fn default_max_tokens() -> (r: u32)
    ensures
        r == 2048,
{
    2048
}

/// Default number of repair attempts.
pub fn default_retries() -> (r: u32)
    ensures
        r == 2,
{
    2
}

/// Default output directory.
pub fn default_output() -> (r: String)
    ensures
        r@ == "output"@,
{
    own("output")
}

/// Default caption style.
pub fn default_caption_style() -> (r: String)
    ensures
        r@ == "backlot-default"@,
{
    own("backlot-default")
}

/// Default master resolution (vertical 1080x1920).
pub fn default_resolution() -> (r: (u32, u32))
    ensures
        r == (1080u32, 1920u32),
{
    (1080, 1920)
}

/// Default frame rate.
pub fn default_fps() -> (r: u32)
    ensures
        r == 30,
{
    30
}

/// Default FFmpeg command.
pub fn default_ffmpeg() -> (r: String)
    ensures
        r@ == "ffmpeg"@,
{
    own("ffmpeg")
}

/// Default speech provider.
pub fn default_tts_provider() -> (r: String)
    ensures
        r@ == "estimating"@,
{
    own("estimating")
}

/// Default espeak-ng command.
pub fn default_espeak() -> (r: String)
    ensures
        r@ == "espeak-ng"@,
{
    own("espeak-ng")
}

/// Default audio sample rate.
pub fn default_sample_rate() -> (r: u32)
    ensures
        r == 44100,
{
    44100
}

/// Default speech cache directory.
pub fn default_tts_cache() -> (r: String)
    ensures
        r@ == "output/cache/tts"@,
{
    own("output/cache/tts")
}

/// Default voice.
pub fn default_voice() -> (r: String)
    ensures
        r@ == "en-us"@,
{
    own("en-us")
}

/// Default espeak amplitude.
pub fn default_amp() -> (r: i32)
    ensures
        r == 100,
{
    100
}

/// A switch that defaults to on.
pub fn default_true() -> (r: bool)
    ensures
        r == true,
{
    true
}

} // verus!

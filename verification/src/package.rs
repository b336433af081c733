//! Provenance records written into a committed episode package.
use vstd::prelude::*;

verus! {

/// The schema version of the timing report.
pub fn timing_schema_version() -> (r: u32)
    ensures
        r == 2,
{
    2
}

/// Which speech provider produced the episode audio, and how.
#[derive(Debug)]
pub struct TtsProvenance {
    pub provider: String,
    pub manifest_path: String,
    pub line_count: u32,
    pub successful_lines: u32,
    pub failed_lines: u32,
    pub cache_hits: u32,
    pub cache_misses: u32,
    pub worker_invocations: u32,
    pub espeak_lines: u32,
    pub estimating_lines: u32,
    pub model_revision: Option<String>,
    pub device: Option<String>,
    pub voice_ids: Vec<String>,
}

impl Default for TtsProvenance {
    fn default() -> (r: Self)
        ensures
            r.provider@ == Seq::<char>::empty(),
            r.manifest_path@ == Seq::<char>::empty(),
            r.line_count == 0 && r.successful_lines == 0 && r.failed_lines == 0,
            r.cache_hits == 0 && r.cache_misses == 0 && r.worker_invocations == 0,
            r.espeak_lines == 0 && r.estimating_lines == 0,
            r.model_revision is None && r.device is None,
            r.voice_ids.len() == 0,
    {
        TtsProvenance {
            provider: String::new(),
            manifest_path: String::new(),
            line_count: 0,
            successful_lines: 0,
            failed_lines: 0,
            cache_hits: 0,
            cache_misses: 0,
            worker_invocations: 0,
            espeak_lines: 0,
            estimating_lines: 0,
            model_revision: None,
            device: None,
            voice_ids: Vec::new(),
        }
    }
}

} // verus!

//! Word alignment of voiced lines, apart from the alignment worker: when a
//! batch is aligned at all, where a clip's alignment is cached, the id a line
//! is aligned under, and which worker responses are kept.
use vstd::prelude::*;
use vstd::utf8::encode_utf8;

use crate::digest::{blake3_hex, blake3_hex_of, is_lower_hex};
use crate::text::{append_str, chars_of, str_eq, string_of};

verus! {

/// Whether an alignment batch runs: the provider is `parakeet` and there is a
/// clip to align.
pub fn runs_alignment(provider: &str, clips: usize) -> (r: bool)
    ensures
        r == (provider@ == "parakeet"@ && clips > 0),
{
    str_eq(provider, "parakeet") && clips > 0
}

/// The bytes a clip's cache name digests: the clip's audio, or its path's
/// text when the audio could not be read.
pub open spec fn clip_digest_input(wav_bytes: Option<Seq<u8>>, wav_path: Seq<char>) -> Seq<u8> {
    match wav_bytes {
        Some(b) => b,
        None => encode_utf8(wav_path),
    }
}

/// The name of the file a clip's word alignment is cached in.
pub open spec fn alignment_cache_name(wav_bytes: Option<Seq<u8>>, wav_path: Seq<char>) -> Seq<
    char,
> {
    "parakeet_"@ + blake3_hex(clip_digest_input(wav_bytes, wav_path)) + ".words.json"@
}

/// The cache file of a clip's word alignment, named by the BLAKE3 digest of
/// the clip's audio (`wav_bytes`), or of its path when the audio could not be
/// read (`None`).
pub fn alignment_cache_file(wav_bytes: Option<&[u8]>, wav_path: &str) -> (r: String)
    ensures
        r@ == alignment_cache_name(
            match wav_bytes {
                Some(b) => Some(b@),
                None => None,
            },
            wav_path@,
        ),
{
    let digest = match wav_bytes {
        Some(b) => blake3_hex_of(b),
        None => blake3_hex_of(wav_path.as_bytes()),
    };
    let mut v = chars_of("parakeet_");
    append_str(&mut v, digest.as_str());
    append_str(&mut v, ".words.json");
    string_of(&v)
}

/// The bytes a voiced line's alignment id digests: the actor, a NUL, the
/// text.
pub open spec fn alignment_id_input(actor: Seq<char>, text: Seq<char>) -> Seq<u8> {
    encode_utf8(actor + seq!['\0'] + text)
}

/// The id a voiced line is aligned under: the BLAKE3 digest of its actor, a
/// NUL and its text, in hex.
pub fn alignment_id(actor: &str, text: &str) -> (r: String)
    ensures
        r@ == blake3_hex(alignment_id_input(actor@, text@)),
        r@.len() == 64,
        forall|i: int| 0 <= i < 64 ==> is_lower_hex(#[trigger] r@[i]),
{
    let mut v = chars_of(actor);
    v.push('\0');
    append_str(&mut v, text);
    assert(v@ == actor@ + seq!['\0'] + text@);
    let joined = string_of(&v);
    blake3_hex_of(joined.as_str().as_bytes())
}

/// One response of the alignment worker.
#[derive(Debug)]
pub struct AlignmentResponse {
    pub id: String,
    pub output: String,
    pub success: bool,
}

/// The responses the worker marked successful, in order.
pub open spec fn successful(s: Seq<AlignmentResponse>) -> Seq<AlignmentResponse>
    decreases s.len(),
{
    if s.len() == 0 {
        s
    } else if s.last().success {
        successful(s.drop_last()).push(s.last())
    } else {
        successful(s.drop_last())
    }
}

/// Keep the responses the worker marked successful; the others name no
/// alignment.
pub fn successful_responses(responses: Vec<AlignmentResponse>) -> (r: Vec<AlignmentResponse>)
    ensures
        r@ == successful(responses@),
{
    let ghost all = responses@;
    let mut kept: Vec<AlignmentResponse> = Vec::new();
    let mut rest = responses;
    let ghost mut taken: Seq<AlignmentResponse> = Seq::empty();
    assert(taken + rest@ =~= all);
    while rest.len() > 0
        invariant
            taken + rest@ == all,
            kept@ == successful(taken),
        decreases rest@.len(),
    {
        let ghost before = taken;
        let ghost before_rest = rest@;
        let next = rest.remove(0);
        proof {
            assert(before_rest =~= seq![next] + rest@);
            taken = before.push(next);
            assert(taken + rest@ =~= before + before_rest);
            assert(taken.drop_last() =~= before);
        }
        if next.success {
            kept.push(next);
        }
    }
    assert(taken =~= all);
    kept
}

} // verus!

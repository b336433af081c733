//! The checks that stand between the phases of preparing a production when
//! the model is required: every line voiced, every voiced clip aligned, and
//! no motion left unresolved. The phases themselves (speech synthesis,
//! alignment, motion generation) and the float runtime window are run by the
//! caller.
use vstd::prelude::*;

use crate::text::{append_chars, append_str, chars_of, decimal, decimal_chars, join, join_chars, string_of, string_views, views};

verus! {

/// Why the voice phase is incomplete, if it is: with the model required, a
/// line failed or not every requested line came back.
pub open spec fn voice_gap(require_llm: bool, failed: nat, returned: nat, requested: nat) -> Option<
    Seq<char>,
> {
    if require_llm && (failed > 0 || returned != requested) {
        Some(
            "production voice phase incomplete: "@ + decimal(failed) + " failed and "@ + decimal(
                returned,
            ) + " of "@ + decimal(requested) + " lines returned"@,
        )
    } else {
        None
    }
}

/// Why the alignment phase is incomplete, if it is: with the model required,
/// some voiced clip got no word alignment.
pub open spec fn alignment_gap(require_llm: bool, aligned: nat, clips: nat) -> Option<Seq<char>> {
    if require_llm && clips > 0 && aligned != clips {
        Some(
            "Parakeet alignment phase incomplete: aligned "@ + decimal(aligned) + " of "@ + decimal(
                clips,
            ) + " dialogue clips"@,
        )
    } else {
        None
    }
}

/// Why the motion phase is incomplete, if it is: with the model required,
/// semantics are still unresolved after generation, and their clips await
/// review in the manifests named.
pub open spec fn motion_gap(require_llm: bool, unresolved: Seq<Seq<char>>, manifests: Seq<Seq<char>>) -> Option<
    Seq<char>,
> {
    if require_llm && unresolved.len() > 0 {
        Some(
            "production motion review required for semantics ["@ + join(unresolved, ", "@)
                + "]; Bevy previews must be approved in: "@ + join(manifests, ", "@),
        )
    } else {
        None
    }
}

/// The outcome of a gate as a result.
pub open spec fn gate_result(gap: Option<Seq<char>>, r: Result<(), String>) -> bool {
    match gap {
        Some(m) => r matches Err(e) && e@ == m,
        None => r is Ok,
    }
}

fn number_text(out: &mut Vec<char>, n: usize)
    ensures
        final(out)@ == old(out)@ + decimal(n as nat),
{
    append_chars(out, &decimal_chars(n as u64));
}

/// Gate after speech synthesis: `failed` lines failed and `returned` of
/// `requested` lines came back.
pub fn voice_gate(require_llm: bool, failed: usize, returned: usize, requested: usize) -> (r: Result<
    (),
    String,
>)
    ensures
        gate_result(voice_gap(require_llm, failed as nat, returned as nat, requested as nat), r),
{
    if require_llm && (failed > 0 || returned != requested) {
        let mut m = chars_of("production voice phase incomplete: ");
        number_text(&mut m, failed);
        append_str(&mut m, " failed and ");
        number_text(&mut m, returned);
        append_str(&mut m, " of ");
        number_text(&mut m, requested);
        append_str(&mut m, " lines returned");
        proof {
            assert(m@ =~= voice_gap(require_llm, failed as nat, returned as nat, requested as nat)->0);
        }
        Err(string_of(&m))
    } else {
        Ok(())
    }
}

/// Gate after word alignment: `aligned` of `clips` voiced clips were aligned.
pub fn alignment_gate(require_llm: bool, aligned: usize, clips: usize) -> (r: Result<(), String>)
    ensures
        gate_result(alignment_gap(require_llm, aligned as nat, clips as nat), r),
{
    if require_llm && clips > 0 && aligned != clips {
        let mut m = chars_of("Parakeet alignment phase incomplete: aligned ");
        number_text(&mut m, aligned);
        append_str(&mut m, " of ");
        number_text(&mut m, clips);
        append_str(&mut m, " dialogue clips");
        proof {
            assert(m@ =~= alignment_gap(require_llm, aligned as nat, clips as nat)->0);
        }
        Err(string_of(&m))
    } else {
        Ok(())
    }
}

/// Motion is generated for unresolved semantics only when the model is
/// required.
pub fn needs_motion_generation(require_llm: bool, unresolved: &[String]) -> (r: bool)
    ensures
        r == (require_llm && unresolved@.len() > 0),
{
    require_llm && unresolved.len() > 0
}

fn char_lists(v: &[String]) -> (r: Vec<Vec<char>>)
    ensures
        views(r@) == string_views(v@),
{
    let mut out: Vec<Vec<char>> = Vec::new();
    let mut i: usize = 0;
    while i < v.len()
        invariant
            i <= v@.len(),
            out@.len() == i,
            views(out@) == string_views(v@).take(i as int),
        decreases v@.len() - i,
    {
        let ghost before = out@;
        let c = chars_of(v[i].as_str());
        out.push(c);
        assert(out@ == before.push(c));
        assert(views(out@) =~= string_views(v@).take(i + 1)) by {
            assert forall|k: int| 0 <= k <= i implies #[trigger] views(out@)[k] == string_views(v@)[k] by {
                if k < i {
                    assert(out@[k] == before[k]);
                    assert(views(before)[k] == string_views(v@).take(i as int)[k]);
                } else {
                    assert(out@[k] == c);
                    assert(c@ == v@[k]@);
                }
            }
        }
        i += 1;
    }
    assert(string_views(v@).take(v@.len() as int) =~= string_views(v@));
    out
}

/// Gate after motion generation: the semantics still unresolved, and the
/// manifests of the clips generated for review.
pub fn motion_gate(require_llm: bool, unresolved: &[String], manifests: &[String]) -> (r: Result<
    (),
    String,
>)
    ensures
        gate_result(motion_gap(require_llm, string_views(unresolved@), string_views(manifests@)), r),
{
    if require_llm && unresolved.len() > 0 {
        let sep = chars_of(", ");
        let mut m = chars_of("production motion review required for semantics [");
        append_chars(&mut m, &join_chars(&char_lists(unresolved), &sep));
        append_str(&mut m, "]; Bevy previews must be approved in: ");
        append_chars(&mut m, &join_chars(&char_lists(manifests), &sep));
        proof {
            assert(m@ =~= motion_gap(
                require_llm,
                string_views(unresolved@),
                string_views(manifests@),
            )->0);
        }
        Err(string_of(&m))
    } else {
        Ok(())
    }
}

/// The gates bind only a run that requires the model: otherwise every phase
/// passes whatever it returned; with the model required, a phase fails
/// exactly when a line failed or went missing, a clip went unaligned, or
/// motion stayed unresolved.
pub proof fn gates_bind_only_a_required_model(
    require_llm: bool,
    failed: nat,
    returned: nat,
    requested: nat,
    aligned: nat,
    clips: nat,
    unresolved: Seq<Seq<char>>,
    manifests: Seq<Seq<char>>,
)
    ensures
        !require_llm ==> voice_gap(require_llm, failed, returned, requested) is None
            && alignment_gap(require_llm, aligned, clips) is None && motion_gap(
            require_llm,
            unresolved,
            manifests,
        ) is None,
        require_llm ==> (voice_gap(require_llm, failed, returned, requested) is Some <==> (failed
            > 0 || returned != requested)),
        require_llm ==> (alignment_gap(require_llm, aligned, clips) is Some <==> (clips > 0
            && aligned != clips)),
        require_llm ==> (motion_gap(require_llm, unresolved, manifests) is Some
            <==> unresolved.len() > 0),
{
}

} // verus!

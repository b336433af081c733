//! Validation of structured director output before anything reaches the world.
//!
//! A plan and each beat command are checked against the closed vocabularies
//! and the entities of the world; every problem is reported, in a fixed order,
//! and only a command with no problem is resolved into executable actions.
use vstd::prelude::*;

use crate::protocol::{
    action_views, beat_views, copy_opt, is_known_action, is_known_camera_intent,
    is_known_completion, is_known_persistent_op, known_actions, known_camera_intents,
    known_completion_types, known_persistent_ops, opt_view, BeatCommand,
    BeatCommandView, BeatOutline, BeatOutlineView, CameraIntent, CompletionCondition,
    EpisodePlan,
};
use crate::text::{append_chars, chars_of, seq_eq, string_of, string_views, trim, trim_chars};
use crate::world::{entity_exists_spec, has_character, has_location, resolved_entity, WorldState};

verus! {

/// One problem found in a plan or a beat command.
#[derive(Debug)]
pub struct ValidationError {
    pub field: String,
    pub message: String,
}

/// A problem as (field, message).
pub type ErrorView = (Seq<char>, Seq<char>);

pub open spec fn error_views(v: Seq<ValidationError>) -> Seq<ErrorView> {
    Seq::new(v.len(), |i: int| (v[i].field@, v[i].message@))
}

impl ValidationError {
    /// An error for `field` with `message`.
    pub fn new(field: &str, message: &str) -> (r: Self)
        ensures
            r.field@ == field@,
            r.message@ == message@,
    {
        let f = chars_of(field);
        let m = chars_of(message);
        ValidationError { field: string_of(&f), message: string_of(&m) }
    }
}

/// An action resolved for execution. Its duration estimate and intensity are
/// floating-point and are attached by the executor.
#[derive(Debug)]
pub struct ResolvedAction {
    pub actor_id: String,
    pub action: String,
    pub target_id: Option<String>,
    pub text: Option<String>,
}

/// A beat resolved for execution.
#[derive(Debug)]
pub struct ResolvedBeat {
    pub outline: BeatOutline,
    pub command: BeatCommand,
    pub resolved_actions: Vec<ResolvedAction>,
    pub camera_intent: CameraIntent,
    pub completion: CompletionCondition,
    pub fallback: Option<String>,
}

/// A plan that passed validation, with its beats pre-resolved.
#[derive(Debug)]
pub struct ValidatedPlan {
    pub plan: EpisodePlan,
    pub resolved_beats: Vec<ResolvedBeat>,
}

// ---------------------------------------------------------------------------
// Specifications of the reported problems
// ---------------------------------------------------------------------------

/// `prefix` followed by `x` and a closing quote.
pub open spec fn quoted(prefix: Seq<char>, x: Seq<char>) -> Seq<char> {
    prefix + x + "'"@
}

pub open spec fn unknown_character_errors(w: WorldState, cs: Seq<Seq<char>>) -> Seq<ErrorView>
    decreases cs.len(),
{
    if cs.len() == 0 {
        seq![]
    } else {
        unknown_character_errors(w, cs.drop_last()) + if has_character(w, cs.last()) {
            Seq::<ErrorView>::empty()
        } else {
            seq![("active_characters"@, quoted("unknown character '"@, cs.last()))]
        }
    }
}

pub open spec fn unknown_entity_errors(w: WorldState, beat: Seq<char>, es: Seq<Seq<char>>) -> Seq<
    ErrorView,
>
    decreases es.len(),
{
    if es.len() == 0 {
        seq![]
    } else {
        unknown_entity_errors(w, beat, es.drop_last()) + if entity_exists_spec(w, es.last()) {
            Seq::<ErrorView>::empty()
        } else {
            seq![
                ("required_entities"@, quoted(
                    "beat '"@ + beat + "' requires unknown entity '"@,
                    es.last(),
                )),
            ]
        }
    }
}

pub open spec fn beat_ids(bs: Seq<BeatOutlineView>) -> Seq<Seq<char>> {
    Seq::new(bs.len(), |i: int| bs[i].id)
}

/// Problems with each beat: a repeated id, then each unknown required entity.
pub open spec fn beat_errors(w: WorldState, bs: Seq<BeatOutlineView>) -> Seq<ErrorView>
    decreases bs.len(),
{
    if bs.len() == 0 {
        seq![]
    } else {
        let b = bs.last();
        beat_errors(w, bs.drop_last()) + (if beat_ids(bs.drop_last()).contains(b.id) {
            seq![("beats"@, quoted("duplicate beat id '"@, b.id))]
        } else {
            Seq::<ErrorView>::empty()
        }) + unknown_entity_errors(w, b.id, b.required_entities)
    }
}

pub open spec fn unknown_op_errors(ops: Seq<Seq<char>>) -> Seq<ErrorView>
    decreases ops.len(),
{
    if ops.len() == 0 {
        seq![]
    } else {
        unknown_op_errors(ops.drop_last()) + if known_persistent_ops().contains(ops.last()) {
            Seq::<ErrorView>::empty()
        } else {
            seq![("persistent_changes"@, quoted("unknown operation '"@, ops.last()))]
        }
    }
}

pub open spec fn op_names(plan: EpisodePlan) -> Seq<Seq<char>> {
    Seq::new(plan.persistent_changes@.len(), |i: int| plan.persistent_changes@[i].operation@)
}

/// Every problem of a plan, in the order they are reported.
pub open spec fn plan_errors(w: WorldState, plan: EpisodePlan) -> Seq<ErrorView> {
    let p = plan@;
    (if p.active_characters.len() == 0 {
        seq![("active_characters"@, "no active characters"@)]
    } else {
        Seq::<ErrorView>::empty()
    }) + unknown_character_errors(w, p.active_characters) + (if has_location(
        w,
        p.primary_location,
    ) {
        Seq::<ErrorView>::empty()
    } else {
        seq![("primary_location"@, quoted("unknown location '"@, p.primary_location))]
    }) + (if p.beats.len() == 0 {
        seq![("beats"@, "episode has no beats"@)]
    } else {
        Seq::<ErrorView>::empty()
    }) + (if trim(p.payoff).len() == 0 {
        seq![("payoff"@, "payoff is empty"@)]
    } else {
        Seq::<ErrorView>::empty()
    }) + beat_errors(w, p.beats) + unknown_op_errors(op_names(plan))
}

proof fn lemma_no_character_errors(w: WorldState, cs: Seq<Seq<char>>)
    requires
        unknown_character_errors(w, cs).len() == 0,
    ensures
        forall|k: int| 0 <= k < cs.len() ==> has_character(w, #[trigger] cs[k]),
    decreases cs.len(),
{
    if cs.len() > 0 {
        lemma_no_character_errors(w, cs.drop_last());
        assert forall|k: int| 0 <= k < cs.len() implies has_character(w, #[trigger] cs[k]) by {
            if k < cs.len() - 1 {
                assert(cs[k] == cs.drop_last()[k]);
            }
        }
    }
}

proof fn lemma_no_entity_errors(w: WorldState, beat: Seq<char>, es: Seq<Seq<char>>)
    requires
        unknown_entity_errors(w, beat, es).len() == 0,
    ensures
        forall|k: int| 0 <= k < es.len() ==> entity_exists_spec(w, #[trigger] es[k]),
    decreases es.len(),
{
    if es.len() > 0 {
        lemma_no_entity_errors(w, beat, es.drop_last());
        assert forall|k: int| 0 <= k < es.len() implies entity_exists_spec(w, #[trigger] es[k]) by {
            if k < es.len() - 1 {
                assert(es[k] == es.drop_last()[k]);
            }
        }
    }
}

proof fn lemma_no_op_errors(ops: Seq<Seq<char>>)
    requires
        unknown_op_errors(ops).len() == 0,
    ensures
        forall|k: int| 0 <= k < ops.len() ==> known_persistent_ops().contains(#[trigger] ops[k]),
    decreases ops.len(),
{
    if ops.len() > 0 {
        lemma_no_op_errors(ops.drop_last());
        assert forall|k: int| 0 <= k < ops.len() implies known_persistent_ops().contains(
            #[trigger] ops[k],
        ) by {
            if k < ops.len() - 1 {
                assert(ops[k] == ops.drop_last()[k]);
            }
        }
    }
}

proof fn lemma_no_beat_errors(w: WorldState, bs: Seq<BeatOutlineView>)
    requires
        beat_errors(w, bs).len() == 0,
    ensures
        forall|i: int, j: int| 0 <= i < j < bs.len() ==> #[trigger] bs[i].id != #[trigger] bs[j].id,
        forall|i: int, k: int|
            0 <= i < bs.len() && 0 <= k < bs[i].required_entities.len() ==> entity_exists_spec(
                w,
                #[trigger] bs[i].required_entities[k],
            ),
    decreases bs.len(),
{
    if bs.len() > 0 {
        let init = bs.drop_last();
        let b = bs.last();
        lemma_no_beat_errors(w, init);
        lemma_no_entity_errors(w, b.id, b.required_entities);
        assert(!beat_ids(init).contains(b.id));
        assert forall|i: int, j: int| 0 <= i < j < bs.len() implies #[trigger] bs[i].id
            != #[trigger] bs[j].id by {
            assert(bs[i] == init[i]);
            if j < bs.len() - 1 {
                assert(bs[j] == init[j]);
            } else {
                assert(beat_ids(init)[i] == init[i].id);
            }
        }
        assert forall|i: int, k: int|
            0 <= i < bs.len() && 0 <= k < bs[i].required_entities.len() implies entity_exists_spec(
            w,
            #[trigger] bs[i].required_entities[k],
        ) by {
            if i < bs.len() - 1 {
                assert(bs[i] == init[i]);
            }
        }
    }
}

/// A plan that passes validation stays within the world's bounds: it has
/// active characters, all of them known, a known primary location, beats
/// with distinct ids whose required entities all exist, a non-empty payoff,
/// and only known persistent operations.
pub proof fn accepted_plans_stay_in_bounds(w: WorldState, plan: EpisodePlan)
    requires
        plan_errors(w, plan).len() == 0,
    ensures
        plan@.active_characters.len() > 0,
        forall|k: int|
            0 <= k < plan@.active_characters.len() ==> has_character(
                w,
                #[trigger] plan@.active_characters[k],
            ),
        has_location(w, plan@.primary_location),
        plan@.beats.len() > 0,
        trim(plan@.payoff).len() > 0,
        forall|i: int, j: int|
            0 <= i < j < plan@.beats.len() ==> #[trigger] plan@.beats[i].id
                != #[trigger] plan@.beats[j].id,
        forall|i: int, k: int|
            0 <= i < plan@.beats.len() && 0 <= k < plan@.beats[i].required_entities.len()
                ==> entity_exists_spec(w, #[trigger] plan@.beats[i].required_entities[k]),
        forall|k: int|
            0 <= k < op_names(plan).len() ==> known_persistent_ops().contains(
                #[trigger] op_names(plan)[k],
            ),
{
    let p = plan@;
    let a = if p.active_characters.len() == 0 {
        seq![("active_characters"@, "no active characters"@)]
    } else {
        Seq::<ErrorView>::empty()
    };
    let b = unknown_character_errors(w, p.active_characters);
    let c = if has_location(w, p.primary_location) {
        Seq::<ErrorView>::empty()
    } else {
        seq![("primary_location"@, quoted("unknown location '"@, p.primary_location))]
    };
    let d = if p.beats.len() == 0 {
        seq![("beats"@, "episode has no beats"@)]
    } else {
        Seq::<ErrorView>::empty()
    };
    let e = if trim(p.payoff).len() == 0 {
        seq![("payoff"@, "payoff is empty"@)]
    } else {
        Seq::<ErrorView>::empty()
    };
    let f = beat_errors(w, p.beats);
    let g = unknown_op_errors(op_names(plan));
    assert(plan_errors(w, plan) == a + b + c + d + e + f + g);
    assert(a.len() + b.len() + c.len() + d.len() + e.len() + f.len() + g.len() == 0);
    lemma_no_character_errors(w, p.active_characters);
    lemma_no_beat_errors(w, p.beats);
    lemma_no_op_errors(op_names(plan));
}

/// The provisional resolution of a beat of a valid plan: an establishing shot
/// of the first active character and a timer completion.
pub open spec fn provisional_beat(plan: EpisodePlan, b: BeatOutline, r: ResolvedBeat) -> bool {
    let subject = if plan.active_characters.len() > 0 {
        plan.active_characters@[0]@
    } else {
        seq![]
    };
    &&& r.outline@ == b@
    &&& r.command@.beat_id == b.id@
    &&& r.command@.dramatic_purpose == b.beat_type@
    &&& r.command@.actions.len() == 0
    &&& r.command@.camera_intent.kind == "establish"@
    &&& r.command@.camera_intent.subject == subject
    &&& r.command@.camera_intent.reaction_subject is None
    &&& r.command@.completion_condition.kind == "timer"@
    &&& r.command@.completion_condition.actor is None
    &&& r.command@.fallback is None
    &&& r.command@.notes is None
    &&& r.resolved_actions.len() == 0
    &&& r.camera_intent@ == r.command@.camera_intent
    &&& r.completion@ == r.command@.completion_condition
    &&& r.fallback is None
}

// ---------------------------------------------------------------------------
// Message construction
// ---------------------------------------------------------------------------

/// An error whose message is `prefix`, `x` and a closing quote.
fn quoted_error(field: &str, prefix: &str, x: &str) -> (r: ValidationError)
    ensures
        r.field@ == field@,
        r.message@ == quoted(prefix@, x@),
{
    let f = chars_of(field);
    let mut m = chars_of(prefix);
    let xv = chars_of(x);
    append_chars(&mut m, &xv);
    let q = chars_of("'");
    append_chars(&mut m, &q);
    ValidationError { field: string_of(&f), message: string_of(&m) }
}

/// Pushes `e` and records it in the view.
fn push_error(errs: &mut Vec<ValidationError>, e: ValidationError)
    ensures
        error_views(final(errs)@) == error_views(old(errs)@).push((e.field@, e.message@)),
{
    errs.push(e);
    assert(error_views(errs@) =~= error_views(old(errs)@).push((e.field@, e.message@)));
}

// ---------------------------------------------------------------------------
// Plan validation
// ---------------------------------------------------------------------------

/// Index of the first earlier beat (before `i`) with the id of beat `i`.
fn duplicate_before(beats: &Vec<BeatOutline>, i: usize) -> (r: bool)
    requires
        i < beats.len(),
    ensures
        r == beat_ids(beat_views(beats@).take(i as int)).contains(beats@[i as int].id@),
{
    let target = chars_of(beats[i].id.as_str());
    let ghost ids = beat_ids(beat_views(beats@).take(i as int));
    let mut j: usize = 0;
    while j < i
        invariant
            i < beats.len(),
            j <= i,
            target@ == beats@[i as int].id@,
            ids == beat_ids(beat_views(beats@).take(i as int)),
            forall|k: int| 0 <= k < j ==> ids[k] != target@,
        decreases i - j,
    {
        let c = chars_of(beats[j].id.as_str());
        if seq_eq(&c, &target) {
            assert(ids[j as int] == target@);
            return true;
        }
        j += 1;
    }
    false
}

/// Validate an episode plan against the world: every active character and the
/// primary location must exist, there must be beats with distinct ids whose
/// required entities exist, a non-empty payoff, and only known persistent
/// operations. On success each beat gets a provisional resolution.
pub fn validate_plan(world: &WorldState, plan: &EpisodePlan) -> (r: Result<
    ValidatedPlan,
    Vec<ValidationError>,
>)
    ensures
        match r {
            Ok(v) => {
                &&& plan_errors(*world, *plan).len() == 0
                &&& v.plan@ == plan@
                &&& v.resolved_beats.len() == plan.beats.len()
                &&& forall|i: int|
                    0 <= i < plan.beats.len() ==> provisional_beat(
                        *plan,
                        plan.beats@[i],
                        #[trigger] v.resolved_beats@[i],
                    )
            },
            Err(e) => error_views(e@) == plan_errors(*world, *plan) && e.len() > 0,
        },
{
    let mut errs: Vec<ValidationError> = Vec::new();
    let ghost p = plan@;
    if plan.active_characters.len() == 0 {
        push_error(&mut errs, ValidationError::new("active_characters", "no active characters"));
    }
    let ghost before_chars = error_views(errs@);
    let mut i: usize = 0;
    while i < plan.active_characters.len()
        invariant
            i <= plan.active_characters.len(),
            p == plan@,
            error_views(errs@) == before_chars + unknown_character_errors(
                *world,
                p.active_characters.take(i as int),
            ),
        decreases plan.active_characters.len() - i,
    {
        assert(p.active_characters.take(i + 1).drop_last() =~= p.active_characters.take(
            i as int,
        ));
        let c = &plan.active_characters[i];
        if !world.has_character(c.as_str()) {
            push_error(
                &mut errs,
                quoted_error("active_characters", "unknown character '", c.as_str()),
            );
        }
        i += 1;
    }
    assert(p.active_characters.take(plan.active_characters.len() as int) =~= p.active_characters);
    if !world.has_location(plan.primary_location.as_str()) {
        push_error(
            &mut errs,
            quoted_error("primary_location", "unknown location '", plan.primary_location.as_str()),
        );
    }
    if plan.beats.len() == 0 {
        push_error(&mut errs, ValidationError::new("beats", "episode has no beats"));
    }
    let payoff = chars_of(plan.payoff.as_str());
    let trimmed = trim_chars(&payoff);
    if trimmed.len() == 0 {
        push_error(&mut errs, ValidationError::new("payoff", "payoff is empty"));
    }
    let ghost before_beats = error_views(errs@);
    let mut i: usize = 0;
    while i < plan.beats.len()
        invariant
            i <= plan.beats.len(),
            p == plan@,
            error_views(errs@) == before_beats + beat_errors(*world, p.beats.take(i as int)),
        decreases plan.beats.len() - i,
    {
        let b = &plan.beats[i];
        assert(p.beats.take(i + 1).drop_last() =~= p.beats.take(i as int));
        assert(p.beats.take(i as int) =~= beat_views(plan.beats@).take(i as int));
        let ghost mid = error_views(errs@);
        if duplicate_before(&plan.beats, i) {
            push_error(&mut errs, quoted_error("beats", "duplicate beat id '", b.id.as_str()));
        }
        let ghost after_dup = error_views(errs@);
        let mut prefix = chars_of("beat '");
        let idv = chars_of(b.id.as_str());
        append_chars(&mut prefix, &idv);
        let rest = chars_of("' requires unknown entity '");
        append_chars(&mut prefix, &rest);
        let prefix_s = string_of(&prefix);
        let ghost es = string_views(b.required_entities@);
        let mut j: usize = 0;
        while j < b.required_entities.len()
            invariant
                i < plan.beats.len(),
                *b == plan.beats@[i as int],
                j <= b.required_entities.len(),
                es == string_views(b.required_entities@),
                prefix_s@ == "beat '"@ + b.id@ + "' requires unknown entity '"@,
                error_views(errs@) == after_dup + unknown_entity_errors(
                    *world,
                    b.id@,
                    es.take(j as int),
                ),
            decreases b.required_entities.len() - j,
        {
            assert(es.take(j + 1).drop_last() =~= es.take(j as int));
            let e = &b.required_entities[j];
            if !world.entity_exists(e.as_str()) {
                push_error(
                    &mut errs,
                    quoted_error("required_entities", prefix_s.as_str(), e.as_str()),
                );
            }
            j += 1;
        }
        assert(es.take(b.required_entities.len() as int) =~= es);
        i += 1;
    }
    assert(p.beats.take(plan.beats.len() as int) =~= p.beats);
    let ghost before_ops = error_views(errs@);
    let ghost ops = op_names(*plan);
    let mut i: usize = 0;
    while i < plan.persistent_changes.len()
        invariant
            i <= plan.persistent_changes.len(),
            ops == op_names(*plan),
            error_views(errs@) == before_ops + unknown_op_errors(ops.take(i as int)),
        decreases plan.persistent_changes.len() - i,
    {
        assert(ops.take(i + 1).drop_last() =~= ops.take(i as int));
        let op = &plan.persistent_changes[i].operation;
        if !is_known_persistent_op(op.as_str()) {
            push_error(
                &mut errs,
                quoted_error("persistent_changes", "unknown operation '", op.as_str()),
            );
        }
        i += 1;
    }
    assert(ops.take(plan.persistent_changes.len() as int) =~= ops);
    assert(error_views(errs@) =~= plan_errors(*world, *plan));
    if errs.len() > 0 {
        return Err(errs);
    }
    let mut resolved_beats: Vec<ResolvedBeat> = Vec::new();
    let mut i: usize = 0;
    while i < plan.beats.len()
        invariant
            i <= plan.beats.len(),
            resolved_beats.len() == i,
            forall|k: int|
                0 <= k < i ==> provisional_beat(
                    *plan,
                    plan.beats@[k],
                    #[trigger] resolved_beats@[k],
                ),
        decreases plan.beats.len() - i,
    {
        let b = &plan.beats[i];
        resolved_beats.push(provisional_resolution(plan, b));
        i += 1;
    }
    Ok(ValidatedPlan { plan: plan.clone(), resolved_beats })
}

/// The provisional resolution of one beat of a valid plan.
fn provisional_resolution(plan: &EpisodePlan, b: &BeatOutline) -> (r: ResolvedBeat)
    ensures
        provisional_beat(*plan, *b, r),
{
    let subject = if plan.active_characters.len() > 0 {
        plan.active_characters[0].clone()
    } else {
        String::new()
    };
    let establish = chars_of("establish");
    let timer = chars_of("timer");
    let intent = CameraIntent {
        kind: string_of(&establish),
        subject: subject,
        reaction_subject: None,
    };
    let completion = CompletionCondition { kind: string_of(&timer), actor: None };
    let command = BeatCommand {
        beat_id: b.id.clone(),
        dramatic_purpose: b.beat_type.clone(),
        actions: Vec::new(),
        camera_intent: intent.copy(),
        completion_condition: completion.copy(),
        fallback: None,
        notes: None,
    };
    assert(action_views(command.actions@) =~= Seq::empty());
    ResolvedBeat {
        outline: b.clone(),
        command,
        resolved_actions: Vec::new(),
        camera_intent: intent,
        completion,
        fallback: None,
    }
}

// ---------------------------------------------------------------------------
// Beat command validation
// ---------------------------------------------------------------------------

/// A `speak` line with no text, or only whitespace.
pub open spec fn text_missing(t: Option<Seq<char>>) -> bool {
    match t {
        Some(s) => trim(s).len() == 0,
        None => true,
    }
}

/// Problems with one action of a beat command.
pub open spec fn one_action_errors(
    w: WorldState,
    active: Seq<Seq<char>>,
    a: crate::protocol::ActionCommandView,
) -> Seq<ErrorView> {
    if !known_actions().contains(a.action) {
        seq![("actions"@, quoted("unknown action '"@, a.action))]
    } else if !has_character(w, a.actor) {
        seq![("actions.actor"@, quoted("unknown actor '"@, a.actor))]
    } else {
        (if !active.contains(a.actor) && a.action != "flicker_lights"@ {
            seq![
                ("actions.actor"@, "actor '"@ + a.actor + "' is not in active_characters"@),
            ]
        } else {
            Seq::<ErrorView>::empty()
        }) + (if a.action == "speak"@ && text_missing(a.text) {
            seq![("actions.text"@, "speak action for '"@ + a.actor + "' has no text"@)]
        } else {
            Seq::<ErrorView>::empty()
        })
    }
}

pub open spec fn action_errors(
    w: WorldState,
    active: Seq<Seq<char>>,
    acts: Seq<crate::protocol::ActionCommandView>,
) -> Seq<ErrorView>
    decreases acts.len(),
{
    if acts.len() == 0 {
        seq![]
    } else {
        action_errors(w, active, acts.drop_last()) + one_action_errors(w, active, acts.last())
    }
}

/// Problems with the camera subject: it must be an entity, directly or through
/// alias resolution.
pub open spec fn subject_errors(w: WorldState, subject: Seq<char>) -> Seq<ErrorView> {
    let e = seq![("camera_intent.subject"@, quoted("unknown subject '"@, subject))];
    if entity_exists_spec(w, subject) {
        seq![]
    } else {
        match resolved_entity(w, subject) {
            Some(n) => if entity_exists_spec(w, n) {
                seq![]
            } else {
                e
            },
            None => e,
        }
    }
}

/// Every problem of a beat command whose beat is in the plan.
pub open spec fn command_errors(w: WorldState, plan: EpisodePlan, cmd: BeatCommandView) -> Seq<
    ErrorView,
> {
    (if known_camera_intents().contains(cmd.camera_intent.kind) {
        Seq::<ErrorView>::empty()
    } else {
        seq![("camera_intent"@, quoted("unknown camera intent '"@, cmd.camera_intent.kind))]
    }) + subject_errors(w, cmd.camera_intent.subject) + action_errors(
        w,
        plan@.active_characters,
        cmd.actions,
    ) + (if known_completion_types().contains(cmd.completion_condition.kind) {
        Seq::<ErrorView>::empty()
    } else {
        seq![
            ("completion_condition"@, quoted(
                "unknown completion '"@,
                cmd.completion_condition.kind,
            )),
        ]
    })
}

/// What an accepted action is: a known action token, performed by a known
/// character who is active in the plan (any character may flicker the
/// lights), and a `speak` action has text.
pub open spec fn action_in_bounds(
    w: WorldState,
    active: Seq<Seq<char>>,
    a: crate::protocol::ActionCommandView,
) -> bool {
    &&& known_actions().contains(a.action)
    &&& has_character(w, a.actor)
    &&& (active.contains(a.actor) || a.action == "flicker_lights"@)
    &&& (a.action == "speak"@ ==> !text_missing(a.text))
}

proof fn lemma_no_action_errors(
    w: WorldState,
    active: Seq<Seq<char>>,
    acts: Seq<crate::protocol::ActionCommandView>,
)
    requires
        action_errors(w, active, acts).len() == 0,
    ensures
        forall|k: int| 0 <= k < acts.len() ==> action_in_bounds(w, active, #[trigger] acts[k]),
    decreases acts.len(),
{
    if acts.len() > 0 {
        lemma_no_action_errors(w, active, acts.drop_last());
        let last = acts.last();
        assert(one_action_errors(w, active, last).len() == 0);
        assert(action_in_bounds(w, active, last));
        assert forall|k: int| 0 <= k < acts.len() implies action_in_bounds(w, active, #[trigger] acts[k]) by {
            if k < acts.len() - 1 {
                assert(acts[k] == acts.drop_last()[k]);
            }
        }
    }
}

/// A beat command that passes validation stays within the world's bounds:
/// its camera intent and completion are known, its camera subject names an
/// entity (directly or through an alias), and every action is in bounds. No
/// accepted command asks the world for something it cannot execute.
pub proof fn accepted_commands_stay_in_bounds(w: WorldState, plan: EpisodePlan, cmd: BeatCommandView)
    requires
        command_errors(w, plan, cmd).len() == 0,
    ensures
        known_camera_intents().contains(cmd.camera_intent.kind),
        known_completion_types().contains(cmd.completion_condition.kind),
        entity_exists_spec(w, cmd.camera_intent.subject) || (resolved_entity(
            w,
            cmd.camera_intent.subject,
        ) matches Some(n) && entity_exists_spec(w, n)),
        forall|k: int|
            0 <= k < cmd.actions.len() ==> action_in_bounds(
                w,
                plan@.active_characters,
                #[trigger] cmd.actions[k],
            ),
{
    lemma_no_action_errors(w, plan@.active_characters, cmd.actions);
}

/// A resolved action carries exactly the action it came from.
pub open spec fn resolves(ra: ResolvedAction, a: crate::protocol::ActionCommandView) -> bool {
    &&& ra.actor_id@ == a.actor
    &&& ra.action@ == a.action
    &&& opt_view(ra.target_id) == a.target
    &&& opt_view(ra.text) == a.text
}

/// Index of the first beat of `beats` with id `id`.
fn find_beat(beats: &Vec<BeatOutline>, id: &str) -> (r: Option<usize>)
    ensures
        r == match crate::world::first_index(beat_ids(beat_views(beats@)), id@) {
            Some(i) => Some(i as usize),
            None => None,
        },
{
    let target = chars_of(id);
    let ghost ids = beat_ids(beat_views(beats@));
    let mut i: usize = 0;
    assert(ids.skip(0) =~= ids);
    while i < beats.len()
        invariant
            i <= beats.len(),
            ids == beat_ids(beat_views(beats@)),
            target@ == id@,
            crate::world::first_index(ids, id@) == match crate::world::first_index(
                ids.skip(i as int),
                id@,
            ) {
                Some(k) => Some(k + i),
                None => None::<int>,
            },
        decreases beats.len() - i,
    {
        assert(ids.skip(i as int).drop_first() =~= ids.skip(i + 1));
        let c = chars_of(beats[i].id.as_str());
        if seq_eq(&c, &target) {
            return Some(i);
        }
        i += 1;
    }
    None
}

/// Whether `s` is one of `v`.
fn contains_string(v: &Vec<String>, s: &str) -> (r: bool)
    ensures
        r == string_views(v@).contains(s@),
{
    let target = chars_of(s);
    let mut i: usize = 0;
    while i < v.len()
        invariant
            i <= v.len(),
            target@ == s@,
            forall|k: int| 0 <= k < i ==> string_views(v@)[k] != s@,
        decreases v.len() - i,
    {
        let c = chars_of(v[i].as_str());
        if seq_eq(&c, &target) {
            assert(string_views(v@)[i as int] == s@);
            return true;
        }
        i += 1;
    }
    false
}

/// An error whose message is `prefix`, `x` and `suffix`.
fn framed_error(field: &str, prefix: &str, x: &str, suffix: &str) -> (r: ValidationError)
    ensures
        r.field@ == field@,
        r.message@ == prefix@ + x@ + suffix@,
{
    let f = chars_of(field);
    let mut m = chars_of(prefix);
    let xv = chars_of(x);
    append_chars(&mut m, &xv);
    let sv = chars_of(suffix);
    append_chars(&mut m, &sv);
    ValidationError { field: string_of(&f), message: string_of(&m) }
}

/// Problems with the camera subject of a command.
fn check_subject(world: &WorldState, subject: &str, errs: &mut Vec<ValidationError>)
    ensures
        error_views(final(errs)@) == error_views(old(errs)@) + subject_errors(*world, subject@),
{
    if !world.entity_exists(subject) {
        let e = quoted_error("camera_intent.subject", "unknown subject '", subject);
        match world.resolve_entity_or_alias(subject) {
            Some(n) => {
                if !world.entity_exists(n.as_str()) {
                    push_error(errs, e);
                } else {
                    assert(error_views(errs@) =~= error_views(old(errs)@) + Seq::<
                        ErrorView,
                    >::empty());
                }
            },
            None => {
                push_error(errs, e);
            },
        }
    } else {
        assert(error_views(errs@) =~= error_views(old(errs)@) + Seq::<ErrorView>::empty());
    }
}

/// Validate one beat command against the plan and the world, and resolve its
/// actions. The beat must be in the plan; the camera intent and completion must
/// be known; the camera subject must name an entity; every action must be a
/// known token performed by a known, active character (`flicker_lights` may be
/// performed by anyone), and a `speak` action must have text.
pub fn validate_beat_command(world: &WorldState, plan: &EpisodePlan, cmd: &BeatCommand) -> (r:
    Result<ResolvedBeat, Vec<ValidationError>>)
    ensures
        match crate::world::first_index(beat_ids(plan@.beats), cmd.beat_id@) {
            None => match r {
                Ok(_) => false,
                Err(e) => error_views(e@) == seq![
                    ("beat_id"@, "beat '"@ + cmd.beat_id@ + "' not in plan"@),
                ],
            },
            Some(i) => match r {
                Ok(rb) => {
                    &&& command_errors(*world, *plan, cmd@).len() == 0
                    &&& rb.outline@ == plan@.beats[i]
                    &&& rb.command@ == cmd@
                    &&& rb.camera_intent@ == cmd@.camera_intent
                    &&& rb.completion@ == cmd@.completion_condition
                    &&& opt_view(rb.fallback) == cmd@.fallback
                    &&& rb.resolved_actions.len() == cmd.actions.len()
                    &&& forall|k: int|
                        0 <= k < cmd.actions.len() ==> resolves(
                            #[trigger] rb.resolved_actions@[k],
                            cmd@.actions[k],
                        )
                },
                Err(e) => error_views(e@) == command_errors(*world, *plan, cmd@) && e.len() > 0,
            },
        },
{
    let mut errs: Vec<ValidationError> = Vec::new();
    assert(beat_ids(plan@.beats) =~= beat_ids(beat_views(plan.beats@)));
    let found = find_beat(&plan.beats, cmd.beat_id.as_str());
    proof {
        crate::world::lemma_first_index(beat_ids(plan@.beats), cmd.beat_id@);
    }
    let idx = match found {
        Some(i) => i,
        None => {
            push_error(
                &mut errs,
                framed_error("beat_id", "beat '", cmd.beat_id.as_str(), "' not in plan"),
            );
            assert(error_views(errs@) =~= seq![
                ("beat_id"@, "beat '"@ + cmd.beat_id@ + "' not in plan"@),
            ]);
            return Err(errs);
        },
    };
    assert(found == Some(idx));
    assert(beat_ids(plan@.beats) == beat_ids(beat_views(plan.beats@)));
    proof {
        match crate::world::first_index(beat_ids(plan@.beats), cmd.beat_id@) {
            Some(j) => {
                assert(0 <= j < plan.beats.len());
                assert(j as usize == idx);
            },
            None => {
                assert(false);
            },
        }
    }
    assert(crate::world::first_index(beat_ids(plan@.beats), cmd.beat_id@) == Some(idx as int));
    if !is_known_camera_intent(cmd.camera_intent.kind.as_str()) {
        push_error(
            &mut errs,
            quoted_error(
                "camera_intent",
                "unknown camera intent '",
                cmd.camera_intent.kind.as_str(),
            ),
        );
    }
    check_subject(world, cmd.camera_intent.subject.as_str(), &mut errs);
    let ghost before_actions = error_views(errs@);
    let ghost acts = action_views(cmd.actions@);
    let ghost active = plan@.active_characters;
    let mut resolved: Vec<ResolvedAction> = Vec::new();
    let mut i: usize = 0;
    while i < cmd.actions.len()
        invariant
            i <= cmd.actions.len(),
            idx < plan.beats.len(),
            crate::world::first_index(beat_ids(plan@.beats), cmd.beat_id@) == Some(idx as int),
            acts == action_views(cmd.actions@),
            active == plan@.active_characters,
            error_views(errs@) == before_actions + action_errors(
                *world,
                active,
                acts.take(i as int),
            ),
            action_errors(*world, active, acts.take(i as int)).len() == 0 ==> {
                &&& resolved.len() == i
                &&& forall|k: int|
                    0 <= k < i ==> resolves(#[trigger] resolved@[k], acts[k])
            },
        decreases cmd.actions.len() - i,
    {
        assert(acts.take(i + 1).drop_last() =~= acts.take(i as int));
        let a = &cmd.actions[i];
        let ghost av = acts[i as int];
        assert(av == a@);
        let ghost prev = action_errors(*world, active, acts.take(i as int));
        if !is_known_action(a.action.as_str()) {
            push_error(
                &mut errs,
                quoted_error("actions", "unknown action '", a.action.as_str()),
            );
        } else if !world.has_character(a.actor.as_str()) {
            push_error(
                &mut errs,
                quoted_error("actions.actor", "unknown actor '", a.actor.as_str()),
            );
        } else {
            let ghost start = error_views(errs@);
            if !contains_string(&plan.active_characters, a.actor.as_str()) && !crate::text::str_eq(
                a.action.as_str(),
                "flicker_lights",
            ) {
                push_error(
                    &mut errs,
                    framed_error(
                        "actions.actor",
                        "actor '",
                        a.actor.as_str(),
                        "' is not in active_characters",
                    ),
                );
            }
            let missing = match &a.text {
                Some(t) => {
                    let tv = chars_of(t.as_str());
                    let tt = trim_chars(&tv);
                    tt.len() == 0
                },
                None => true,
            };
            if crate::text::str_eq(a.action.as_str(), "speak") && missing {
                push_error(
                    &mut errs,
                    framed_error("actions.text", "speak action for '", a.actor.as_str(), "' has no text"),
                );
            }
            assert(error_views(errs@) =~= start + one_action_errors(*world, active, av));
            resolved.push(
                ResolvedAction {
                    actor_id: a.actor.clone(),
                    action: a.action.clone(),
                    target_id: copy_opt(&a.target),
                    text: copy_opt(&a.text),
                },
            );
        }
        assert(error_views(errs@) =~= before_actions + action_errors(
            *world,
            active,
            acts.take(i + 1),
        ));
        i += 1;
    }
    assert(acts.take(cmd.actions.len() as int) =~= acts);
    if !is_known_completion(cmd.completion_condition.kind.as_str()) {
        push_error(
            &mut errs,
            quoted_error(
                "completion_condition",
                "unknown completion '",
                cmd.completion_condition.kind.as_str(),
            ),
        );
    }
    assert(error_views(errs@) =~= command_errors(*world, *plan, cmd@));
    if errs.len() > 0 {
        return Err(errs);
    }
    assert(action_errors(*world, active, acts).len() == 0);
    assert(resolved.len() == cmd.actions.len());
    let rb = ResolvedBeat {
        outline: plan.beats[idx].clone(),
        command: cmd.copy(),
        resolved_actions: resolved,
        camera_intent: cmd.camera_intent.copy(),
        completion: cmd.completion_condition.copy(),
        fallback: copy_opt(&cmd.fallback),
    };
    assert(rb.outline@ == plan@.beats[idx as int]);
    assert(rb.command@ == cmd@);
    assert(forall|k: int|
        0 <= k < cmd.actions.len() ==> resolves(#[trigger] rb.resolved_actions@[k], cmd@.actions[k]));
    assert(crate::world::first_index(beat_ids(plan@.beats), cmd.beat_id@) == Some(idx as int));
    assert(command_errors(*world, *plan, cmd@).len() == 0);
    assert(rb.camera_intent@ == cmd@.camera_intent);
    assert(rb.completion@ == cmd@.completion_condition);
    assert(opt_view(rb.fallback) == cmd@.fallback);
    assert(rb.resolved_actions.len() == cmd.actions.len());
    Ok(rb)
}

proof fn lemma_action_error_fields(
    w: WorldState,
    active: Seq<Seq<char>>,
    acts: Seq<crate::protocol::ActionCommandView>,
)
    ensures
        forall|k: int|
            0 <= k < action_errors(w, active, acts).len() ==> (#[trigger] action_errors(
                w,
                active,
                acts,
            )[k]).0.len() > 0 && action_errors(w, active, acts)[k].0[0] == 'a',
    decreases acts.len(),
{
    reveal_strlit("actions");
    reveal_strlit("actions.actor");
    reveal_strlit("actions.text");
    if acts.len() > 0 {
        lemma_action_error_fields(w, active, acts.drop_last());
        let prev = action_errors(w, active, acts.drop_last());
        let one = one_action_errors(w, active, acts.last());
        assert forall|k: int| 0 <= k < one.len() implies (#[trigger] one[k]).0.len() > 0 && one[k].0[0]
            == 'a' by {}
        assert forall|k: int| 0 <= k < (prev + one).len() implies (#[trigger] (prev + one)[k]).0.len()
            > 0 && (prev + one)[k].0[0] == 'a' by {
            if k < prev.len() {
                assert((prev + one)[k] == prev[k]);
            } else {
                assert((prev + one)[k] == one[k - prev.len()]);
            }
        }
    }
}

/// A command's camera subject is reported exactly when it neither names an
/// entity nor resolves (through `resolve_entity_or_alias`) to one: a subject
/// that resolves is never rejected, and one that does not is always reported.
pub proof fn subject_reported_exactly_when_unresolvable(
    w: WorldState,
    plan: EpisodePlan,
    cmd: BeatCommandView,
)
    ensures
        (exists|k: int|
            0 <= k < command_errors(w, plan, cmd).len() && (#[trigger] command_errors(
                w,
                plan,
                cmd,
            )[k]).0 == "camera_intent.subject"@) <==> !(entity_exists_spec(
            w,
            cmd.camera_intent.subject,
        ) || (resolved_entity(w, cmd.camera_intent.subject) matches Some(n) && entity_exists_spec(
            w,
            n,
        ))),
{
    reveal_strlit("camera_intent.subject");
    reveal_strlit("camera_intent");
    reveal_strlit("completion_condition");
    let subject = cmd.camera_intent.subject;
    let a = if known_camera_intents().contains(cmd.camera_intent.kind) {
        Seq::<ErrorView>::empty()
    } else {
        seq![("camera_intent"@, quoted("unknown camera intent '"@, cmd.camera_intent.kind))]
    };
    let sb = subject_errors(w, subject);
    let acts = action_errors(w, plan@.active_characters, cmd.actions);
    let c = if known_completion_types().contains(cmd.completion_condition.kind) {
        Seq::<ErrorView>::empty()
    } else {
        seq![
            ("completion_condition"@, quoted(
                "unknown completion '"@,
                cmd.completion_condition.kind,
            )),
        ]
    };
    let all = command_errors(w, plan, cmd);
    assert(all == a + sb + acts + c);
    lemma_action_error_fields(w, plan@.active_characters, cmd.actions);
    let fine = entity_exists_spec(w, subject) || (resolved_entity(w, subject) matches Some(n)
        && entity_exists_spec(w, n));
    if fine {
        assert(sb.len() == 0);
        assert forall|k: int| 0 <= k < all.len() implies (#[trigger] all[k]).0 != "camera_intent.subject"@ by {
            assert("camera_intent.subject"@.len() == 21);
            assert("camera_intent"@.len() == 13);
            assert("completion_condition"@.len() == 20);
            if k < a.len() {
                assert(all[k] == a[k]);
            } else if k < a.len() + acts.len() {
                assert(all[k] == acts[k - a.len()]);
                assert("camera_intent.subject"@[0] == 'c');
            } else {
                assert(all[k] == c[k - a.len() - acts.len()]);
            }
        }
    } else {
        assert(sb.len() == 1);
        assert(all[a.len() as int] == sb[0]);
    }
}

} // verus!

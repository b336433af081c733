//! Authoring an episode with a language model, as a state machine.
//!
//! The caller runs the loop: it performs each action (asks the model for the
//! plan or a beat, or runs the deterministic director) and hands back what
//! came of it as an event. Every decision is made here: whether the model is
//! asked at all, whether a reply is adopted, when a failure falls back to the
//! deterministic director and when it ends the run, and how each beat is
//! labelled. A beat is labelled as written by the model exactly when the
//! model's own reply for it was adopted.
use vstd::prelude::*;

use crate::author::AuthorSource;
use crate::config::DirectorConfig;
use crate::protocol::{BeatCommand, BeatCommandView, EpisodePlan};
use crate::text::{append_chars, append_str, chars_of, string_of};
use crate::validation::{
    beat_ids, command_errors, error_views, plan_errors, validate_beat_command, validate_plan,
    ErrorView, ValidationError,
};
use crate::world::{first_index, WorldState};

verus! {

/// Where an authoring run stands.
#[derive(Debug, Clone, Copy, PartialEq, Eq, Structural)]
pub enum AuthoringStage {
    /// Nothing has been asked yet.
    Begin,
    /// The model has been asked for the plan.
    AwaitPlan,
    /// The model has been asked for the command of the next beat.
    AwaitBeat,
    /// The deterministic director has been asked for the next beat.
    AwaitFallbackBeat,
    /// The episode is complete.
    Done,
    /// The run failed.
    Failed,
}

/// The state of an authoring run: the adopted model plan, the next beat to
/// author, and each authored beat's id, command and source, in plan order.
#[derive(Debug)]
pub struct AuthoringState {
    pub stage: AuthoringStage,
    pub plan: Option<EpisodePlan>,
    pub next_beat: usize,
    pub commands: Vec<(String, BeatCommand)>,
    pub sources: Vec<AuthorSource>,
}

/// The state of an authoring run by content.
pub struct AuthoringView {
    pub stage: AuthoringStage,
    pub plan: Option<EpisodePlan>,
    pub next_beat: int,
    pub commands: Seq<(Seq<char>, BeatCommandView)>,
    pub sources: Seq<AuthorSource>,
}

/// The authored beats by content.
pub open spec fn command_views(v: Seq<(String, BeatCommand)>) -> Seq<(Seq<char>, BeatCommandView)> {
    Seq::new(v.len(), |i: int| (v[i].0@, v[i].1@))
}

impl View for AuthoringState {
    type V = AuthoringView;

    open spec fn view(&self) -> AuthoringView {
        AuthoringView {
            stage: self.stage,
            plan: self.plan,
            next_beat: self.next_beat as int,
            commands: command_views(self.commands@),
            sources: self.sources@,
        }
    }
}

/// What came of the last action.
#[derive(Debug)]
pub enum AuthoringEvent {
    /// The run starts.
    Begin,
    /// The plan request failed, with the reason.
    PlanRequestFailed(String),
    /// The plan reply could not be read as a plan, with the reason.
    PlanUnreadable(String),
    /// The model's plan.
    PlanReply(EpisodePlan),
    /// The beat request failed, with the reason.
    BeatRequestFailed(String),
    /// The beat reply could not be read as a command, with the reason.
    BeatUnreadable(String),
    /// The model's command for the beat.
    BeatReply(BeatCommand),
    /// The deterministic director's command for the beat.
    DeterministicBeat(BeatCommand),
}

/// What the caller does next.
#[derive(Debug)]
pub enum AuthoringAction {
    /// Ask the model for the plan.
    RequestPlan,
    /// Ask the model for the command of this beat of the plan.
    RequestBeat(usize),
    /// Author the whole episode with the deterministic director, labelled
    /// deterministic: the model is not used at all.
    AuthorDeterministically,
    /// Author the whole episode with the deterministic director, labelled as
    /// a fallback: the model's plan failed.
    FallBackToDeterministic,
    /// Ask the deterministic director for the command of this beat.
    DeterministicBeat(usize),
    /// The episode is complete in the state.
    Finish,
    /// End the run with this error.
    Fail(String),
}

/// An action by content.
pub enum ActionView {
    RequestPlan,
    RequestBeat(int),
    AuthorDeterministically,
    FallBackToDeterministic,
    DeterministicBeat(int),
    Finish,
    Fail(Seq<char>),
}

impl View for AuthoringAction {
    type V = ActionView;

    open spec fn view(&self) -> ActionView {
        match self {
            AuthoringAction::RequestPlan => ActionView::RequestPlan,
            AuthoringAction::RequestBeat(i) => ActionView::RequestBeat(*i as int),
            AuthoringAction::AuthorDeterministically => ActionView::AuthorDeterministically,
            AuthoringAction::FallBackToDeterministic => ActionView::FallBackToDeterministic,
            AuthoringAction::DeterministicBeat(i) => ActionView::DeterministicBeat(*i as int),
            AuthoringAction::Finish => ActionView::Finish,
            AuthoringAction::Fail(m) => ActionView::Fail(m@),
        }
    }
}

// ---------------------------------------------------------------------------
// Specification
// ---------------------------------------------------------------------------

/// Validation problems as text: `field: message`, separated by `; `.
pub open spec fn errors_text(es: Seq<ErrorView>) -> Seq<char>
    decreases es.len(),
{
    if es.len() == 0 {
        seq![]
    } else if es.len() == 1 {
        es[0].0 + ": "@ + es[0].1
    } else {
        errors_text(es.drop_last()) + "; "@ + es.last().0 + ": "@ + es.last().1
    }
}

/// The problems of a beat command: a beat id not in the plan, or the
/// command's own problems.
pub open spec fn beat_command_problems(w: WorldState, plan: EpisodePlan, cmd: BeatCommandView) -> Seq<
    ErrorView,
> {
    match first_index(beat_ids(plan@.beats), cmd.beat_id) {
        None => seq![("beat_id"@, "beat '"@ + cmd.beat_id + "' not in plan"@)],
        Some(_) => command_errors(w, plan, cmd),
    }
}

/// The run with the given stage.
pub open spec fn at_stage(s: AuthoringView, stage: AuthoringStage) -> AuthoringView {
    AuthoringView {
        stage,
        plan: s.plan,
        next_beat: s.next_beat,
        commands: s.commands,
        sources: s.sources,
    }
}

/// The run fails with `msg`.
pub open spec fn failing(s: AuthoringView, msg: Seq<char>) -> (AuthoringView, ActionView) {
    (at_stage(s, AuthoringStage::Failed), ActionView::Fail(msg))
}

/// An event that does not fit the stage ends the run.
pub open spec fn out_of_order(s: AuthoringView) -> (AuthoringView, ActionView) {
    failing(s, "authoring event out of order"@)
}

/// A plan that could not be had: an error when the model is required, else
/// the whole episode from the deterministic director as a fallback.
pub open spec fn plan_fault(cfg: DirectorConfig, s: AuthoringView, why: Seq<char>) -> (
    AuthoringView,
    ActionView,
) {
    if cfg.require_llm {
        failing(s, "require_llm: plan "@ + why)
    } else {
        (at_stage(s, AuthoringStage::Done), ActionView::FallBackToDeterministic)
    }
}

/// The next beat of the adopted plan exists.
pub open spec fn beat_ready(s: AuthoringView) -> bool {
    s.plan is Some && 0 <= s.next_beat < s.plan->0@.beats.len()
}

/// The id of the next beat of the adopted plan.
pub open spec fn next_beat_id(s: AuthoringView) -> Seq<char> {
    s.plan->0@.beats[s.next_beat].id
}

/// A beat the model did not deliver: an error when the model is required,
/// else the deterministic director is asked for it.
pub open spec fn beat_fault(cfg: DirectorConfig, s: AuthoringView, why: Seq<char>) -> (
    AuthoringView,
    ActionView,
) {
    if cfg.require_llm {
        failing(s, "require_llm: beat "@ + next_beat_id(s) + " "@ + why)
    } else {
        (at_stage(s, AuthoringStage::AwaitFallbackBeat), ActionView::DeterministicBeat(s.next_beat))
    }
}

/// The next beat is authored with `cmd`, labelled `source`; then the
/// following beat is asked for, or the episode is complete.
pub open spec fn adopt(s: AuthoringView, cmd: BeatCommandView, source: AuthorSource) -> (
    AuthoringView,
    ActionView,
) {
    let n = s.next_beat + 1;
    let done = n >= s.plan->0@.beats.len();
    (
        AuthoringView {
            stage: if done {
                AuthoringStage::Done
            } else {
                AuthoringStage::AwaitBeat
            },
            plan: s.plan,
            next_beat: n,
            commands: s.commands.push((next_beat_id(s), cmd)),
            sources: s.sources.push(source),
        },
        if done {
            ActionView::Finish
        } else {
            ActionView::RequestBeat(n)
        },
    )
}

/// One step of an authoring run.
pub open spec fn authoring_step_spec(
    cfg: DirectorConfig,
    w: WorldState,
    s: AuthoringView,
    e: AuthoringEvent,
) -> (AuthoringView, ActionView) {
    match s.stage {
        AuthoringStage::Begin => match e {
            AuthoringEvent::Begin => if cfg.force_fallback {
                (at_stage(s, AuthoringStage::Done), ActionView::AuthorDeterministically)
            } else {
                (at_stage(s, AuthoringStage::AwaitPlan), ActionView::RequestPlan)
            },
            _ => out_of_order(s),
        },
        AuthoringStage::AwaitPlan => match e {
            AuthoringEvent::PlanRequestFailed(m) => plan_fault(cfg, s, "request failed: "@ + m@),
            AuthoringEvent::PlanUnreadable(m) => plan_fault(cfg, s, "parse failed: "@ + m@),
            AuthoringEvent::PlanReply(p) => if plan_errors(w, p).len() > 0 {
                plan_fault(cfg, s, "failed validation: "@ + errors_text(plan_errors(w, p)))
            } else {
                (
                    AuthoringView {
                        stage: AuthoringStage::AwaitBeat,
                        plan: Some(p),
                        next_beat: 0,
                        commands: seq![],
                        sources: seq![],
                    },
                    ActionView::RequestBeat(0),
                )
            },
            _ => out_of_order(s),
        },
        AuthoringStage::AwaitBeat => if !beat_ready(s) {
            out_of_order(s)
        } else {
            match e {
                AuthoringEvent::BeatRequestFailed(m) => beat_fault(
                    cfg,
                    s,
                    "request failed: "@ + m@,
                ),
                AuthoringEvent::BeatUnreadable(m) => beat_fault(cfg, s, "parse failed: "@ + m@),
                AuthoringEvent::BeatReply(c) => {
                    let problems = beat_command_problems(w, s.plan->0, c@);
                    if problems.len() > 0 {
                        beat_fault(cfg, s, "invalid: "@ + errors_text(problems))
                    } else {
                        adopt(s, c@, AuthorSource::Llm)
                    }
                },
                _ => out_of_order(s),
            }
        },
        AuthoringStage::AwaitFallbackBeat => if !beat_ready(s) {
            out_of_order(s)
        } else {
            match e {
                AuthoringEvent::DeterministicBeat(c) => adopt(
                    s,
                    c@,
                    AuthorSource::DeterministicFallback,
                ),
                _ => out_of_order(s),
            }
        },
        _ => out_of_order(s),
    }
}

// ---------------------------------------------------------------------------
// Laws
// ---------------------------------------------------------------------------

/// The event reports a failure of the model: its request failed, its reply
/// could not be read, or its reply was invalid.
pub open spec fn model_fault(w: WorldState, s: AuthoringView, e: AuthoringEvent) -> bool {
    match s.stage {
        AuthoringStage::AwaitPlan => match e {
            AuthoringEvent::PlanRequestFailed(_) => true,
            AuthoringEvent::PlanUnreadable(_) => true,
            AuthoringEvent::PlanReply(p) => plan_errors(w, p).len() > 0,
            _ => false,
        },
        AuthoringStage::AwaitBeat => beat_ready(s) && match e {
            AuthoringEvent::BeatRequestFailed(_) => true,
            AuthoringEvent::BeatUnreadable(_) => true,
            AuthoringEvent::BeatReply(c) => beat_command_problems(w, s.plan->0, c@).len() > 0,
            _ => false,
        },
        _ => false,
    }
}

/// The model's reply for the next beat is valid, so it is adopted.
pub open spec fn adopted_reply(w: WorldState, s: AuthoringView, e: AuthoringEvent) -> bool {
    s.stage == AuthoringStage::AwaitBeat && match e {
        AuthoringEvent::BeatReply(c) => beat_command_problems(w, s.plan->0, c@).len() == 0,
        _ => false,
    }
}

/// The command an event carries, if any.
pub open spec fn event_command(e: AuthoringEvent) -> Option<BeatCommandView> {
    match e {
        AuthoringEvent::BeatReply(c) => Some(c@),
        AuthoringEvent::DeterministicBeat(c) => Some(c@),
        _ => None,
    }
}

/// With the model switched off, a run asks the model nothing: its first step
/// authors the whole episode deterministically (every beat labelled
/// deterministic) and the run is complete.
pub proof fn forced_fallback_asks_nothing(
    cfg: DirectorConfig,
    w: WorldState,
    s: AuthoringView,
    e: AuthoringEvent,
)
    requires
        cfg.force_fallback,
        s.stage == AuthoringStage::Begin,
        e is Begin,
    ensures
        authoring_step_spec(cfg, w, s, e).1 == ActionView::AuthorDeterministically,
        authoring_step_spec(cfg, w, s, e).0.stage == AuthoringStage::Done,
{
}

/// When the model is required, every failure of the model (a failed request,
/// an unreadable reply, an invalid plan or beat) ends the run with an error.
pub proof fn required_model_fails_on_any_fault(
    cfg: DirectorConfig,
    w: WorldState,
    s: AuthoringView,
    e: AuthoringEvent,
)
    requires
        cfg.require_llm,
        model_fault(w, s, e),
    ensures
        authoring_step_spec(cfg, w, s, e).0.stage == AuthoringStage::Failed,
        authoring_step_spec(cfg, w, s, e).1 is Fail,
{
}

/// When the model is not required, a failed plan gives the whole episode from
/// the deterministic director as a fallback, and a failed beat asks the
/// deterministic director for that beat, keeping the beats authored so far.
pub proof fn unrequired_model_falls_back(
    cfg: DirectorConfig,
    w: WorldState,
    s: AuthoringView,
    e: AuthoringEvent,
)
    requires
        !cfg.require_llm,
        model_fault(w, s, e),
    ensures
        s.stage == AuthoringStage::AwaitPlan ==> authoring_step_spec(cfg, w, s, e).1
            == ActionView::FallBackToDeterministic,
        s.stage == AuthoringStage::AwaitBeat ==> {
            let r = authoring_step_spec(cfg, w, s, e);
            &&& r.1 == ActionView::DeterministicBeat(s.next_beat)
            &&& r.0.stage == AuthoringStage::AwaitFallbackBeat
            &&& r.0.commands == s.commands
            &&& r.0.sources == s.sources
        },
{
}

/// Labels are truthful: a step labels at most one beat; it labels it as
/// written by the model exactly when the model's reply for it was adopted,
/// and then the beat's command is that reply; every other label is a
/// deterministic fallback carrying the deterministic director's command.
pub proof fn labels_are_truthful(cfg: DirectorConfig, w: WorldState, s: AuthoringView, e: AuthoringEvent)
    requires
        s.stage != AuthoringStage::AwaitPlan,
    ensures
        ({
            let r = authoring_step_spec(cfg, w, s, e).0;
            ||| (r.sources == s.sources && r.commands == s.commands)
            ||| {
                &&& r.sources.len() == s.sources.len() + 1
                &&& r.sources.drop_last() == s.sources
                &&& r.commands.len() == s.commands.len() + 1
                &&& r.commands.drop_last() == s.commands
                &&& r.commands.last().0 == next_beat_id(s)
                &&& (r.sources.last() == AuthorSource::Llm <==> adopted_reply(w, s, e))
                &&& (r.sources.last() == AuthorSource::Llm ==> e is BeatReply && event_command(e)
                    == Some(r.commands.last().1))
                &&& (r.sources.last() != AuthorSource::Llm ==> r.sources.last()
                    == AuthorSource::DeterministicFallback && e is DeterministicBeat && event_command(
                    e,
                ) == Some(r.commands.last().1))
            }
        }),
{
    let r = authoring_step_spec(cfg, w, s, e).0;
    if r.sources != s.sources || r.commands != s.commands {
        assert(r.sources.drop_last() =~= s.sources);
        assert(r.commands.drop_last() =~= s.commands);
    }
}

// ---------------------------------------------------------------------------
// Implementation
// ---------------------------------------------------------------------------

fn text(s: &str) -> (r: String)
    ensures
        r@ == s@,
{
    string_of(&chars_of(s))
}

/// Validation problems as text.
fn errors_text_of(errs: &Vec<ValidationError>) -> (r: Vec<char>)
    ensures
        r@ == errors_text(error_views(errs@)),
{
    let ghost es = error_views(errs@);
    let mut out: Vec<char> = Vec::new();
    let mut i: usize = 0;
    assert(es.take(0) =~= Seq::<ErrorView>::empty());
    while i < errs.len()
        invariant
            i <= errs.len(),
            es == error_views(errs@),
            out@ == errors_text(es.take(i as int)),
        decreases errs.len() - i,
    {
        let ghost before = out@;
        assert(es.take(i + 1).drop_last() =~= es.take(i as int));
        assert(es.take(i + 1).last() == es[i as int]);
        if i > 0 {
            append_str(&mut out, "; ");
        }
        append_str(&mut out, errs[i].field.as_str());
        append_str(&mut out, ": ");
        append_str(&mut out, errs[i].message.as_str());
        if i == 0 {
            assert(es.take(1)[0] == es[0]);
            assert(out@ =~= errors_text(es.take(1)));
        } else {
            assert(out@ =~= errors_text(es.take(i + 1)));
        }
        i += 1;
    }
    assert(es.take(i as int) =~= es);
    out
}

/// The run failing with `msg`.
fn fail_run(
    plan: Option<EpisodePlan>,
    next_beat: usize,
    commands: Vec<(String, BeatCommand)>,
    sources: Vec<AuthorSource>,
    msg: Vec<char>,
) -> (r: (AuthoringState, AuthoringAction))
    ensures
        r.0@ == at_stage(
            AuthoringView {
                stage: AuthoringStage::Failed,
                plan,
                next_beat: next_beat as int,
                commands: command_views(commands@),
                sources: sources@,
            },
            AuthoringStage::Failed,
        ),
        r.1@ == ActionView::Fail(msg@),
{
    (
        AuthoringState { stage: AuthoringStage::Failed, plan, next_beat, commands, sources },
        AuthoringAction::Fail(string_of(&msg)),
    )
}

/// One step of an authoring run: the state after `event`, and what the caller
/// does next.
/// - At the start, with the model switched off (`force_fallback`), the whole
///   episode is authored deterministically and the model is never asked;
///   otherwise the plan is requested.
/// - A plan that fails (request, reading or validation) ends the run with an
///   error when the model is required (`require_llm`), else the whole episode
///   comes from the deterministic director, labelled as a fallback. A valid
///   plan is adopted and its first beat requested.
/// - A beat that fails ends the run with an error when the model is required,
///   else the deterministic director is asked for it and it is labelled as a
///   fallback. A valid reply is adopted and labelled as the model's.
/// - When the last beat is authored the episode is complete; an event that
///   does not fit the stage ends the run.
pub fn authoring_step(
    cfg: &DirectorConfig,
    world: &WorldState,
    state: AuthoringState,
    event: AuthoringEvent,
) -> (r: (AuthoringState, AuthoringAction))
    ensures
        (r.0@, r.1@) == authoring_step_spec(*cfg, *world, state@, event),
{
    let ghost s = state@;
    let AuthoringState { stage, plan, next_beat, mut commands, mut sources } = state;
    match stage {
        AuthoringStage::Begin => {
            match event {
                AuthoringEvent::Begin => {
                    let next_stage = if cfg.force_fallback {
                        AuthoringStage::Done
                    } else {
                        AuthoringStage::AwaitPlan
                    };
                    let action = if cfg.force_fallback {
                        AuthoringAction::AuthorDeterministically
                    } else {
                        AuthoringAction::RequestPlan
                    };
                    (AuthoringState { stage: next_stage, plan, next_beat, commands, sources }, action)
                },
                _ => fail_run(plan, next_beat, commands, sources, chars_of("authoring event out of order")),
            }
        },
        AuthoringStage::AwaitPlan => {
            let why: Vec<char> = match event {
                AuthoringEvent::PlanRequestFailed(m) => {
                    let mut w = chars_of("request failed: ");
                    append_str(&mut w, m.as_str());
                    w
                },
                AuthoringEvent::PlanUnreadable(m) => {
                    let mut w = chars_of("parse failed: ");
                    append_str(&mut w, m.as_str());
                    w
                },
                AuthoringEvent::PlanReply(p) => {
                    match validate_plan(world, &p) {
                        Ok(_) => {
                            let commands: Vec<(String, BeatCommand)> = Vec::new();
                            let sources: Vec<AuthorSource> = Vec::new();
                            assert(command_views(commands@) =~= Seq::<
                                (Seq<char>, BeatCommandView),
                            >::empty());
                            return (
                                AuthoringState {
                                    stage: AuthoringStage::AwaitBeat,
                                    plan: Some(p),
                                    next_beat: 0,
                                    commands,
                                    sources,
                                },
                                AuthoringAction::RequestBeat(0),
                            );
                        },
                        Err(errs) => {
                            let mut w = chars_of("failed validation: ");
                            let t = errors_text_of(&errs);
                            append_chars(&mut w, &t);
                            w
                        },
                    }
                },
                _ => {
                    return fail_run(
                        plan,
                        next_beat,
                        commands,
                        sources,
                        chars_of("authoring event out of order"),
                    );
                },
            };
            if cfg.require_llm {
                let mut msg = chars_of("require_llm: plan ");
                append_chars(&mut msg, &why);
                fail_run(plan, next_beat, commands, sources, msg)
            } else {
                (
                    AuthoringState { stage: AuthoringStage::Done, plan, next_beat, commands, sources },
                    AuthoringAction::FallBackToDeterministic,
                )
            }
        },
        AuthoringStage::AwaitBeat | AuthoringStage::AwaitFallbackBeat => {
            let ready = match &plan {
                Some(p) => next_beat < p.beats.len(),
                None => false,
            };
            if !ready {
                return fail_run(
                    plan,
                    next_beat,
                    commands,
                    sources,
                    chars_of("authoring event out of order"),
                );
            }
            let (id, beat_count) = match &plan {
                Some(p) => (text(p.beats[next_beat].id.as_str()), p.beats.len()),
                None => {
                    return fail_run(
                        plan,
                        next_beat,
                        commands,
                        sources,
                        chars_of("authoring event out of order"),
                    );
                },
            };
            assert(id@ == next_beat_id(s));
            let ghost old_commands = command_views(commands@);
            let ghost old_sources = sources@;
            let adopted: Option<(BeatCommand, AuthorSource)>;
            let mut why: Vec<char> = Vec::new();
            if stage == AuthoringStage::AwaitBeat {
                match event {
                    AuthoringEvent::BeatRequestFailed(m) => {
                        why = chars_of("request failed: ");
                        append_str(&mut why, m.as_str());
                        adopted = None;
                    },
                    AuthoringEvent::BeatUnreadable(m) => {
                        why = chars_of("parse failed: ");
                        append_str(&mut why, m.as_str());
                        adopted = None;
                    },
                    AuthoringEvent::BeatReply(c) => {
                        let check = match &plan {
                            Some(p) => validate_beat_command(world, p, &c),
                            None => {
                                return fail_run(
                                    plan,
                                    next_beat,
                                    commands,
                                    sources,
                                    chars_of("authoring event out of order"),
                                );
                            },
                        };
                        match check {
                            Ok(_) => {
                                adopted = Some((c, AuthorSource::Llm));
                            },
                            Err(errs) => {
                                why = chars_of("invalid: ");
                                let t = errors_text_of(&errs);
                                append_chars(&mut why, &t);
                                adopted = None;
                            },
                        }
                    },
                    _ => {
                        return fail_run(
                            plan,
                            next_beat,
                            commands,
                            sources,
                            chars_of("authoring event out of order"),
                        );
                    },
                }
            } else {
                match event {
                    AuthoringEvent::DeterministicBeat(c) => {
                        adopted = Some((c, AuthorSource::DeterministicFallback));
                    },
                    _ => {
                        return fail_run(
                            plan,
                            next_beat,
                            commands,
                            sources,
                            chars_of("authoring event out of order"),
                        );
                    },
                }
            }
            match adopted {
                Some((c, source)) => {
                    let ghost cv = c@;
                    commands.push((id, c));
                    sources.push(source);
                    assert(command_views(commands@) =~= old_commands.push((next_beat_id(s), cv)));
                    let n = next_beat + 1;
                    if n >= beat_count {
                        (
                            AuthoringState {
                                stage: AuthoringStage::Done,
                                plan,
                                next_beat: n,
                                commands,
                                sources,
                            },
                            AuthoringAction::Finish,
                        )
                    } else {
                        (
                            AuthoringState {
                                stage: AuthoringStage::AwaitBeat,
                                plan,
                                next_beat: n,
                                commands,
                                sources,
                            },
                            AuthoringAction::RequestBeat(n),
                        )
                    }
                },
                None => {
                    if cfg.require_llm {
                        let mut msg = chars_of("require_llm: beat ");
                        append_chars(&mut msg, &chars_of(id.as_str()));
                        append_str(&mut msg, " ");
                        append_chars(&mut msg, &why);
                        fail_run(plan, next_beat, commands, sources, msg)
                    } else {
                        (
                            AuthoringState {
                                stage: AuthoringStage::AwaitFallbackBeat,
                                plan,
                                next_beat,
                                commands,
                                sources,
                            },
                            AuthoringAction::DeterministicBeat(next_beat),
                        )
                    }
                },
            }
        },
        _ => fail_run(plan, next_beat, commands, sources, chars_of("authoring event out of order")),
    }
}

} // verus!

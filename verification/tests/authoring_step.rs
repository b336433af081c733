use backlot::author::{AuthorSource, BeatAuthorship, DeterministicAuthor, EpisodeAuthor, PlanAuthorship, PlannedEpisode};
use backlot::authoring::{authoring_step, AuthoringAction, AuthoringEvent, AuthoringStage, AuthoringState};
use backlot::config::DirectorConfig;
use backlot::default_world::build_default_world;
use backlot::director::DirectorContext;
use backlot::world::WorldState;

fn cfg(force_fallback: bool, require_llm: bool) -> DirectorConfig {
    DirectorConfig { allow_fallback_director: true, force_fallback, require_llm, max_repairs: 2 }
}

fn fresh() -> AuthoringState {
    AuthoringState { stage: AuthoringStage::Begin, plan: None, next_beat: 0, commands: vec![], sources: vec![] }
}

fn episode() -> PlannedEpisode {
    let ctx = DirectorContext {
        world: build_default_world(),
        episode_number: 1,
        seed: 7,
        recent_summaries: vec![],
        tone: vec![],
    };
    DeterministicAuthor.author(&ctx).unwrap().0
}

fn step(c: &DirectorConfig, w: &WorldState, s: AuthoringState, e: AuthoringEvent) -> (AuthoringState, AuthoringAction) {
    authoring_step(c, w, s, e)
}

#[test]
fn forced_fallback_never_asks_the_model() {
    let w = build_default_world();
    let (s, a) = step(&cfg(true, true), &w, fresh(), AuthoringEvent::Begin);
    assert!(matches!(a, AuthoringAction::AuthorDeterministically));
    assert_eq!(s.stage, AuthoringStage::Done);
}

#[test]
fn a_failed_plan_falls_back_or_fails_when_required() {
    let w = build_default_world();
    let (s, a) = step(&cfg(false, false), &w, fresh(), AuthoringEvent::Begin);
    assert!(matches!(a, AuthoringAction::RequestPlan));
    let (s, a) = step(&cfg(false, false), &w, s, AuthoringEvent::PlanRequestFailed("timeout".into()));
    assert!(matches!(a, AuthoringAction::FallBackToDeterministic));
    assert_eq!(s.stage, AuthoringStage::Done);

    let (s, _) = step(&cfg(false, true), &w, fresh(), AuthoringEvent::Begin);
    let (s, a) = step(&cfg(false, true), &w, s, AuthoringEvent::PlanUnreadable("expected value".into()));
    match a {
        AuthoringAction::Fail(m) => assert_eq!(m, "require_llm: plan parse failed: expected value"),
        other => panic!("unexpected {other:?}"),
    }
    assert_eq!(s.stage, AuthoringStage::Failed);

    let mut bad = episode().plan;
    bad.active_characters.clear();
    let (s, _) = step(&cfg(false, true), &w, fresh(), AuthoringEvent::Begin);
    let (_, a) = step(&cfg(false, true), &w, s, AuthoringEvent::PlanReply(bad));
    match a {
        AuthoringAction::Fail(m) => assert_eq!(m, "require_llm: plan failed validation: active_characters: no active characters"),
        other => panic!("unexpected {other:?}"),
    }
}

#[test]
fn beats_are_adopted_or_fall_back_and_are_labelled_truthfully() {
    let w = build_default_world();
    let c = cfg(false, false);
    let ep = episode();
    let n = ep.plan.beats.len();
    assert!(n >= 3);
    let mut replies: Vec<_> = ep.commands.into_iter().map(|(_, cmd)| cmd).collect();
    let (s, _) = step(&c, &w, fresh(), AuthoringEvent::Begin);
    let (mut s, a) = step(&c, &w, s, AuthoringEvent::PlanReply(episode().plan));
    assert!(matches!(a, AuthoringAction::RequestBeat(0)));
    let mut expected = vec![];
    for i in 0..n {
        let cmd = replies.remove(0);
        if i == 1 {
            let (s2, a) = step(&c, &w, s, AuthoringEvent::BeatUnreadable("eof".into()));
            assert!(matches!(a, AuthoringAction::DeterministicBeat(1)));
            assert_eq!(s2.stage, AuthoringStage::AwaitFallbackBeat);
            let (s3, _) = step(&c, &w, s2, AuthoringEvent::DeterministicBeat(cmd));
            s = s3;
            expected.push(AuthorSource::DeterministicFallback);
        } else if i == 2 {
            let mut wrong = cmd.copy();
            wrong.actions[0].action = "teleport".into();
            let (s2, a) = step(&c, &w, s, AuthoringEvent::BeatReply(wrong));
            assert!(matches!(a, AuthoringAction::DeterministicBeat(2)));
            let (s3, _) = step(&c, &w, s2, AuthoringEvent::DeterministicBeat(cmd));
            s = s3;
            expected.push(AuthorSource::DeterministicFallback);
        } else {
            let (s2, a) = step(&c, &w, s, AuthoringEvent::BeatReply(cmd));
            if i + 1 == n {
                assert!(matches!(a, AuthoringAction::Finish));
            } else {
                assert!(matches!(a, AuthoringAction::RequestBeat(k) if k == i + 1));
            }
            s = s2;
            expected.push(AuthorSource::Llm);
        }
    }
    assert_eq!(s.stage, AuthoringStage::Done);
    assert_eq!(s.sources, expected);
    let plan = s.plan.as_ref().unwrap();
    for (i, (id, _)) in s.commands.iter().enumerate() {
        assert_eq!(id, &plan.beats[i].id);
    }
}

#[test]
fn a_required_model_fails_on_an_invalid_beat() {
    let w = build_default_world();
    let c = cfg(false, true);
    let ep = episode();
    let id = ep.plan.beats[0].id.clone();
    let mut wrong = ep.commands[0].1.copy();
    wrong.actions[0].action = "teleport".into();
    let (s, _) = step(&c, &w, fresh(), AuthoringEvent::Begin);
    let (s, _) = step(&c, &w, s, AuthoringEvent::PlanReply(ep.plan));
    let (s, a) = step(&c, &w, s, AuthoringEvent::BeatReply(wrong));
    match a {
        AuthoringAction::Fail(m) => assert_eq!(m, format!("require_llm: beat {id} invalid: actions: unknown action 'teleport'")),
        other => panic!("unexpected {other:?}"),
    }
    assert_eq!(s.stage, AuthoringStage::Failed);
    let (_, a) = step(&c, &w, fresh(), AuthoringEvent::BeatRequestFailed("x".into()));
    match a {
        AuthoringAction::Fail(m) => assert_eq!(m, "authoring event out of order"),
        other => panic!("unexpected {other:?}"),
    }
}

fn beat_auth(id: &str, source: AuthorSource, attempts: u32) -> BeatAuthorship {
    BeatAuthorship {
        beat_id: id.to_string(),
        source,
        model: "m".to_string(),
        attempts,
        repair_used: false,
        validation_status: "ok".to_string(),
    }
}

#[test]
fn authorship_summary_counts_model_use_fallbacks_and_requests() {
    let mut auth = PlanAuthorship {
        plan_source: AuthorSource::Deterministic,
        model: "m".to_string(),
        attempts: 1,
        repair_used: false,
        validation_status: "ok".to_string(),
        beats: vec![
            beat_auth("b1", AuthorSource::DeterministicFallback, 2),
            beat_auth("b2", AuthorSource::Deterministic, 1),
        ],
    };
    assert!(!auth.llm_used());
    assert_eq!(auth.fallback_beats(), 1);
    assert_eq!(auth.requests(), 4);
    auth.beats.push(beat_auth("b3", AuthorSource::Llm, 3));
    assert!(auth.llm_used());
    assert!(!auth.all_llm());
    assert_eq!(auth.requests(), 7);
    auth.beats.clear();
    auth.plan_source = AuthorSource::Llm;
    assert!(auth.llm_used());
    assert!(auth.all_llm());
    assert_eq!(auth.fallback_beats(), 0);
    assert_eq!(auth.requests(), 1);
}

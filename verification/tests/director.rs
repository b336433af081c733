use backlot::default_world::build_default_world;
use backlot::director::{beat_source, episode_source, DeterministicDirector, Director, DirectorContext};
use backlot::validation::validate_beat_command;

#[test]
fn deterministic_episode_is_valid_and_executable() {
    let world = build_default_world();
    let dir = DeterministicDirector;
    let ctx = DirectorContext {
        world: build_default_world(),
        episode_number: 1,
        seed: 0xC0FFEE,
        recent_summaries: vec![],
        tone: vec!["surreal".into()],
    };

    let plan = dir.plan_episode(&ctx).expect("plan");
    assert!(!plan.beats.is_empty(), "plan must have beats");
    assert!(!plan.payoff.trim().is_empty(), "payoff required");

    // Every active character must exist, and the primary location too.
    for c in &plan.active_characters {
        assert!(world.character(c).is_some(), "unknown active char {c}");
    }
    assert!(world.location(&plan.primary_location).is_some());

    for beat in &plan.beats {
        let cmd = dir.plan_beat(&ctx, &plan, beat).unwrap();
        let resolved = validate_beat_command(&world, &plan, &cmd)
            .unwrap_or_else(|e| panic!("validate beat {} failed: {e:?}", beat.id));
        // At least the hook beat must contain a spoken line (objective clarity).
        let has_speak = resolved
            .resolved_actions
            .iter()
            .any(|a| a.action == "speak" && a.text.is_some());
        if beat.beat_type == "hook" {
            assert!(has_speak, "hook should establish spoken objective");
        }
    }
}

#[test]
fn deterministic_episode_is_reproducible() {
    let dir = DeterministicDirector;
    let ctx = || DirectorContext {
        world: build_default_world(),
        episode_number: 7,
        seed: 0xABCD,
        recent_summaries: vec![],
        tone: vec![],
    };
    let a = dir.plan_episode(&ctx()).unwrap();
    let b = dir.plan_episode(&ctx()).unwrap();
    assert_eq!(a.episode_title, b.episode_title);
    assert_eq!(a.beats.len(), b.beats.len());
}

#[test]
fn every_scenario_has_five_beats_and_a_payoff() {
    let dir = DeterministicDirector;
    let titles = [
        "The Elevator Inspection",
        "Code Violation Number Four",
        "The Tenant Who Does Not Leave",
    ];
    for draw in 0..3u64 {
        let plan = dir.plan_for_draw(draw);
        assert_eq!(plan.episode_title, titles[draw as usize]);
        let types: Vec<&str> = plan.beats.iter().map(|b| b.beat_type.as_str()).collect();
        assert_eq!(types, vec!["hook", "complication", "escalation", "reveal", "payoff"]);
        assert_eq!(plan.persistent_changes.len(), 1);
        assert_eq!(plan.primary_location, "floor_3_hallway");
    }
    assert_eq!(dir.plan_for_draw(4).episode_title, titles[1]);
}

#[test]
fn episode_draws_come_from_the_context_seed() {
    let ctx = DirectorContext {
        world: build_default_world(),
        episode_number: 3,
        seed: 77,
        recent_summaries: vec![],
        tone: vec![],
    };
    let mut a = episode_source(&ctx);
    let mut b = episode_source(&ctx);
    assert_eq!(a.seed, 77);
    assert_eq!(a.next_u64(), b.next_u64());
    let beat = beat_source(&ctx, "b1");
    assert_eq!(beat.seed, beat_source(&ctx, "b1").seed);
    assert_ne!(beat.seed, beat_source(&ctx, "b2").seed);
    let dir = DeterministicDirector;
    assert_eq!(dir.plan_episode(&ctx).unwrap().episode_title, dir.plan_episode(&ctx).unwrap().episode_title);
}

#[test]
fn deterministic_director_serves_as_a_director() {
    let ctx = DirectorContext {
        world: build_default_world(),
        episode_number: 2,
        seed: 5,
        recent_summaries: vec![],
        tone: vec![],
    };
    let dir: &dyn Director = &DeterministicDirector;
    assert_eq!(dir.name(), "deterministic");
    let plan = dir.plan_episode(&ctx).unwrap();
    assert_eq!(plan.episode_title, DeterministicDirector.episode_plan(&ctx).episode_title);
    let cmd = dir.plan_beat(&ctx, &plan, &plan.beats[0]).unwrap();
    assert_eq!(cmd.beat_id, plan.beats[0].id);
}

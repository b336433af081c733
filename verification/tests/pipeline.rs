use backlot::author::{DeterministicAuthor, EpisodeAuthor, PlannedEpisode};
use backlot::default_world::build_default_world;
use backlot::director::DirectorContext;
use backlot::validation::{validate_beat_command, validate_plan};

fn author_episode(seed: u64, episode_number: u64) -> PlannedEpisode {
    let world = build_default_world();
    let ctx = DirectorContext {
        world,
        episode_number,
        seed,
        recent_summaries: vec![],
        tone: vec!["surreal".into(), "comedy".into()],
    };
    let (planned, _auth) = DeterministicAuthor.author(&ctx).unwrap();
    planned
}

#[test]
fn deterministic_plan_is_valid_and_executable() {
    let world = build_default_world();
    let planned = author_episode(0xC0FFEE, 1);

    assert!(!planned.plan.beats.is_empty(), "episode must have beats");
    assert!(!planned.plan.active_characters.is_empty(), "episode must name active characters");

    let vplan = validate_plan(&world, &planned.plan).expect("plan validates");
    assert_eq!(vplan.resolved_beats.len(), planned.plan.beats.len());

    // Every beat command must resolve against the world.
    for beat in &planned.plan.beats {
        let cmd = planned
            .commands
            .iter()
            .find(|(id, _)| *id == beat.id)
            .map(|(_, cmd)| cmd)
            .unwrap_or_else(|| panic!("missing command for beat {}", beat.id));
        let rb = validate_beat_command(&world, &planned.plan, cmd)
            .unwrap_or_else(|e| panic!("beat {} failed resolution: {:?}", beat.id, e));
        assert!(!rb.resolved_actions.is_empty(), "beat {} must resolve to at least one action", beat.id);
    }
}

#[test]
fn same_seed_is_reproducible() {
    let a = author_episode(0xC0FFEE, 3);
    let b = author_episode(0xC0FFEE, 3);
    assert_eq!(
        format!("{:?}", a.plan),
        format!("{:?}", b.plan),
        "same seed + episode number must be deterministic"
    );
}

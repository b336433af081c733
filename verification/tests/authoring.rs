use backlot::authored::{
    action_target, adapt_authored_beat, canonical_beat_ids, required_entities, AuthoredAction,
    AuthoredBeat, AuthoredCompletion,
};
use backlot::briefing::WorldDigest;
use backlot::default_world::build_default_world;
use backlot::protocol::AuthoredCameraIntent;
use std::collections::HashSet;

fn ids(v: &[&str]) -> Vec<String> {
    v.iter().map(|s| s.to_string()).collect()
}

#[test]
fn canonical_ids_are_trimmed_unique_and_non_empty() {
    let got = canonical_beat_ids(&ids(&[" hook ", "", "hook", "beat_3", "beat_3"]));
    assert_eq!(got, vec!["hook", "beat_2", "beat_3", "beat_4", "beat_5"]);
    let got = canonical_beat_ids(&ids(&["beat_2", "", "x"]));
    assert_eq!(got, vec!["beat_2", "beat_3", "x"]);
    let got = canonical_beat_ids(&ids(&["beat_2", "beat_2", "beat_3", ""]));
    assert_eq!(got, vec!["beat_2", "beat_3", "beat_4", "beat_5"]);
    let set: HashSet<&String> = got.iter().collect();
    assert_eq!(set.len(), got.len());
    assert!(canonical_beat_ids(&vec![]).is_empty());
}

#[test]
fn action_targets_resolve_or_drop() {
    let w = build_default_world();
    assert_eq!(action_target(&w, &Some("elevator".into())).as_deref(), Some("elevator"));
    assert_eq!(action_target(&w, &Some("Elevator Interior".into())).as_deref(), Some("elevator"));
    assert_eq!(action_target(&w, &Some("elevator_interior".into())).as_deref(), Some("elevator"));
    assert_eq!(action_target(&w, &Some("   ".into())), None);
    assert_eq!(action_target(&w, &None), None);
    assert_eq!(action_target(&w, &Some("ring_alarm".into())), None);
}

#[test]
fn required_entities_are_sorted_and_distinct() {
    let w = build_default_world();
    let targets = vec![
        Some("voss".to_string()),
        Some("elevator_interior".to_string()),
        None,
        Some("floating_umbrella".to_string()),
        Some("elevator".to_string()),
    ];
    assert_eq!(required_entities(&w, &targets, "mara"), vec!["elevator", "mara", "voss"]);
    // an unresolvable subject brings in the first character
    assert_eq!(required_entities(&w, &vec![], "nobody"), vec!["mara"]);
}

#[test]
fn authored_beats_keep_the_models_words() {
    let w = build_default_world();
    let beat = AuthoredBeat {
        id: "b1".into(),
        narrative_purpose: "Mara stalls the inspector".into(),
        actions: vec![
            AuthoredAction {
                actor: "mara".into(),
                action: "speak".into(),
                target: None,
                text: Some("Nothing to see.".into()),
            },
            AuthoredAction {
                actor: "voss".into(),
                action: "inspect".into(),
                target: Some("indicator".into()),
                text: None,
            },
        ],
        camera_intent: AuthoredCameraIntent {
            kind: "conversation".into(),
            subject: "voss".into(),
            reaction_subject: Some("mara".into()),
        },
        completion_condition: AuthoredCompletion {
            kind: "dialogue_finished".into(),
            actor: Some("mara".into()),
        },
        fallback: None,
        notes: Some("keep it dry".into()),
    };
    let (outline, command) = adapt_authored_beat(&w, "beat_1", &beat);
    assert_eq!(outline.id, "beat_1");
    assert_eq!(outline.beat_type, "beat");
    assert_eq!(outline.required_entities, vec!["elevator_indicator", "voss"]);
    assert_eq!(command.beat_id, "beat_1");
    assert_eq!(command.actions.len(), 2);
    assert_eq!(command.actions[1].target.as_deref(), Some("elevator_indicator"));
    assert_eq!(command.camera_intent.kind, "conversation");
    assert_eq!(command.notes.as_deref(), Some("keep it dry"));
}

#[test]
fn digest_shows_the_room_and_the_cast_on_stage() {
    let w = build_default_world();
    let d = WorldDigest::for_episode(&w, "floor_3_hallway", &ids(&["voss", "ghost", "nox"]));
    assert_eq!(d.location.id, "floor_3_hallway");
    assert_eq!(d.location.available_interactions.len(), 4);
    let cast: Vec<&str> = d.characters.iter().map(|c| c.id.as_str()).collect();
    assert_eq!(cast, vec!["voss", "nox"]);
    assert_eq!(d.characters[0].mood, "neutral");
    assert_eq!(d.characters[1].does_not_know, vec!["mara_knows"]);
    assert_eq!(d.threads.len(), 3);
    let nowhere = WorldDigest::for_episode(&w, "roof", &vec![]);
    assert_eq!(nowhere.location.id, "roof");
    assert!(nowhere.location.description.is_empty());
}

use backlot::adapt::{adapt_beat_command, adapt_episode_plan, TargetEdit};
use backlot::default_world::build_default_world;
use backlot::director::DeterministicDirector;
use backlot::json::Json;

fn s(x: &str) -> Json {
    Json::Str(x.into())
}

fn obj(members: Vec<(&str, Json)>) -> Json {
    Json::Object(members.into_iter().map(|(k, v)| (k.to_string(), v)).collect())
}

#[test]
fn beat_commands_are_mapped_onto_the_canonical_shape() {
    let world = build_default_world();
    let plan = DeterministicDirector.plan_for_draw(0);
    let value = obj(vec![
        ("beat_id", s("beat_01")),
        ("dramatic_purpose", s("hook")),
        (
            "actions",
            Json::Array(vec![
                obj(vec![("type", s("speak")), ("character", s("mara")), ("line", s("Don't."))]),
                obj(vec![("action", s("establish"))]),
                obj(vec![("token", s("inspect")), ("actor", s("elevator")), ("target", s("Indicator"))]),
                obj(vec![("action", s("move_to")), ("subject", s("voss")), ("target", s("ring_alarm"))]),
                s("not an object"),
            ]),
        ),
        ("camera_intent", s("dolly_zoom")),
        ("completion_condition", s("whenever")),
        ("notes", Json::Number("3".into())),
    ]);
    let d = adapt_beat_command(&value, &plan, &world).expect("object");
    assert_eq!(d.beat_id, "beat_01");
    assert_eq!(d.actions.len(), 3);
    assert_eq!(d.actions[0].source, 0);
    assert_eq!(d.actions[0].action, "speak");
    assert_eq!(d.actions[0].actor, "mara");
    assert_eq!(d.actions[0].text.as_deref(), Some("Don't."));
    assert_eq!(d.actions[0].target, TargetEdit::Keep);
    assert_eq!(d.actions[1].source, 2);
    assert_eq!(d.actions[1].actor, "mara");
    assert_eq!(d.actions[1].target, TargetEdit::Replace("elevator_indicator".into()));
    assert_eq!(d.actions[2].actor, "voss");
    assert_eq!(d.actions[2].target, TargetEdit::Remove);
    assert_eq!(d.camera_intent.kind, "conversation");
    assert_eq!(d.camera_intent.subject, "mara");
    assert_eq!(d.completion_kind, "dialogue_finished");
    assert!(!d.completion_from_object);
    assert_eq!(d.notes, None);
    assert!(adapt_beat_command(&Json::Null, &plan, &world).is_none());
}

#[test]
fn camera_and_completion_objects_are_read() {
    let world = build_default_world();
    let plan = DeterministicDirector.plan_for_draw(0);
    let value = obj(vec![
        ("camera_intent", obj(vec![("intent", s("reveal")), ("character", s("nox")), ("reaction_subject", s("ghost"))])),
        ("completion_condition", obj(vec![("type", s("arrival")), ("actor", s("voss"))])),
    ]);
    let d = adapt_beat_command(&value, &plan, &world).unwrap();
    assert_eq!(d.camera_intent.kind, "reveal");
    assert_eq!(d.camera_intent.subject, "nox");
    assert_eq!(d.camera_intent.reaction_subject.as_deref(), Some("mara"));
    assert_eq!(d.completion_kind, "arrival");
    assert_eq!(d.completion_actor.as_deref(), Some("voss"));
    assert!(d.completion_from_object);
    assert!(d.actions.is_empty());
    assert_eq!(d.beat_id, "");
    let quiet = obj(vec![]);
    let q = adapt_beat_command(&quiet, &plan, &world).unwrap();
    assert_eq!(q.completion_kind, "timer");
    assert_eq!(q.camera_intent.kind, "conversation");
}

#[test]
fn plans_are_read_under_their_aliases() {
    let value = obj(vec![
        ("title", s("Floor Four")),
        ("log_line", s("A floor appears.")),
        ("tone", Json::Array(vec![s("dry"), Json::Number("1".into()), s("odd")])),
        ("cast", Json::Array(vec![s("mara"), obj(vec![("id", s("voss"))]), obj(vec![("name", s("x"))])])),
        ("setting", s("floor_3_hallway")),
        ("central_goal", obj(vec![("who", s("mara")), ("what", s("hide it"))])),
        ("acts", s("not a list")),
        (
            "scenes",
            Json::Array(vec![
                s("opening"),
                obj(vec![("beat_id", s("b2")), ("beat_type", s("reveal")), ("summary", s("it hums"))]),
                Json::Null,
            ]),
        ),
        ("ending", s("It stays.")),
    ]);
    let d = adapt_episode_plan(&value).unwrap();
    assert_eq!(d.episode_title, "Floor Four");
    assert_eq!(d.logline, "A floor appears.");
    assert_eq!(d.tone, vec!["dry", "odd"]);
    assert_eq!(d.active_characters, vec!["mara", "voss"]);
    assert_eq!(d.primary_location, "floor_3_hallway");
    assert_eq!(d.goal_character, "mara");
    assert_eq!(d.goal, "hide it");
    assert_eq!(d.payoff, "It stays.");
    assert_eq!(d.beats.len(), 3);
    assert!(d.beats[0].bare_id);
    assert_eq!(d.beats[0].id, "opening");
    assert_eq!(d.beats[0].beat_type, "beat");
    assert_eq!(d.beats[1].id, "b2");
    assert_eq!(d.beats[1].beat_type, "reveal");
    assert_eq!(d.beats[1].description, "it hums");
    assert_eq!(d.beats[2].id, "");
    assert!(adapt_episode_plan(&s("plan")).is_none());
}

#[test]
fn adaptation_keeps_the_models_own_words_in_order() {
    let world = build_default_world();
    let plan = DeterministicDirector.plan_for_draw(1);
    let lines = ["The lights are wrong.", "They were always wrong.", "Then who fixed them?"];
    let value = obj(vec![(
        "actions",
        Json::Array(vec![
            obj(vec![("action", s("speak")), ("actor", s("mara")), ("text", s(lines[0]))]),
            obj(vec![("action", s("close_up"))]),
            obj(vec![("type", s("speak")), ("actor", s("voss")), ("dialogue", s(lines[1]))]),
            obj(vec![("action", s("speak")), ("actor", s("nobody")), ("speech", s(lines[2]))]),
        ]),
    )]);
    let d = adapt_beat_command(&value, &plan, &world).expect("object");
    let sources: Vec<usize> = d.actions.iter().map(|a| a.source).collect();
    assert_eq!(sources, vec![0, 2, 3]);
    let texts: Vec<&str> = d.actions.iter().map(|a| a.text.as_deref().unwrap()).collect();
    assert_eq!(texts, lines.to_vec());
    assert!(d.actions.iter().all(|a| a.action == "speak"));
}

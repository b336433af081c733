use backlot::protocol::{is_known_action, known_actions_list};
use backlot::avatar::PerformanceState;
use backlot::library::{cache_key, entry_semantic, semantics_to_generate, ClipApproval, MotionLibrary, MotionManifest};
use backlot::motion::{action_kind, native_state_for_semantic, semantic_for_action, ActionKind};
use backlot::soma::{semantic_alias, soma77};

#[test]
fn semantic_resolution_is_exhaustive_for_production_actions() {
    for action in [
        "move_to",
        "approach",
        "speak",
        "react",
        "gesture",
        "point_at",
        "look_at",
        "pause",
        "activate",
        "inspect",
        "pick_up",
        "open_elevator",
        "add_fact",
    ] {
        assert_ne!(semantic_for_action(action), "unmapped", "{action}");
    }
}

#[test]
fn soma77_is_complete_and_parent_ordered() {
    let soma = soma77();
    assert_eq!(soma.len(), 77);
    for (index, joint) in soma.iter().enumerate() {
        if let Some(parent) = joint.parent {
            let parent_index = soma
                .iter()
                .position(|candidate| candidate.name == parent)
                .unwrap();
            assert!(parent_index < index, "{} parent must precede it", joint.name);
        }
    }
}

#[test]
fn unknown_actions_stay_unmapped() {
    assert_eq!(semantic_for_action("teleport"), "unmapped");
    assert_eq!(action_kind("teleport"), ActionKind::Unknown);
    assert_eq!(semantic_for_action("laugh"), "laugh");
    assert_eq!(semantic_for_action("activate"), "panel_press");
    assert_eq!(native_state_for_semantic("walk"), PerformanceState::Walk);
    assert_eq!(native_state_for_semantic("talk"), PerformanceState::Talk);
}

#[test]
fn joint_aliases_ignore_ascii_case() {
    assert_eq!(semantic_alias("Pelvis"), Some("Hips"));
    assert_eq!(semantic_alias("ROOT"), Some("Hips"));
    assert_eq!(semantic_alias("LeftThigh"), Some("LeftLeg"));
    assert_eq!(semantic_alias("upperchest"), Some("Chest"));
    assert_eq!(semantic_alias("tail"), None);
    assert_eq!(semantic_alias(""), None);
}

fn manifest(semantic: &str, approval: ClipApproval, seed: u64) -> MotionManifest {
    MotionManifest {
        schema_version: 1,
        semantic: semantic.into(),
        cache_key: format!("key-{seed}"),
        source_revision: "rev".into(),
        checkpoint: "ckpt".into(),
        prompt: "walk confidently".into(),
        seed,
        approval,
        clip: format!("clips/{seed}.bin"),
        preview: None,
    }
}

#[test]
fn shelved_clips_carry_their_shelf_status_and_semantic() {
    let mut library = MotionLibrary::default();
    for (i, (sem, ap)) in [
        ("confident_walk", ClipApproval::Pending),
        ("move_between", ClipApproval::Pending),
        ("confident_walk", ClipApproval::Approved),
        ("confident_walk", ClipApproval::Pending),
        ("move_between", ClipApproval::Rejected),
    ]
    .into_iter()
    .enumerate()
    {
        library.insert(manifest(sem, ap, i as u64));
    }
    for sem in ["confident_walk", "move_between", "wave"] {
        assert!(library.pending(sem).iter().all(|m| m.approval == ClipApproval::Pending && m.semantic == sem));
        assert!(library.approved(sem).iter().all(|m| m.approval == ClipApproval::Approved && m.semantic == sem));
        assert!(library.rejected(sem).iter().all(|m| m.approval == ClipApproval::Rejected && m.semantic == sem));
        for p in library.pending(sem) {
            assert!(library.approved(sem).iter().all(|a| a.seed != p.seed));
        }
    }
    assert!(!library.pending("confident_walk").is_empty());
    assert!(!library.approved("confident_walk").is_empty());
    assert!(library.approved("move_between").is_empty());
}

#[test]
fn library_files_clips_by_status_and_semantic() {
    let mut library = MotionLibrary::new();
    assert!(library.approved("confident_walk").is_empty());
    library.insert(manifest("confident_walk", ClipApproval::Pending, 1));
    library.insert(manifest("confident_walk", ClipApproval::Pending, 2));
    library.insert(manifest("move_between", ClipApproval::Pending, 3));
    library.insert(manifest("confident_walk", ClipApproval::Approved, 4));
    library.insert(manifest("wave", ClipApproval::Rejected, 5));
    let pending: Vec<u64> = library.pending("confident_walk").iter().map(|m| m.seed).collect();
    assert_eq!(pending, vec![1, 2]);
    assert_eq!(library.approved("confident_walk").len(), 1);
    assert_eq!(library.approved("confident_walk")[0].seed, 4);
    assert_eq!(library.pending("move_between").len(), 1);
    assert!(library.approved("move_between").is_empty());
    assert_eq!(library.rejected("wave").len(), 1);
    assert!(library.rejected("confident_walk").is_empty());
}

#[test]
fn cache_keys_are_framed_hex_digests() {
    let a = cache_key(&["ab", "c"]);
    let b = cache_key(&["a", "bc"]);
    assert_eq!(a.len(), 64);
    assert!(a.chars().all(|c| c.is_ascii_hexdigit() && !c.is_ascii_uppercase()));
    assert_ne!(a, b);
    assert_eq!(a, cache_key(&["ab", "c"]));
    // The frame is each part's length as eight little-endian bytes, then its bytes.
    let mut frame = Vec::new();
    for part in ["ab", "c"] {
        frame.extend_from_slice(&(part.len() as u64).to_le_bytes());
        frame.extend_from_slice(part.as_bytes());
    }
    assert_eq!(a, blake3::hash(&frame).to_hex().to_string());
}

#[test]
fn entry_semantic_takes_what_follows_the_first_colon() {
    assert_eq!(entry_semantic("nova:confident_walk"), Some("confident_walk".to_string()));
    assert_eq!(entry_semantic("nova:a:b"), Some("a:b".to_string()));
    assert_eq!(entry_semantic(":wave"), Some("wave".to_string()));
    assert_eq!(entry_semantic("nova:"), Some(String::new()));
    assert_eq!(entry_semantic("no_separator"), None);
}

#[test]
fn generation_batch_skips_semantics_awaiting_review() {
    let mut library = MotionLibrary::new();
    library.insert(manifest("move_between", ClipApproval::Pending, 1));
    library.insert(manifest("wave", ClipApproval::Approved, 2));
    let unresolved: Vec<String> = [
        "rex:wave",
        "nova:move_between",
        "nova:confident_walk",
        "rex:confident_walk",
        "malformed",
        "ada:bow",
    ]
    .iter()
    .map(|s| s.to_string())
    .collect();
    assert_eq!(
        semantics_to_generate(&unresolved, &library),
        vec!["bow".to_string(), "confident_walk".to_string(), "wave".to_string()]
    );
    assert!(semantics_to_generate(&[], &library).is_empty());
}

#[test]
fn every_alias_names_a_skeleton_joint_in_any_case() {
    let names: Vec<&str> = soma77().iter().map(|j| j.name).collect();
    assert_eq!(names[7], "HeadEnd");
    for alias in [
        "root", "pelvis", "hips", "spine", "spine1", "spine2", "chest", "upperchest", "neck",
        "neck1", "neck2", "head", "jaw", "lefteye", "righteye", "leftupperarm", "leftarm",
        "leftforearm", "lefthand", "rightupperarm", "rightarm", "rightforearm", "righthand",
        "leftthigh", "leftleg", "leftshin", "leftfoot", "rightthigh", "rightleg", "rightshin",
        "rightfoot",
    ] {
        let joint = semantic_alias(alias).unwrap();
        assert!(names.contains(&joint), "{alias} -> {joint}");
        assert_eq!(semantic_alias(&alias.to_ascii_uppercase()), Some(joint));
    }
}

#[test]
fn semantics_states_and_known_actions_agree() {
    let expected_state = |k: ActionKind| match k {
        ActionKind::Move => PerformanceState::Walk,
        ActionKind::Speak => PerformanceState::Talk,
        ActionKind::React => PerformanceState::React,
        ActionKind::Gesture => PerformanceState::Gesture,
        ActionKind::Point => PerformanceState::Point,
        ActionKind::Look => PerformanceState::Look,
        ActionKind::Listen => PerformanceState::Listen,
        _ => PerformanceState::Idle,
    };
    let mut tokens: Vec<&str> = known_actions_list();
    tokens.extend(["teleport", "Speak", "", "laughing"]);
    for a in tokens {
        let known = is_known_action(a);
        assert_eq!(known, action_kind(a) != ActionKind::Unknown, "{a}");
        assert_eq!(semantic_for_action(a) == "unmapped", !known, "{a}");
        assert_eq!(native_state_for_semantic(semantic_for_action(a)), expected_state(action_kind(a)), "{a}");
    }
    assert_eq!(semantic_for_action("activate"), "panel_press");
    assert_eq!(semantic_for_action("laugh"), "laugh");
    assert_eq!(semantic_for_action("whisper"), "talk");
    assert_eq!(semantic_for_action("give"), "hand_off");
    assert_eq!(semantic_for_action("open_elevator"), "idle");
    assert_eq!(semantic_for_action("teleport"), "unmapped");
    assert_eq!(native_state_for_semantic("hurry"), PerformanceState::Walk);
    assert_eq!(native_state_for_semantic("xyz"), PerformanceState::Idle);
}

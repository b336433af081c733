use backlot::author::{AuthorSource, DeterministicAuthor, EpisodeAuthor};
use backlot::avatar::{humanoid_skeleton_parts, HumanoidRig, SemanticJoint};
use backlot::default_world::build_default_world;
use backlot::director::DirectorContext;
use backlot::validation::{validate_beat_command, validate_plan};
use std::collections::HashSet;

fn ctx() -> DirectorContext {
    DirectorContext {
        world: build_default_world(),
        episode_number: 1,
        seed: 1,
        recent_summaries: vec![],
        tone: vec![],
    }
}

#[test]
fn semantic_joints_are_unique() {
    let mut seen = HashSet::new();
    for j in SemanticJoint::all() {
        assert!(seen.insert(*j), "duplicate SemanticJoint variant: {j:?}");
    }
}

#[test]
fn deterministic_plan_validates_cleanly() {
    let c = ctx();
    let (planned, _) = DeterministicAuthor.author(&c).unwrap();
    assert!(!planned.commands.is_empty());
    assert!(validate_plan(&c.world, &planned.plan).is_ok());
    for (id, cmd) in &planned.commands {
        let rb = validate_beat_command(&c.world, &planned.plan, cmd);
        assert!(rb.is_ok(), "deterministic beat {id} should validate: {rb:?}");
    }
}

#[test]
fn validation_rejects_unknown_action() {
    let c = ctx();
    let (planned, _) = DeterministicAuthor.author(&c).unwrap();
    let mut cmd = planned.commands[0].1.copy();
    cmd.actions[0].action = "teleport".into();
    assert!(validate_beat_command(&c.world, &planned.plan, &cmd).is_err());
}

#[test]
fn validation_rejects_unknown_actor() {
    let c = ctx();
    let (planned, _) = DeterministicAuthor.author(&c).unwrap();
    let mut cmd = planned.commands[0].1.copy();
    cmd.actions[0].actor = "ghost".into();
    assert!(validate_beat_command(&c.world, &planned.plan, &cmd).is_err());
}

#[test]
fn validation_rejects_empty_speak() {
    let c = ctx();
    let (planned, _) = DeterministicAuthor.author(&c).unwrap();
    let mut cmd = planned.commands[0].1.copy();
    cmd.actions[0].action = "speak".into();
    cmd.actions[0].text = Some(String::new());
    assert!(validate_beat_command(&c.world, &planned.plan, &cmd).is_err());
}

#[test]
fn deterministic_authorship_is_truthful() {
    let c = ctx();
    let (_, auth) = DeterministicAuthor.author(&c).unwrap();
    assert_eq!(auth.plan_source, AuthorSource::Deterministic);
    assert_ne!(auth.plan_source, AuthorSource::Llm);
    for b in &auth.beats {
        assert_eq!(b.source, AuthorSource::Deterministic);
        assert_ne!(b.source, AuthorSource::Llm);
    }
    assert!(!auth.all_llm());
    assert_eq!(AuthorSource::DeterministicFallback.as_str(), "deterministic_fallback");
}

#[test]
fn rejection_messages_name_the_offender() {
    let c = ctx();
    let (planned, _) = DeterministicAuthor.author(&c).unwrap();
    let mut cmd = planned.commands[0].1.copy();
    cmd.actions[0].action = "teleport".into();
    let errs = validate_beat_command(&c.world, &planned.plan, &cmd).unwrap_err();
    assert_eq!(errs.len(), 1);
    assert_eq!(errs[0].field, "actions");
    assert_eq!(errs[0].message, "unknown action 'teleport'");
    let mut cmd = planned.commands[0].1.copy();
    cmd.beat_id = "beat_99".into();
    let errs = validate_beat_command(&c.world, &planned.plan, &cmd).unwrap_err();
    assert_eq!(errs[0].message, "beat 'beat_99' not in plan");
}

#[test]
fn fallback_authorship_marks_every_piece() {
    let c = ctx();
    let (planned, auth) = backlot::author::fallback_episode(&c);
    let (same, _) = DeterministicAuthor.author(&c).unwrap();
    assert_eq!(planned.plan.episode_title, same.plan.episode_title);
    assert_eq!(auth.plan_source, AuthorSource::DeterministicFallback);
    assert_eq!(auth.beats.len(), planned.plan.beats.len());
    for (b, outline) in auth.beats.iter().zip(planned.plan.beats.iter()) {
        assert_eq!(b.source, AuthorSource::DeterministicFallback);
        assert_eq!(b.beat_id, outline.id);
    }
    assert!(!auth.all_llm());
}

#[test]
fn accepted_plans_and_commands_stay_in_bounds() {
    let c = ctx();
    let (planned, _) = DeterministicAuthor.author(&c).unwrap();
    assert!(validate_plan(&c.world, &planned.plan).is_ok());
    let plan = &planned.plan;
    assert!(!plan.active_characters.is_empty());
    assert!(plan.active_characters.iter().all(|id| c.world.character(id).is_some()));
    let mut ids = HashSet::new();
    for b in &plan.beats {
        assert!(ids.insert(b.id.clone()));
        assert!(b.required_entities.iter().all(|e| c.world.entity_exists(e)));
    }
    for (_, cmd) in &planned.commands {
        assert!(validate_beat_command(&c.world, plan, cmd).is_ok());
        assert!(backlot::protocol::is_known_camera_intent(&cmd.camera_intent.kind));
        assert!(backlot::protocol::is_known_completion(&cmd.completion_condition.kind));
        for a in &cmd.actions {
            assert!(backlot::protocol::is_known_action(&a.action));
            assert!(c.world.character(&a.actor).is_some());
            assert!(plan.active_characters.contains(&a.actor) || a.action == "flicker_lights");
        }
    }
}

#[test]
fn humanoid_skeleton_lists_parents_before_children() {
    let parts = humanoid_skeleton_parts();
    assert_eq!(parts.len(), 18);
    assert_eq!(parts[0].joint, SemanticJoint::Pelvis);
    assert_eq!(parts[0].parent, SemanticJoint::Root);
    let mut seen = HashSet::new();
    seen.insert(SemanticJoint::Root);
    for part in &parts {
        assert!(seen.contains(&part.parent), "{:?} listed before its parent", part.joint);
        assert!(seen.insert(part.joint), "{:?} listed twice", part.joint);
    }
    let grips: Vec<SemanticJoint> = parts.iter().filter(|p| p.is_grip).map(|p| p.joint).collect();
    assert_eq!(grips, vec![SemanticJoint::LeftHand, SemanticJoint::RightHand, SemanticJoint::PropGrip]);
    let prop = parts.iter().find(|p| p.joint == SemanticJoint::PropGrip).unwrap();
    assert_eq!(prop.parent, SemanticJoint::LeftHand);
    assert!(!parts.iter().any(|p| p.joint == SemanticJoint::LeftWrist || p.joint == SemanticJoint::RightWrist));
}

#[test]
fn humanoid_rig_parts_have_unique_joint_keys() {
    // Two parts sharing a joint key would overwrite each other's world matrix.
    let rig = HumanoidRig::default_humanoid("mara", "mara");
    assert_eq!(rig.character_id, "mara");
    assert_eq!(rig.voice_id, "mara");
    let mut seen = HashSet::new();
    for p in &rig.parts {
        assert!(seen.insert(p.joint), "duplicate joint key in rig parts: {:?}", p.joint);
    }
}

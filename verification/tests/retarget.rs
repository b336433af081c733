use backlot::retarget::{soma77_to_kaykit, RetargetJoint, RetargetMap};
use backlot::soma::soma77;

fn joint(source: &str, target: &str) -> RetargetJoint {
    RetargetJoint { source: source.into(), target: target.into() }
}

#[test]
fn kaykit_map_validates_and_maps_soma_joints() {
    let map = soma77_to_kaykit();
    assert!(map.validate().is_ok());
    assert_eq!(map.source_skeleton, "somaskel77");
    assert_eq!(map.joints.len(), 19);
    assert_eq!(map.target_for("LeftHand").map(|j| j.target.as_str()), Some("hand.l"));
    assert_eq!(map.target_for("RightToeBase").map(|j| j.target.as_str()), Some("toes.r"));
    assert!(map.target_for("LeftHandThumb1").is_none());
    let soma: Vec<&str> = soma77().iter().map(|j| j.name).collect();
    assert!(map.joints.iter().all(|j| soma.contains(&j.source.as_str())));
}

#[test]
fn retarget_maps_report_the_first_problem() {
    let bad_scale = RetargetMap {
        source_skeleton: "a".into(),
        target_skeleton: "b".into(),
        scale_positive: false,
        joints: vec![joint("Hips", "hips"), joint("Spine1", "hips")],
    };
    assert_eq!(bad_scale.validate().unwrap_err(), "retarget scale must be positive");
    let twice = RetargetMap {
        source_skeleton: "a".into(),
        target_skeleton: "b".into(),
        scale_positive: true,
        joints: vec![joint("Hips", "hips"), joint("Chest", "chest"), joint("Spine1", "hips"), joint("Neck2", "chest")],
    };
    assert_eq!(twice.validate().unwrap_err(), "duplicate target joint hips");
    let first_wins = RetargetMap {
        source_skeleton: "a".into(),
        target_skeleton: "b".into(),
        scale_positive: true,
        joints: vec![joint("Hips", "hips"), joint("Hips", "root")],
    };
    assert_eq!(first_wins.target_for("Hips").map(|j| j.target.as_str()), Some("hips"));
}

use backlot::production::{alignment_gate, motion_gate, needs_motion_generation, voice_gate};

#[test]
fn voice_phase_must_be_complete_when_the_model_is_required() {
    assert_eq!(voice_gate(true, 0, 4, 4), Ok(()));
    assert_eq!(
        voice_gate(true, 1, 4, 4),
        Err("production voice phase incomplete: 1 failed and 4 of 4 lines returned".to_string())
    );
    assert_eq!(
        voice_gate(true, 0, 3, 4),
        Err("production voice phase incomplete: 0 failed and 3 of 4 lines returned".to_string())
    );
    assert_eq!(voice_gate(false, 2, 1, 4), Ok(()));
}

#[test]
fn alignment_phase_must_cover_every_clip() {
    assert_eq!(alignment_gate(true, 5, 5), Ok(()));
    assert_eq!(alignment_gate(true, 0, 0), Ok(()));
    assert_eq!(
        alignment_gate(true, 3, 5),
        Err("Parakeet alignment phase incomplete: aligned 3 of 5 dialogue clips".to_string())
    );
    assert_eq!(alignment_gate(false, 3, 5), Ok(()));
}

#[test]
fn unresolved_motion_stops_a_required_run() {
    let unresolved = vec!["nova:wave".to_string(), "rex:bow".to_string()];
    let manifests = vec!["lib/wave/k1/review.txt".to_string()];
    assert!(needs_motion_generation(true, &unresolved));
    assert!(!needs_motion_generation(false, &unresolved));
    assert!(!needs_motion_generation(true, &[]));
    assert_eq!(
        motion_gate(true, &unresolved, &manifests),
        Err("production motion review required for semantics [nova:wave, rex:bow]; Bevy previews must be approved in: lib/wave/k1/review.txt".to_string())
    );
    assert_eq!(motion_gate(true, &[], &manifests), Ok(()));
    assert_eq!(motion_gate(false, &unresolved, &manifests), Ok(()));
}

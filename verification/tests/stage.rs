use backlot::stage::{door_cues, opening_slot_for, slot_candidates, stage_slot_ids, DoorCues, MovementKind};

#[test]
fn actors_open_on_their_slots() {
    assert_eq!(opening_slot_for("voss"), "elevator_left");
    assert_eq!(opening_slot_for("mara"), "panel_operator");
    assert_eq!(opening_slot_for("ellis"), "apt_3b_entry");
    assert_eq!(opening_slot_for("nox"), "side_corridor");
    assert_eq!(stage_slot_ids().len(), 13);
}

#[test]
fn named_slots_beat_broad_words() {
    assert_eq!(slot_candidates("ellis", "elevator_observer", MovementKind::Move), vec!["elevator_observer"]);
    assert_eq!(
        slot_candidates("ellis", "The Elevator", MovementKind::Move),
        vec!["elevator_right", "elevator_observer", "hallway_two_shot_b"]
    );
    assert_eq!(
        slot_candidates("nox", "elevator", MovementKind::Approach),
        vec!["elevator_observer", "elevator_right", "elevator_left"]
    );
    assert_eq!(
        slot_candidates("voss", "PANEL", MovementKind::Move),
        vec!["panel_operator", "elevator_right", "elevator_observer"]
    );
    assert_eq!(
        slot_candidates("voss", "stairs", MovementKind::Interact),
        vec!["panel_operator", "elevator_right", "elevator_observer"]
    );
    assert_eq!(
        slot_candidates("mara", "door of 3B", MovementKind::Move),
        vec!["apt_3b_entry", "hallway_entry", "service_area"]
    );
    assert_eq!(
        slot_candidates("mara", "lobby", MovementKind::Enter),
        vec!["hallway_entry", "service_area", "hallway_two_shot_b"]
    );
    assert_eq!(
        slot_candidates("mara", "somewhere", MovementKind::Move),
        vec!["hallway_two_shot_a", "hallway_two_shot_b", "hallway_group_c", "service_area"]
    );
}

#[test]
fn door_cues_follow_the_beat_direction() {
    let c = door_cues("The elevator DOORS OPEN onto the hall", "reveal", None, None);
    assert_eq!(c, DoorCues { opens: true, closes: false });
    let c = door_cues("Arrival", "tension", Some("the doors slide open"), Some("then slam shut"));
    assert_eq!(c, DoorCues { opens: false, closes: true });
    let c = door_cues("Exit", "escape", None, Some("the doors close behind her"));
    assert_eq!(c, DoorCues { opens: false, closes: true });
    let c = door_cues("A quiet talk", "trust", Some("they wait"), None);
    assert_eq!(c, DoorCues { opens: false, closes: false });
    // The fields are joined by spaces, so a cue may span two of them.
    let c = door_cues("the doors", "open", None, None);
    assert_eq!(c, DoorCues { opens: true, closes: false });
    let c = door_cues("The panel sparks", "the doors", Some("close violently"), None);
    assert_eq!(c, DoorCues { opens: false, closes: true });
}

use backlot::default_world::build_default_world;
use backlot::protocol::PersistentChange;
use backlot::rng::{serial_id, SeededRng};
use backlot::story::{apply_persistent_changes, repetition_report};

fn change(op: &str, target: &str, value: &str) -> PersistentChange {
    PersistentChange { operation: op.into(), target: target.into(), value: value.into(), field: None }
}

#[test]
fn default_world_has_the_cast_and_rooms() {
    let w = build_default_world();
    let ids: Vec<&str> = w.characters.iter().map(|c| c.id.as_str()).collect();
    assert_eq!(ids, vec!["mara", "ellis", "voss", "nox"]);
    assert_eq!(w.locations.len(), 4);
    assert_eq!(w.props.len(), 13);
    assert_eq!(w.threads.len(), 3);
    assert_eq!(w.episode_count, 0);
    assert_eq!(w.label_for("voss"), "Inspector Voss");
    assert_eq!(w.label_for("strange_plant"), "Strange Plant");
    assert_eq!(w.label_for("nowhere"), "nowhere");
    for p in &w.props {
        let loc = w.location(&p.location_id).expect("prop room exists");
        assert!(loc.staging_marks.iter().any(|m| m.id == p.home_mark), "{}", p.id);
    }
}

#[test]
fn facts_are_added_once() {
    let mut w = build_default_world();
    let before = w.canonical_facts.len();
    w.add_fact("elevator_reaches_unknown_floor");
    assert_eq!(w.canonical_facts.len(), before);
    w.add_fact("floor_four_is_real");
    w.add_fact("floor_four_is_real");
    assert_eq!(w.canonical_facts.len(), before + 1);
}

#[test]
fn entity_resolution_is_tolerant() {
    let w = build_default_world();
    assert_eq!(w.resolve_entity_or_alias(" Mara ").as_deref(), Some("mara"));
    assert_eq!(w.resolve_entity_or_alias("elevator_interior").as_deref(), Some("elevator"));
    assert_eq!(w.resolve_entity_or_alias("hall_center").as_deref(), Some("hall_center"));
    assert_eq!(w.resolve_entity_or_alias("speak"), None);
    assert_eq!(w.resolve_entity_or_alias("floating_umbrella"), None);
    assert_eq!(w.resolve_entity_or_alias("   "), None);
}

#[test]
fn persistent_changes_apply_in_order() {
    let mut w = build_default_world();
    let changes = vec![
        change("add_fact", "world", "floor_four_exists"),
        change("add_belief", "voss", "believes_floor_four_exists"),
        change("create_thread", "leak", "The ceiling drips upward."),
        change("resolve_thread", "inspection", ""),
        change("change_relationship", "mara", "voss"),
        change("teleport", "mara", "x"),
    ];
    let (delta, positions) = apply_persistent_changes(&mut w, &changes);
    assert_eq!(delta.added_canonical_facts, vec!["floor_four_exists"]);
    assert_eq!(delta.added_beliefs, vec!["voss:believes_floor_four_exists"]);
    assert_eq!(delta.new_threads, vec!["leak"]);
    assert_eq!(delta.resolved_threads, vec!["inspection"]);
    assert_eq!(positions, vec![4]);
    assert_eq!(delta.notes.len(), 1);
    assert!(w.canonical_facts.iter().any(|f| f == "floor_four_exists"));
    assert!(w.threads.iter().any(|t| t.id == "leak"));
    assert!(!w.threads.iter().any(|t| t.id == "inspection"));
    let voss = w.character("voss").unwrap();
    assert!(voss.believed_facts.iter().any(|b| b == "believes_floor_four_exists"));
}

#[test]
fn repetition_report_lists_newest_five() {
    assert_eq!(repetition_report(&vec![]), "No recent episodes.");
    let recent: Vec<String> = (1..=7).map(|i| format!("ep{i}")).collect();
    assert_eq!(
        repetition_report(&recent),
        "Recent episodes:\n1. ep7\n2. ep6\n3. ep5\n4. ep4\n5. ep3\n"
    );
}

#[test]
fn serial_ids_are_zero_padded() {
    assert_eq!(serial_id("ep", 123, 6), "ep_000123");
    assert_eq!(serial_id("take", 12345, 2), "take_12345");
}

#[test]
fn seeded_sources_are_reproducible() {
    let mut a = SeededRng::new(42);
    let mut b = SeededRng::new(42);
    assert_eq!(a.next_u64(), b.next_u64());
    let items = [1, 2, 3, 4, 5];
    let pa = a.pick(&items).unwrap();
    assert!(items.contains(&pa));
    assert_eq!(a.pick_n(&items, 3).len(), 3);
    assert_eq!(b.pick_n(&items, 9).len(), 5);
    assert_eq!(SeededRng::new(42).derive(7).seed, SeededRng::new(42).derive(7).seed);
    let empty: [u8; 0] = [];
    assert_eq!(a.pick(&empty), None);
}

#[test]
fn picked_items_are_distinct_members() {
    let items = ["voss", "mara", "ellis", "juno", "kai", "rook"];
    let mut rng = SeededRng::new(7);
    let mut picked = rng.pick_n(&items, 4);
    assert_eq!(picked.len(), 4);
    assert!(picked.iter().all(|p| items.contains(p)));
    picked.sort();
    picked.dedup();
    assert_eq!(picked.len(), 4);
    let mut all = rng.pick_n(&items, 10);
    all.sort();
    let mut expected = items.to_vec();
    expected.sort();
    assert_eq!(all, expected);
}

#[test]
fn adding_a_fact_twice_adds_it_once() {
    let mut w = backlot::default_world::build_default_world();
    let before = w.canonical_facts.len();
    w.add_fact("The elevator hums in B-flat.");
    w.add_fact("The elevator hums in B-flat.");
    assert_eq!(w.canonical_facts.len(), before + 1);
    assert_eq!(w.canonical_facts.last().map(|s| s.as_str()), Some("The elevator hums in B-flat."));
    let existing = w.canonical_facts[0].clone();
    w.add_fact(&existing);
    assert_eq!(w.canonical_facts.len(), before + 1);
}

#[test]
fn default_relationships_name_other_residents() {
    let w = build_default_world();
    let ids: Vec<&str> = w.characters.iter().map(|c| c.id.as_str()).collect();
    assert_eq!(ids, vec!["mara", "ellis", "voss", "nox"]);
    for c in &w.characters {
        for r in &c.relationships {
            assert_ne!(r.other, c.id);
            assert!(ids.contains(&r.other.as_str()));
        }
    }
    let mara = w.character("mara").unwrap();
    let others: Vec<&str> = mara.relationships.iter().map(|r| r.other.as_str()).collect();
    assert_eq!(others, vec!["ellis", "voss", "nox"]);
    assert_eq!(mara.relationships[0].dimensions, vec!["trust", "affection", "suspicion", "familiarity"]);
}

#[test]
fn relationship_changes_keep_their_keys() {
    let mut w = build_default_world();
    let mut fear = change("change_relationship", "ellis", "nox");
    fear.field = Some("fear".into());
    let changes = vec![
        change("change_relationship", "mara", "voss"),
        fear,
        change("change_relationship", "juno", "mara"),
    ];
    let (_, positions) = apply_persistent_changes(&mut w, &changes);
    assert_eq!(positions, vec![0, 1, 2]);
    let mara = w.character("mara").unwrap();
    assert_eq!(mara.relationships.len(), 3);
    assert_eq!(mara.relationships[1].dimensions.len(), 4);
    let ellis = w.character("ellis").unwrap();
    assert_eq!(ellis.relationships.len(), 1);
    assert_eq!(ellis.relationships[0].other, "nox");
    assert_eq!(ellis.relationships[0].dimensions, vec!["fear"]);
    let juno = w.character("juno").unwrap();
    assert_eq!(juno.relationships[0].other, "mara");
    assert_eq!(juno.relationships[0].dimensions, vec!["trust"]);
}

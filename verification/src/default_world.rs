//! The initial setting: a surreal apartment building with four residents and
//! visitors, its rooms, its props and the story threads already running.
use vstd::prelude::*;

use crate::text::{chars_of, str_views, string_of};
use crate::world::{
    fact_views, ov, relationship_views, CameraAnchor, Character, CharacterView, Location, LocationView,
    Prop, PropView, Relationship, RelationshipView, StagingMark, StoryThread, ThreadView, WorldState,
    WorldView,
};

verus! {

/// The residents and visitors of the initial world.
pub open spec fn default_characters() -> Seq<CharacterView> {
    seq![
        CharacterView {
            id: "mara"@,
            display_name: "Mara"@,
            role: "building superintendent"@,
            color_hex: "#4fa3ff"@,
            personality: seq!["exhausted"@, "pragmatic"@, "secretive"@],
            motivations: seq!["keep the building running"@, "hide the impossible floor"@],
            fears: seq!["inspections"@, "the elevator being traced"@],
            voice_id: "mara"@,
            emotion: seq!["strained"@],
            current_goal: Some("complete the shift without revealing anomalies"@),
            known_facts: seq!["elevator_reaches_unknown_floor"@],
            believed_facts: seq!["ellis_is_ordinary"@],
            relationships: seq![RelationshipView { other: "ellis"@, dimensions: seq!["trust"@, "affection"@, "suspicion"@, "familiarity"@] }, RelationshipView { other: "voss"@, dimensions: seq!["trust"@, "affection"@, "suspicion"@, "familiarity"@] }, RelationshipView { other: "nox"@, dimensions: seq!["trust"@, "affection"@, "suspicion"@, "familiarity"@] }],
            allowed_actions: seq!["move_to"@, "speak"@, "inspect"@, "conceal_object"@, "flicker_lights"@, "sigh"@, "gesture"@, "open"@, "close"@, "activate"@, "deactivate"@, "look_at"@],
            preferred_speech: Some("clipped, tired, deflecting"@),
            home_location: Some("maintenance_room"@),
        },
        CharacterView {
            id: "ellis"@,
            display_name: "Ellis"@,
            role: "excessively curious tenant"@,
            color_hex: "#ffd24f"@,
            personality: seq!["curious"@, "earnest"@, "unlucky"@],
            motivations: seq!["understand the building"@],
            fears: seq!["missing something important"@],
            voice_id: "ellis"@,
            emotion: seq!["eager"@],
            current_goal: Some("investigate the strange elevator"@),
            known_facts: seq![],
            believed_facts: seq!["building_is_normal"@],
            relationships: seq![],
            allowed_actions: seq!["move_to"@, "speak"@, "inspect"@, "knock_on"@, "pick_up"@, "point_at"@, "whisper"@, "react"@, "look_at"@, "open"@, "enter_room"@],
            preferred_speech: Some("rapid, full of questions"@),
            home_location: Some("apartment_3b"@),
        },
        CharacterView {
            id: "voss"@,
            display_name: "Inspector Voss"@,
            role: "bureaucratic inspector"@,
            color_hex: "#ff6b6b"@,
            personality: seq!["pedantic"@, "rule-bound"@, "unshakeable"@],
            motivations: seq!["cite every violation"@],
            fears: seq!["being wrong on record"@],
            voice_id: "voss"@,
            emotion: seq!["neutral"@],
            current_goal: Some("find a code violation"@),
            known_facts: seq![],
            believed_facts: seq!["all_floors_are_documented"@],
            relationships: seq![],
            allowed_actions: seq!["move_to"@, "speak"@, "inspect"@, "point_at"@, "write_note"@, "react"@, "look_at"@, "open"@, "ring_alarm"@],
            preferred_speech: Some("formal, citation-heavy"@),
            home_location: None,
        },
        CharacterView {
            id: "nox"@,
            display_name: "Nox"@,
            role: "tenant who may not be human"@,
            color_hex: "#9b6bff"@,
            personality: seq!["placid"@, "uncanny"@, "helpful"@],
            motivations: seq!["observe"@],
            fears: seq![],
            voice_id: "nox"@,
            emotion: seq!["serene"@],
            current_goal: Some("remain unnoticed"@),
            known_facts: seq!["elevator_reaches_unknown_floor"@],
            believed_facts: seq!["mara_knows"@],
            relationships: seq![],
            allowed_actions: seq!["move_to"@, "speak"@, "react"@, "look_at"@, "flicker_lights"@, "conceal_object"@, "pause"@, "gesture"@],
            preferred_speech: Some("calm, slightly delayed"@),
            home_location: Some("apartment_4a"@),
        },
    ]
}

/// The rooms of the initial world: the third-floor hallway, two apartments and
/// the maintenance room.
pub open spec fn default_locations() -> Seq<LocationView> {
    seq![
        LocationView {
            id: "floor_3_hallway"@,
            name: "Third-Floor Hallway"@,
            description: "Narrow hallway with an elevator, three apartment doors, a maintenance panel and a light that flickers when it disagrees with you."@,
            tags: seq!["hallway"@, "primary"@],
            staging_marks: seq!["hall_center"@, "elevator_door"@, "apt_3b_door"@, "apt_4a_door"@, "maintenance_panel"@, "panel_stand"@],
            camera_anchors: seq!["hall_wide"@, "hall_elevator"@, "hall_panel"@],
            available_interactions: seq!["use_elevator"@, "open_maintenance_panel"@, "knock_on_doors"@, "control_hallway_lights"@],
            room_state: "normal"@,
        },
        LocationView {
            id: "apartment_3b"@,
            name: "Apartment 3B"@,
            description: "Apartment 3B, a small but opinionated room."@,
            tags: seq!["apartment"@],
            staging_marks: seq!["apartment_3b_door"@, "apartment_3b_center"@],
            camera_anchors: seq!["apartment_3b_wide"@],
            available_interactions: seq!["enter_room"@, "inspect"@],
            room_state: "normal"@,
        },
        LocationView {
            id: "apartment_4a"@,
            name: "Apartment 4A"@,
            description: "Apartment 4A, a small but opinionated room."@,
            tags: seq!["apartment"@],
            staging_marks: seq!["apartment_4a_door"@, "apartment_4a_center"@],
            camera_anchors: seq!["apartment_4a_wide"@],
            available_interactions: seq!["enter_room"@, "inspect"@],
            room_state: "normal"@,
        },
        LocationView {
            id: "maintenance_room"@,
            name: "Maintenance Room"@,
            description: "Maintenance Room, a small but opinionated room."@,
            tags: seq!["apartment"@],
            staging_marks: seq!["maintenance_room_door"@, "maintenance_room_center"@],
            camera_anchors: seq!["maintenance_room_wide"@],
            available_interactions: seq!["enter_room"@, "inspect"@],
            room_state: "normal"@,
        },
    ]
}

/// The props of the initial world, each idle, unowned and at its home mark.
pub open spec fn default_props() -> Seq<PropView> {
    seq![
        PropView { id: "elevator"@, name: "Elevator"@, location_id: "floor_3_hallway"@, capabilities: seq!["ride"@, "open"@, "reach_unknown_floor"@], owner: None, home_mark: "elevator_door"@, story_state: "idle"@ },
        PropView { id: "elevator_indicator"@, name: "Elevator Indicator"@, location_id: "floor_3_hallway"@, capabilities: seq!["display_symbol"@], owner: None, home_mark: "elevator_door"@, story_state: "idle"@ },
        PropView { id: "elevator_doors"@, name: "Elevator Doors"@, location_id: "floor_3_hallway"@, capabilities: seq!["open"@, "close"@], owner: None, home_mark: "elevator_door"@, story_state: "idle"@ },
        PropView { id: "elevator_panel"@, name: "Elevator Control Panel"@, location_id: "floor_3_hallway"@, capabilities: seq!["activate"@, "inspect"@], owner: None, home_mark: "elevator_door"@, story_state: "idle"@ },
        PropView { id: "elevator_control_panel"@, name: "Elevator Control Panel"@, location_id: "floor_3_hallway"@, capabilities: seq!["activate"@, "inspect"@], owner: None, home_mark: "panel_stand"@, story_state: "idle"@ },
        PropView { id: "elevator_frame"@, name: "Elevator Frame"@, location_id: "floor_3_hallway"@, capabilities: seq!["inspect"@], owner: None, home_mark: "elevator_door"@, story_state: "idle"@ },
        PropView { id: "control_panel"@, name: "Elevator Control Panel (alias)"@, location_id: "floor_3_hallway"@, capabilities: seq!["activate"@, "inspect"@], owner: None, home_mark: "maintenance_panel"@, story_state: "idle"@ },
        PropView { id: "maintenance_panel"@, name: "Maintenance Panel"@, location_id: "floor_3_hallway"@, capabilities: seq!["open"@, "activate"@, "inspect"@], owner: None, home_mark: "maintenance_panel"@, story_state: "idle"@ },
        PropView { id: "hallway_light"@, name: "Hallway Light"@, location_id: "floor_3_hallway"@, capabilities: seq!["flicker"@], owner: None, home_mark: "hall_center"@, story_state: "idle"@ },
        PropView { id: "maintenance_override_key"@, name: "Maintenance Override Key"@, location_id: "maintenance_room"@, capabilities: seq!["conceal"@, "reveal"@], owner: None, home_mark: "maintenance_room_center"@, story_state: "idle"@ },
        PropView { id: "inspection_clipboard"@, name: "Inspection Clipboard"@, location_id: "floor_3_hallway"@, capabilities: seq!["write"@, "cite"@], owner: None, home_mark: "hall_center"@, story_state: "idle"@ },
        PropView { id: "flickering_light"@, name: "Flickering Light"@, location_id: "floor_3_hallway"@, capabilities: seq!["flicker"@], owner: None, home_mark: "hall_center"@, story_state: "idle"@ },
        PropView { id: "strange_plant"@, name: "Strange Plant"@, location_id: "apartment_4a"@, capabilities: seq!["observer"@, "uncanny"@], owner: None, home_mark: "apartment_4a_center"@, story_state: "idle"@ },
    ]
}

/// The story threads running when the world begins.
pub open spec fn default_threads() -> Seq<ThreadView> {
    seq![
        ThreadView { id: "unknown_floor"@, summary: "The elevator intermittently reaches a floor absent from building records."@, characters: seq!["mara"@, "ellis"@, "nox"@], locations: seq!["floor_3_hallway"@], age: 0, last_episode: None, resolutions: seq!["seal the elevator"@, "document the floor"@], may_ignore: false, protected: false },
        ThreadView { id: "missing_tenant"@, summary: "Apartment 4A is occupied by someone who is never seen leaving."@, characters: seq!["nox"@, "ellis"@], locations: seq!["apartment_4a"@], age: 0, last_episode: None, resolutions: seq!["confront nox"@], may_ignore: true, protected: false },
        ThreadView { id: "inspection"@, summary: "Inspector Voss is conducting a building inspection that could expose anomalies."@, characters: seq!["voss"@, "mara"@], locations: seq!["floor_3_hallway"@], age: 0, last_episode: None, resolutions: seq!["pass inspection"@, "delay inspection"@], may_ignore: false, protected: false },
    ]
}

/// The initial world: no episode committed yet.
pub open spec fn default_world() -> WorldView {
    WorldView {
        characters: default_characters(),
        locations: default_locations(),
        props: default_props(),
        threads: default_threads(),
        canonical_facts: seq!["mara_is_superintendent"@, "ellis_lives_in_3b"@, "elevator_reaches_unknown_floor"@],
        episode_count: 0,
    }
}

fn text(s: &str) -> (r: String)
    ensures
        r@ == s@,
{
    string_of(&chars_of(s))
}

fn texts(v: &[&str]) -> (r: Vec<String>)
    ensures
        fact_views(r@) == str_views(v@),
{
    let mut out: Vec<String> = Vec::new();
    let mut i: usize = 0;
    while i < v.len()
        invariant
            i <= v@.len(),
            out@.len() == i,
            forall|k: int| 0 <= k < i ==> #[trigger] out@[k]@ == v@[k]@,
        decreases v@.len() - i,
    {
        out.push(text(v[i]));
        i += 1;
    }
    assert(fact_views(out@) =~= str_views(v@));
    out
}

fn maybe(o: Option<&str>) -> (r: Option<String>)
    ensures
        ov(r) == match o {
            Some(s) => Some(s@),
            None => None::<Seq<char>>,
        },
{
    match o {
        Some(s) => Some(text(s)),
        None => None,
    }
}

fn marks(v: &[&str]) -> (r: Vec<StagingMark>)
    ensures
        r@.len() == v@.len(),
        forall|k: int| 0 <= k < v@.len() ==> #[trigger] r@[k].id@ == v@[k]@,
{
    let mut out: Vec<StagingMark> = Vec::new();
    let mut i: usize = 0;
    while i < v.len()
        invariant
            i <= v@.len(),
            out@.len() == i,
            forall|k: int| 0 <= k < i ==> #[trigger] out@[k].id@ == v@[k]@,
        decreases v@.len() - i,
    {
        out.push(StagingMark { id: text(v[i]) });
        i += 1;
    }
    out
}

fn anchors(v: &[&str]) -> (r: Vec<CameraAnchor>)
    ensures
        r@.len() == v@.len(),
        forall|k: int| 0 <= k < v@.len() ==> #[trigger] r@[k].id@ == v@[k]@,
{
    let mut out: Vec<CameraAnchor> = Vec::new();
    let mut i: usize = 0;
    while i < v.len()
        invariant
            i <= v@.len(),
            out@.len() == i,
            forall|k: int| 0 <= k < i ==> #[trigger] out@[k].id@ == v@[k]@,
        decreases v@.len() - i,
    {
        out.push(CameraAnchor { id: text(v[i]) });
        i += 1;
    }
    out
}

/// The dimensions every default relationship is measured on.
pub open spec fn relationship_dimensions() -> Seq<Seq<char>> {
    seq!["trust"@, "affection"@, "suspicion"@, "familiarity"@]
}

fn relationship(other: &str) -> (r: Relationship)
    ensures
        r@ == (RelationshipView { other: other@, dimensions: relationship_dimensions() }),
{
    let r = Relationship {
        other: text(other),
        dimensions: texts(&["trust", "affection", "suspicion", "familiarity"]),
    };
    assert(r@ =~= (RelationshipView { other: other@, dimensions: relationship_dimensions() }));
    r
}

fn mara_relationships() -> (r: Vec<Relationship>)
    ensures
        relationship_views(r@) == seq![RelationshipView { other: "ellis"@, dimensions: seq!["trust"@, "affection"@, "suspicion"@, "familiarity"@] }, RelationshipView { other: "voss"@, dimensions: seq!["trust"@, "affection"@, "suspicion"@, "familiarity"@] }, RelationshipView { other: "nox"@, dimensions: seq!["trust"@, "affection"@, "suspicion"@, "familiarity"@] }],
{
    let r = vec![relationship("ellis"), relationship("voss"), relationship("nox")];
    assert(relationship_views(r@) =~= seq![RelationshipView { other: "ellis"@, dimensions: seq!["trust"@, "affection"@, "suspicion"@, "familiarity"@] }, RelationshipView { other: "voss"@, dimensions: seq!["trust"@, "affection"@, "suspicion"@, "familiarity"@] }, RelationshipView { other: "nox"@, dimensions: seq!["trust"@, "affection"@, "suspicion"@, "familiarity"@] }]);
    r
}

fn character_mara() -> (r: Character)
    ensures
        r@ == default_characters()[0],
{
    let r = Character {
        id: text("mara"),
        display_name: text("Mara"),
        role: text("building superintendent"),
        color_hex: text("#4fa3ff"),
        personality: texts(&["exhausted", "pragmatic", "secretive"]),
        motivations: texts(&["keep the building running", "hide the impossible floor"]),
        fears: texts(&["inspections", "the elevator being traced"]),
        voice_id: text("mara"),
        emotion: texts(&["strained"]),
        current_goal: maybe(Some("complete the shift without revealing anomalies")),
        known_facts: texts(&["elevator_reaches_unknown_floor"]),
        believed_facts: texts(&["ellis_is_ordinary"]),
        relationships: mara_relationships(),
        allowed_actions: texts(&["move_to", "speak", "inspect", "conceal_object", "flicker_lights", "sigh", "gesture", "open", "close", "activate", "deactivate", "look_at"]),
        preferred_speech: maybe(Some("clipped, tired, deflecting")),
        home_location: maybe(Some("maintenance_room")),
    };
    assert(r@ =~= default_characters()[0]);
    r
}

fn character_ellis() -> (r: Character)
    ensures
        r@ == default_characters()[1],
{
    let r = Character {
        id: text("ellis"),
        display_name: text("Ellis"),
        role: text("excessively curious tenant"),
        color_hex: text("#ffd24f"),
        personality: texts(&["curious", "earnest", "unlucky"]),
        motivations: texts(&["understand the building"]),
        fears: texts(&["missing something important"]),
        voice_id: text("ellis"),
        emotion: texts(&["eager"]),
        current_goal: maybe(Some("investigate the strange elevator")),
        known_facts: texts(&[]),
        believed_facts: texts(&["building_is_normal"]),
        relationships: Vec::new(),
        allowed_actions: texts(&["move_to", "speak", "inspect", "knock_on", "pick_up", "point_at", "whisper", "react", "look_at", "open", "enter_room"]),
        preferred_speech: maybe(Some("rapid, full of questions")),
        home_location: maybe(Some("apartment_3b")),
    };
    assert(r@ =~= default_characters()[1]);
    r
}

fn character_voss() -> (r: Character)
    ensures
        r@ == default_characters()[2],
{
    let r = Character {
        id: text("voss"),
        display_name: text("Inspector Voss"),
        role: text("bureaucratic inspector"),
        color_hex: text("#ff6b6b"),
        personality: texts(&["pedantic", "rule-bound", "unshakeable"]),
        motivations: texts(&["cite every violation"]),
        fears: texts(&["being wrong on record"]),
        voice_id: text("voss"),
        emotion: texts(&["neutral"]),
        current_goal: maybe(Some("find a code violation")),
        known_facts: texts(&[]),
        believed_facts: texts(&["all_floors_are_documented"]),
        relationships: Vec::new(),
        allowed_actions: texts(&["move_to", "speak", "inspect", "point_at", "write_note", "react", "look_at", "open", "ring_alarm"]),
        preferred_speech: maybe(Some("formal, citation-heavy")),
        home_location: maybe(None),
    };
    assert(r@ =~= default_characters()[2]);
    r
}

fn character_nox() -> (r: Character)
    ensures
        r@ == default_characters()[3],
{
    let r = Character {
        id: text("nox"),
        display_name: text("Nox"),
        role: text("tenant who may not be human"),
        color_hex: text("#9b6bff"),
        personality: texts(&["placid", "uncanny", "helpful"]),
        motivations: texts(&["observe"]),
        fears: texts(&[]),
        voice_id: text("nox"),
        emotion: texts(&["serene"]),
        current_goal: maybe(Some("remain unnoticed")),
        known_facts: texts(&["elevator_reaches_unknown_floor"]),
        believed_facts: texts(&["mara_knows"]),
        relationships: Vec::new(),
        allowed_actions: texts(&["move_to", "speak", "react", "look_at", "flicker_lights", "conceal_object", "pause", "gesture"]),
        preferred_speech: maybe(Some("calm, slightly delayed")),
        home_location: maybe(Some("apartment_4a")),
    };
    assert(r@ =~= default_characters()[3]);
    r
}

fn location_floor_3_hallway() -> (r: Location)
    ensures
        r@ == default_locations()[0],
{
    let r = Location {
        id: text("floor_3_hallway"),
        name: text("Third-Floor Hallway"),
        description: text("Narrow hallway with an elevator, three apartment doors, a maintenance panel and a light that flickers when it disagrees with you."),
        tags: texts(&["hallway", "primary"]),
        staging_marks: marks(&["hall_center", "elevator_door", "apt_3b_door", "apt_4a_door", "maintenance_panel", "panel_stand"]),
        camera_anchors: anchors(&["hall_wide", "hall_elevator", "hall_panel"]),
        available_interactions: texts(&["use_elevator", "open_maintenance_panel", "knock_on_doors", "control_hallway_lights"]),
        room_state: text("normal"),
    };
    assert(r@ =~= default_locations()[0]);
    r
}

fn location_apartment_3b() -> (r: Location)
    ensures
        r@ == default_locations()[1],
{
    let r = Location {
        id: text("apartment_3b"),
        name: text("Apartment 3B"),
        description: text("Apartment 3B, a small but opinionated room."),
        tags: texts(&["apartment"]),
        staging_marks: marks(&["apartment_3b_door", "apartment_3b_center"]),
        camera_anchors: anchors(&["apartment_3b_wide"]),
        available_interactions: texts(&["enter_room", "inspect"]),
        room_state: text("normal"),
    };
    assert(r@ =~= default_locations()[1]);
    r
}

fn location_apartment_4a() -> (r: Location)
    ensures
        r@ == default_locations()[2],
{
    let r = Location {
        id: text("apartment_4a"),
        name: text("Apartment 4A"),
        description: text("Apartment 4A, a small but opinionated room."),
        tags: texts(&["apartment"]),
        staging_marks: marks(&["apartment_4a_door", "apartment_4a_center"]),
        camera_anchors: anchors(&["apartment_4a_wide"]),
        available_interactions: texts(&["enter_room", "inspect"]),
        room_state: text("normal"),
    };
    assert(r@ =~= default_locations()[2]);
    r
}

fn location_maintenance_room() -> (r: Location)
    ensures
        r@ == default_locations()[3],
{
    let r = Location {
        id: text("maintenance_room"),
        name: text("Maintenance Room"),
        description: text("Maintenance Room, a small but opinionated room."),
        tags: texts(&["apartment"]),
        staging_marks: marks(&["maintenance_room_door", "maintenance_room_center"]),
        camera_anchors: anchors(&["maintenance_room_wide"]),
        available_interactions: texts(&["enter_room", "inspect"]),
        room_state: text("normal"),
    };
    assert(r@ =~= default_locations()[3]);
    r
}

fn default_prop_list() -> (r: Vec<Prop>)
    ensures
        r@.len() == default_props().len(),
        forall|k: int| 0 <= k < r@.len() ==> #[trigger] r@[k]@ == default_props()[k],
{
    let mut r: Vec<Prop> = Vec::new();
    let p = Prop { id: text("elevator"), name: text("Elevator"), location_id: text("floor_3_hallway"), capabilities: texts(&["ride", "open", "reach_unknown_floor"]), owner: None, home_mark: text("elevator_door"), story_state: text("idle") };
    assert(p@ =~= default_props()[0]);
    r.push(p);
    let p = Prop { id: text("elevator_indicator"), name: text("Elevator Indicator"), location_id: text("floor_3_hallway"), capabilities: texts(&["display_symbol"]), owner: None, home_mark: text("elevator_door"), story_state: text("idle") };
    assert(p@ =~= default_props()[1]);
    r.push(p);
    let p = Prop { id: text("elevator_doors"), name: text("Elevator Doors"), location_id: text("floor_3_hallway"), capabilities: texts(&["open", "close"]), owner: None, home_mark: text("elevator_door"), story_state: text("idle") };
    assert(p@ =~= default_props()[2]);
    r.push(p);
    let p = Prop { id: text("elevator_panel"), name: text("Elevator Control Panel"), location_id: text("floor_3_hallway"), capabilities: texts(&["activate", "inspect"]), owner: None, home_mark: text("elevator_door"), story_state: text("idle") };
    assert(p@ =~= default_props()[3]);
    r.push(p);
    let p = Prop { id: text("elevator_control_panel"), name: text("Elevator Control Panel"), location_id: text("floor_3_hallway"), capabilities: texts(&["activate", "inspect"]), owner: None, home_mark: text("panel_stand"), story_state: text("idle") };
    assert(p@ =~= default_props()[4]);
    r.push(p);
    let p = Prop { id: text("elevator_frame"), name: text("Elevator Frame"), location_id: text("floor_3_hallway"), capabilities: texts(&["inspect"]), owner: None, home_mark: text("elevator_door"), story_state: text("idle") };
    assert(p@ =~= default_props()[5]);
    r.push(p);
    let p = Prop { id: text("control_panel"), name: text("Elevator Control Panel (alias)"), location_id: text("floor_3_hallway"), capabilities: texts(&["activate", "inspect"]), owner: None, home_mark: text("maintenance_panel"), story_state: text("idle") };
    assert(p@ =~= default_props()[6]);
    r.push(p);
    let p = Prop { id: text("maintenance_panel"), name: text("Maintenance Panel"), location_id: text("floor_3_hallway"), capabilities: texts(&["open", "activate", "inspect"]), owner: None, home_mark: text("maintenance_panel"), story_state: text("idle") };
    assert(p@ =~= default_props()[7]);
    r.push(p);
    let p = Prop { id: text("hallway_light"), name: text("Hallway Light"), location_id: text("floor_3_hallway"), capabilities: texts(&["flicker"]), owner: None, home_mark: text("hall_center"), story_state: text("idle") };
    assert(p@ =~= default_props()[8]);
    r.push(p);
    let p = Prop { id: text("maintenance_override_key"), name: text("Maintenance Override Key"), location_id: text("maintenance_room"), capabilities: texts(&["conceal", "reveal"]), owner: None, home_mark: text("maintenance_room_center"), story_state: text("idle") };
    assert(p@ =~= default_props()[9]);
    r.push(p);
    let p = Prop { id: text("inspection_clipboard"), name: text("Inspection Clipboard"), location_id: text("floor_3_hallway"), capabilities: texts(&["write", "cite"]), owner: None, home_mark: text("hall_center"), story_state: text("idle") };
    assert(p@ =~= default_props()[10]);
    r.push(p);
    let p = Prop { id: text("flickering_light"), name: text("Flickering Light"), location_id: text("floor_3_hallway"), capabilities: texts(&["flicker"]), owner: None, home_mark: text("hall_center"), story_state: text("idle") };
    assert(p@ =~= default_props()[11]);
    r.push(p);
    let p = Prop { id: text("strange_plant"), name: text("Strange Plant"), location_id: text("apartment_4a"), capabilities: texts(&["observer", "uncanny"]), owner: None, home_mark: text("apartment_4a_center"), story_state: text("idle") };
    assert(p@ =~= default_props()[12]);
    r.push(p);
    r
}

fn default_thread_list() -> (r: Vec<StoryThread>)
    ensures
        r@.len() == default_threads().len(),
        forall|k: int| 0 <= k < r@.len() ==> #[trigger] r@[k]@ == default_threads()[k],
{
    let mut r: Vec<StoryThread> = Vec::new();
    let t = StoryThread { id: text("unknown_floor"), summary: text("The elevator intermittently reaches a floor absent from building records."), characters: texts(&["mara", "ellis", "nox"]), locations: texts(&["floor_3_hallway"]), age: 0, last_episode: None, resolutions: texts(&["seal the elevator", "document the floor"]), may_ignore: false, protected: false };
    assert(t@ =~= default_threads()[0]);
    r.push(t);
    let t = StoryThread { id: text("missing_tenant"), summary: text("Apartment 4A is occupied by someone who is never seen leaving."), characters: texts(&["nox", "ellis"]), locations: texts(&["apartment_4a"]), age: 0, last_episode: None, resolutions: texts(&["confront nox"]), may_ignore: true, protected: false };
    assert(t@ =~= default_threads()[1]);
    r.push(t);
    let t = StoryThread { id: text("inspection"), summary: text("Inspector Voss is conducting a building inspection that could expose anomalies."), characters: texts(&["voss", "mara"]), locations: texts(&["floor_3_hallway"]), age: 0, last_episode: None, resolutions: texts(&["pass inspection", "delay inspection"]), may_ignore: false, protected: false };
    assert(t@ =~= default_threads()[2]);
    r.push(t);
    r
}

/// The initial surreal apartment-building setting.
pub fn build_default_world() -> (r: WorldState)
    ensures
        r@ == default_world(),
{
    let mut characters: Vec<Character> = Vec::new();
    characters.push(character_mara());
    characters.push(character_ellis());
    characters.push(character_voss());
    characters.push(character_nox());
    let mut locations: Vec<Location> = Vec::new();
    locations.push(location_floor_3_hallway());
    locations.push(location_apartment_3b());
    locations.push(location_apartment_4a());
    locations.push(location_maintenance_room());
    let r = WorldState {
        characters,
        locations,
        props: default_prop_list(),
        threads: default_thread_list(),
        canonical_facts: texts(&["mara_is_superintendent", "ellis_lives_in_3b", "elevator_reaches_unknown_floor"]),
        episode_count: 0,
    };
    assert(r@ =~= default_world());
    r
}

impl Default for WorldState {
    fn default() -> (r: Self)
        ensures
            r@ == default_world(),
    {
        build_default_world()
    }
}

/// Every prop stands in a room of the world, at one of that room's staging
/// marks.
pub open spec fn props_are_staged(w: WorldView) -> bool {
    forall|i: int|
        #![trigger w.props[i]]
        0 <= i < w.props.len() ==> exists|j: int|
            0 <= j < w.locations.len() && #[trigger] w.locations[j].id == w.props[i].location_id
                && w.locations[j].staging_marks.contains(w.props[i].home_mark)
}

/// Every home location, and every character and room a thread involves,
/// exists in the world.
pub open spec fn references_resolve(w: WorldView) -> bool {
    let cids = Seq::new(w.characters.len(), |i: int| w.characters[i].id);
    let lids = Seq::new(w.locations.len(), |i: int| w.locations[i].id);
    &&& forall|i: int|
        #![trigger w.characters[i]]
        0 <= i < w.characters.len() && w.characters[i].home_location is Some ==> lids.contains(
            w.characters[i].home_location->0,
        )
    &&& forall|i: int, k: int|
        #![trigger w.threads[i].characters[k]]
        0 <= i < w.threads.len() && 0 <= k < w.threads[i].characters.len() ==> cids.contains(
            w.threads[i].characters[k],
        )
    &&& forall|i: int, k: int|
        #![trigger w.threads[i].locations[k]]
        0 <= i < w.threads.len() && 0 <= k < w.threads[i].locations.len() ==> lids.contains(
            w.threads[i].locations[k],
        )
}

/// The ids of each kind of entity are distinct.
pub open spec fn ids_distinct(w: WorldView) -> bool {
    &&& Seq::new(w.characters.len(), |i: int| w.characters[i].id).no_duplicates()
    &&& Seq::new(w.locations.len(), |i: int| w.locations[i].id).no_duplicates()
    &&& Seq::new(w.props.len(), |i: int| w.props[i].id).no_duplicates()
    &&& Seq::new(w.threads.len(), |i: int| w.threads[i].id).no_duplicates()
}

/// The initial world is consistent: ids are distinct within each kind, every
/// prop rests at a real staging mark of its room, and every reference to a
/// character or room resolves.
pub proof fn default_world_is_consistent()
    ensures
        ids_distinct(default_world()),
        props_are_staged(default_world()),
        references_resolve(default_world()),
{
    let w = default_world();
    reveal_strlit("apartment_3b");
    reveal_strlit("apartment_3b_center");
    reveal_strlit("apartment_3b_door");
    reveal_strlit("apartment_4a");
    reveal_strlit("apartment_4a_center");
    reveal_strlit("apartment_4a_door");
    reveal_strlit("apt_3b_door");
    reveal_strlit("apt_4a_door");
    reveal_strlit("control_panel");
    reveal_strlit("elevator");
    reveal_strlit("elevator_control_panel");
    reveal_strlit("elevator_door");
    reveal_strlit("elevator_doors");
    reveal_strlit("elevator_frame");
    reveal_strlit("elevator_indicator");
    reveal_strlit("elevator_panel");
    reveal_strlit("ellis");
    reveal_strlit("flickering_light");
    reveal_strlit("floor_3_hallway");
    reveal_strlit("hall_center");
    reveal_strlit("hallway_light");
    reveal_strlit("inspection");
    reveal_strlit("inspection_clipboard");
    reveal_strlit("maintenance_override_key");
    reveal_strlit("maintenance_panel");
    reveal_strlit("maintenance_room");
    reveal_strlit("maintenance_room_center");
    reveal_strlit("maintenance_room_door");
    reveal_strlit("mara");
    reveal_strlit("missing_tenant");
    reveal_strlit("nox");
    reveal_strlit("panel_stand");
    reveal_strlit("strange_plant");
    reveal_strlit("unknown_floor");
    reveal_strlit("voss");
    let cids = Seq::new(w.characters.len(), |i: int| w.characters[i].id);
    let lids = Seq::new(w.locations.len(), |i: int| w.locations[i].id);
    let pids = Seq::new(w.props.len(), |i: int| w.props[i].id);
    let tids = Seq::new(w.threads.len(), |i: int| w.threads[i].id);
    assert(cids =~= seq!["mara"@, "ellis"@, "voss"@, "nox"@]);
    assert(lids =~= seq!["floor_3_hallway"@, "apartment_3b"@, "apartment_4a"@, "maintenance_room"@]);
    assert(pids =~= seq!["elevator"@, "elevator_indicator"@, "elevator_doors"@, "elevator_panel"@, "elevator_control_panel"@, "elevator_frame"@, "control_panel"@, "maintenance_panel"@, "hallway_light"@, "maintenance_override_key"@, "inspection_clipboard"@, "flickering_light"@, "strange_plant"@]);
    assert(tids =~= seq!["unknown_floor"@, "missing_tenant"@, "inspection"@]);
    assert(cids[0].len() != cids[1].len());
    assert(cids[0][0] != cids[2][0]);
    assert(cids[0].len() != cids[3].len());
    assert(cids[1].len() != cids[2].len());
    assert(cids[1].len() != cids[3].len());
    assert(cids[2].len() != cids[3].len());
    assert(lids[0].len() != lids[1].len());
    assert(lids[0].len() != lids[2].len());
    assert(lids[0].len() != lids[3].len());
    assert(lids[1][10] != lids[2][10]);
    assert(lids[1].len() != lids[3].len());
    assert(lids[2].len() != lids[3].len());
    assert(pids[0].len() != pids[1].len());
    assert(pids[0].len() != pids[2].len());
    assert(pids[0].len() != pids[3].len());
    assert(pids[0].len() != pids[4].len());
    assert(pids[0].len() != pids[5].len());
    assert(pids[0].len() != pids[6].len());
    assert(pids[0].len() != pids[7].len());
    assert(pids[0].len() != pids[8].len());
    assert(pids[0].len() != pids[9].len());
    assert(pids[0].len() != pids[10].len());
    assert(pids[0].len() != pids[11].len());
    assert(pids[0].len() != pids[12].len());
    assert(pids[1].len() != pids[2].len());
    assert(pids[1].len() != pids[3].len());
    assert(pids[1].len() != pids[4].len());
    assert(pids[1].len() != pids[5].len());
    assert(pids[1].len() != pids[6].len());
    assert(pids[1].len() != pids[7].len());
    assert(pids[1].len() != pids[8].len());
    assert(pids[1].len() != pids[9].len());
    assert(pids[1].len() != pids[10].len());
    assert(pids[1].len() != pids[11].len());
    assert(pids[1].len() != pids[12].len());
    assert(pids[2][9] != pids[3][9]);
    assert(pids[2].len() != pids[4].len());
    assert(pids[2][9] != pids[5][9]);
    assert(pids[2].len() != pids[6].len());
    assert(pids[2].len() != pids[7].len());
    assert(pids[2].len() != pids[8].len());
    assert(pids[2].len() != pids[9].len());
    assert(pids[2].len() != pids[10].len());
    assert(pids[2].len() != pids[11].len());
    assert(pids[2].len() != pids[12].len());
    assert(pids[3].len() != pids[4].len());
    assert(pids[3][9] != pids[5][9]);
    assert(pids[3].len() != pids[6].len());
    assert(pids[3].len() != pids[7].len());
    assert(pids[3].len() != pids[8].len());
    assert(pids[3].len() != pids[9].len());
    assert(pids[3].len() != pids[10].len());
    assert(pids[3].len() != pids[11].len());
    assert(pids[3].len() != pids[12].len());
    assert(pids[4].len() != pids[5].len());
    assert(pids[4].len() != pids[6].len());
    assert(pids[4].len() != pids[7].len());
    assert(pids[4].len() != pids[8].len());
    assert(pids[4].len() != pids[9].len());
    assert(pids[4].len() != pids[10].len());
    assert(pids[4].len() != pids[11].len());
    assert(pids[4].len() != pids[12].len());
    assert(pids[5].len() != pids[6].len());
    assert(pids[5].len() != pids[7].len());
    assert(pids[5].len() != pids[8].len());
    assert(pids[5].len() != pids[9].len());
    assert(pids[5].len() != pids[10].len());
    assert(pids[5].len() != pids[11].len());
    assert(pids[5].len() != pids[12].len());
    assert(pids[6].len() != pids[7].len());
    assert(pids[6][0] != pids[8][0]);
    assert(pids[6].len() != pids[9].len());
    assert(pids[6].len() != pids[10].len());
    assert(pids[6].len() != pids[11].len());
    assert(pids[6][0] != pids[12][0]);
    assert(pids[7].len() != pids[8].len());
    assert(pids[7].len() != pids[9].len());
    assert(pids[7].len() != pids[10].len());
    assert(pids[7].len() != pids[11].len());
    assert(pids[7].len() != pids[12].len());
    assert(pids[8].len() != pids[9].len());
    assert(pids[8].len() != pids[10].len());
    assert(pids[8].len() != pids[11].len());
    assert(pids[8][0] != pids[12][0]);
    assert(pids[9].len() != pids[10].len());
    assert(pids[9].len() != pids[11].len());
    assert(pids[9].len() != pids[12].len());
    assert(pids[10].len() != pids[11].len());
    assert(pids[10].len() != pids[12].len());
    assert(pids[11].len() != pids[12].len());
    assert(tids[0].len() != tids[1].len());
    assert(tids[0].len() != tids[2].len());
    assert(tids[1].len() != tids[2].len());
    assert forall|i: int| #![trigger w.props[i]] 0 <= i < w.props.len() implies exists|j: int| 0 <= j < w.locations.len() && #[trigger] w.locations[j].id == w.props[i].location_id && w.locations[j].staging_marks.contains(w.props[i].home_mark) by {
        if i == 0 {
            assert(w.locations[0].staging_marks[1] == w.props[0].home_mark);
            assert(w.locations[0].id == w.props[0].location_id);
        } else if i == 1 {
            assert(w.locations[0].staging_marks[1] == w.props[1].home_mark);
            assert(w.locations[0].id == w.props[1].location_id);
        } else if i == 2 {
            assert(w.locations[0].staging_marks[1] == w.props[2].home_mark);
            assert(w.locations[0].id == w.props[2].location_id);
        } else if i == 3 {
            assert(w.locations[0].staging_marks[1] == w.props[3].home_mark);
            assert(w.locations[0].id == w.props[3].location_id);
        } else if i == 4 {
            assert(w.locations[0].staging_marks[5] == w.props[4].home_mark);
            assert(w.locations[0].id == w.props[4].location_id);
        } else if i == 5 {
            assert(w.locations[0].staging_marks[1] == w.props[5].home_mark);
            assert(w.locations[0].id == w.props[5].location_id);
        } else if i == 6 {
            assert(w.locations[0].staging_marks[4] == w.props[6].home_mark);
            assert(w.locations[0].id == w.props[6].location_id);
        } else if i == 7 {
            assert(w.locations[0].staging_marks[4] == w.props[7].home_mark);
            assert(w.locations[0].id == w.props[7].location_id);
        } else if i == 8 {
            assert(w.locations[0].staging_marks[0] == w.props[8].home_mark);
            assert(w.locations[0].id == w.props[8].location_id);
        } else if i == 9 {
            assert(w.locations[3].staging_marks[1] == w.props[9].home_mark);
            assert(w.locations[3].id == w.props[9].location_id);
        } else if i == 10 {
            assert(w.locations[0].staging_marks[0] == w.props[10].home_mark);
            assert(w.locations[0].id == w.props[10].location_id);
        } else if i == 11 {
            assert(w.locations[0].staging_marks[0] == w.props[11].home_mark);
            assert(w.locations[0].id == w.props[11].location_id);
        } else if i == 12 {
            assert(w.locations[2].staging_marks[1] == w.props[12].home_mark);
            assert(w.locations[2].id == w.props[12].location_id);
        }
    }
    assert forall|i: int| #![trigger w.characters[i]] 0 <= i < w.characters.len() && w.characters[i].home_location is Some implies lids.contains(w.characters[i].home_location->0) by {
        if i == 0 {
            assert(lids[3] == w.characters[0].home_location->0);
        } else if i == 1 {
            assert(lids[1] == w.characters[1].home_location->0);
        } else if i == 3 {
            assert(lids[2] == w.characters[3].home_location->0);
        }
    }
    assert forall|i: int, k: int| #![trigger w.threads[i].characters[k]] 0 <= i < w.threads.len() && 0 <= k < w.threads[i].characters.len() implies cids.contains(w.threads[i].characters[k]) by {
        if i == 0 && k == 0 {
            assert(cids[0] == w.threads[0].characters[0]);
        } else if i == 0 && k == 1 {
            assert(cids[1] == w.threads[0].characters[1]);
        } else if i == 0 && k == 2 {
            assert(cids[3] == w.threads[0].characters[2]);
        } else if i == 1 && k == 0 {
            assert(cids[3] == w.threads[1].characters[0]);
        } else if i == 1 && k == 1 {
            assert(cids[1] == w.threads[1].characters[1]);
        } else if i == 2 && k == 0 {
            assert(cids[2] == w.threads[2].characters[0]);
        } else if i == 2 && k == 1 {
            assert(cids[0] == w.threads[2].characters[1]);
        }
    }
    assert forall|i: int, k: int| #![trigger w.threads[i].locations[k]] 0 <= i < w.threads.len() && 0 <= k < w.threads[i].locations.len() implies lids.contains(w.threads[i].locations[k]) by {
        if i == 0 && k == 0 {
            assert(lids[0] == w.threads[0].locations[0]);
        } else if i == 1 && k == 0 {
            assert(lids[2] == w.threads[1].locations[0]);
        } else if i == 2 && k == 0 {
            assert(lids[0] == w.threads[2].locations[0]);
        }
    }
}

/// In the default world every relationship names another resident: never
/// the character itself, always one of the world's characters.
pub proof fn default_relationships_name_other_residents()
    ensures
        forall|c: int, k: int|
            0 <= c < default_world().characters.len() && 0 <= k < default_world().characters[c].relationships.len()
                ==> {
                let other = (#[trigger] default_world().characters[c].relationships[k]).other;
                &&& other != default_world().characters[c].id
                &&& exists|j: int|
                    0 <= j < default_world().characters.len() && default_world().characters[j].id
                        == other
            },
{
    let cs = default_world().characters;
    assert forall|c: int, k: int|
        0 <= c < cs.len() && 0 <= k < cs[c].relationships.len() implies {
        let other = (#[trigger] cs[c].relationships[k]).other;
        &&& other != cs[c].id
        &&& exists|j: int| 0 <= j < cs.len() && cs[j].id == other
    } by {
        reveal_strlit("mara");
        reveal_strlit("ellis");
        reveal_strlit("voss");
        reveal_strlit("nox");
        assert("mara"@.len() == 4 && "ellis"@.len() == 5 && "voss"@.len() == 4 && "nox"@.len() == 3);
        assert("mara"@[0] != "voss"@[0]);
        assert(c == 0);
        if k == 0 {
            assert(cs[1].id == cs[c].relationships[k].other);
        } else if k == 1 {
            assert(cs[2].id == cs[c].relationships[k].other);
        } else {
            assert(cs[3].id == cs[c].relationships[k].other);
        }
    }
}

} // verus!

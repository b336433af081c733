//! Motion semantics: how an action token is classified, which motion clip
//! semantic performs it, and which native performance state plays it.
use vstd::prelude::*;

use crate::avatar::PerformanceState;
use crate::protocol::{known_actions, str_in};
use crate::text::{append_str, chars_of, str_eq, str_views, string_of};

verus! {

/// The broad kind of an action, which decides how it is staged.
#[derive(Debug, Clone, Copy, PartialEq, Eq, Structural)]
pub enum ActionKind {
    Move,
    Speak,
    React,
    Gesture,
    Point,
    Look,
    Listen,
    Interact,
    Environment,
    Narrative,
    Unknown,
}

/// Actions of kind `Move`.
pub open spec fn move_actions() -> Seq<Seq<char>> {
    seq![
        "move_to"@,
        "approach"@,
        "retreat_from"@,
        "follow"@,
        "flee_to"@,
        "enter_room"@,
        "exit_room"@,
    ]
}

fn move_actions_list() -> (r: Vec<&'static str>)
    ensures
        str_views(r@) == move_actions(),
{
    let mut r: Vec<&'static str> = Vec::new();
    r.push("move_to");
    r.push("approach");
    r.push("retreat_from");
    r.push("follow");
    r.push("flee_to");
    r.push("enter_room");
    r.push("exit_room");
    assert(str_views(r@) =~= move_actions());
    r
}

/// Actions of kind `Speak`.
pub open spec fn speak_actions() -> Seq<Seq<char>> {
    seq![
        "speak"@,
        "whisper"@,
        "shout"@,
    ]
}

fn speak_actions_list() -> (r: Vec<&'static str>)
    ensures
        str_views(r@) == speak_actions(),
{
    let mut r: Vec<&'static str> = Vec::new();
    r.push("speak");
    r.push("whisper");
    r.push("shout");
    assert(str_views(r@) =~= speak_actions());
    r
}

/// Actions of kind `React`.
pub open spec fn react_actions() -> Seq<Seq<char>> {
    seq![
        "react"@,
        "laugh"@,
        "sigh"@,
        "display_emotion"@,
        "conceal_emotion"@,
        "interrupt"@,
    ]
}

fn react_actions_list() -> (r: Vec<&'static str>)
    ensures
        str_views(r@) == react_actions(),
{
    let mut r: Vec<&'static str> = Vec::new();
    r.push("react");
    r.push("laugh");
    r.push("sigh");
    r.push("display_emotion");
    r.push("conceal_emotion");
    r.push("interrupt");
    assert(str_views(r@) =~= react_actions());
    r
}

/// Actions of kind `Gesture`.
pub open spec fn gesture_actions() -> Seq<Seq<char>> {
    seq![
        "gesture"@,
    ]
}

fn gesture_actions_list() -> (r: Vec<&'static str>)
    ensures
        str_views(r@) == gesture_actions(),
{
    let mut r: Vec<&'static str> = Vec::new();
    r.push("gesture");
    assert(str_views(r@) =~= gesture_actions());
    r
}

/// Actions of kind `Point`.
pub open spec fn point_actions() -> Seq<Seq<char>> {
    seq![
        "point_at"@,
    ]
}

fn point_actions_list() -> (r: Vec<&'static str>)
    ensures
        str_views(r@) == point_actions(),
{
    let mut r: Vec<&'static str> = Vec::new();
    r.push("point_at");
    assert(str_views(r@) =~= point_actions());
    r
}

/// Actions of kind `Look`.
pub open spec fn look_actions() -> Seq<Seq<char>> {
    seq![
        "look_at"@,
        "turn_toward"@,
    ]
}

fn look_actions_list() -> (r: Vec<&'static str>)
    ensures
        str_views(r@) == look_actions(),
{
    let mut r: Vec<&'static str> = Vec::new();
    r.push("look_at");
    r.push("turn_toward");
    assert(str_views(r@) =~= look_actions());
    r
}

/// Actions of kind `Listen`.
pub open spec fn listen_actions() -> Seq<Seq<char>> {
    seq![
        "pause"@,
    ]
}

fn listen_actions_list() -> (r: Vec<&'static str>)
    ensures
        str_views(r@) == listen_actions(),
{
    let mut r: Vec<&'static str> = Vec::new();
    r.push("pause");
    assert(str_views(r@) =~= listen_actions());
    r
}

/// Actions of kind `Interact`.
pub open spec fn interact_actions() -> Seq<Seq<char>> {
    seq![
        "pick_up"@,
        "put_down"@,
        "give"@,
        "take"@,
        "inspect"@,
        "open"@,
        "close"@,
        "activate"@,
        "deactivate"@,
        "hide_object"@,
        "reveal_object"@,
        "carry"@,
        "drop"@,
        "throw_safe"@,
        "knock_on"@,
        "conceal_object"@,
        "sit_at"@,
        "stand_at"@,
        "write_note"@,
    ]
}

fn interact_actions_list() -> (r: Vec<&'static str>)
    ensures
        str_views(r@) == interact_actions(),
{
    let mut r: Vec<&'static str> = Vec::new();
    r.push("pick_up");
    r.push("put_down");
    r.push("give");
    r.push("take");
    r.push("inspect");
    r.push("open");
    r.push("close");
    r.push("activate");
    r.push("deactivate");
    r.push("hide_object");
    r.push("reveal_object");
    r.push("carry");
    r.push("drop");
    r.push("throw_safe");
    r.push("knock_on");
    r.push("conceal_object");
    r.push("sit_at");
    r.push("stand_at");
    r.push("write_note");
    assert(str_views(r@) =~= interact_actions());
    r
}

/// Actions of kind `Environment`.
pub open spec fn environment_actions() -> Seq<Seq<char>> {
    seq![
        "flicker_lights"@,
        "cut_power"@,
        "ring_alarm"@,
        "open_elevator"@,
        "close_elevator"@,
        "spawn_authorized_prop"@,
        "move_authorized_prop"@,
        "change_room_state"@,
        "play_environment_effect"@,
        "trigger_safe_physics_event"@,
        "change_location_condition"@,
    ]
}

fn environment_actions_list() -> (r: Vec<&'static str>)
    ensures
        str_views(r@) == environment_actions(),
{
    let mut r: Vec<&'static str> = Vec::new();
    r.push("flicker_lights");
    r.push("cut_power");
    r.push("ring_alarm");
    r.push("open_elevator");
    r.push("close_elevator");
    r.push("spawn_authorized_prop");
    r.push("move_authorized_prop");
    r.push("change_room_state");
    r.push("play_environment_effect");
    r.push("trigger_safe_physics_event");
    r.push("change_location_condition");
    assert(str_views(r@) =~= environment_actions());
    r
}

/// Actions of kind `Narrative`.
pub open spec fn narrative_actions() -> Seq<Seq<char>> {
    seq![
        "add_fact"@,
        "remove_false_belief"@,
        "create_rumor"@,
        "resolve_thread"@,
        "create_thread"@,
        "change_relationship"@,
        "assign_secret"@,
        "schedule_future_event"@,
    ]
}

fn narrative_actions_list() -> (r: Vec<&'static str>)
    ensures
        str_views(r@) == narrative_actions(),
{
    let mut r: Vec<&'static str> = Vec::new();
    r.push("add_fact");
    r.push("remove_false_belief");
    r.push("create_rumor");
    r.push("resolve_thread");
    r.push("create_thread");
    r.push("change_relationship");
    r.push("assign_secret");
    r.push("schedule_future_event");
    assert(str_views(r@) =~= narrative_actions());
    r
}

/// The kind of an action token.
pub open spec fn action_kind_of(a: Seq<char>) -> ActionKind {
    if move_actions().contains(a) {
        ActionKind::Move
    } else if speak_actions().contains(a) {
        ActionKind::Speak
    } else if react_actions().contains(a) {
        ActionKind::React
    } else if gesture_actions().contains(a) {
        ActionKind::Gesture
    } else if point_actions().contains(a) {
        ActionKind::Point
    } else if look_actions().contains(a) {
        ActionKind::Look
    } else if listen_actions().contains(a) {
        ActionKind::Listen
    } else if interact_actions().contains(a) {
        ActionKind::Interact
    } else if environment_actions().contains(a) {
        ActionKind::Environment
    } else if narrative_actions().contains(a) {
        ActionKind::Narrative
    } else {
        ActionKind::Unknown
    }
}

/// Classify an action token.
pub fn action_kind(a: &str) -> (r: ActionKind)
    ensures
        r == action_kind_of(a@),
{
    if str_in(a, &move_actions_list()) {
        ActionKind::Move
    } else if str_in(a, &speak_actions_list()) {
        ActionKind::Speak
    } else if str_in(a, &react_actions_list()) {
        ActionKind::React
    } else if str_in(a, &gesture_actions_list()) {
        ActionKind::Gesture
    } else if str_in(a, &point_actions_list()) {
        ActionKind::Point
    } else if str_in(a, &look_actions_list()) {
        ActionKind::Look
    } else if str_in(a, &listen_actions_list()) {
        ActionKind::Listen
    } else if str_in(a, &interact_actions_list()) {
        ActionKind::Interact
    } else if str_in(a, &environment_actions_list()) {
        ActionKind::Environment
    } else if str_in(a, &narrative_actions_list()) {
        ActionKind::Narrative
    } else {
        ActionKind::Unknown
    }
}


/// The motion semantic that performs an action.
pub open spec fn semantic_of_action(a: Seq<char>) -> Seq<char> {
    match action_kind_of(a) {
        ActionKind::Move => "walk"@,
        ActionKind::Speak => "talk"@,
        ActionKind::React => if a == "laugh"@ {
            "laugh"@
        } else if a == "sigh"@ {
            "sigh"@
        } else {
            "reaction"@
        },
        ActionKind::Gesture => "talk_gesture"@,
        ActionKind::Point => "point"@,
        ActionKind::Look => "look"@,
        ActionKind::Listen => "listen"@,
        ActionKind::Interact => if a == "activate"@ {
            "panel_press"@
        } else if a == "inspect"@ {
            "panel_inspect"@
        } else if a == "open"@ || a == "close"@ {
            "reach_contact"@
        } else if a == "pick_up"@ || a == "take"@ {
            "pick_up"@
        } else if a == "give"@ || a == "put_down"@ {
            "hand_off"@
        } else {
            "interaction"@
        },
        ActionKind::Environment | ActionKind::Narrative => "idle"@,
        ActionKind::Unknown => "unmapped"@,
    }
}

/// The motion semantic that performs an action (`"unmapped"` for unknown tokens).
pub fn semantic_for_action(action: &str) -> (r: &'static str)
    ensures
        r@ == semantic_of_action(action@),
{
    match action_kind(action) {
        ActionKind::Move => "walk",
        ActionKind::Speak => "talk",
        ActionKind::React => if str_eq(action, "laugh") {
            "laugh"
        } else if str_eq(action, "sigh") {
            "sigh"
        } else {
            "reaction"
        },
        ActionKind::Gesture => "talk_gesture",
        ActionKind::Point => "point",
        ActionKind::Look => "look",
        ActionKind::Listen => "listen",
        ActionKind::Interact => if str_eq(action, "activate") {
            "panel_press"
        } else if str_eq(action, "inspect") {
            "panel_inspect"
        } else if str_eq(action, "open") || str_eq(action, "close") {
            "reach_contact"
        } else if str_eq(action, "pick_up") || str_eq(action, "take") {
            "pick_up"
        } else if str_eq(action, "give") || str_eq(action, "put_down") {
            "hand_off"
        } else {
            "interaction"
        },
        ActionKind::Environment | ActionKind::Narrative => "idle",
        ActionKind::Unknown => "unmapped",
    }
}

/// The native performance state that plays a motion semantic.
pub open spec fn native_state_of(semantic: Seq<char>) -> PerformanceState {
    if semantic == "walk"@ || semantic == "hurry"@ {
        PerformanceState::Walk
    } else if semantic == "talk"@ {
        PerformanceState::Talk
    } else if semantic == "listen"@ {
        PerformanceState::Listen
    } else if semantic == "look"@ {
        PerformanceState::Look
    } else if semantic == "point"@ {
        PerformanceState::Point
    } else if semantic == "reaction"@ || semantic == "laugh"@ || semantic == "sigh"@ {
        PerformanceState::React
    } else if semantic == "talk_gesture"@ {
        PerformanceState::Gesture
    } else {
        PerformanceState::Idle
    }
}

/// The native performance state that plays a motion semantic.
pub fn native_state_for_semantic(semantic: &str) -> (r: PerformanceState)
    ensures
        r == native_state_of(semantic@),
{
    if str_eq(semantic, "walk") || str_eq(semantic, "hurry") {
        PerformanceState::Walk
    } else if str_eq(semantic, "talk") {
        PerformanceState::Talk
    } else if str_eq(semantic, "listen") {
        PerformanceState::Listen
    } else if str_eq(semantic, "look") {
        PerformanceState::Look
    } else if str_eq(semantic, "point") {
        PerformanceState::Point
    } else if str_eq(semantic, "reaction") || str_eq(semantic, "laugh") || str_eq(semantic, "sigh") {
        PerformanceState::React
    } else if str_eq(semantic, "talk_gesture") {
        PerformanceState::Gesture
    } else {
        PerformanceState::Idle
    }
}

/// The generation prompt for a motion semantic.
pub open spec fn prompt_of(semantic: Seq<char>) -> Seq<char> {
    if semantic == "idle"@ {
        "A performer stands in a relaxed natural idle with stable planted feet, subtle breathing, small weight shifts, loose arms, and alert head movement, returning seamlessly to the initial stance."@
    } else if semantic == "walk"@ {
        "A performer walks forward naturally with confident heel-to-toe steps, relaxed arm swing, stable floor contact, and a clean balanced stop in neutral standing."@
    } else if semantic == "hurry"@ {
        "A performer moves forward in a quick urgent walk with controlled momentum, natural arm swing, stable foot contacts, and decelerates into balanced neutral standing."@
    } else if semantic == "turn"@ {
        "A performer anticipates, shifts weight, turns the whole body ninety degrees with natural footwork, settles both feet, and ends in relaxed neutral standing."@
    } else if semantic == "talk"@ || semantic == "talk_gesture"@ {
        "A performer speaks conversationally with grounded posture, natural asymmetric hand gestures, attentive head motion, small weight shifts, and lowers both arms back to relaxed neutral standing."@
    } else if semantic == "listen"@ {
        "A performer listens attentively with relaxed lowered arms, subtle breathing, a small weight shift, responsive head and torso movement, and remains in a natural neutral stance."@
    } else if semantic == "look"@ {
        "A performer notices something off to one side, leads with the eyes and head, turns the upper torso slightly, holds the look, then returns naturally to neutral standing."@
    } else if semantic == "point"@ {
        "A performer anticipates, raises one arm to point clearly at something ahead, holds the readable point briefly, lowers the arm completely, and returns to relaxed neutral standing."@
    } else if semantic == "reaction"@ {
        "A performer notices something impossible, recoils with a sharp full-body startle and backward weight shift, holds the reaction briefly, then recovers into wary neutral standing with lowered arms."@
    } else if semantic == "laugh"@ {
        "A performer gives a brief natural laugh through the chest and shoulders, gestures lightly with one hand, then settles with both arms lowered in neutral standing."@
    } else if semantic == "sigh"@ {
        "A performer exhales visibly, shoulders and chest drop, posture softens with a small weight shift, then returns to quiet neutral standing with lowered arms."@
    } else if semantic == "panel_press"@ {
        "A performer approaches a wall control panel, aligns the right shoulder, reaches with the right hand, presses one button, releases, lowers the arm, and returns to relaxed standing."@
    } else if semantic == "panel_inspect"@ {
        "A performer leans toward a wall control panel, examines the display closely, touches the panel carefully, recoils slightly, and returns to a neutral attentive stance."@
    } else if semantic == "pick_up"@ {
        "A performer steps to a small object, bends with stable feet, reaches, grasps it, rises, and settles into a balanced standing pose holding it."@
    } else if semantic == "hand_off"@ {
        "A performer presents a small object with one hand, waits for contact, releases it, withdraws the hand, and returns to a relaxed standing pose."@
    } else {
        "A performer executes "@ + semantic
            + " clearly, with anticipation, action, a brief readable hold, recovery, stable feet, and a neutral final pose."@
    }
}

/// The generation prompt for a motion semantic; unknown semantics get a
/// generic prompt naming them.
pub fn prompt_for_semantic(semantic: &str) -> (r: String)
    ensures
        r@ == prompt_of(semantic@),
{
    let lit: &str = if str_eq(semantic, "idle") {
        "A performer stands in a relaxed natural idle with stable planted feet, subtle breathing, small weight shifts, loose arms, and alert head movement, returning seamlessly to the initial stance."
    } else if str_eq(semantic, "walk") {
        "A performer walks forward naturally with confident heel-to-toe steps, relaxed arm swing, stable floor contact, and a clean balanced stop in neutral standing."
    } else if str_eq(semantic, "hurry") {
        "A performer moves forward in a quick urgent walk with controlled momentum, natural arm swing, stable foot contacts, and decelerates into balanced neutral standing."
    } else if str_eq(semantic, "turn") {
        "A performer anticipates, shifts weight, turns the whole body ninety degrees with natural footwork, settles both feet, and ends in relaxed neutral standing."
    } else if str_eq(semantic, "talk") || str_eq(semantic, "talk_gesture") {
        "A performer speaks conversationally with grounded posture, natural asymmetric hand gestures, attentive head motion, small weight shifts, and lowers both arms back to relaxed neutral standing."
    } else if str_eq(semantic, "listen") {
        "A performer listens attentively with relaxed lowered arms, subtle breathing, a small weight shift, responsive head and torso movement, and remains in a natural neutral stance."
    } else if str_eq(semantic, "look") {
        "A performer notices something off to one side, leads with the eyes and head, turns the upper torso slightly, holds the look, then returns naturally to neutral standing."
    } else if str_eq(semantic, "point") {
        "A performer anticipates, raises one arm to point clearly at something ahead, holds the readable point briefly, lowers the arm completely, and returns to relaxed neutral standing."
    } else if str_eq(semantic, "reaction") {
        "A performer notices something impossible, recoils with a sharp full-body startle and backward weight shift, holds the reaction briefly, then recovers into wary neutral standing with lowered arms."
    } else if str_eq(semantic, "laugh") {
        "A performer gives a brief natural laugh through the chest and shoulders, gestures lightly with one hand, then settles with both arms lowered in neutral standing."
    } else if str_eq(semantic, "sigh") {
        "A performer exhales visibly, shoulders and chest drop, posture softens with a small weight shift, then returns to quiet neutral standing with lowered arms."
    } else if str_eq(semantic, "panel_press") {
        "A performer approaches a wall control panel, aligns the right shoulder, reaches with the right hand, presses one button, releases, lowers the arm, and returns to relaxed standing."
    } else if str_eq(semantic, "panel_inspect") {
        "A performer leans toward a wall control panel, examines the display closely, touches the panel carefully, recoils slightly, and returns to a neutral attentive stance."
    } else if str_eq(semantic, "pick_up") {
        "A performer steps to a small object, bends with stable feet, reaches, grasps it, rises, and settles into a balanced standing pose holding it."
    } else if str_eq(semantic, "hand_off") {
        "A performer presents a small object with one hand, waits for contact, releases it, withdraws the hand, and returns to a relaxed standing pose."
    } else {
        let mut v = chars_of("A performer executes ");
        append_str(&mut v, semantic);
        append_str(
            &mut v,
            " clearly, with anticipation, action, a brief readable hold, recovery, stable feet, and a neutral final pose.",
        );
        return string_of(&v);
    };
    let v = chars_of(lit);
    string_of(&v)
}

/// Every action token a director may use has a motion kind, so none of them
/// resolves to the `unmapped` semantic.
pub proof fn known_actions_have_semantics(a: Seq<char>)
    requires
        known_actions().contains(a),
    ensures
        action_kind_of(a) != ActionKind::Unknown,
        semantic_of_action(a) != "unmapped"@,
{
    reveal_strlit("walk");
    reveal_strlit("talk");
    reveal_strlit("laugh");
    reveal_strlit("sigh");
    reveal_strlit("reaction");
    reveal_strlit("talk_gesture");
    reveal_strlit("point");
    reveal_strlit("look");
    reveal_strlit("listen");
    reveal_strlit("panel_press");
    reveal_strlit("panel_inspect");
    reveal_strlit("reach_contact");
    reveal_strlit("pick_up");
    reveal_strlit("hand_off");
    reveal_strlit("interaction");
    reveal_strlit("idle");
    reveal_strlit("unmapped");
    assert("reaction"@[0] != "unmapped"@[0]);
    let i = choose|i: int| 0 <= i < known_actions().len() && known_actions()[i] == a;
    if i == 0 {
        assert(move_actions()[0] == a);
    } else if i == 1 {
        assert(move_actions()[5] == a);
    } else if i == 2 {
        assert(move_actions()[6] == a);
    } else if i == 3 {
        assert(move_actions()[1] == a);
    } else if i == 4 {
        assert(move_actions()[2] == a);
    } else if i == 5 {
        assert(move_actions()[3] == a);
    } else if i == 6 {
        assert(move_actions()[4] == a);
    } else if i == 7 {
        assert(look_actions()[1] == a);
    } else if i == 8 {
        assert(look_actions()[0] == a);
    } else if i == 9 {
        assert(interact_actions()[16] == a);
    } else if i == 10 {
        assert(interact_actions()[17] == a);
    } else if i == 11 {
        assert(interact_actions()[0] == a);
    } else if i == 12 {
        assert(interact_actions()[1] == a);
    } else if i == 13 {
        assert(interact_actions()[2] == a);
    } else if i == 14 {
        assert(interact_actions()[3] == a);
    } else if i == 15 {
        assert(interact_actions()[4] == a);
    } else if i == 16 {
        assert(interact_actions()[5] == a);
    } else if i == 17 {
        assert(interact_actions()[6] == a);
    } else if i == 18 {
        assert(interact_actions()[7] == a);
    } else if i == 19 {
        assert(interact_actions()[8] == a);
    } else if i == 20 {
        assert(interact_actions()[9] == a);
    } else if i == 21 {
        assert(interact_actions()[10] == a);
    } else if i == 22 {
        assert(interact_actions()[11] == a);
    } else if i == 23 {
        assert(interact_actions()[12] == a);
    } else if i == 24 {
        assert(interact_actions()[13] == a);
    } else if i == 25 {
        assert(interact_actions()[14] == a);
    } else if i == 26 {
        assert(interact_actions()[15] == a);
    } else if i == 27 {
        assert(speak_actions()[0] == a);
    } else if i == 28 {
        assert(react_actions()[0] == a);
    } else if i == 29 {
        assert(gesture_actions()[0] == a);
    } else if i == 30 {
        assert(listen_actions()[0] == a);
    } else if i == 31 {
        assert(react_actions()[5] == a);
    } else if i == 32 {
        assert(react_actions()[1] == a);
    } else if i == 33 {
        assert(react_actions()[2] == a);
    } else if i == 34 {
        assert(speak_actions()[1] == a);
    } else if i == 35 {
        assert(speak_actions()[2] == a);
    } else if i == 36 {
        assert(point_actions()[0] == a);
    } else if i == 37 {
        assert(react_actions()[4] == a);
    } else if i == 38 {
        assert(react_actions()[3] == a);
    } else if i == 39 {
        assert(interact_actions()[18] == a);
    } else if i == 40 {
        assert(environment_actions()[0] == a);
    } else if i == 41 {
        assert(environment_actions()[1] == a);
    } else if i == 42 {
        assert(environment_actions()[2] == a);
    } else if i == 43 {
        assert(environment_actions()[3] == a);
    } else if i == 44 {
        assert(environment_actions()[4] == a);
    } else if i == 45 {
        assert(environment_actions()[5] == a);
    } else if i == 46 {
        assert(environment_actions()[6] == a);
    } else if i == 47 {
        assert(environment_actions()[7] == a);
    } else if i == 48 {
        assert(environment_actions()[8] == a);
    } else if i == 49 {
        assert(environment_actions()[9] == a);
    } else if i == 50 {
        assert(narrative_actions()[0] == a);
    } else if i == 51 {
        assert(narrative_actions()[1] == a);
    } else if i == 52 {
        assert(narrative_actions()[2] == a);
    } else if i == 53 {
        assert(narrative_actions()[3] == a);
    } else if i == 54 {
        assert(narrative_actions()[4] == a);
    } else if i == 55 {
        assert(narrative_actions()[5] == a);
    } else if i == 56 {
        assert(narrative_actions()[6] == a);
    } else if i == 57 {
        assert(narrative_actions()[7] == a);
    } else if i == 58 {
        assert(environment_actions()[10] == a);
    }
}

/// Every token a kind classifies is a known action.
proof fn lemma_classified_tokens_are_known()
    ensures
        forall|a: Seq<char>| action_kind_of(a) != ActionKind::Unknown ==> known_actions().contains(a),
{
    assert forall|j: int| 0 <= j < move_actions().len() implies known_actions().contains(#[trigger] move_actions()[j]) by {
        if j == 0 {
            assert(known_actions()[0] == move_actions()[0]);
        }
        if j == 1 {
            assert(known_actions()[3] == move_actions()[1]);
        }
        if j == 2 {
            assert(known_actions()[4] == move_actions()[2]);
        }
        if j == 3 {
            assert(known_actions()[5] == move_actions()[3]);
        }
        if j == 4 {
            assert(known_actions()[6] == move_actions()[4]);
        }
        if j == 5 {
            assert(known_actions()[1] == move_actions()[5]);
        }
        if j == 6 {
            assert(known_actions()[2] == move_actions()[6]);
        }
    }
    assert forall|j: int| 0 <= j < speak_actions().len() implies known_actions().contains(#[trigger] speak_actions()[j]) by {
        if j == 0 {
            assert(known_actions()[27] == speak_actions()[0]);
        }
        if j == 1 {
            assert(known_actions()[34] == speak_actions()[1]);
        }
        if j == 2 {
            assert(known_actions()[35] == speak_actions()[2]);
        }
    }
    assert forall|j: int| 0 <= j < react_actions().len() implies known_actions().contains(#[trigger] react_actions()[j]) by {
        if j == 0 {
            assert(known_actions()[28] == react_actions()[0]);
        }
        if j == 1 {
            assert(known_actions()[32] == react_actions()[1]);
        }
        if j == 2 {
            assert(known_actions()[33] == react_actions()[2]);
        }
        if j == 3 {
            assert(known_actions()[38] == react_actions()[3]);
        }
        if j == 4 {
            assert(known_actions()[37] == react_actions()[4]);
        }
        if j == 5 {
            assert(known_actions()[31] == react_actions()[5]);
        }
    }
    assert forall|j: int| 0 <= j < gesture_actions().len() implies known_actions().contains(#[trigger] gesture_actions()[j]) by {
        if j == 0 {
            assert(known_actions()[29] == gesture_actions()[0]);
        }
    }
    assert forall|j: int| 0 <= j < point_actions().len() implies known_actions().contains(#[trigger] point_actions()[j]) by {
        if j == 0 {
            assert(known_actions()[36] == point_actions()[0]);
        }
    }
    assert forall|j: int| 0 <= j < look_actions().len() implies known_actions().contains(#[trigger] look_actions()[j]) by {
        if j == 0 {
            assert(known_actions()[8] == look_actions()[0]);
        }
        if j == 1 {
            assert(known_actions()[7] == look_actions()[1]);
        }
    }
    assert forall|j: int| 0 <= j < listen_actions().len() implies known_actions().contains(#[trigger] listen_actions()[j]) by {
        if j == 0 {
            assert(known_actions()[30] == listen_actions()[0]);
        }
    }
    assert forall|j: int| 0 <= j < interact_actions().len() implies known_actions().contains(#[trigger] interact_actions()[j]) by {
        if j == 0 {
            assert(known_actions()[11] == interact_actions()[0]);
        }
        if j == 1 {
            assert(known_actions()[12] == interact_actions()[1]);
        }
        if j == 2 {
            assert(known_actions()[13] == interact_actions()[2]);
        }
        if j == 3 {
            assert(known_actions()[14] == interact_actions()[3]);
        }
        if j == 4 {
            assert(known_actions()[15] == interact_actions()[4]);
        }
        if j == 5 {
            assert(known_actions()[16] == interact_actions()[5]);
        }
        if j == 6 {
            assert(known_actions()[17] == interact_actions()[6]);
        }
        if j == 7 {
            assert(known_actions()[18] == interact_actions()[7]);
        }
        if j == 8 {
            assert(known_actions()[19] == interact_actions()[8]);
        }
        if j == 9 {
            assert(known_actions()[20] == interact_actions()[9]);
        }
        if j == 10 {
            assert(known_actions()[21] == interact_actions()[10]);
        }
        if j == 11 {
            assert(known_actions()[22] == interact_actions()[11]);
        }
        if j == 12 {
            assert(known_actions()[23] == interact_actions()[12]);
        }
        if j == 13 {
            assert(known_actions()[24] == interact_actions()[13]);
        }
        if j == 14 {
            assert(known_actions()[25] == interact_actions()[14]);
        }
        if j == 15 {
            assert(known_actions()[26] == interact_actions()[15]);
        }
        if j == 16 {
            assert(known_actions()[9] == interact_actions()[16]);
        }
        if j == 17 {
            assert(known_actions()[10] == interact_actions()[17]);
        }
        if j == 18 {
            assert(known_actions()[39] == interact_actions()[18]);
        }
    }
    assert forall|j: int| 0 <= j < environment_actions().len() implies known_actions().contains(#[trigger] environment_actions()[j]) by {
        if j == 0 {
            assert(known_actions()[40] == environment_actions()[0]);
        }
        if j == 1 {
            assert(known_actions()[41] == environment_actions()[1]);
        }
        if j == 2 {
            assert(known_actions()[42] == environment_actions()[2]);
        }
        if j == 3 {
            assert(known_actions()[43] == environment_actions()[3]);
        }
        if j == 4 {
            assert(known_actions()[44] == environment_actions()[4]);
        }
        if j == 5 {
            assert(known_actions()[45] == environment_actions()[5]);
        }
        if j == 6 {
            assert(known_actions()[46] == environment_actions()[6]);
        }
        if j == 7 {
            assert(known_actions()[47] == environment_actions()[7]);
        }
        if j == 8 {
            assert(known_actions()[48] == environment_actions()[8]);
        }
        if j == 9 {
            assert(known_actions()[49] == environment_actions()[9]);
        }
        if j == 10 {
            assert(known_actions()[58] == environment_actions()[10]);
        }
    }
    assert forall|j: int| 0 <= j < narrative_actions().len() implies known_actions().contains(#[trigger] narrative_actions()[j]) by {
        if j == 0 {
            assert(known_actions()[50] == narrative_actions()[0]);
        }
        if j == 1 {
            assert(known_actions()[51] == narrative_actions()[1]);
        }
        if j == 2 {
            assert(known_actions()[52] == narrative_actions()[2]);
        }
        if j == 3 {
            assert(known_actions()[53] == narrative_actions()[3]);
        }
        if j == 4 {
            assert(known_actions()[54] == narrative_actions()[4]);
        }
        if j == 5 {
            assert(known_actions()[55] == narrative_actions()[5]);
        }
        if j == 6 {
            assert(known_actions()[56] == narrative_actions()[6]);
        }
        if j == 7 {
            assert(known_actions()[57] == narrative_actions()[7]);
        }
    }
}

/// An action token is known exactly when it has a motion kind.
pub proof fn known_exactly_when_classified(a: Seq<char>)
    ensures
        known_actions().contains(a) <==> action_kind_of(a) != ActionKind::Unknown,
{
    lemma_classified_tokens_are_known();
    if known_actions().contains(a) {
        known_actions_have_semantics(a);
    }
}

/// An action resolves to the `unmapped` semantic exactly when it is not a
/// known action.
pub proof fn unmapped_exactly_when_unknown(a: Seq<char>)
    ensures
        semantic_of_action(a) == "unmapped"@ <==> !known_actions().contains(a),
{
    reveal_strlit("walk");
    reveal_strlit("talk");
    reveal_strlit("laugh");
    reveal_strlit("sigh");
    reveal_strlit("reaction");
    reveal_strlit("talk_gesture");
    reveal_strlit("point");
    reveal_strlit("look");
    reveal_strlit("listen");
    reveal_strlit("panel_press");
    reveal_strlit("panel_inspect");
    reveal_strlit("reach_contact");
    reveal_strlit("pick_up");
    reveal_strlit("hand_off");
    reveal_strlit("interaction");
    reveal_strlit("idle");
    reveal_strlit("unmapped");
    reveal_strlit("hurry");
    assert("walk"@[0] != "talk"@[0]);
    assert("walk"@[0] != "sigh"@[0]);
    assert("walk"@[0] != "look"@[0]);
    assert("walk"@[0] != "idle"@[0]);
    assert("talk"@[0] != "sigh"@[0]);
    assert("talk"@[0] != "look"@[0]);
    assert("talk"@[0] != "idle"@[0]);
    assert("laugh"@[0] != "point"@[0]);
    assert("laugh"@[0] != "hurry"@[0]);
    assert("sigh"@[0] != "look"@[0]);
    assert("sigh"@[0] != "idle"@[0]);
    assert("reaction"@[0] != "hand_off"@[0]);
    assert("reaction"@[0] != "unmapped"@[0]);
    assert("point"@[0] != "hurry"@[0]);
    assert("look"@[0] != "idle"@[0]);
    assert("panel_press"@[0] != "interaction"@[0]);
    assert("panel_inspect"@[0] != "reach_contact"@[0]);
    assert("hand_off"@[0] != "unmapped"@[0]);
    known_exactly_when_classified(a);
}

/// The native state that plays an action kind's motion.
pub open spec fn native_state_for_kind(k: ActionKind) -> PerformanceState {
    match k {
        ActionKind::Move => PerformanceState::Walk,
        ActionKind::Speak => PerformanceState::Talk,
        ActionKind::React => PerformanceState::React,
        ActionKind::Gesture => PerformanceState::Gesture,
        ActionKind::Point => PerformanceState::Point,
        ActionKind::Look => PerformanceState::Look,
        ActionKind::Listen => PerformanceState::Listen,
        _ => PerformanceState::Idle,
    }
}

proof fn lemma_native_state_of_walk()
    ensures
        native_state_of("walk"@) == PerformanceState::Walk,
{
    reveal_strlit("walk");
    reveal_strlit("hurry");
    reveal_strlit("talk");
    reveal_strlit("listen");
    reveal_strlit("look");
    reveal_strlit("point");
    reveal_strlit("reaction");
    reveal_strlit("laugh");
    reveal_strlit("sigh");
    reveal_strlit("talk_gesture");
    assert("walk"@[0] != "talk"@[0]);
    assert("walk"@[0] != "look"@[0]);
    assert("walk"@[0] != "sigh"@[0]);
    assert("walk"@.len() == 4);
    assert("hurry"@.len() == 5);
    assert("talk"@.len() == 4);
    assert("listen"@.len() == 6);
    assert("look"@.len() == 4);
    assert("point"@.len() == 5);
    assert("reaction"@.len() == 8);
    assert("laugh"@.len() == 5);
    assert("sigh"@.len() == 4);
    assert("talk_gesture"@.len() == 12);
}

proof fn lemma_native_state_of_talk()
    ensures
        native_state_of("talk"@) == PerformanceState::Talk,
{
    reveal_strlit("talk");
    reveal_strlit("walk");
    reveal_strlit("hurry");
    reveal_strlit("listen");
    reveal_strlit("look");
    reveal_strlit("point");
    reveal_strlit("reaction");
    reveal_strlit("laugh");
    reveal_strlit("sigh");
    reveal_strlit("talk_gesture");
    assert("talk"@[0] != "walk"@[0]);
    assert("talk"@[0] != "look"@[0]);
    assert("talk"@[0] != "sigh"@[0]);
    assert("talk"@.len() == 4);
    assert("walk"@.len() == 4);
    assert("hurry"@.len() == 5);
    assert("listen"@.len() == 6);
    assert("look"@.len() == 4);
    assert("point"@.len() == 5);
    assert("reaction"@.len() == 8);
    assert("laugh"@.len() == 5);
    assert("sigh"@.len() == 4);
    assert("talk_gesture"@.len() == 12);
}

proof fn lemma_native_state_of_listen()
    ensures
        native_state_of("listen"@) == PerformanceState::Listen,
{
    reveal_strlit("listen");
    reveal_strlit("walk");
    reveal_strlit("hurry");
    reveal_strlit("talk");
    reveal_strlit("look");
    reveal_strlit("point");
    reveal_strlit("reaction");
    reveal_strlit("laugh");
    reveal_strlit("sigh");
    reveal_strlit("talk_gesture");

    assert("listen"@.len() == 6);
    assert("walk"@.len() == 4);
    assert("hurry"@.len() == 5);
    assert("talk"@.len() == 4);
    assert("look"@.len() == 4);
    assert("point"@.len() == 5);
    assert("reaction"@.len() == 8);
    assert("laugh"@.len() == 5);
    assert("sigh"@.len() == 4);
    assert("talk_gesture"@.len() == 12);
}

proof fn lemma_native_state_of_look()
    ensures
        native_state_of("look"@) == PerformanceState::Look,
{
    reveal_strlit("look");
    reveal_strlit("walk");
    reveal_strlit("hurry");
    reveal_strlit("talk");
    reveal_strlit("listen");
    reveal_strlit("point");
    reveal_strlit("reaction");
    reveal_strlit("laugh");
    reveal_strlit("sigh");
    reveal_strlit("talk_gesture");
    assert("look"@[0] != "walk"@[0]);
    assert("look"@[0] != "talk"@[0]);
    assert("look"@[0] != "sigh"@[0]);
    assert("look"@.len() == 4);
    assert("walk"@.len() == 4);
    assert("hurry"@.len() == 5);
    assert("talk"@.len() == 4);
    assert("listen"@.len() == 6);
    assert("point"@.len() == 5);
    assert("reaction"@.len() == 8);
    assert("laugh"@.len() == 5);
    assert("sigh"@.len() == 4);
    assert("talk_gesture"@.len() == 12);
}

proof fn lemma_native_state_of_point()
    ensures
        native_state_of("point"@) == PerformanceState::Point,
{
    reveal_strlit("point");
    reveal_strlit("walk");
    reveal_strlit("hurry");
    reveal_strlit("talk");
    reveal_strlit("listen");
    reveal_strlit("look");
    reveal_strlit("reaction");
    reveal_strlit("laugh");
    reveal_strlit("sigh");
    reveal_strlit("talk_gesture");
    assert("point"@[0] != "hurry"@[0]);
    assert("point"@[0] != "laugh"@[0]);
    assert("point"@.len() == 5);
    assert("walk"@.len() == 4);
    assert("hurry"@.len() == 5);
    assert("talk"@.len() == 4);
    assert("listen"@.len() == 6);
    assert("look"@.len() == 4);
    assert("reaction"@.len() == 8);
    assert("laugh"@.len() == 5);
    assert("sigh"@.len() == 4);
    assert("talk_gesture"@.len() == 12);
}

proof fn lemma_native_state_of_reaction()
    ensures
        native_state_of("reaction"@) == PerformanceState::React,
{
    reveal_strlit("reaction");
    reveal_strlit("walk");
    reveal_strlit("hurry");
    reveal_strlit("talk");
    reveal_strlit("listen");
    reveal_strlit("look");
    reveal_strlit("point");
    reveal_strlit("laugh");
    reveal_strlit("sigh");
    reveal_strlit("talk_gesture");

    assert("reaction"@.len() == 8);
    assert("walk"@.len() == 4);
    assert("hurry"@.len() == 5);
    assert("talk"@.len() == 4);
    assert("listen"@.len() == 6);
    assert("look"@.len() == 4);
    assert("point"@.len() == 5);
    assert("laugh"@.len() == 5);
    assert("sigh"@.len() == 4);
    assert("talk_gesture"@.len() == 12);
}

proof fn lemma_native_state_of_laugh()
    ensures
        native_state_of("laugh"@) == PerformanceState::React,
{
    reveal_strlit("laugh");
    reveal_strlit("walk");
    reveal_strlit("hurry");
    reveal_strlit("talk");
    reveal_strlit("listen");
    reveal_strlit("look");
    reveal_strlit("point");
    reveal_strlit("reaction");
    reveal_strlit("sigh");
    reveal_strlit("talk_gesture");
    assert("laugh"@[0] != "hurry"@[0]);
    assert("laugh"@[0] != "point"@[0]);
    assert("laugh"@.len() == 5);
    assert("walk"@.len() == 4);
    assert("hurry"@.len() == 5);
    assert("talk"@.len() == 4);
    assert("listen"@.len() == 6);
    assert("look"@.len() == 4);
    assert("point"@.len() == 5);
    assert("reaction"@.len() == 8);
    assert("sigh"@.len() == 4);
    assert("talk_gesture"@.len() == 12);
}

proof fn lemma_native_state_of_sigh()
    ensures
        native_state_of("sigh"@) == PerformanceState::React,
{
    reveal_strlit("sigh");
    reveal_strlit("walk");
    reveal_strlit("hurry");
    reveal_strlit("talk");
    reveal_strlit("listen");
    reveal_strlit("look");
    reveal_strlit("point");
    reveal_strlit("reaction");
    reveal_strlit("laugh");
    reveal_strlit("talk_gesture");
    assert("sigh"@[0] != "walk"@[0]);
    assert("sigh"@[0] != "talk"@[0]);
    assert("sigh"@[0] != "look"@[0]);
    assert("sigh"@.len() == 4);
    assert("walk"@.len() == 4);
    assert("hurry"@.len() == 5);
    assert("talk"@.len() == 4);
    assert("listen"@.len() == 6);
    assert("look"@.len() == 4);
    assert("point"@.len() == 5);
    assert("reaction"@.len() == 8);
    assert("laugh"@.len() == 5);
    assert("talk_gesture"@.len() == 12);
}

proof fn lemma_native_state_of_talk_gesture()
    ensures
        native_state_of("talk_gesture"@) == PerformanceState::Gesture,
{
    reveal_strlit("talk_gesture");
    reveal_strlit("walk");
    reveal_strlit("hurry");
    reveal_strlit("talk");
    reveal_strlit("listen");
    reveal_strlit("look");
    reveal_strlit("point");
    reveal_strlit("reaction");
    reveal_strlit("laugh");
    reveal_strlit("sigh");

    assert("talk_gesture"@.len() == 12);
    assert("walk"@.len() == 4);
    assert("hurry"@.len() == 5);
    assert("talk"@.len() == 4);
    assert("listen"@.len() == 6);
    assert("look"@.len() == 4);
    assert("point"@.len() == 5);
    assert("reaction"@.len() == 8);
    assert("laugh"@.len() == 5);
    assert("sigh"@.len() == 4);
}

proof fn lemma_native_state_of_idle()
    ensures
        native_state_of("idle"@) == PerformanceState::Idle,
{
    reveal_strlit("idle");
    reveal_strlit("walk");
    reveal_strlit("hurry");
    reveal_strlit("talk");
    reveal_strlit("listen");
    reveal_strlit("look");
    reveal_strlit("point");
    reveal_strlit("reaction");
    reveal_strlit("laugh");
    reveal_strlit("sigh");
    reveal_strlit("talk_gesture");
    assert("idle"@[0] != "walk"@[0]);
    assert("idle"@[0] != "talk"@[0]);
    assert("idle"@[0] != "look"@[0]);
    assert("idle"@[0] != "sigh"@[0]);
    assert("idle"@.len() == 4);
    assert("walk"@.len() == 4);
    assert("hurry"@.len() == 5);
    assert("talk"@.len() == 4);
    assert("listen"@.len() == 6);
    assert("look"@.len() == 4);
    assert("point"@.len() == 5);
    assert("reaction"@.len() == 8);
    assert("laugh"@.len() == 5);
    assert("sigh"@.len() == 4);
    assert("talk_gesture"@.len() == 12);
}

proof fn lemma_native_state_of_unmapped()
    ensures
        native_state_of("unmapped"@) == PerformanceState::Idle,
{
    reveal_strlit("unmapped");
    reveal_strlit("walk");
    reveal_strlit("hurry");
    reveal_strlit("talk");
    reveal_strlit("listen");
    reveal_strlit("look");
    reveal_strlit("point");
    reveal_strlit("reaction");
    reveal_strlit("laugh");
    reveal_strlit("sigh");
    reveal_strlit("talk_gesture");
    assert("unmapped"@[0] != "reaction"@[0]);
    assert("unmapped"@.len() == 8);
    assert("walk"@.len() == 4);
    assert("hurry"@.len() == 5);
    assert("talk"@.len() == 4);
    assert("listen"@.len() == 6);
    assert("look"@.len() == 4);
    assert("point"@.len() == 5);
    assert("reaction"@.len() == 8);
    assert("laugh"@.len() == 5);
    assert("sigh"@.len() == 4);
    assert("talk_gesture"@.len() == 12);
}

proof fn lemma_native_state_of_panel_press()
    ensures
        native_state_of("panel_press"@) == PerformanceState::Idle,
{
    reveal_strlit("panel_press");
    reveal_strlit("walk");
    reveal_strlit("hurry");
    reveal_strlit("talk");
    reveal_strlit("listen");
    reveal_strlit("look");
    reveal_strlit("point");
    reveal_strlit("reaction");
    reveal_strlit("laugh");
    reveal_strlit("sigh");
    reveal_strlit("talk_gesture");

    assert("panel_press"@.len() == 11);
    assert("walk"@.len() == 4);
    assert("hurry"@.len() == 5);
    assert("talk"@.len() == 4);
    assert("listen"@.len() == 6);
    assert("look"@.len() == 4);
    assert("point"@.len() == 5);
    assert("reaction"@.len() == 8);
    assert("laugh"@.len() == 5);
    assert("sigh"@.len() == 4);
    assert("talk_gesture"@.len() == 12);
}

proof fn lemma_native_state_of_panel_inspect()
    ensures
        native_state_of("panel_inspect"@) == PerformanceState::Idle,
{
    reveal_strlit("panel_inspect");
    reveal_strlit("walk");
    reveal_strlit("hurry");
    reveal_strlit("talk");
    reveal_strlit("listen");
    reveal_strlit("look");
    reveal_strlit("point");
    reveal_strlit("reaction");
    reveal_strlit("laugh");
    reveal_strlit("sigh");
    reveal_strlit("talk_gesture");

    assert("panel_inspect"@.len() == 13);
    assert("walk"@.len() == 4);
    assert("hurry"@.len() == 5);
    assert("talk"@.len() == 4);
    assert("listen"@.len() == 6);
    assert("look"@.len() == 4);
    assert("point"@.len() == 5);
    assert("reaction"@.len() == 8);
    assert("laugh"@.len() == 5);
    assert("sigh"@.len() == 4);
    assert("talk_gesture"@.len() == 12);
}

proof fn lemma_native_state_of_reach_contact()
    ensures
        native_state_of("reach_contact"@) == PerformanceState::Idle,
{
    reveal_strlit("reach_contact");
    reveal_strlit("walk");
    reveal_strlit("hurry");
    reveal_strlit("talk");
    reveal_strlit("listen");
    reveal_strlit("look");
    reveal_strlit("point");
    reveal_strlit("reaction");
    reveal_strlit("laugh");
    reveal_strlit("sigh");
    reveal_strlit("talk_gesture");

    assert("reach_contact"@.len() == 13);
    assert("walk"@.len() == 4);
    assert("hurry"@.len() == 5);
    assert("talk"@.len() == 4);
    assert("listen"@.len() == 6);
    assert("look"@.len() == 4);
    assert("point"@.len() == 5);
    assert("reaction"@.len() == 8);
    assert("laugh"@.len() == 5);
    assert("sigh"@.len() == 4);
    assert("talk_gesture"@.len() == 12);
}

proof fn lemma_native_state_of_pick_up()
    ensures
        native_state_of("pick_up"@) == PerformanceState::Idle,
{
    reveal_strlit("pick_up");
    reveal_strlit("walk");
    reveal_strlit("hurry");
    reveal_strlit("talk");
    reveal_strlit("listen");
    reveal_strlit("look");
    reveal_strlit("point");
    reveal_strlit("reaction");
    reveal_strlit("laugh");
    reveal_strlit("sigh");
    reveal_strlit("talk_gesture");

    assert("pick_up"@.len() == 7);
    assert("walk"@.len() == 4);
    assert("hurry"@.len() == 5);
    assert("talk"@.len() == 4);
    assert("listen"@.len() == 6);
    assert("look"@.len() == 4);
    assert("point"@.len() == 5);
    assert("reaction"@.len() == 8);
    assert("laugh"@.len() == 5);
    assert("sigh"@.len() == 4);
    assert("talk_gesture"@.len() == 12);
}

proof fn lemma_native_state_of_hand_off()
    ensures
        native_state_of("hand_off"@) == PerformanceState::Idle,
{
    reveal_strlit("hand_off");
    reveal_strlit("walk");
    reveal_strlit("hurry");
    reveal_strlit("talk");
    reveal_strlit("listen");
    reveal_strlit("look");
    reveal_strlit("point");
    reveal_strlit("reaction");
    reveal_strlit("laugh");
    reveal_strlit("sigh");
    reveal_strlit("talk_gesture");
    assert("hand_off"@[0] != "reaction"@[0]);
    assert("hand_off"@.len() == 8);
    assert("walk"@.len() == 4);
    assert("hurry"@.len() == 5);
    assert("talk"@.len() == 4);
    assert("listen"@.len() == 6);
    assert("look"@.len() == 4);
    assert("point"@.len() == 5);
    assert("reaction"@.len() == 8);
    assert("laugh"@.len() == 5);
    assert("sigh"@.len() == 4);
    assert("talk_gesture"@.len() == 12);
}

proof fn lemma_native_state_of_interaction()
    ensures
        native_state_of("interaction"@) == PerformanceState::Idle,
{
    reveal_strlit("interaction");
    reveal_strlit("walk");
    reveal_strlit("hurry");
    reveal_strlit("talk");
    reveal_strlit("listen");
    reveal_strlit("look");
    reveal_strlit("point");
    reveal_strlit("reaction");
    reveal_strlit("laugh");
    reveal_strlit("sigh");
    reveal_strlit("talk_gesture");

    assert("interaction"@.len() == 11);
    assert("walk"@.len() == 4);
    assert("hurry"@.len() == 5);
    assert("talk"@.len() == 4);
    assert("listen"@.len() == 6);
    assert("look"@.len() == 4);
    assert("point"@.len() == 5);
    assert("reaction"@.len() == 8);
    assert("laugh"@.len() == 5);
    assert("sigh"@.len() == 4);
    assert("talk_gesture"@.len() == 12);
}

/// The native states of the semantics actions resolve to.
proof fn lemma_native_states_of_semantics()
    ensures
        native_state_of("walk"@) == PerformanceState::Walk,
        native_state_of("talk"@) == PerformanceState::Talk,
        native_state_of("listen"@) == PerformanceState::Listen,
        native_state_of("look"@) == PerformanceState::Look,
        native_state_of("point"@) == PerformanceState::Point,
        native_state_of("reaction"@) == PerformanceState::React,
        native_state_of("laugh"@) == PerformanceState::React,
        native_state_of("sigh"@) == PerformanceState::React,
        native_state_of("talk_gesture"@) == PerformanceState::Gesture,
        native_state_of("idle"@) == PerformanceState::Idle,
        native_state_of("unmapped"@) == PerformanceState::Idle,
        native_state_of("panel_press"@) == PerformanceState::Idle,
        native_state_of("panel_inspect"@) == PerformanceState::Idle,
        native_state_of("reach_contact"@) == PerformanceState::Idle,
        native_state_of("pick_up"@) == PerformanceState::Idle,
        native_state_of("hand_off"@) == PerformanceState::Idle,
        native_state_of("interaction"@) == PerformanceState::Idle,
{
    lemma_native_state_of_walk();
    lemma_native_state_of_talk();
    lemma_native_state_of_listen();
    lemma_native_state_of_look();
    lemma_native_state_of_point();
    lemma_native_state_of_reaction();
    lemma_native_state_of_laugh();
    lemma_native_state_of_sigh();
    lemma_native_state_of_talk_gesture();
    lemma_native_state_of_idle();
    lemma_native_state_of_unmapped();
    lemma_native_state_of_panel_press();
    lemma_native_state_of_panel_inspect();
    lemma_native_state_of_reach_contact();
    lemma_native_state_of_pick_up();
    lemma_native_state_of_hand_off();
    lemma_native_state_of_interaction();
}


/// The native state of an action's motion semantic follows the action's
/// kind.
pub proof fn native_state_follows_kind(a: Seq<char>)
    ensures
        native_state_of(semantic_of_action(a)) == native_state_for_kind(action_kind_of(a)),
{
    lemma_native_states_of_semantics();
    match action_kind_of(a) {
        ActionKind::React => {
            assert(semantic_of_action(a) == "reaction"@ || semantic_of_action(a) == "laugh"@
                || semantic_of_action(a) == "sigh"@);
        },
        ActionKind::Interact => {
            let m = semantic_of_action(a);
            assert(m == "panel_press"@ || m == "panel_inspect"@ || m == "reach_contact"@ || m
                == "pick_up"@ || m == "hand_off"@ || m == "interaction"@);
            assert(m != "walk"@ && m != "hurry"@ && m != "talk"@ && m != "listen"@ && m != "look"@
                && m != "point"@ && m != "reaction"@ && m != "laugh"@ && m != "sigh"@ && m
                != "talk_gesture"@);
        },
        ActionKind::Environment | ActionKind::Narrative => {
            assert(semantic_of_action(a) == "idle"@);
            assert(native_state_of("idle"@) == PerformanceState::Idle);
        },
        ActionKind::Unknown => {
            assert(semantic_of_action(a) == "unmapped"@);
            assert(native_state_of("unmapped"@) == PerformanceState::Idle);
        },
        ActionKind::Move => {
            assert(native_state_of("walk"@) == PerformanceState::Walk);
        },
        ActionKind::Speak => {
            assert(native_state_of("talk"@) == PerformanceState::Talk);
        },
        ActionKind::Gesture => {
            assert(native_state_of("talk_gesture"@) == PerformanceState::Gesture);
        },
        ActionKind::Point => {
            assert(native_state_of("point"@) == PerformanceState::Point);
        },
        ActionKind::Look => {
            assert(native_state_of("look"@) == PerformanceState::Look);
        },
        ActionKind::Listen => {
            assert(native_state_of("listen"@) == PerformanceState::Listen);
        },
    }
}

} // verus!

//! The deterministic director: a built-in showrunner that authors a watchable
//! episode with no external service, reproducibly from a seed.
use vstd::prelude::*;

use crate::protocol::{
    action_views, beat_views, ActionCommand, ActionCommandView, BeatCommand, BeatCommandView,
    BeatOutline, BeatOutlineView, CameraIntent, CameraIntentView, CentralGoal, CompletionCondition,
    CompletionView, EpisodePlan, EpisodePlanView, PersistentChange, PersistentChangeView,
};
use crate::rng::{derived_seed, SeededRng};
use crate::text::{append_str, chars_of, str_eq, str_views, string_of, string_views};
use crate::world::WorldState;

verus! {

fn own(s: &str) -> (r: String)
    ensures
        r@ == s@,
{
    let v = chars_of(s);
    string_of(&v)
}

/// What a director is told about the episode to author. The target duration
/// is floating-point and applied to the beat timeline by the caller.
#[derive(Debug)]
pub struct DirectorContext {
    pub world: WorldState,
    pub episode_number: u64,
    pub seed: u64,
    pub recent_summaries: Vec<String>,
    pub tone: Vec<String>,
}

/// The built-in fallback director.
#[derive(Debug, Clone, Copy)]
pub struct DeterministicDirector;

/// A canned episode premise.
struct Scenario {
    title: &'static str,
    logline: &'static str,
    tone: Vec<&'static str>,
    active: Vec<&'static str>,
    goal_char: &'static str,
    goal_text: &'static str,
    thread: &'static str,
}

#[verifier::ext_equal]
pub struct ScenarioView {
    pub title: Seq<char>,
    pub logline: Seq<char>,
    pub tone: Seq<Seq<char>>,
    pub active: Seq<Seq<char>>,
    pub goal_char: Seq<char>,
    pub goal_text: Seq<char>,
    pub thread: Seq<char>,
}

impl View for Scenario {
    type V = ScenarioView;

    closed spec fn view(&self) -> ScenarioView {
        ScenarioView {
            title: self.title@,
            logline: self.logline@,
            tone: str_views(self.tone@),
            active: str_views(self.active@),
            goal_char: self.goal_char@,
            goal_text: self.goal_text@,
            thread: self.thread@,
        }
    }
}

/// The hash `DefaultHasher::new()` gives a string.
pub uninterp spec fn default_hash(s: Seq<char>) -> u64;

/// Hash a string with `std`'s `DefaultHasher` (`BuildHasher::hash_one` on a
/// default-built hasher, which is `DefaultHasher::new()`). Such a hasher has
/// fixed keys, so the hash depends on the string alone.
#[verifier::external_body]
fn hash_str(s: &str) -> (r: u64)
    ensures
        r == default_hash(s@),
{
    std::hash::BuildHasher::hash_one(
        &std::hash::BuildHasherDefault::<std::collections::hash_map::DefaultHasher>::default(),
        s,
    )
}

/// The scenarios the deterministic director can play.
pub open spec fn scenario(k: int) -> ScenarioView {
    if k == 0 {
        ScenarioView { title: "The Elevator Inspection"@, logline: "An inspector discovers the elevator has been adding floors that do not exist."@, tone: seq!["surreal"@, "comedy"@, "mystery"@], active: seq!["mara"@, "ellis"@, "voss"@, "nox"@], goal_char: "mara"@, goal_text: "complete the inspection without revealing the impossible fourth floor"@, thread: "unknown_floor"@ }
    } else if k == 1 {
        ScenarioView { title: "Code Violation Number Four"@, logline: "Inspector Voss cites the building for a floor that is not on the map."@, tone: seq!["comedy"@, "bureaucratic"@, "mystery"@], active: seq!["mara"@, "voss"@, "ellis"@, "nox"@], goal_char: "mara"@, goal_text: "distract the inspector before the elevator misbehaves"@, thread: "inspection"@ }
    } else {
        ScenarioView { title: "The Tenant Who Does Not Leave"@, logline: "Ellis decides to meet the neighbor in 4A, who is never seen leaving."@, tone: seq!["surreal"@, "mystery"@, "unease"@], active: seq!["ellis"@, "nox"@, "mara"@, "voss"@], goal_char: "ellis"@, goal_text: "learn who (or what) lives in apartment 4A"@, thread: "missing_tenant"@ }
    }
}

/// Scenario `k` of the deterministic director.
fn scenario_at(k: u64) -> (r: Scenario)
    requires
        k < 3,
    ensures
        r@ == scenario(k as int),
{
    if k == 0 {
        let mut tone: Vec<&'static str> = Vec::new();
        tone.push("surreal");
        tone.push("comedy");
        tone.push("mystery");
        let mut active: Vec<&'static str> = Vec::new();
        active.push("mara");
        active.push("ellis");
        active.push("voss");
        active.push("nox");
        let r = Scenario { title: "The Elevator Inspection", logline: "An inspector discovers the elevator has been adding floors that do not exist.", tone, active, goal_char: "mara", goal_text: "complete the inspection without revealing the impossible fourth floor", thread: "unknown_floor" };
        assert(r@ =~= scenario(0));
        r
    } else if k == 1 {
        let mut tone: Vec<&'static str> = Vec::new();
        tone.push("comedy");
        tone.push("bureaucratic");
        tone.push("mystery");
        let mut active: Vec<&'static str> = Vec::new();
        active.push("mara");
        active.push("voss");
        active.push("ellis");
        active.push("nox");
        let r = Scenario { title: "Code Violation Number Four", logline: "Inspector Voss cites the building for a floor that is not on the map.", tone, active, goal_char: "mara", goal_text: "distract the inspector before the elevator misbehaves", thread: "inspection" };
        assert(r@ =~= scenario(1));
        r
    } else {
        let mut tone: Vec<&'static str> = Vec::new();
        tone.push("surreal");
        tone.push("mystery");
        tone.push("unease");
        let mut active: Vec<&'static str> = Vec::new();
        active.push("ellis");
        active.push("nox");
        active.push("mara");
        active.push("voss");
        let r = Scenario { title: "The Tenant Who Does Not Leave", logline: "Ellis decides to meet the neighbor in 4A, who is never seen leaving.", tone, active, goal_char: "ellis", goal_text: "learn who (or what) lives in apartment 4A", thread: "missing_tenant" };
        assert(r@ =~= scenario(2));
        r
    }
}

/// The outline of every deterministic episode.
pub open spec fn outline() -> Seq<BeatOutlineView> {
    seq![
        BeatOutlineView { id: "beat_01"@, beat_type: "hook"@, description: "The elevator opens onto a wall while someone inside asks whether this is floor four."@, required_entities: seq!["elevator"@, "mara"@] },
        BeatOutlineView { id: "beat_02"@, beat_type: "complication"@, description: "A symbol appears on the floor indicator instead of a number."@, required_entities: seq!["elevator_indicator"@, "mara"@] },
        BeatOutlineView { id: "beat_03"@, beat_type: "escalation"@, description: "The lights flicker in disagreement and a door that should not exist hums."@, required_entities: seq!["flickering_light"@, "ellis"@] },
        BeatOutlineView { id: "beat_04"@, beat_type: "reveal"@, description: "A tenant who is never seen leaving offers a calm, impossible explanation."@, required_entities: seq!["nox"@, "ellis"@] },
        BeatOutlineView { id: "beat_05"@, beat_type: "payoff"@, description: "The inspector cites the nonexistent floor for lacking an emergency exit."@, required_entities: seq!["voss"@, "elevator"@] },
    ]
}

/// The five beats of a deterministic episode: hook, complication, escalation,
/// reveal, payoff. Their start times are spread over the target duration by the
/// caller.
pub fn build_outline() -> (r: Vec<BeatOutline>)
    ensures
        beat_views(r@) == outline(),
{
    let mut r: Vec<BeatOutline> = Vec::new();
    let mut ents: Vec<String> = Vec::new();
    ents.push(own("elevator"));
    ents.push(own("mara"));
    let id = own("beat_01");
    r.push(BeatOutline { id, beat_type: own("hook"), description: own("The elevator opens onto a wall while someone inside asks whether this is floor four."), required_entities: ents });
    let mut ents: Vec<String> = Vec::new();
    ents.push(own("elevator_indicator"));
    ents.push(own("mara"));
    let id = own("beat_02");
    r.push(BeatOutline { id, beat_type: own("complication"), description: own("A symbol appears on the floor indicator instead of a number."), required_entities: ents });
    let mut ents: Vec<String> = Vec::new();
    ents.push(own("flickering_light"));
    ents.push(own("ellis"));
    let id = own("beat_03");
    r.push(BeatOutline { id, beat_type: own("escalation"), description: own("The lights flicker in disagreement and a door that should not exist hums."), required_entities: ents });
    let mut ents: Vec<String> = Vec::new();
    ents.push(own("nox"));
    ents.push(own("ellis"));
    let id = own("beat_04");
    r.push(BeatOutline { id, beat_type: own("reveal"), description: own("A tenant who is never seen leaving offers a calm, impossible explanation."), required_entities: ents });
    let mut ents: Vec<String> = Vec::new();
    ents.push(own("voss"));
    ents.push(own("elevator"));
    let id = own("beat_05");
    r.push(BeatOutline { id, beat_type: own("payoff"), description: own("The inspector cites the nonexistent floor for lacking an emergency exit."), required_entities: ents });
    proof {
        let o = outline();
        assert(string_views(r@[0].required_entities@) =~= o[0].required_entities);
        assert(string_views(r@[1].required_entities@) =~= o[1].required_entities);
        assert(string_views(r@[2].required_entities@) =~= o[2].required_entities);
        assert(string_views(r@[3].required_entities@) =~= o[3].required_entities);
        assert(string_views(r@[4].required_entities@) =~= o[4].required_entities);
        assert(beat_views(r@) =~= o);
    }
    r
}

/// The payoff line for a scenario thread.
pub open spec fn payoff_for(thread: Seq<char>) -> Seq<char> {
    if thread == "unknown_floor"@ {
        "The inspector cites the nonexistent floor for lacking an emergency exit."@
    } else if thread == "inspection"@ {
        "Voss files a violation for a floor that is not on the map, and Mara quietly adds it to the map."@
    } else if thread == "missing_tenant"@ {
        "Ellis leaves 4A convinced, while Nox remains, serene and unmoving, long after the door closes."@
    } else {
        "The episode ends on a deliberate, impossible note."@
    }
}

/// The payoff line for a scenario.
fn payoff_line(s: &Scenario) -> (r: String)
    ensures
        r@ == payoff_for(s@.thread),
{
    if str_eq(s.thread, "unknown_floor") {
        own("The inspector cites the nonexistent floor for lacking an emergency exit.")
    } else if str_eq(s.thread, "inspection") {
        own("Voss files a violation for a floor that is not on the map, and Mara quietly adds it to the map.")
    } else if str_eq(s.thread, "missing_tenant") {
        own("Ellis leaves 4A convinced, while Nox remains, serene and unmoving, long after the door closes.")
    } else {
        own("The episode ends on a deliberate, impossible note.")
    }
}

/// The actions of a `hook` beat.
pub open spec fn hook_actions(speaker: Seq<char>) -> Seq<ActionCommandView> {
    seq![
        ActionCommandView { actor: "mara"@, action: "move_to"@, target: Some("elevator_door"@), text: None },
        ActionCommandView { actor: "mara"@, action: "open_elevator"@, target: Some("elevator"@), text: None },
        ActionCommandView { actor: "mara"@, action: "speak"@, target: None, text: Some("Don't get in. The elevator's feeling creative today."@) },
        ActionCommandView { actor: "ellis"@, action: "approach"@, target: Some("elevator_door"@), text: None },
        ActionCommandView { actor: "ellis"@, action: "speak"@, target: None, text: Some("It just asked me what floor four looks like."@) },
    ]
}

/// The actions of a `complication` beat.
pub open spec fn complication_actions(speaker: Seq<char>) -> Seq<ActionCommandView> {
    seq![
        ActionCommandView { actor: "mara"@, action: "inspect"@, target: Some("elevator_indicator"@), text: None },
        ActionCommandView { actor: "mara"@, action: "speak"@, target: None, text: Some("That's not a floor. That's a complaint."@) },
        ActionCommandView { actor: "ellis"@, action: "point_at"@, target: Some("elevator_indicator"@), text: None },
        ActionCommandView { actor: "ellis"@, action: "speak"@, target: None, text: Some("It's glowing. I think it's proud of itself."@) },
    ]
}

/// The actions of a `escalation` beat.
pub open spec fn escalation_actions(speaker: Seq<char>) -> Seq<ActionCommandView> {
    seq![
        ActionCommandView { actor: "ellis"@, action: "retreat_from"@, target: Some("elevator_door"@), text: None },
        ActionCommandView { actor: "mara"@, action: "flicker_lights"@, target: Some("flickering_light"@), text: None },
        ActionCommandView { actor: "ellis"@, action: "react"@, target: None, text: Some("Whoa—"@) },
        ActionCommandView { actor: speaker, action: "speak"@, target: None, text: Some("The building prefers you not to notice. Most guests oblige."@) },
    ]
}

/// The actions of a `reveal` beat.
pub open spec fn reveal_actions(speaker: Seq<char>) -> Seq<ActionCommandView> {
    seq![
        ActionCommandView { actor: "nox"@, action: "move_to"@, target: Some("apartment_4a_door"@), text: None },
        ActionCommandView { actor: "nox"@, action: "speak"@, target: None, text: Some("I live in 4A. I've always lived in 4A. The floor just borrowed the number."@) },
        ActionCommandView { actor: "ellis"@, action: "react"@, target: None, text: Some("...borrowed?"@) },
        ActionCommandView { actor: "mara"@, action: "conceal_object"@, target: Some("maintenance_override_key"@), text: None },
    ]
}

/// The actions of a `payoff` beat.
pub open spec fn payoff_actions(speaker: Seq<char>) -> Seq<ActionCommandView> {
    seq![
        ActionCommandView { actor: "voss"@, action: "move_to"@, target: Some("elevator_door"@), text: None },
        ActionCommandView { actor: "voss"@, action: "speak"@, target: None, text: Some("Citation: floor four lacks a required emergency exit. Rectify within thirty days."@) },
        ActionCommandView { actor: "mara"@, action: "sigh"@, target: None, text: None },
        ActionCommandView { actor: "ellis"@, action: "whisper"@, target: None, text: Some("Do we... build an exit for a floor that isn't there?"@) },
    ]
}

/// The actions of a `_` beat.
pub open spec fn fallback_beat_actions(speaker: Seq<char>) -> Seq<ActionCommandView> {
    seq![
        ActionCommandView { actor: "mara"@, action: "speak"@, target: None, text: Some("Something impossible, on schedule, as usual."@) },
    ]
}

fn hook_action_list(speaker: &str) -> (r: Vec<ActionCommand>)
    ensures
        action_views(r@) == hook_actions(speaker@),
{
    let mut r: Vec<ActionCommand> = Vec::new();
    r.push(ActionCommand { actor: own("mara"), action: own("move_to"), target: Some(own("elevator_door")), text: None });
    r.push(ActionCommand { actor: own("mara"), action: own("open_elevator"), target: Some(own("elevator")), text: None });
    r.push(ActionCommand { actor: own("mara"), action: own("speak"), target: None, text: Some(own("Don't get in. The elevator's feeling creative today.")) });
    r.push(ActionCommand { actor: own("ellis"), action: own("approach"), target: Some(own("elevator_door")), text: None });
    r.push(ActionCommand { actor: own("ellis"), action: own("speak"), target: None, text: Some(own("It just asked me what floor four looks like.")) });
    assert(action_views(r@) =~= hook_actions(speaker@));
    r
}

fn complication_action_list(speaker: &str) -> (r: Vec<ActionCommand>)
    ensures
        action_views(r@) == complication_actions(speaker@),
{
    let mut r: Vec<ActionCommand> = Vec::new();
    r.push(ActionCommand { actor: own("mara"), action: own("inspect"), target: Some(own("elevator_indicator")), text: None });
    r.push(ActionCommand { actor: own("mara"), action: own("speak"), target: None, text: Some(own("That's not a floor. That's a complaint.")) });
    r.push(ActionCommand { actor: own("ellis"), action: own("point_at"), target: Some(own("elevator_indicator")), text: None });
    r.push(ActionCommand { actor: own("ellis"), action: own("speak"), target: None, text: Some(own("It's glowing. I think it's proud of itself.")) });
    assert(action_views(r@) =~= complication_actions(speaker@));
    r
}

fn escalation_action_list(speaker: &str) -> (r: Vec<ActionCommand>)
    ensures
        action_views(r@) == escalation_actions(speaker@),
{
    let mut r: Vec<ActionCommand> = Vec::new();
    r.push(ActionCommand { actor: own("ellis"), action: own("retreat_from"), target: Some(own("elevator_door")), text: None });
    r.push(ActionCommand { actor: own("mara"), action: own("flicker_lights"), target: Some(own("flickering_light")), text: None });
    r.push(ActionCommand { actor: own("ellis"), action: own("react"), target: None, text: Some(own("Whoa—")) });
    r.push(ActionCommand { actor: own(speaker), action: own("speak"), target: None, text: Some(own("The building prefers you not to notice. Most guests oblige.")) });
    assert(action_views(r@) =~= escalation_actions(speaker@));
    r
}

fn reveal_action_list(speaker: &str) -> (r: Vec<ActionCommand>)
    ensures
        action_views(r@) == reveal_actions(speaker@),
{
    let mut r: Vec<ActionCommand> = Vec::new();
    r.push(ActionCommand { actor: own("nox"), action: own("move_to"), target: Some(own("apartment_4a_door")), text: None });
    r.push(ActionCommand { actor: own("nox"), action: own("speak"), target: None, text: Some(own("I live in 4A. I've always lived in 4A. The floor just borrowed the number.")) });
    r.push(ActionCommand { actor: own("ellis"), action: own("react"), target: None, text: Some(own("...borrowed?")) });
    r.push(ActionCommand { actor: own("mara"), action: own("conceal_object"), target: Some(own("maintenance_override_key")), text: None });
    assert(action_views(r@) =~= reveal_actions(speaker@));
    r
}

fn payoff_action_list(speaker: &str) -> (r: Vec<ActionCommand>)
    ensures
        action_views(r@) == payoff_actions(speaker@),
{
    let mut r: Vec<ActionCommand> = Vec::new();
    r.push(ActionCommand { actor: own("voss"), action: own("move_to"), target: Some(own("elevator_door")), text: None });
    r.push(ActionCommand { actor: own("voss"), action: own("speak"), target: None, text: Some(own("Citation: floor four lacks a required emergency exit. Rectify within thirty days.")) });
    r.push(ActionCommand { actor: own("mara"), action: own("sigh"), target: None, text: None });
    r.push(ActionCommand { actor: own("ellis"), action: own("whisper"), target: None, text: Some(own("Do we... build an exit for a floor that isn't there?")) });
    assert(action_views(r@) =~= payoff_actions(speaker@));
    r
}

fn fallback_beat_action_list(speaker: &str) -> (r: Vec<ActionCommand>)
    ensures
        action_views(r@) == fallback_beat_actions(speaker@),
{
    let mut r: Vec<ActionCommand> = Vec::new();
    r.push(ActionCommand { actor: own("mara"), action: own("speak"), target: None, text: Some(own("Something impossible, on schedule, as usual.")) });
    assert(action_views(r@) =~= fallback_beat_actions(speaker@));
    r
}

/// The beat command the deterministic director writes for a beat, with
/// `speaker` delivering the escalation line.
pub open spec fn scripted_command(beat_id: Seq<char>, beat_type: Seq<char>, speaker: Seq<char>) -> BeatCommandView {
    if beat_type == "hook"@ {
        BeatCommandView {
            beat_id: beat_id,
            dramatic_purpose: beat_type,
            actions: hook_actions(speaker),
            camera_intent: CameraIntentView { kind: "establish"@, subject: "elevator"@, reaction_subject: Some("mara"@) },
            completion_condition: CompletionView { kind: "dialogue_finished"@, actor: Some("ellis"@) },
            fallback: Some("Have the elevator ding ominously and close on its own."@),
            notes: None,
        }
    } else if beat_type == "complication"@ {
        BeatCommandView {
            beat_id: beat_id,
            dramatic_purpose: beat_type,
            actions: complication_actions(speaker),
            camera_intent: CameraIntentView { kind: "reveal"@, subject: "elevator_indicator"@, reaction_subject: Some("mara"@) },
            completion_condition: CompletionView { kind: "dialogue_finished"@, actor: Some("ellis"@) },
            fallback: Some("Mara blocks the view and the indicator flickers back to a number."@),
            notes: None,
        }
    } else if beat_type == "escalation"@ {
        BeatCommandView {
            beat_id: beat_id,
            dramatic_purpose: beat_type,
            actions: escalation_actions(speaker),
            camera_intent: CameraIntentView { kind: "comedic_wide"@, subject: "hall_center"@, reaction_subject: Some("ellis"@) },
            completion_condition: CompletionView { kind: "dialogue_finished"@, actor: Some("nox"@) },
            fallback: Some("Cut power briefly, then restore with a single defiant light."@),
            notes: None,
        }
    } else if beat_type == "reveal"@ {
        BeatCommandView {
            beat_id: beat_id,
            dramatic_purpose: beat_type,
            actions: reveal_actions(speaker),
            camera_intent: CameraIntentView { kind: "speaker_closeup"@, subject: "nox"@, reaction_subject: Some("ellis"@) },
            completion_condition: CompletionView { kind: "dialogue_finished"@, actor: Some("nox"@) },
            fallback: Some("Nox tilts their head a degree too far and the moment passes."@),
            notes: None,
        }
    } else if beat_type == "payoff"@ {
        BeatCommandView {
            beat_id: beat_id,
            dramatic_purpose: beat_type,
            actions: payoff_actions(speaker),
            camera_intent: CameraIntentView { kind: "cliffhanger_hold"@, subject: "elevator"@, reaction_subject: Some("mara"@) },
            completion_condition: CompletionView { kind: "dialogue_finished"@, actor: Some("ellis"@) },
            fallback: Some("Freeze on Mara's exhausted face as the elevator dings for floor four."@),
            notes: None,
        }
    } else {
        BeatCommandView {
            beat_id: beat_id,
            dramatic_purpose: beat_type,
            actions: fallback_beat_actions(speaker),
            camera_intent: CameraIntentView { kind: "establish"@, subject: "mara"@, reaction_subject: None },
            completion_condition: CompletionView { kind: "timer"@, actor: None },
            fallback: None,
            notes: None,
        }
    }
}

/// The beat command the deterministic director writes for `beat`, with
/// `speaker` delivering the escalation line.
pub fn scripted_beat_command(beat: &BeatOutline, speaker: &str) -> (r: BeatCommand)
    ensures
        r@ == scripted_command(beat.id@, beat.beat_type@, speaker@),
{
    let t = beat.beat_type.as_str();
    let (actions, camera, completion, fallback) = if str_eq(t, "hook") {
        let actions = hook_action_list(speaker);
        let camera = CameraIntent { kind: own("establish"), subject: own("elevator"), reaction_subject: Some(own("mara")) };
        let completion = CompletionCondition { kind: own("dialogue_finished"), actor: Some(own("ellis")) };
        let fallback: Option<String> = Some(own("Have the elevator ding ominously and close on its own."));
        (actions, camera, completion, fallback)
    } else if str_eq(t, "complication") {
        let actions = complication_action_list(speaker);
        let camera = CameraIntent { kind: own("reveal"), subject: own("elevator_indicator"), reaction_subject: Some(own("mara")) };
        let completion = CompletionCondition { kind: own("dialogue_finished"), actor: Some(own("ellis")) };
        let fallback: Option<String> = Some(own("Mara blocks the view and the indicator flickers back to a number."));
        (actions, camera, completion, fallback)
    } else if str_eq(t, "escalation") {
        let actions = escalation_action_list(speaker);
        let camera = CameraIntent { kind: own("comedic_wide"), subject: own("hall_center"), reaction_subject: Some(own("ellis")) };
        let completion = CompletionCondition { kind: own("dialogue_finished"), actor: Some(own("nox")) };
        let fallback: Option<String> = Some(own("Cut power briefly, then restore with a single defiant light."));
        (actions, camera, completion, fallback)
    } else if str_eq(t, "reveal") {
        let actions = reveal_action_list(speaker);
        let camera = CameraIntent { kind: own("speaker_closeup"), subject: own("nox"), reaction_subject: Some(own("ellis")) };
        let completion = CompletionCondition { kind: own("dialogue_finished"), actor: Some(own("nox")) };
        let fallback: Option<String> = Some(own("Nox tilts their head a degree too far and the moment passes."));
        (actions, camera, completion, fallback)
    } else if str_eq(t, "payoff") {
        let actions = payoff_action_list(speaker);
        let camera = CameraIntent { kind: own("cliffhanger_hold"), subject: own("elevator"), reaction_subject: Some(own("mara")) };
        let completion = CompletionCondition { kind: own("dialogue_finished"), actor: Some(own("ellis")) };
        let fallback: Option<String> = Some(own("Freeze on Mara's exhausted face as the elevator dings for floor four."));
        (actions, camera, completion, fallback)
    } else {
        let actions = fallback_beat_action_list(speaker);
        let camera = CameraIntent { kind: own("establish"), subject: own("mara"), reaction_subject: None };
        let completion = CompletionCondition { kind: own("timer"), actor: None };
        let fallback: Option<String> = None;
        (actions, camera, completion, fallback)
    };
    BeatCommand {
        beat_id: beat.id.clone(),
        dramatic_purpose: beat.beat_type.clone(),
        actions,
        camera_intent: camera,
        completion_condition: completion,
        fallback,
        notes: None,
    }
}

/// The persistent changes an episode of a scenario thread requests.
pub open spec fn changes_for(thread: Seq<char>) -> Seq<PersistentChangeView> {
    if thread == "unknown_floor"@ {
        seq![
            PersistentChangeView {
                operation: "add_belief"@,
                target: "voss"@,
                value: "believes_floor_four_exists"@,
                field: None,
            },
        ]
    } else if thread == "inspection"@ {
        seq![
            PersistentChangeView {
                operation: "change_relationship"@,
                target: "mara"@,
                value: "voss"@,
                field: Some("suspicion"@),
            },
        ]
    } else if thread == "missing_tenant"@ {
        seq![
            PersistentChangeView {
                operation: "add_fact"@,
                target: "ellis"@,
                value: "met_nox_in_4a"@,
                field: None,
            },
        ]
    } else {
        seq![]
    }
}

fn changes_list(s: &Scenario) -> (r: Vec<PersistentChange>)
    ensures
        crate::protocol::change_views(r@) == changes_for(s@.thread),
{
    let mut r: Vec<PersistentChange> = Vec::new();
    if str_eq(s.thread, "unknown_floor") {
        r.push(
            PersistentChange {
                operation: own("add_belief"),
                target: own("voss"),
                value: own("believes_floor_four_exists"),
                field: None,
            },
        );
    } else if str_eq(s.thread, "inspection") {
        r.push(
            PersistentChange {
                operation: own("change_relationship"),
                target: own("mara"),
                value: own("voss"),
                field: Some(own("suspicion")),
            },
        );
    } else if str_eq(s.thread, "missing_tenant") {
        r.push(
            PersistentChange {
                operation: own("add_fact"),
                target: own("ellis"),
                value: own("met_nox_in_4a"),
                field: None,
            },
        );
    }
    assert(crate::protocol::change_views(r@) =~= changes_for(s@.thread));
    r
}

/// The plan the deterministic director writes for scenario `k`.
pub open spec fn scripted_plan(k: int) -> EpisodePlanView {
    let s = scenario(k);
    EpisodePlanView {
        episode_title: s.title,
        logline: s.logline,
        tone: s.tone,
        active_characters: s.active,
        primary_location: "floor_3_hallway"@,
        goal_character: s.goal_char,
        goal: s.goal_text,
        beats: outline(),
        payoff: payoff_for(s.thread),
        persistent_changes: changes_for(s.thread),
        notes: Some("deterministic scenario for thread '"@ + s.thread + "'"@),
    }
}

/// The characters who can deliver the escalation line.
pub open spec fn cast() -> Seq<Seq<char>> {
    seq!["mara"@, "ellis"@, "voss"@, "nox"@]
}

fn strings_of_strs(v: &Vec<&'static str>) -> (r: Vec<String>)
    ensures
        crate::text::string_views(r@) == str_views(v@),
{
    let mut out: Vec<String> = Vec::new();
    let mut i: usize = 0;
    while i < v.len()
        invariant
            i <= v.len(),
            out.len() == i,
            forall|k: int| 0 <= k < i ==> #[trigger] out@[k]@ == v@[k]@,
        decreases v.len() - i,
    {
        out.push(own(v[i]));
        i += 1;
    }
    assert(crate::text::string_views(out@) =~= str_views(v@));
    out
}

/// The generator an episode's draws come from: seeded with the context's
/// seed, so the same seed replays the same draws.
pub fn episode_source(ctx: &DirectorContext) -> (r: SeededRng)
    ensures
        r.seed_value() == ctx.seed,
{
    SeededRng::new(ctx.seed)
}

/// The generator of one beat's draws: the episode's seed derived by the hash
/// of the beat id.
pub fn beat_source(ctx: &DirectorContext, beat_id: &str) -> (r: SeededRng)
    ensures
        r.seed_value() == derived_seed(ctx.seed, default_hash(beat_id@)),
{
    SeededRng::new(ctx.seed).derive(hash_str(beat_id))
}

impl DeterministicDirector {
    /// The plan for the scenario selected by a random draw.
    pub fn plan_for_draw(&self, draw: u64) -> (r: EpisodePlan)
        ensures
            r@ == scripted_plan((draw % 3) as int),
    {
        let s = scenario_at(draw % 3);
        let mut notes = chars_of("deterministic scenario for thread '");
        append_str(&mut notes, s.thread);
        append_str(&mut notes, "'");
        let r = EpisodePlan {
            episode_title: own(s.title),
            logline: own(s.logline),
            tone: strings_of_strs(&s.tone),
            active_characters: strings_of_strs(&s.active),
            primary_location: own("floor_3_hallway"),
            central_goal: CentralGoal { character: own(s.goal_char), goal: own(s.goal_text) },
            beats: build_outline(),
            payoff: payoff_line(&s),
            persistent_changes: changes_list(&s),
            notes: Some(string_of(&notes)),
        };
        assert(r@ =~= scripted_plan((draw % 3) as int));
        r
    }

    /// Produce the episode plan: the scenario is chosen by the first draw of
    /// the episode's generator (`episode_source`).
    pub fn episode_plan(&self, ctx: &DirectorContext) -> (r: EpisodePlan)
        ensures
            exists|k: int| 0 <= k < 3 && r@ == scripted_plan(k),
    {
        let mut rng = episode_source(ctx);
        let draw = rng.next_u64();
        let r = self.plan_for_draw(draw);
        assert(r@ == scripted_plan((draw % 3) as int));
        r
    }

    /// Produce the command for one beat; the escalation line goes to a cast
    /// member drawn from a generator derived from the seed and the beat id.
    pub fn beat_command(&self, ctx: &DirectorContext, plan: &EpisodePlan, beat: &BeatOutline) -> (r:
        BeatCommand)
        ensures
            exists|speaker: Seq<char>|
                cast().contains(speaker) && r@ == scripted_command(
                    beat.id@,
                    beat.beat_type@,
                    speaker,
                ),
    {
        let mut first = episode_source(ctx);
        let draw = first.next_u64();
        let s = scenario_at(draw % 3);
        let mut rng = beat_source(ctx, beat.id.as_str());
        let mut positions: Vec<usize> = Vec::new();
        let mut i: usize = 0;
        while i < s.active.len()
            invariant
                i <= s.active@.len(),
                positions@.len() == i,
                forall|j: int| 0 <= j < i ==> positions@[j] == j,
            decreases s.active@.len() - i,
        {
            positions.push(i);
            i += 1;
        }
        let picked = rng.pick(positions.as_slice());
        let speaker: &str = match picked {
            Some(p) => {
                proof {
                    let j = choose|j: int| 0 <= j < positions@.len() && cloned(positions@[j], p);
                    assert(positions@[j] == j);
                }
                s.active[p]
            },
            None => "nox",
        };
        proof {
            assert(s@.active =~= scenario((draw % 3) as int).active);
            assert(s@.active.len() == 4);
            if let Some(p) = picked {
                assert(s@.active[p as int] == s.active@[p as int]@);
                if (draw % 3) == 0 {
                    assert(cast()[p as int] == s@.active[p as int]);
                } else if (draw % 3) == 1 {
                    assert(s@.active[p as int] == seq!["mara"@, "voss"@, "ellis"@, "nox"@][p as int]);
                    assert(cast().contains(s@.active[p as int]));
                } else {
                    assert(s@.active[p as int] == seq!["ellis"@, "nox"@, "mara"@, "voss"@][p as int]);
                    assert(cast().contains(s@.active[p as int]));
                }
            } else {
                assert(cast()[3] == "nox"@);
            }
            assert(cast().contains(speaker@));
        }
        let r = scripted_beat_command(beat, speaker);
        assert(cast().contains(speaker@) && r@ == scripted_command(beat.id@, beat.beat_type@, speaker@));
        r
    }
}

/// A source of episode plans and beat commands. The deterministic director
/// is one; a model-backed director is another, outside this library.
pub trait Director {
    /// The director's name.
    fn name(&self) -> &'static str;

    /// Produce the overall episode plan (beat outlines only), or say why not.
    fn plan_episode(&self, ctx: &DirectorContext) -> Result<EpisodePlan, String>;

    /// Produce the detailed command for one beat of `plan`, or say why not.
    fn plan_beat(&self, ctx: &DirectorContext, plan: &EpisodePlan, beat: &BeatOutline) -> Result<
        BeatCommand,
        String,
    >;
}

impl Director for DeterministicDirector {
    fn name(&self) -> (r: &'static str)
        ensures
            r@ == "deterministic"@,
    {
        "deterministic"
    }

    /// One of the scripted plans (`episode_plan`); this never fails.
    fn plan_episode(&self, ctx: &DirectorContext) -> (r: Result<EpisodePlan, String>)
        ensures
            r matches Ok(p) && exists|k: int| 0 <= k < 3 && p@ == scripted_plan(k),
    {
        Ok(self.episode_plan(ctx))
    }

    /// The scripted command of the beat (`beat_command`); this never fails.
    fn plan_beat(&self, ctx: &DirectorContext, plan: &EpisodePlan, beat: &BeatOutline) -> (r: Result<
        BeatCommand,
        String,
    >)
        ensures
            r matches Ok(c) && exists|speaker: Seq<char>|
                cast().contains(speaker) && c@ == scripted_command(
                    beat.id@,
                    beat.beat_type@,
                    speaker,
                ),
    {
        Ok(self.beat_command(ctx, plan, beat))
    }
}

} // verus!

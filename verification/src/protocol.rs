//! The structured protocol between a director and the world: the bounded
//! vocabularies and the plan / beat-command shapes.
//!
//! Every token outside free-text narrative fields comes from a closed
//! vocabulary, so a command the world cannot execute is recognised as such.
//! Timing, intensity and other floating-point quantities of a plan are carried
//! alongside these structures by the caller; the logic here never reads them.
use vstd::prelude::*;

use crate::text::{chars_of, seq_eq, str_views, string_views};

verus! {

/// The schema version of single-call authored episodes written today.
pub const CURRENT_AUTHORED_SCHEMA_VERSION: u32 = 2;

/// The schema version assumed for authored episodes that do not state one.
pub fn legacy_authored_schema_version() -> (r: u32)
    ensures
        r == 1,
{
    1
}

/// Default locomotion of a blocking cue.
pub fn default_locomotion() -> (r: String)
    ensures
        r@ == "walk"@,
{
    let v = chars_of("walk");
    crate::text::string_of(&v)
}

/// Default easing of an environment cue.
pub fn default_easing() -> (r: String)
    ensures
        r@ == "smoothstep"@,
{
    let v = chars_of("smoothstep");
    crate::text::string_of(&v)
}

/// Default pace of a line delivery.
pub fn default_delivery_pace() -> (r: DeliveryPace)
    ensures
        r == DeliveryPace::Natural,
{
    DeliveryPace::Natural
}

// ---------------------------------------------------------------------------
// Vocabulary
// ---------------------------------------------------------------------------

/// The bounded action vocabulary (movement, object interaction, performance, world events, narrative state).
pub open spec fn known_actions() -> Seq<Seq<char>> {
    seq![
        "move_to"@,
        "enter_room"@,
        "exit_room"@,
        "approach"@,
        "retreat_from"@,
        "follow"@,
        "flee_to"@,
        "turn_toward"@,
        "look_at"@,
        "sit_at"@,
        "stand_at"@,
        "pick_up"@,
        "put_down"@,
        "give"@,
        "take"@,
        "inspect"@,
        "open"@,
        "close"@,
        "activate"@,
        "deactivate"@,
        "hide_object"@,
        "reveal_object"@,
        "carry"@,
        "drop"@,
        "throw_safe"@,
        "knock_on"@,
        "conceal_object"@,
        "speak"@,
        "react"@,
        "gesture"@,
        "pause"@,
        "interrupt"@,
        "laugh"@,
        "sigh"@,
        "whisper"@,
        "shout"@,
        "point_at"@,
        "conceal_emotion"@,
        "display_emotion"@,
        "write_note"@,
        "flicker_lights"@,
        "cut_power"@,
        "ring_alarm"@,
        "open_elevator"@,
        "close_elevator"@,
        "spawn_authorized_prop"@,
        "move_authorized_prop"@,
        "change_room_state"@,
        "play_environment_effect"@,
        "trigger_safe_physics_event"@,
        "add_fact"@,
        "remove_false_belief"@,
        "create_rumor"@,
        "resolve_thread"@,
        "create_thread"@,
        "change_relationship"@,
        "assign_secret"@,
        "schedule_future_event"@,
        "change_location_condition"@,
    ]
}

/// The action tokens a director may use.
pub fn known_actions_list() -> (r: Vec<&'static str>)
    ensures
        str_views(r@) == known_actions(),
{
    let mut r: Vec<&'static str> = Vec::new();
    r.push("move_to");
    r.push("enter_room");
    r.push("exit_room");
    r.push("approach");
    r.push("retreat_from");
    r.push("follow");
    r.push("flee_to");
    r.push("turn_toward");
    r.push("look_at");
    r.push("sit_at");
    r.push("stand_at");
    r.push("pick_up");
    r.push("put_down");
    r.push("give");
    r.push("take");
    r.push("inspect");
    r.push("open");
    r.push("close");
    r.push("activate");
    r.push("deactivate");
    r.push("hide_object");
    r.push("reveal_object");
    r.push("carry");
    r.push("drop");
    r.push("throw_safe");
    r.push("knock_on");
    r.push("conceal_object");
    r.push("speak");
    r.push("react");
    r.push("gesture");
    r.push("pause");
    r.push("interrupt");
    r.push("laugh");
    r.push("sigh");
    r.push("whisper");
    r.push("shout");
    r.push("point_at");
    r.push("conceal_emotion");
    r.push("display_emotion");
    r.push("write_note");
    r.push("flicker_lights");
    r.push("cut_power");
    r.push("ring_alarm");
    r.push("open_elevator");
    r.push("close_elevator");
    r.push("spawn_authorized_prop");
    r.push("move_authorized_prop");
    r.push("change_room_state");
    r.push("play_environment_effect");
    r.push("trigger_safe_physics_event");
    r.push("add_fact");
    r.push("remove_false_belief");
    r.push("create_rumor");
    r.push("resolve_thread");
    r.push("create_thread");
    r.push("change_relationship");
    r.push("assign_secret");
    r.push("schedule_future_event");
    r.push("change_location_condition");
    assert(str_views(r@) =~= known_actions());
    r
}

/// The bounded camera-intent vocabulary.
pub open spec fn known_camera_intents() -> Seq<Seq<char>> {
    seq![
        "establish"@,
        "follow"@,
        "conversation"@,
        "speaker_closeup"@,
        "reaction"@,
        "reveal"@,
        "insert_object"@,
        "comedic_wide"@,
        "tension_push"@,
        "over_the_shoulder"@,
        "group_coverage"@,
        "exit_transition"@,
        "cliffhanger_hold"@,
    ]
}

/// The camera intents a director may use.
pub fn known_camera_intents_list() -> (r: Vec<&'static str>)
    ensures
        str_views(r@) == known_camera_intents(),
{
    let mut r: Vec<&'static str> = Vec::new();
    r.push("establish");
    r.push("follow");
    r.push("conversation");
    r.push("speaker_closeup");
    r.push("reaction");
    r.push("reveal");
    r.push("insert_object");
    r.push("comedic_wide");
    r.push("tension_push");
    r.push("over_the_shoulder");
    r.push("group_coverage");
    r.push("exit_transition");
    r.push("cliffhanger_hold");
    assert(str_views(r@) =~= known_camera_intents());
    r
}

/// The emotion vocabulary.
pub open spec fn known_emotions() -> Seq<Seq<char>> {
    seq![
        "neutral"@,
        "happy"@,
        "sad"@,
        "angry"@,
        "fear"@,
        "suspicion"@,
        "confusion"@,
        "frustration"@,
        "surprise"@,
        "serene"@,
        "strained"@,
        "eager"@,
    ]
}

/// The emotion labels characters may carry.
pub fn known_emotions_list() -> (r: Vec<&'static str>)
    ensures
        str_views(r@) == known_emotions(),
{
    let mut r: Vec<&'static str> = Vec::new();
    r.push("neutral");
    r.push("happy");
    r.push("sad");
    r.push("angry");
    r.push("fear");
    r.push("suspicion");
    r.push("confusion");
    r.push("frustration");
    r.push("surprise");
    r.push("serene");
    r.push("strained");
    r.push("eager");
    assert(str_views(r@) =~= known_emotions());
    r
}

/// The world-event actions.
pub open spec fn known_world_events() -> Seq<Seq<char>> {
    seq![
        "flicker_lights"@,
        "cut_power"@,
        "ring_alarm"@,
        "open_elevator"@,
        "close_elevator"@,
        "play_environment_effect"@,
        "trigger_safe_physics_event"@,
    ]
}

/// The action tokens that are world events.
pub fn known_world_events_list() -> (r: Vec<&'static str>)
    ensures
        str_views(r@) == known_world_events(),
{
    let mut r: Vec<&'static str> = Vec::new();
    r.push("flicker_lights");
    r.push("cut_power");
    r.push("ring_alarm");
    r.push("open_elevator");
    r.push("close_elevator");
    r.push("play_environment_effect");
    r.push("trigger_safe_physics_event");
    assert(str_views(r@) =~= known_world_events());
    r
}

/// The completion-condition vocabulary.
pub open spec fn known_completion_types() -> Seq<Seq<char>> {
    seq![
        "dialogue_finished"@,
        "arrival"@,
        "timer"@,
        "event_done"@,
        "animation_finished"@,
    ]
}

/// The beat completion conditions.
pub fn known_completion_types_list() -> (r: Vec<&'static str>)
    ensures
        str_views(r@) == known_completion_types(),
{
    let mut r: Vec<&'static str> = Vec::new();
    r.push("dialogue_finished");
    r.push("arrival");
    r.push("timer");
    r.push("event_done");
    r.push("animation_finished");
    assert(str_views(r@) =~= known_completion_types());
    r
}

/// The canonical beat types of an episode outline.
pub open spec fn known_beat_types() -> Seq<Seq<char>> {
    seq![
        "hook"@,
        "situation"@,
        "goal"@,
        "complication"@,
        "escalation"@,
        "reveal"@,
        "reversal"@,
        "payoff"@,
        "consequence"@,
    ]
}

/// The canonical beat types.
pub fn known_beat_types_list() -> (r: Vec<&'static str>)
    ensures
        str_views(r@) == known_beat_types(),
{
    let mut r: Vec<&'static str> = Vec::new();
    r.push("hook");
    r.push("situation");
    r.push("goal");
    r.push("complication");
    r.push("escalation");
    r.push("reveal");
    r.push("reversal");
    r.push("payoff");
    r.push("consequence");
    assert(str_views(r@) =~= known_beat_types());
    r
}

/// The persistent-change operations.
pub open spec fn known_persistent_ops() -> Seq<Seq<char>> {
    seq![
        "add_fact"@,
        "remove_fact"@,
        "add_belief"@,
        "remove_belief"@,
        "change_relationship"@,
        "resolve_thread"@,
        "create_thread"@,
        "change_location_condition"@,
        "assign_secret"@,
        "schedule_future_event"@,
    ]
}

/// The persistent-change operations a plan may request.
pub fn known_persistent_ops_list() -> (r: Vec<&'static str>)
    ensures
        str_views(r@) == known_persistent_ops(),
{
    let mut r: Vec<&'static str> = Vec::new();
    r.push("add_fact");
    r.push("remove_fact");
    r.push("add_belief");
    r.push("remove_belief");
    r.push("change_relationship");
    r.push("resolve_thread");
    r.push("create_thread");
    r.push("change_location_condition");
    r.push("assign_secret");
    r.push("schedule_future_event");
    assert(str_views(r@) =~= known_persistent_ops());
    r
}

/// Whether `t` is one of `list`.
pub fn str_in(t: &str, list: &Vec<&'static str>) -> (r: bool)
    ensures
        r == str_views(list@).contains(t@),
{
    let tv = chars_of(t);
    let mut i: usize = 0;
    while i < list.len()
        invariant
            i <= list.len(),
            tv@ == t@,
            forall|k: int| 0 <= k < i ==> str_views(list@)[k] != t@,
        decreases list.len() - i,
    {
        let lv = chars_of(list[i]);
        if seq_eq(&lv, &tv) {
            assert(str_views(list@)[i as int] == t@);
            return true;
        }
        i += 1;
    }
    false
}

/// Whether `t` is a known action token.
pub fn is_known_action(t: &str) -> (r: bool)
    ensures
        r == known_actions().contains(t@),
{
    str_in(t, &known_actions_list())
}

/// Whether `t` is a known camera intent.
pub fn is_known_camera_intent(t: &str) -> (r: bool)
    ensures
        r == known_camera_intents().contains(t@),
{
    str_in(t, &known_camera_intents_list())
}

/// Whether `t` is a known completion condition.
pub fn is_known_completion(t: &str) -> (r: bool)
    ensures
        r == known_completion_types().contains(t@),
{
    str_in(t, &known_completion_types_list())
}

/// Whether `op` is a persistent-change operation a plan may request.
pub fn is_known_persistent_op(op: &str) -> (r: bool)
    ensures
        r == known_persistent_ops().contains(op@),
{
    str_in(op, &known_persistent_ops_list())
}

// ---------------------------------------------------------------------------
// Executable production vocabulary
// ---------------------------------------------------------------------------

/// A reference to something in the world.
#[derive(Debug, Clone, PartialEq, Eq)]
pub enum EntityRef {
    Character { id: String },
    Group { ids: Vec<String> },
    Prop { id: String },
    Environment { id: String },
    Mark { id: String },
}

/// Where an actor walks and what it faces.
#[derive(Debug, Clone, PartialEq, Eq)]
pub struct BlockingCue {
    pub actor: String,
    pub path: Vec<String>,
    pub destination: Option<String>,
    pub face: Option<EntityRef>,
    pub locomotion: String,
}

/// The set pieces an environment cue can drive.
#[derive(Debug, Clone, Copy, PartialEq, Eq)]
pub enum EnvironmentEventKind {
    ElevatorDoors,
    ElevatorIndicator,
    ControlPanel,
    InteriorLight,
    ImpossibleFloorReveal,
    LightingShift,
}

/// Why a camera setup exists.
#[derive(Debug, Clone, Copy, PartialEq, Eq)]
pub enum CameraPurpose {
    Speaker,
    Reaction,
    OverTheShoulder,
    Insert,
    Interaction,
    Reveal,
    Payoff,
    Spatial,
}

/// A camera setup and the subjects it must show.
#[derive(Debug, Clone, PartialEq, Eq)]
pub struct CameraCue {
    pub purpose: CameraPurpose,
    pub subjects: Vec<EntityRef>,
    pub required_visible_event: Option<String>,
}

/// Emotional colour of a spoken line.
#[derive(Debug, Clone, Copy, PartialEq, Eq)]
pub enum DeliveryEmotion {
    Neutral,
    Warm,
    Amused,
    Anxious,
    Urgent,
    Hushed,
    Stunned,
}

/// Speed of a spoken line.
#[derive(Debug, Clone, Copy, PartialEq, Eq)]
pub enum DeliveryPace {
    Slow,
    Measured,
    Natural,
    Fast,
}

// ---------------------------------------------------------------------------
// Episode plan and beat command
// ---------------------------------------------------------------------------

/// Who wants what in an episode.
#[derive(Debug, Clone, PartialEq, Eq)]
pub struct CentralGoal {
    pub character: String,
    pub goal: String,
}

/// One beat of an episode outline.
#[derive(Debug)]
pub struct BeatOutline {
    pub id: String,
    pub beat_type: String,
    pub description: String,
    pub required_entities: Vec<String>,
}

/// A change to the persistent world requested by a plan.
#[derive(Debug)]
pub struct PersistentChange {
    /// add_fact | remove_fact | add_belief | change_relationship | resolve_thread |
    /// create_thread | change_location_condition ...
    pub operation: String,
    pub target: String,
    pub value: String,
    pub field: Option<String>,
}

/// The overall episode plan (beat outlines only).
#[derive(Debug)]
pub struct EpisodePlan {
    pub episode_title: String,
    pub logline: String,
    pub tone: Vec<String>,
    pub active_characters: Vec<String>,
    pub primary_location: String,
    pub central_goal: CentralGoal,
    pub beats: Vec<BeatOutline>,
    pub payoff: String,
    pub persistent_changes: Vec<PersistentChange>,
    /// Free-form reasoning notes.
    pub notes: Option<String>,
}

/// One action of a beat.
#[derive(Debug)]
pub struct ActionCommand {
    pub actor: String,
    pub action: String,
    pub target: Option<String>,
    /// Required for `speak` and similar performance actions.
    pub text: Option<String>,
}

/// How the camera covers a beat.
#[derive(Debug, Clone, PartialEq, Eq)]
pub struct CameraIntent {
    pub kind: String,
    pub subject: String,
    pub reaction_subject: Option<String>,
}

/// When a beat is over.
#[derive(Debug, Clone, PartialEq, Eq)]
pub struct CompletionCondition {
    /// dialogue_finished | arrival | timer | event_done | animation_finished
    pub kind: String,
    pub actor: Option<String>,
}

/// The detailed command for a single beat.
#[derive(Debug, Clone)]
pub struct BeatCommand {
    pub beat_id: String,
    pub dramatic_purpose: String,
    pub actions: Vec<ActionCommand>,
    pub camera_intent: CameraIntent,
    pub completion_condition: CompletionCondition,
    pub fallback: Option<String>,
    pub notes: Option<String>,
}

// ---------------------------------------------------------------------------
// World digest and single-call authored episodes
// ---------------------------------------------------------------------------

/// The active location as shown to a model.
#[derive(Debug, Clone, PartialEq, Eq)]
pub struct DigestLocation {
    pub id: String,
    pub description: String,
    pub available_interactions: Vec<String>,
}

/// A character as shown to a model.
#[derive(Debug, Clone, PartialEq, Eq)]
pub struct DigestCharacter {
    pub id: String,
    pub role: String,
    pub mood: String,
    pub goal: Option<String>,
    pub knows: Vec<String>,
    pub does_not_know: Vec<String>,
}

/// The camera intent of an authored beat.
#[derive(Debug, Clone, PartialEq, Eq)]
pub struct AuthoredCameraIntent {
    pub kind: String,
    pub subject: String,
    pub reaction_subject: Option<String>,
}

// ---------------------------------------------------------------------------
// Mathematical views and copies
// ---------------------------------------------------------------------------

/// An optional string by content.
pub open spec fn opt_view(o: Option<String>) -> Option<Seq<char>> {
    match o {
        Some(s) => Some(s@),
        None => None,
    }
}

/// Copy of an optional string.
pub fn copy_opt(o: &Option<String>) -> (r: Option<String>)
    ensures
        opt_view(r) == opt_view(*o),
{
    match o {
        Some(s) => Some(s.clone()),
        None => None,
    }
}

/// Copy of a list of strings.
pub fn copy_strs(v: &Vec<String>) -> (r: Vec<String>)
    ensures
        string_views(r@) == string_views(v@),
{
    let mut out: Vec<String> = Vec::new();
    let mut i: usize = 0;
    while i < v.len()
        invariant
            i <= v.len(),
            out.len() == i,
            forall|k: int| 0 <= k < i ==> #[trigger] out@[k]@ == v@[k]@,
        decreases v.len() - i,
    {
        out.push(v[i].clone());
        i += 1;
    }
    assert(string_views(out@) =~= string_views(v@));
    out
}

#[verifier::ext_equal]
pub struct BeatOutlineView {
    pub id: Seq<char>,
    pub beat_type: Seq<char>,
    pub description: Seq<char>,
    pub required_entities: Seq<Seq<char>>,
}

impl View for BeatOutline {
    type V = BeatOutlineView;

    open spec fn view(&self) -> BeatOutlineView {
        BeatOutlineView {
            id: self.id@,
            beat_type: self.beat_type@,
            description: self.description@,
            required_entities: string_views(self.required_entities@),
        }
    }
}

impl Clone for BeatOutline {
    fn clone(&self) -> (r: Self)
        ensures
            r@ == self@,
    {
        BeatOutline {
            id: self.id.clone(),
            beat_type: self.beat_type.clone(),
            description: self.description.clone(),
            required_entities: copy_strs(&self.required_entities),
        }
    }
}

#[verifier::ext_equal]
pub struct PersistentChangeView {
    pub operation: Seq<char>,
    pub target: Seq<char>,
    pub value: Seq<char>,
    pub field: Option<Seq<char>>,
}

impl View for PersistentChange {
    type V = PersistentChangeView;

    open spec fn view(&self) -> PersistentChangeView {
        PersistentChangeView {
            operation: self.operation@,
            target: self.target@,
            value: self.value@,
            field: opt_view(self.field),
        }
    }
}

impl Clone for PersistentChange {
    fn clone(&self) -> (r: Self)
        ensures
            r@ == self@,
    {
        PersistentChange {
            operation: self.operation.clone(),
            target: self.target.clone(),
            value: self.value.clone(),
            field: copy_opt(&self.field),
        }
    }
}

#[verifier::ext_equal]
pub struct EpisodePlanView {
    pub episode_title: Seq<char>,
    pub logline: Seq<char>,
    pub tone: Seq<Seq<char>>,
    pub active_characters: Seq<Seq<char>>,
    pub primary_location: Seq<char>,
    pub goal_character: Seq<char>,
    pub goal: Seq<char>,
    pub beats: Seq<BeatOutlineView>,
    pub payoff: Seq<char>,
    pub persistent_changes: Seq<PersistentChangeView>,
    pub notes: Option<Seq<char>>,
}

pub open spec fn beat_views(v: Seq<BeatOutline>) -> Seq<BeatOutlineView> {
    Seq::new(v.len(), |i: int| v[i]@)
}

pub open spec fn change_views(v: Seq<PersistentChange>) -> Seq<PersistentChangeView> {
    Seq::new(v.len(), |i: int| v[i]@)
}

impl View for EpisodePlan {
    type V = EpisodePlanView;

    open spec fn view(&self) -> EpisodePlanView {
        EpisodePlanView {
            episode_title: self.episode_title@,
            logline: self.logline@,
            tone: string_views(self.tone@),
            active_characters: string_views(self.active_characters@),
            primary_location: self.primary_location@,
            goal_character: self.central_goal.character@,
            goal: self.central_goal.goal@,
            beats: beat_views(self.beats@),
            payoff: self.payoff@,
            persistent_changes: change_views(self.persistent_changes@),
            notes: opt_view(self.notes),
        }
    }
}

/// Copy of a list of beat outlines.
pub fn copy_beats(v: &Vec<BeatOutline>) -> (r: Vec<BeatOutline>)
    ensures
        beat_views(r@) == beat_views(v@),
{
    let mut out: Vec<BeatOutline> = Vec::new();
    let mut i: usize = 0;
    while i < v.len()
        invariant
            i <= v.len(),
            out.len() == i,
            forall|k: int| 0 <= k < i ==> #[trigger] out@[k]@ == v@[k]@,
        decreases v.len() - i,
    {
        out.push(v[i].clone());
        i += 1;
    }
    assert(beat_views(out@) =~= beat_views(v@));
    out
}

/// Copy of a list of persistent changes.
pub fn copy_changes(v: &Vec<PersistentChange>) -> (r: Vec<PersistentChange>)
    ensures
        change_views(r@) == change_views(v@),
{
    let mut out: Vec<PersistentChange> = Vec::new();
    let mut i: usize = 0;
    while i < v.len()
        invariant
            i <= v.len(),
            out.len() == i,
            forall|k: int| 0 <= k < i ==> #[trigger] out@[k]@ == v@[k]@,
        decreases v.len() - i,
    {
        out.push(v[i].clone());
        i += 1;
    }
    assert(change_views(out@) =~= change_views(v@));
    out
}

impl Clone for EpisodePlan {
    fn clone(&self) -> (r: Self)
        ensures
            r@ == self@,
    {
        EpisodePlan {
            episode_title: self.episode_title.clone(),
            logline: self.logline.clone(),
            tone: copy_strs(&self.tone),
            active_characters: copy_strs(&self.active_characters),
            primary_location: self.primary_location.clone(),
            central_goal: CentralGoal {
                character: self.central_goal.character.clone(),
                goal: self.central_goal.goal.clone(),
            },
            beats: copy_beats(&self.beats),
            payoff: self.payoff.clone(),
            persistent_changes: copy_changes(&self.persistent_changes),
            notes: copy_opt(&self.notes),
        }
    }
}

#[verifier::ext_equal]
pub struct ActionCommandView {
    pub actor: Seq<char>,
    pub action: Seq<char>,
    pub target: Option<Seq<char>>,
    pub text: Option<Seq<char>>,
}

impl View for ActionCommand {
    type V = ActionCommandView;

    open spec fn view(&self) -> ActionCommandView {
        ActionCommandView {
            actor: self.actor@,
            action: self.action@,
            target: opt_view(self.target),
            text: opt_view(self.text),
        }
    }
}

impl Clone for ActionCommand {
    fn clone(&self) -> (r: Self)
        ensures
            r@ == self@,
    {
        ActionCommand {
            actor: self.actor.clone(),
            action: self.action.clone(),
            target: copy_opt(&self.target),
            text: copy_opt(&self.text),
        }
    }
}

pub open spec fn action_views(v: Seq<ActionCommand>) -> Seq<ActionCommandView> {
    Seq::new(v.len(), |i: int| v[i]@)
}

/// Copy of a list of actions.
pub fn copy_actions(v: &Vec<ActionCommand>) -> (r: Vec<ActionCommand>)
    ensures
        action_views(r@) == action_views(v@),
{
    let mut out: Vec<ActionCommand> = Vec::new();
    let mut i: usize = 0;
    while i < v.len()
        invariant
            i <= v.len(),
            out.len() == i,
            forall|k: int| 0 <= k < i ==> #[trigger] out@[k]@ == v@[k]@,
        decreases v.len() - i,
    {
        out.push(v[i].clone());
        i += 1;
    }
    assert(action_views(out@) =~= action_views(v@));
    out
}

#[verifier::ext_equal]
pub struct CameraIntentView {
    pub kind: Seq<char>,
    pub subject: Seq<char>,
    pub reaction_subject: Option<Seq<char>>,
}

impl View for CameraIntent {
    type V = CameraIntentView;

    open spec fn view(&self) -> CameraIntentView {
        CameraIntentView {
            kind: self.kind@,
            subject: self.subject@,
            reaction_subject: opt_view(self.reaction_subject),
        }
    }
}

impl CameraIntent {
    /// A copy with the same content.
    pub fn copy(&self) -> (r: Self)
        ensures
            r@ == self@,
    {
        CameraIntent {
            kind: self.kind.clone(),
            subject: self.subject.clone(),
            reaction_subject: copy_opt(&self.reaction_subject),
        }
    }
}

#[verifier::ext_equal]
pub struct CompletionView {
    pub kind: Seq<char>,
    pub actor: Option<Seq<char>>,
}

impl View for CompletionCondition {
    type V = CompletionView;

    open spec fn view(&self) -> CompletionView {
        CompletionView { kind: self.kind@, actor: opt_view(self.actor) }
    }
}

impl CompletionCondition {
    /// A copy with the same content.
    pub fn copy(&self) -> (r: Self)
        ensures
            r@ == self@,
    {
        CompletionCondition { kind: self.kind.clone(), actor: copy_opt(&self.actor) }
    }
}

#[verifier::ext_equal]
pub struct BeatCommandView {
    pub beat_id: Seq<char>,
    pub dramatic_purpose: Seq<char>,
    pub actions: Seq<ActionCommandView>,
    pub camera_intent: CameraIntentView,
    pub completion_condition: CompletionView,
    pub fallback: Option<Seq<char>>,
    pub notes: Option<Seq<char>>,
}

impl View for BeatCommand {
    type V = BeatCommandView;

    open spec fn view(&self) -> BeatCommandView {
        BeatCommandView {
            beat_id: self.beat_id@,
            dramatic_purpose: self.dramatic_purpose@,
            actions: action_views(self.actions@),
            camera_intent: self.camera_intent@,
            completion_condition: self.completion_condition@,
            fallback: opt_view(self.fallback),
            notes: opt_view(self.notes),
        }
    }
}

impl BeatCommand {
    /// A copy with the same content.
    pub fn copy(&self) -> (r: Self)
        ensures
            r@ == self@,
    {
        BeatCommand {
            beat_id: self.beat_id.clone(),
            dramatic_purpose: self.dramatic_purpose.clone(),
            actions: copy_actions(&self.actions),
            camera_intent: self.camera_intent.copy(),
            completion_condition: self.completion_condition.copy(),
            fallback: copy_opt(&self.fallback),
            notes: copy_opt(&self.notes),
        }
    }
}

} // verus!

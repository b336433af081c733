//! Tolerant adaptation of model-authored episode plans and beat commands.
//!
//! Local models often emit a near-canonical shape: a bare-string camera intent
//! or completion, `line`/`dialogue`/`speech` for `text`, action objects
//! without a `type` tag, `character`/`subject` for the actor. The adapter maps
//! these onto the canonical command before strict validation. It never
//! invents story content: it only rearranges fields the model produced.
//!
//! The adapter decides; the caller applies. Each kept action is returned as
//! edits to the model's own action object, which the caller then reads into an
//! action command, dropping it if it does not read.
use vstd::prelude::*;

use crate::json::{first_present, get, text_of, text_or_empty, Json};
use crate::protocol::{
    known_actions, known_camera_intents, known_completion_types, opt_view, str_in,
    known_actions_list, known_camera_intents_list, known_completion_types_list, CameraIntent,
    ActionCommand, ActionCommandView, BeatCommand, BeatCommandView, CameraIntentView,
    CompletionCondition, CompletionView, EpisodePlan,
};
use crate::text::{chars_of, str_eq, str_views, string_of, string_views};
use crate::world::{resolved_entity, WorldState};

verus! {

/// What becomes of an action's `target` member.
#[derive(Debug, PartialEq, Eq)]
pub enum TargetEdit {
    /// Left as the model wrote it (absent, or not a string).
    Keep,
    /// Replaced by the entity it names.
    Replace(String),
    /// Removed: it names no entity.
    Remove,
}

/// A kept action: which of the model's actions it is, and the members to
/// write over it.
#[derive(Debug)]
pub struct ActionEdit {
    /// Position of the action in the model's `actions` array.
    pub source: usize,
    pub action: String,
    pub actor: String,
    /// The spoken text found under `text`, `line`, `dialogue` or `speech`.
    pub text: Option<String>,
    pub target: TargetEdit,
}

/// The adapted command, its actions as edits.
#[derive(Debug)]
pub struct BeatCommandDraft {
    pub beat_id: String,
    pub dramatic_purpose: String,
    pub actions: Vec<ActionEdit>,
    pub camera_intent: CameraIntent,
    pub completion_kind: String,
    pub completion_actor: Option<String>,
    /// The completion was given as an object, whose `seconds` the caller reads;
    /// otherwise the timer defaults.
    pub completion_from_object: bool,
    pub fallback: Option<String>,
    pub notes: Option<String>,
}

/// A target edit by content.
pub enum TargetEditView {
    Keep,
    Replace(Seq<char>),
    Remove,
}

/// An action edit by content.
pub struct ActionEditView {
    pub source: int,
    pub action: Seq<char>,
    pub actor: Seq<char>,
    pub text: Option<Seq<char>>,
    pub target: TargetEditView,
}

/// A draft by content.
pub struct DraftView {
    pub beat_id: Seq<char>,
    pub dramatic_purpose: Seq<char>,
    pub actions: Seq<ActionEditView>,
    pub camera_intent: CameraIntentView,
    pub completion_kind: Seq<char>,
    pub completion_actor: Option<Seq<char>>,
    pub completion_from_object: bool,
    pub fallback: Option<Seq<char>>,
    pub notes: Option<Seq<char>>,
}

pub open spec fn target_edit_view(t: TargetEdit) -> TargetEditView {
    match t {
        TargetEdit::Keep => TargetEditView::Keep,
        TargetEdit::Replace(s) => TargetEditView::Replace(s@),
        TargetEdit::Remove => TargetEditView::Remove,
    }
}

pub open spec fn edit_view(e: ActionEdit) -> ActionEditView {
    ActionEditView {
        source: e.source as int,
        action: e.action@,
        actor: e.actor@,
        text: opt_view(e.text),
        target: target_edit_view(e.target),
    }
}

impl View for BeatCommandDraft {
    type V = DraftView;

    open spec fn view(&self) -> DraftView {
        DraftView {
            beat_id: self.beat_id@,
            dramatic_purpose: self.dramatic_purpose@,
            actions: Seq::new(self.actions@.len(), |i: int| edit_view(self.actions@[i])),
            camera_intent: self.camera_intent@,
            completion_kind: self.completion_kind@,
            completion_actor: opt_view(self.completion_actor),
            completion_from_object: self.completion_from_object,
            fallback: opt_view(self.fallback),
            notes: opt_view(self.notes),
        }
    }
}

// ---------------------------------------------------------------------------
// Specification
// ---------------------------------------------------------------------------

pub open spec fn action_keys() -> Seq<Seq<char>> {
    seq!["action"@, "type"@, "token"@]
}

pub open spec fn actor_keys() -> Seq<Seq<char>> {
    seq!["actor"@, "character"@, "subject"@]
}

pub open spec fn text_keys() -> Seq<Seq<char>> {
    seq!["text"@, "line"@, "dialogue"@, "speech"@]
}

/// `id` when it is an active character of the plan, else the first active
/// character (or `id` when there is none).
pub open spec fn coerced(plan: EpisodePlan, id: Seq<char>) -> Seq<char> {
    let active = plan@.active_characters;
    if active.contains(id) {
        id
    } else if active.len() > 0 {
        active[0]
    } else {
        id
    }
}

/// The first active character of the plan, or empty.
pub open spec fn lead(plan: EpisodePlan) -> Seq<char> {
    if plan@.active_characters.len() > 0 {
        plan@.active_characters[0]
    } else {
        seq![]
    }
}

/// The edit of the action at position `k`: none when its token (under
/// `action`, `type` or `token`) is not a known action, such as a camera word.
pub open spec fn action_edit(w: WorldState, plan: EpisodePlan, a: Json, k: int) -> Option<
    ActionEditView,
> {
    let raw = text_or_empty(first_present(a, action_keys()));
    if !known_actions().contains(raw) {
        None
    } else {
        Some(
            ActionEditView {
                source: k,
                action: raw,
                actor: coerced(plan, text_or_empty(first_present(a, actor_keys()))),
                text: text_of(first_present(a, text_keys())),
                target: match text_of(get(a, "target"@)) {
                    None => TargetEditView::Keep,
                    Some(t) => match resolved_entity(w, t) {
                        Some(c) => TargetEditView::Replace(c),
                        None => TargetEditView::Remove,
                    },
                },
            },
        )
    }
}

/// The edits of the actions `acts`, in order.
pub open spec fn action_edits(w: WorldState, plan: EpisodePlan, acts: Seq<Json>) -> Seq<
    ActionEditView,
>
    decreases acts.len(),
{
    if acts.len() == 0 {
        seq![]
    } else {
        let rest = action_edits(w, plan, acts.drop_last());
        match action_edit(w, plan, acts.last(), acts.len() - 1) {
            Some(e) => rest.push(e),
            None => rest,
        }
    }
}

/// The model's actions, when it gave an array of them.
pub open spec fn model_actions(obj: Json) -> Seq<Json> {
    match get(obj, "actions"@) {
        Some(Json::Array(v)) => v@,
        _ => seq![],
    }
}

/// The camera intent: a bare string names the intent and frames the lead; an
/// object gives `type` (or `intent`), `subject` (or `character`) and
/// `reaction_subject`; an unknown intent becomes `conversation`, and subjects
/// are coerced to active characters.
pub open spec fn adapted_camera(plan: EpisodePlan, obj: Json) -> CameraIntentView {
    let (raw_type, raw_subject, raw_reaction) = match get(obj, "camera_intent"@) {
        Some(Json::Str(s)) => (s@, lead(plan), None),
        Some(v) => (
            match text_of(first_present(v, seq!["type"@, "intent"@])) {
                Some(t) => t,
                None => "conversation"@,
            },
            text_or_empty(first_present(v, seq!["subject"@, "character"@])),
            text_of(get(v, "reaction_subject"@)),
        ),
        None => ("conversation"@, lead(plan), None),
    };
    CameraIntentView {
        kind: if known_camera_intents().contains(raw_type) {
            raw_type
        } else {
            "conversation"@
        },
        subject: coerced(plan, raw_subject),
        reaction_subject: match raw_reaction {
            Some(r) => Some(coerced(plan, r)),
            None => None,
        },
    }
}

/// Some kept action speaks or carries text.
pub open spec fn speaks(acts: Seq<Json>, edits: Seq<ActionEditView>) -> bool {
    exists|i: int|
        0 <= i < edits.len() && (get(acts[edits[i].source], "text"@) is Some
            || #[trigger] edits[i].text is Some || edits[i].action == "speak"@)
}

/// The completion: a bare string names it, an object gives `type` and
/// `actor`; an unknown kind becomes `dialogue_finished` when some kept action
/// speaks or carries text, else `timer`.
pub open spec fn adapted_completion(plan: EpisodePlan, obj: Json, edits: Seq<ActionEditView>) -> (
    Seq<char>,
    Option<Seq<char>>,
    bool,
) {
    let (raw_type, raw_actor, from_object) = match get(obj, "completion_condition"@) {
        Some(Json::Str(s)) => (s@, None, false),
        Some(v) => (
            match text_of(get(v, "type"@)) {
                Some(t) => t,
                None => "timer"@,
            },
            text_of(get(v, "actor"@)),
            true,
        ),
        None => ("timer"@, None, false),
    };
    (
        if known_completion_types().contains(raw_type) {
            raw_type
        } else if speaks(model_actions(obj), edits) {
            "dialogue_finished"@
        } else {
            "timer"@
        },
        match raw_actor {
            Some(a) => Some(coerced(plan, a)),
            None => None,
        },
        from_object,
    )
}

/// The adapted command of a model's beat object.
pub open spec fn adapted_draft(w: WorldState, plan: EpisodePlan, obj: Json) -> DraftView {
    let edits = action_edits(w, plan, model_actions(obj));
    let (kind, actor, from_object) = adapted_completion(plan, obj, edits);
    DraftView {
        beat_id: text_or_empty(get(obj, "beat_id"@)),
        dramatic_purpose: text_or_empty(get(obj, "dramatic_purpose"@)),
        actions: edits,
        camera_intent: adapted_camera(plan, obj),
        completion_kind: kind,
        completion_actor: actor,
        completion_from_object: from_object,
        fallback: text_of(get(obj, "fallback"@)),
        notes: text_of(get(obj, "notes"@)),
    }
}

// ---------------------------------------------------------------------------
// Laws
// ---------------------------------------------------------------------------

/// Every edit is one of the actions `acts`, in their order, with the action's
/// own token and spoken text.
pub open spec fn edits_come_from(acts: Seq<Json>, edits: Seq<ActionEditView>) -> bool {
    &&& forall|i: int|
        0 <= i < edits.len() ==> {
            let e = #[trigger] edits[i];
            &&& 0 <= e.source < acts.len()
            &&& e.action == text_or_empty(first_present(acts[e.source], action_keys()))
            &&& e.text == text_of(first_present(acts[e.source], text_keys()))
        }
    &&& forall|i: int, j: int|
        0 <= i < j < edits.len() ==> (#[trigger] edits[i]).source < (#[trigger] edits[j]).source
}

proof fn lemma_action_edits_come_from(w: WorldState, plan: EpisodePlan, acts: Seq<Json>)
    ensures
        edits_come_from(acts, action_edits(w, plan, acts)),
    decreases acts.len(),
{
    if acts.len() > 0 {
        let init = acts.drop_last();
        lemma_action_edits_come_from(w, plan, init);
        let rest = action_edits(w, plan, init);
        let edits = action_edits(w, plan, acts);
        assert forall|i: int| 0 <= i < rest.len() implies acts[(#[trigger] rest[i]).source]
            == init[rest[i].source] by {
            assert(0 <= rest[i].source < init.len());
        }
        if let Some(e) = action_edit(w, plan, acts.last(), acts.len() - 1) {
            assert(edits == rest.push(e));
            assert forall|i: int| 0 <= i < edits.len() implies {
                let x = #[trigger] edits[i];
                &&& 0 <= x.source < acts.len()
                &&& x.action == text_or_empty(first_present(acts[x.source], action_keys()))
                &&& x.text == text_of(first_present(acts[x.source], text_keys()))
            } by {
                if i < rest.len() {
                    assert(edits[i] == rest[i]);
                    assert(acts[rest[i].source] == init[rest[i].source]);
                }
            }
            assert forall|i: int, j: int| 0 <= i < j < edits.len() implies (
            #[trigger] edits[i]).source < (#[trigger] edits[j]).source by {
                assert(edits[i] == rest[i]);
                if j < rest.len() {
                    assert(edits[j] == rest[j]);
                }
            }
        } else {
            assert(edits == rest);
            assert forall|i: int| 0 <= i < edits.len() implies {
                let x = #[trigger] edits[i];
                &&& 0 <= x.source < acts.len()
                &&& x.action == text_or_empty(first_present(acts[x.source], action_keys()))
                &&& x.text == text_of(first_present(acts[x.source], text_keys()))
            } by {
                assert(acts[rest[i].source] == init[rest[i].source]);
            }
        }
    }
}

/// Adapting a beat command invents no story content: every kept action is one
/// the model wrote, kept in the model's order, with the model's own action
/// token and the model's own spoken text.
pub proof fn adaptation_invents_nothing(w: WorldState, plan: EpisodePlan, obj: Json)
    ensures
        edits_come_from(model_actions(obj), adapted_draft(w, plan, obj).actions),
{
    lemma_action_edits_come_from(w, plan, model_actions(obj));
}

// ---------------------------------------------------------------------------
// Implementation
// ---------------------------------------------------------------------------

fn text(s: &str) -> (r: String)
    ensures
        r@ == s@,
{
    string_of(&chars_of(s))
}

fn text_member(j: &Json, keys: &[&str]) -> (r: Option<String>)
    ensures
        opt_view(r) == text_of(first_present(*j, str_views(keys@))),
{
    match j.first_present(keys) {
        Some(v) => match v.as_str() {
            Some(s) => Some(text(s)),
            None => None,
        },
        None => None,
    }
}

fn text_member_or_empty(j: &Json, keys: &[&str]) -> (r: String)
    ensures
        r@ == text_or_empty(first_present(*j, str_views(keys@))),
{
    match text_member(j, keys) {
        Some(s) => s,
        None => String::new(),
    }
}

fn coerce_character(plan: &EpisodePlan, id: &str) -> (r: String)
    ensures
        r@ == coerced(*plan, id@),
{
    let mut i: usize = 0;
    while i < plan.active_characters.len()
        invariant
            i <= plan.active_characters@.len(),
            forall|k: int| 0 <= k < i ==> plan@.active_characters[k] != id@,
        decreases plan.active_characters@.len() - i,
    {
        if str_eq(plan.active_characters[i].as_str(), id) {
            assert(plan@.active_characters[i as int] == id@);
            return text(id);
        }
        i += 1;
    }
    if plan.active_characters.len() > 0 {
        text(plan.active_characters[0].as_str())
    } else {
        text(id)
    }
}

fn lead_of(plan: &EpisodePlan) -> (r: String)
    ensures
        r@ == lead(*plan),
{
    if plan.active_characters.len() > 0 {
        text(plan.active_characters[0].as_str())
    } else {
        String::new()
    }
}

proof fn lemma_keys()
    ensures
        str_views(seq!["action", "type", "token"]) == action_keys(),
        str_views(seq!["actor", "character", "subject"]) == actor_keys(),
        str_views(seq!["text", "line", "dialogue", "speech"]) == text_keys(),
        str_views(seq!["type", "intent"]) == seq!["type"@, "intent"@],
        str_views(seq!["subject", "character"]) == seq!["subject"@, "character"@],
{
    assert(str_views(seq!["action", "type", "token"]) =~= action_keys());
    assert(str_views(seq!["actor", "character", "subject"]) =~= actor_keys());
    assert(str_views(seq!["text", "line", "dialogue", "speech"]) =~= text_keys());
    assert(str_views(seq!["type", "intent"]) =~= seq!["type"@, "intent"@]);
    assert(str_views(seq!["subject", "character"]) =~= seq!["subject"@, "character"@]);
}

fn edit_action(world: &WorldState, plan: &EpisodePlan, a: &Json, k: usize) -> (r: Option<ActionEdit>)
    ensures
        match r {
            Some(e) => action_edit(*world, *plan, *a, k as int) == Some(edit_view(e)),
            None => action_edit(*world, *plan, *a, k as int) is None,
        },
{
    proof {
        lemma_keys();
    }
    let keys_a: &[&str] = &["action", "type", "token"];
    let raw = text_member_or_empty(a, keys_a);
    if !str_in(raw.as_str(), &known_actions_list()) {
        return None;
    }
    let keys_c: &[&str] = &["actor", "character", "subject"];
    let actor_raw = text_member_or_empty(a, keys_c);
    let actor = coerce_character(plan, actor_raw.as_str());
    let keys_t: &[&str] = &["text", "line", "dialogue", "speech"];
    let text_found = text_member(a, keys_t);
    let target = match a.get("target") {
        Some(v) => match v.as_str() {
            Some(t) => match world.resolve_entity_or_alias(t) {
                Some(c) => TargetEdit::Replace(c),
                None => TargetEdit::Remove,
            },
            None => TargetEdit::Keep,
        },
        None => TargetEdit::Keep,
    };
    let e = ActionEdit { source: k, action: raw, actor, text: text_found, target };
    Some(e)
}

fn camera(plan: &EpisodePlan, obj: &Json) -> (r: CameraIntent)
    ensures
        r@ == adapted_camera(*plan, *obj),
{
    proof {
        lemma_keys();
    }
    let (raw_type, raw_subject, raw_reaction) = match obj.get("camera_intent") {
        Some(Json::Str(s)) => (text(s.as_str()), lead_of(plan), None),
        Some(v) => {
            let keys_i: &[&str] = &["type", "intent"];
            let ty = match text_member(v, keys_i) {
                Some(t) => t,
                None => text("conversation"),
            };
            let keys_s: &[&str] = &["subject", "character"];
            let sub = text_member_or_empty(v, keys_s);
            let reaction = match v.get("reaction_subject") {
                Some(x) => match x.as_str() {
                    Some(s) => Some(text(s)),
                    None => None,
                },
                None => None,
            };
            (ty, sub, reaction)
        },
        None => (text("conversation"), lead_of(plan), None),
    };
    let kind = if str_in(raw_type.as_str(), &known_camera_intents_list()) {
        raw_type
    } else {
        text("conversation")
    };
    let subject = coerce_character(plan, raw_subject.as_str());
    let reaction_subject = match raw_reaction {
        Some(r) => Some(coerce_character(plan, r.as_str())),
        None => None,
    };
    CameraIntent { kind, subject, reaction_subject }
}

/// The command standing in for a model's beat value that is neither an
/// object nor a whole command: no actions, an establishing shot of the
/// plan's first active character, and a timer completion.
pub open spec fn default_command(plan: EpisodePlan) -> BeatCommandView {
    BeatCommandView {
        beat_id: seq![],
        dramatic_purpose: seq![],
        actions: seq![],
        camera_intent: CameraIntentView {
            kind: "establish"@,
            subject: lead(plan),
            reaction_subject: None,
        },
        completion_condition: CompletionView { kind: "timer"@, actor: None },
        fallback: None,
        notes: None,
    }
}

/// The command standing in for a model's beat value that is neither an
/// object nor a whole command (its timer length is the caller's).
pub fn default_beat_command(plan: &EpisodePlan) -> (r: BeatCommand)
    ensures
        r@ == default_command(*plan),
{
    let actions: Vec<ActionCommand> = Vec::new();
    let r = BeatCommand {
        beat_id: String::new(),
        dramatic_purpose: String::new(),
        actions,
        camera_intent: CameraIntent {
            kind: text("establish"),
            subject: lead_of(plan),
            reaction_subject: None,
        },
        completion_condition: CompletionCondition { kind: text("timer"), actor: None },
        fallback: None,
        notes: None,
    };
    assert(r@.actions =~= Seq::<ActionCommandView>::empty());
    assert(r@ =~= default_command(*plan));
    r
}

/// Adapt a model's beat command. A value that is not an object is left to
/// the caller, which reads it directly or falls back to a default command.
pub fn adapt_beat_command(value: &Json, plan: &EpisodePlan, world: &WorldState) -> (r: Option<
    BeatCommandDraft,
>)
    ensures
        match r {
            Some(d) => value is Object && d@ == adapted_draft(*world, *plan, *value),
            None => !(value is Object),
        },
{
    match value {
        Json::Object(_) => {},
        _ => {
            return None;
        },
    }
    let ghost acts = model_actions(*value);
    let empty: Vec<Json> = Vec::new();
    let arr: &Vec<Json> = match value.get("actions") {
        Some(Json::Array(v)) => v,
        _ => &empty,
    };
    assert(arr@ == acts);
    let mut edits: Vec<ActionEdit> = Vec::new();
    let mut speaks_found = false;
    let mut i: usize = 0;
    assert(acts.take(0) =~= Seq::<Json>::empty());
    while i < arr.len()
        invariant
            i <= arr@.len(),
            arr@ == acts,
            Seq::new(edits@.len(), |k: int| edit_view(edits@[k])) == action_edits(
                *world,
                *plan,
                acts.take(i as int),
            ),
            forall|k: int| 0 <= k < edits@.len() ==> (#[trigger] edits@[k]).source < i,
            speaks_found == exists|k: int|
                0 <= k < edits@.len() && (get(acts[edits@[k].source as int], "text"@) is Some
                    || #[trigger] edit_view(edits@[k]).text is Some || edits@[k].action@
                    == "speak"@),
        decreases arr@.len() - i,
    {
        let ghost before = Seq::new(edits@.len(), |k: int| edit_view(edits@[k]));
        let ghost old_edits = edits@;
        assert(acts.take(i + 1).drop_last() =~= acts.take(i as int));
        assert(acts.take(i + 1).last() == acts[i as int]);
        match edit_action(world, plan, &arr[i], i) {
            Some(e) => {
                let s = arr[i].get("text").is_some() || e.text.is_some() || str_eq(
                    e.action.as_str(),
                    "speak",
                );
                edits.push(e);
                assert(Seq::new(edits@.len(), |k: int| edit_view(edits@[k])) =~= before.push(
                    edit_view(edits@[edits@.len() - 1]),
                ));
                proof {
                    assert forall|k: int| 0 <= k < old_edits.len() implies edits@[k] == old_edits[k] by {}
                }
                speaks_found = speaks_found || s;
                proof {
                    let last = (edits@.len() - 1) as int;
                    if s {
                        assert(edits@[last].source == i);
                        assert(get(acts[edits@[last].source as int], "text"@) is Some
                            || edit_view(edits@[last]).text is Some || edits@[last].action@
                            == "speak"@);
                    }
                }
            },
            None => {},
        }
        i += 1;
    }
    assert(acts.take(acts.len() as int) =~= acts);
    let ghost ev = Seq::new(edits@.len(), |k: int| edit_view(edits@[k]));
    assert(speaks_found == speaks(acts, ev)) by {
        if speaks_found {
            let k = choose|k: int|
                0 <= k < edits@.len() && (get(acts[edits@[k].source as int], "text"@) is Some
                    || #[trigger] edit_view(edits@[k]).text is Some || edits@[k].action@
                    == "speak"@);
            assert(ev[k] == edit_view(edits@[k]));
        }
        if speaks(acts, ev) {
            let k = choose|k: int|
                0 <= k < ev.len() && (get(acts[ev[k].source], "text"@) is Some
                    || #[trigger] ev[k].text is Some || ev[k].action == "speak"@);
            assert(ev[k] == edit_view(edits@[k]));
        }
    }
    let camera_intent = camera(plan, value);
    let (raw_type, raw_actor, from_object) = match value.get("completion_condition") {
        Some(Json::Str(s)) => (text(s.as_str()), None, false),
        Some(v) => {
            let ty = match v.get("type") {
                Some(x) => match x.as_str() {
                    Some(t) => text(t),
                    None => text("timer"),
                },
                None => text("timer"),
            };
            let act = match v.get("actor") {
                Some(x) => match x.as_str() {
                    Some(a) => Some(text(a)),
                    None => None,
                },
                None => None,
            };
            (ty, act, true)
        },
        None => (text("timer"), None, false),
    };
    let completion_kind = if str_in(raw_type.as_str(), &known_completion_types_list()) {
        raw_type
    } else if speaks_found {
        text("dialogue_finished")
    } else {
        text("timer")
    };
    let completion_actor = match raw_actor {
        Some(a) => Some(coerce_character(plan, a.as_str())),
        None => None,
    };
    let beat_id = match value.get("beat_id") {
        Some(x) => match x.as_str() {
            Some(s) => text(s),
            None => String::new(),
        },
        None => String::new(),
    };
    let dramatic_purpose = match value.get("dramatic_purpose") {
        Some(x) => match x.as_str() {
            Some(s) => text(s),
            None => String::new(),
        },
        None => String::new(),
    };
    let fallback = match value.get("fallback") {
        Some(x) => match x.as_str() {
            Some(s) => Some(text(s)),
            None => None,
        },
        None => None,
    };
    let notes = match value.get("notes") {
        Some(x) => match x.as_str() {
            Some(s) => Some(text(s)),
            None => None,
        },
        None => None,
    };
    let d = BeatCommandDraft {
        beat_id,
        dramatic_purpose,
        actions: edits,
        camera_intent,
        completion_kind,
        completion_actor,
        completion_from_object: from_object,
        fallback,
        notes,
    };
    assert(d@ =~= adapted_draft(*world, *plan, *value));
    Some(d)
}

// ---------------------------------------------------------------------------
// Episode plans
// ---------------------------------------------------------------------------

/// A beat of the model's outline, read for the caller: which entry it is,
/// whether the entry was a bare string (an id alone), and the id, type and
/// description found under their aliases. The caller writes these over the
/// entry and reads it into a beat outline with its start time, dropping it if
/// it does not read.
#[derive(Debug)]
pub struct BeatDraft {
    pub source: usize,
    pub bare_id: bool,
    pub id: String,
    pub beat_type: String,
    pub description: String,
}

/// The adapted plan. Its target duration and persistent changes are read by
/// the caller.
#[derive(Debug)]
pub struct PlanDraft {
    pub episode_title: String,
    pub logline: String,
    pub tone: Vec<String>,
    pub active_characters: Vec<String>,
    pub primary_location: String,
    pub goal_character: String,
    pub goal: String,
    pub beats: Vec<BeatDraft>,
    pub payoff: String,
    pub notes: Option<String>,
}

/// A beat draft by content.
pub struct BeatDraftView {
    pub source: int,
    pub bare_id: bool,
    pub id: Seq<char>,
    pub beat_type: Seq<char>,
    pub description: Seq<char>,
}

/// A plan draft by content.
pub struct PlanDraftView {
    pub episode_title: Seq<char>,
    pub logline: Seq<char>,
    pub tone: Seq<Seq<char>>,
    pub active_characters: Seq<Seq<char>>,
    pub primary_location: Seq<char>,
    pub goal_character: Seq<char>,
    pub goal: Seq<char>,
    pub beats: Seq<BeatDraftView>,
    pub payoff: Seq<char>,
    pub notes: Option<Seq<char>>,
}

pub open spec fn beat_draft_view(b: BeatDraft) -> BeatDraftView {
    BeatDraftView {
        source: b.source as int,
        bare_id: b.bare_id,
        id: b.id@,
        beat_type: b.beat_type@,
        description: b.description@,
    }
}

impl View for PlanDraft {
    type V = PlanDraftView;

    open spec fn view(&self) -> PlanDraftView {
        PlanDraftView {
            episode_title: self.episode_title@,
            logline: self.logline@,
            tone: string_views(self.tone@),
            active_characters: string_views(self.active_characters@),
            primary_location: self.primary_location@,
            goal_character: self.goal_character@,
            goal: self.goal@,
            beats: Seq::new(self.beats@.len(), |i: int| beat_draft_view(self.beats@[i])),
            payoff: self.payoff@,
            notes: opt_view(self.notes),
        }
    }
}

/// The text under the first of `keys` that `j` has, or empty.
pub open spec fn text_under(j: Json, keys: Seq<Seq<char>>) -> Seq<char> {
    text_or_empty(first_present(j, keys))
}

/// The strings of an array, in order, skipping other values.
pub open spec fn strings_in(v: Seq<Json>) -> Seq<Seq<char>>
    decreases v.len(),
{
    if v.len() == 0 {
        seq![]
    } else {
        let rest = strings_in(v.drop_last());
        match v.last() {
            Json::Str(s) => rest.push(s@),
            _ => rest,
        }
    }
}

/// The ids of an array of characters: each string, or the `id` string of
/// each object, skipping anything else.
pub open spec fn ids_in(v: Seq<Json>) -> Seq<Seq<char>>
    decreases v.len(),
{
    if v.len() == 0 {
        seq![]
    } else {
        let rest = ids_in(v.drop_last());
        match v.last() {
            Json::Str(s) => rest.push(s@),
            Json::Object(_) => match text_of(get(v.last(), "id"@)) {
                Some(i) => rest.push(i),
                None => rest,
            },
            _ => rest,
        }
    }
}

/// The elements of `o` when it is an array.
pub open spec fn array_of(o: Option<Json>) -> Seq<Json> {
    match o {
        Some(Json::Array(v)) => v@,
        _ => seq![],
    }
}

/// The member under the first of `keys` whose value is an array.
pub open spec fn first_array(j: Json, keys: Seq<Seq<char>>) -> Option<Seq<Json>>
    decreases keys.len(),
{
    if keys.len() == 0 {
        None
    } else {
        match get(j, keys[0]) {
            Some(Json::Array(v)) => Some(v@),
            _ => first_array(j, keys.drop_first()),
        }
    }
}

pub open spec fn beat_list_keys() -> Seq<Seq<char>> {
    seq!["beats"@, "acts"@, "scenes"@, "sequences"@, "shots"@, "beat_list"@]
}

/// A beat entry read as an object: a bare string is its id.
pub open spec fn beat_entry_text(b: Json, keys: Seq<Seq<char>>) -> Seq<char> {
    match b {
        Json::Str(s) => if keys.contains("id"@) {
            s@
        } else {
            seq![]
        },
        _ => text_under(b, keys),
    }
}

/// The draft of the beat entry at position `k`.
pub open spec fn beat_draft(b: Json, k: int) -> BeatDraftView {
    BeatDraftView {
        source: k,
        bare_id: b is Str,
        id: beat_entry_text(b, seq!["id"@, "beat_id"@, "name"@]),
        beat_type: if b is Str {
            "beat"@
        } else {
            match text_of(first_present(b, seq!["type"@, "beat_type"@])) {
                Some(t) => t,
                None => "beat"@,
            }
        },
        description: beat_entry_text(b, seq!["description"@, "summary"@, "note"@, "intent"@]),
    }
}

/// The adapted plan of a model's plan object: each field under its common
/// aliases, and the beats of the first beat list given as an array.
pub open spec fn adapted_plan(obj: Json) -> PlanDraftView {
    let goal = get(obj, "central_goal"@);
    let beats = match first_array(obj, beat_list_keys()) {
        Some(v) => v,
        None => seq![],
    };
    PlanDraftView {
        episode_title: text_under(obj, seq!["episode_title"@, "title"@]),
        logline: text_under(obj, seq!["logline"@, "log_line"@]),
        tone: strings_in(array_of(get(obj, "tone"@))),
        active_characters: ids_in(
            array_of(first_present(obj, seq!["active_characters"@, "characters"@, "cast"@])),
        ),
        primary_location: text_under(
            obj,
            seq!["primary_location"@, "location"@, "setting"@, "place"@],
        ),
        goal_character: match goal {
            Some(g) => text_under(g, seq!["character"@, "who"@]),
            None => seq![],
        },
        goal: match goal {
            Some(g) => text_under(g, seq!["goal"@, "what"@]),
            None => seq![],
        },
        beats: Seq::new(beats.len(), |i: int| beat_draft(beats[i], i)),
        payoff: text_under(obj, seq!["payoff"@, "ending"@, "resolution"@, "conclusion"@]),
        notes: text_of(get(obj, "notes"@)),
    }
}

fn strings_of_array(v: &Vec<Json>) -> (r: Vec<String>)
    ensures
        string_views(r@) == strings_in(v@),
{
    let mut out: Vec<String> = Vec::new();
    let mut i: usize = 0;
    assert(v@.take(0) =~= Seq::<Json>::empty());
    while i < v.len()
        invariant
            i <= v@.len(),
            string_views(out@) == strings_in(v@.take(i as int)),
        decreases v@.len() - i,
    {
        assert(v@.take(i + 1).drop_last() =~= v@.take(i as int));
        assert(v@.take(i + 1).last() == v@[i as int]);
        let ghost before = string_views(out@);
        match &v[i] {
            Json::Str(s) => {
                out.push(text(s.as_str()));
                assert(string_views(out@) =~= before.push(s@));
            },
            _ => {},
        }
        i += 1;
    }
    assert(v@.take(v@.len() as int) =~= v@);
    out
}

fn ids_of_array(v: &Vec<Json>) -> (r: Vec<String>)
    ensures
        string_views(r@) == ids_in(v@),
{
    let mut out: Vec<String> = Vec::new();
    let mut i: usize = 0;
    assert(v@.take(0) =~= Seq::<Json>::empty());
    while i < v.len()
        invariant
            i <= v@.len(),
            string_views(out@) == ids_in(v@.take(i as int)),
        decreases v@.len() - i,
    {
        assert(v@.take(i + 1).drop_last() =~= v@.take(i as int));
        assert(v@.take(i + 1).last() == v@[i as int]);
        let ghost before = string_views(out@);
        match &v[i] {
            Json::Str(s) => {
                out.push(text(s.as_str()));
                assert(string_views(out@) =~= before.push(s@));
            },
            Json::Object(_) => {
                match v[i].get("id") {
                    Some(x) => match x.as_str() {
                        Some(id) => {
                            out.push(text(id));
                            assert(string_views(out@) =~= before.push(id@));
                        },
                        None => {},
                    },
                    None => {},
                }
            },
            _ => {},
        }
        i += 1;
    }
    assert(v@.take(v@.len() as int) =~= v@);
    out
}

fn array_member<'a>(j: &'a Json, key: &str, empty: &'a Vec<Json>) -> (r: &'a Vec<Json>)
    requires
        empty@.len() == 0,
    ensures
        r@ == array_of(get(*j, key@)),
{
    match j.get(key) {
        Some(Json::Array(v)) => v,
        _ => empty,
    }
}

fn entry_text(b: &Json, keys: &[&str]) -> (r: String)
    ensures
        r@ == beat_entry_text(*b, str_views(keys@)),
{
    match b {
        Json::Str(s) => {
            let mut k: usize = 0;
            while k < keys.len()
                invariant
                    beat_entry_text(*b, str_views(keys@)) == (if str_views(keys@).contains("id"@) {
                        s@
                    } else {
                        seq![]
                    }),
                    k <= keys@.len(),
                    forall|m: int| 0 <= m < k ==> str_views(keys@)[m] != "id"@,
                decreases keys@.len() - k,
            {
                if str_eq(keys[k], "id") {
                    assert(str_views(keys@)[k as int] == "id"@);
                    assert(str_views(keys@).contains("id"@));
                    return text(s.as_str());
                }
                k += 1;
            }
            String::new()
        },
        _ => text_member_or_empty(b, keys),
    }
}

fn draft_beat(b: &Json, k: usize) -> (r: BeatDraft)
    ensures
        beat_draft_view(r) == beat_draft(*b, k as int),
{
    let keys_id: &[&str] = &["id", "beat_id", "name"];
    let keys_ty: &[&str] = &["type", "beat_type"];
    let keys_de: &[&str] = &["description", "summary", "note", "intent"];
    proof {
        assert(str_views(keys_id@) =~= seq!["id"@, "beat_id"@, "name"@]);
        assert(str_views(keys_ty@) =~= seq!["type"@, "beat_type"@]);
        assert(str_views(keys_de@) =~= seq!["description"@, "summary"@, "note"@, "intent"@]);
    }
    let bare = match b {
        Json::Str(_) => true,
        _ => false,
    };
    let beat_type = if bare {
        text("beat")
    } else {
        match b.first_present(keys_ty) {
            Some(x) => match x.as_str() {
                Some(t) => text(t),
                None => text("beat"),
            },
            None => text("beat"),
        }
    };
    BeatDraft {
        source: k,
        bare_id: bare,
        id: entry_text(b, keys_id),
        beat_type,
        description: entry_text(b, keys_de),
    }
}

fn member_text_or_empty(j: &Json, keys: &[&str]) -> (r: String)
    ensures
        r@ == text_under(*j, str_views(keys@)),
{
    text_member_or_empty(j, keys)
}

/// Adapt a model's episode plan. A value that is not an object is left to
/// the caller, which reads it directly or falls back to an empty plan.
pub fn adapt_episode_plan(value: &Json) -> (r: Option<PlanDraft>)
    ensures
        match r {
            Some(d) => value is Object && d@ == adapted_plan(*value),
            None => !(value is Object),
        },
{
    match value {
        Json::Object(_) => {},
        _ => {
            return None;
        },
    }
    let empty: Vec<Json> = Vec::new();
    let k_title: &[&str] = &["episode_title", "title"];
    let k_log: &[&str] = &["logline", "log_line"];
    let k_cast: &[&str] = &["active_characters", "characters", "cast"];
    let k_loc: &[&str] = &["primary_location", "location", "setting", "place"];
    let k_who: &[&str] = &["character", "who"];
    let k_what: &[&str] = &["goal", "what"];
    let k_pay: &[&str] = &["payoff", "ending", "resolution", "conclusion"];
    let k_beats: &[&str] = &["beats", "acts", "scenes", "sequences", "shots", "beat_list"];
    proof {
        assert(str_views(k_title@) =~= seq!["episode_title"@, "title"@]);
        assert(str_views(k_log@) =~= seq!["logline"@, "log_line"@]);
        assert(str_views(k_cast@) =~= seq!["active_characters"@, "characters"@, "cast"@]);
        assert(str_views(k_loc@) =~= seq!["primary_location"@, "location"@, "setting"@, "place"@]);
        assert(str_views(k_who@) =~= seq!["character"@, "who"@]);
        assert(str_views(k_what@) =~= seq!["goal"@, "what"@]);
        assert(str_views(k_pay@) =~= seq!["payoff"@, "ending"@, "resolution"@, "conclusion"@]);
        assert(str_views(k_beats@) =~= beat_list_keys());
    }
    let episode_title = member_text_or_empty(value, k_title);
    let logline = member_text_or_empty(value, k_log);
    let tone = strings_of_array(array_member(value, "tone", &empty));
    let cast: &Vec<Json> = match value.first_present(k_cast) {
        Some(Json::Array(v)) => v,
        _ => &empty,
    };
    let active_characters = ids_of_array(cast);
    let primary_location = member_text_or_empty(value, k_loc);
    let (goal_character, goal) = match value.get("central_goal") {
        Some(g) => (member_text_or_empty(g, k_who), member_text_or_empty(g, k_what)),
        None => (String::new(), String::new()),
    };
    let payoff = member_text_or_empty(value, k_pay);
    let notes = match value.get("notes") {
        Some(x) => match x.as_str() {
            Some(s) => Some(text(s)),
            None => None,
        },
        None => None,
    };
    let mut list: &Vec<Json> = &empty;
    let mut q: usize = 0;
    let ghost ks = beat_list_keys();
    assert(ks.skip(0) =~= ks);
    while q < k_beats.len()
        invariant_except_break
            q <= k_beats@.len(),
            str_views(k_beats@) == ks,
            list@.len() == 0,
            first_array(*value, ks) == first_array(*value, ks.skip(q as int)),
        ensures
            list@ == match first_array(*value, ks) {
                Some(v) => v,
                None => seq![],
            },
        decreases k_beats@.len() - q,
    {
        assert(ks.skip(q as int)[0] == k_beats@[q as int]@);
        assert(ks.skip(q as int).drop_first() =~= ks.skip(q + 1));
        match value.get(k_beats[q]) {
            Some(Json::Array(v)) => {
                list = v;
                break;
            },
            _ => {},
        }
        q += 1;
    }
    let mut beats: Vec<BeatDraft> = Vec::new();
    let mut i: usize = 0;
    while i < list.len()
        invariant
            i <= list@.len(),
            beats@.len() == i,
            forall|m: int| 0 <= m < i ==> beat_draft_view(#[trigger] beats@[m]) == beat_draft(list@[m], m),
        decreases list@.len() - i,
    {
        beats.push(draft_beat(&list[i], i));
        i += 1;
    }
    let d = PlanDraft {
        episode_title,
        logline,
        tone,
        active_characters,
        primary_location,
        goal_character,
        goal,
        beats,
        payoff,
        notes,
    };
    let ghost want = adapted_plan(*value);
    assert(d@.episode_title == want.episode_title);
    assert(d@.logline == want.logline);
    assert(d@.tone == want.tone);
    assert(d@.active_characters == want.active_characters);
    assert(d@.primary_location == want.primary_location);
    assert(d@.goal_character == want.goal_character);
    assert(d@.goal == want.goal);
    assert(d@.beats =~= want.beats);
    assert(d@.payoff == want.payoff);
    assert(d@.notes == want.notes);
    assert(d@ =~= adapted_plan(*value));
    Some(d)
}

} // verus!

//! Truthful authorship: which implementation produced each piece of an episode.
use vstd::prelude::*;

use crate::default_world::default_world;
use crate::director::{
    cast, complication_actions, escalation_actions, hook_actions, outline, payoff_actions,
    payoff_for, reveal_actions, scenario, scripted_command, scripted_plan, DeterministicDirector,
    DirectorContext,
};
use crate::protocol::{
    known_actions, known_camera_intents, known_completion_types, known_persistent_ops,
    ActionCommandView, BeatCommand, BeatOutlineView, EpisodePlan,
};
use crate::text::{chars_of, is_ws, string_of, trim_end, trim_start};
use crate::validation::{
    action_errors, beat_errors, beat_ids, command_errors, one_action_errors, op_names, plan_errors,
    subject_errors, text_missing, unknown_character_errors, unknown_entity_errors,
    unknown_op_errors,
};
use crate::world::{
    character_ids, entity_exists_spec, first_index, has_character, has_location, has_mark_or_anchor,
    has_prop, lemma_first_index, location_ids, mark_ids, prop_ids, WorldState,
};

verus! {

/// Which implementation actually produced a piece of content.
#[derive(Debug, Clone, Copy, PartialEq, Eq, Structural)]
pub enum AuthorSource {
    /// The configured model produced this piece.
    Llm,
    /// The deterministic director produced this piece because the model failed.
    DeterministicFallback,
    /// The run was configured to use the deterministic director only.
    Deterministic,
}

/// The stable name of a source.
pub open spec fn source_name(s: AuthorSource) -> Seq<char> {
    match s {
        AuthorSource::Llm => "llm"@,
        AuthorSource::DeterministicFallback => "deterministic_fallback"@,
        AuthorSource::Deterministic => "deterministic"@,
    }
}

impl AuthorSource {
    /// The stable name of this source, as written in diagnostics.
    pub fn as_str(&self) -> (r: &'static str)
        ensures
            r@ == source_name(*self),
    {
        match self {
            AuthorSource::Llm => "llm",
            AuthorSource::DeterministicFallback => "deterministic_fallback",
            AuthorSource::Deterministic => "deterministic",
        }
    }
}

/// The deterministic director as an episode author.
#[derive(Debug, Clone, Copy)]
pub struct DeterministicAuthor;

/// An authored episode: the plan and, for each beat in plan order, its id and
/// its detailed command.
#[derive(Debug)]
pub struct PlannedEpisode {
    pub plan: EpisodePlan,
    pub commands: Vec<(String, BeatCommand)>,
}

/// Who supplied one beat, and how.
#[derive(Debug)]
pub struct BeatAuthorship {
    pub beat_id: String,
    pub source: AuthorSource,
    pub model: String,
    pub attempts: u32,
    pub repair_used: bool,
    pub validation_status: String,
}

/// Who supplied the plan and every beat. Latencies are measured and recorded
/// by the caller.
#[derive(Debug)]
pub struct PlanAuthorship {
    pub plan_source: AuthorSource,
    pub model: String,
    pub attempts: u32,
    pub repair_used: bool,
    pub validation_status: String,
    pub beats: Vec<BeatAuthorship>,
}

impl PlanAuthorship {
    /// True only if both the plan and every beat came from the model.
    pub fn all_llm(&self) -> (r: bool)
        ensures
            r == (self.plan_source == AuthorSource::Llm && forall|i: int|
                0 <= i < self.beats@.len() ==> #[trigger] self.beats@[i].source
                    == AuthorSource::Llm),
    {
        if self.plan_source != AuthorSource::Llm {
            return false;
        }
        let mut i: usize = 0;
        while i < self.beats.len()
            invariant
                i <= self.beats@.len(),
                forall|j: int| 0 <= j < i ==> #[trigger] self.beats@[j].source == AuthorSource::Llm,
            decreases self.beats@.len() - i,
        {
            if self.beats[i].source != AuthorSource::Llm {
                return false;
            }
            i += 1;
        }
        true
    }

    /// The model wrote something that was used: the plan or at least one beat.
    pub fn llm_used(&self) -> (r: bool)
        ensures
            r == (self.plan_source == AuthorSource::Llm || exists|i: int|
                0 <= i < self.beats@.len() && #[trigger] self.beats@[i].source
                    == AuthorSource::Llm),
    {
        if self.plan_source == AuthorSource::Llm {
            return true;
        }
        let mut i: usize = 0;
        while i < self.beats.len()
            invariant
                i <= self.beats@.len(),
                forall|j: int| 0 <= j < i ==> #[trigger] self.beats@[j].source != AuthorSource::Llm,
            decreases self.beats@.len() - i,
        {
            if self.beats[i].source == AuthorSource::Llm {
                return true;
            }
            i += 1;
        }
        false
    }

    /// How many beats fell back to the deterministic director.
    pub fn fallback_beats(&self) -> (r: usize)
        ensures
            r == fallback_count(self.beats@),
    {
        let mut n: usize = 0;
        let mut i: usize = 0;
        while i < self.beats.len()
            invariant
                i <= self.beats@.len(),
                n == fallback_count(self.beats@.take(i as int)),
                n <= i,
            decreases self.beats@.len() - i,
        {
            assert(self.beats@.take(i + 1).drop_last() =~= self.beats@.take(i as int));
            if self.beats[i].source == AuthorSource::DeterministicFallback {
                n += 1;
            }
            i += 1;
        }
        assert(self.beats@.take(self.beats@.len() as int) =~= self.beats@);
        n
    }

    /// The model requests made: those for the plan and those for every beat.
    pub fn requests(&self) -> (r: u32)
        requires
            self.attempts + attempt_total(self.beats@) <= u32::MAX,
        ensures
            r == self.attempts + attempt_total(self.beats@),
    {
        let mut n: u32 = self.attempts;
        let mut i: usize = 0;
        while i < self.beats.len()
            invariant
                i <= self.beats@.len(),
                n == self.attempts + attempt_total(self.beats@.take(i as int)),
                self.attempts + attempt_total(self.beats@) <= u32::MAX,
            decreases self.beats@.len() - i,
        {
            assert(self.beats@.take(i + 1).drop_last() =~= self.beats@.take(i as int));
            proof {
                lemma_attempt_total_prefix(self.beats@, i + 1);
            }
            n = n + self.beats[i].attempts;
            i += 1;
        }
        assert(self.beats@.take(self.beats@.len() as int) =~= self.beats@);
        n
    }
}

/// How many beats of `beats` fell back to the deterministic director.
pub open spec fn fallback_count(beats: Seq<BeatAuthorship>) -> nat
    decreases beats.len(),
{
    if beats.len() == 0 {
        0
    } else {
        fallback_count(beats.drop_last()) + if beats.last().source
            == AuthorSource::DeterministicFallback {
            1nat
        } else {
            0nat
        }
    }
}

/// The attempts recorded over `beats`.
pub open spec fn attempt_total(beats: Seq<BeatAuthorship>) -> nat
    decreases beats.len(),
{
    if beats.len() == 0 {
        0
    } else {
        attempt_total(beats.drop_last()) + beats.last().attempts as nat
    }
}

proof fn lemma_attempt_total_prefix(beats: Seq<BeatAuthorship>, k: int)
    requires
        0 <= k <= beats.len(),
    ensures
        attempt_total(beats.take(k)) <= attempt_total(beats),
    decreases beats.len() - k,
{
    if k < beats.len() {
        lemma_attempt_total_prefix(beats, k + 1);
        assert(beats.take(k + 1).drop_last() =~= beats.take(k));
    } else {
        assert(beats.take(k) =~= beats);
    }
}

fn text(s: &str) -> (r: String)
    ensures
        r@ == s@,
{
    string_of(&chars_of(s))
}

/// The authorship record of a beat written by the deterministic director.
fn deterministic_beat_auth(beat_id: &str) -> (r: BeatAuthorship)
    ensures
        r.beat_id@ == beat_id@,
        r.source == AuthorSource::Deterministic,
        r.model@ == "deterministic"@,
        r.attempts == 1,
        !r.repair_used,
        r.validation_status@ == "ok"@,
{
    BeatAuthorship {
        beat_id: text(beat_id),
        source: AuthorSource::Deterministic,
        model: text("deterministic"),
        attempts: 1,
        repair_used: false,
        validation_status: text("ok"),
    }
}

/// What the deterministic author returns: one of the scripted plans, for
/// every beat its scripted command with a cast member speaking the
/// escalation line, and a record that labels the plan and every beat
/// deterministic.
pub open spec fn deterministic_authorship(r: (PlannedEpisode, PlanAuthorship)) -> bool {
    &&& exists|k: int| 0 <= k < 3 && r.0.plan@ == scripted_plan(k)
    &&& r.0.commands@.len() == r.0.plan@.beats.len()
    &&& forall|i: int|
        #![trigger r.0.commands@[i]]
        0 <= i < r.0.commands@.len() ==> {
            &&& r.0.commands@[i].0@ == r.0.plan@.beats[i].id
            &&& exists|speaker: Seq<char>|
                cast().contains(speaker) && r.0.commands@[i].1@ == scripted_command(
                    r.0.plan@.beats[i].id,
                    r.0.plan@.beats[i].beat_type,
                    speaker,
                )
        }
    &&& r.1.plan_source == AuthorSource::Deterministic
    &&& r.1.model@ == "deterministic"@
    &&& r.1.attempts == 1
    &&& !r.1.repair_used
    &&& r.1.validation_status@ == "ok"@
    &&& r.1.beats@.len() == r.0.plan@.beats.len()
    &&& forall|i: int|
        #![trigger r.1.beats@[i]]
        0 <= i < r.1.beats@.len() ==> r.1.beats@[i].source == AuthorSource::Deterministic
            && r.1.beats@[i].beat_id@ == r.0.plan@.beats[i].id
}

impl DeterministicAuthor {
    /// Author a whole episode with the deterministic director: one of its
    /// scripted plans and, for every beat, its scripted command, all recorded
    /// truthfully as deterministic.
    pub fn author_episode(&self, ctx: &DirectorContext) -> (r: (PlannedEpisode, PlanAuthorship))
        ensures
            deterministic_authorship(r),
    {
        let d = DeterministicDirector;
        let plan = d.episode_plan(ctx);
        let mut commands: Vec<(String, BeatCommand)> = Vec::new();
        let mut beats: Vec<BeatAuthorship> = Vec::new();
        let mut i: usize = 0;
        while i < plan.beats.len()
            invariant
                i <= plan.beats@.len(),
                commands@.len() == i,
                beats@.len() == i,
                forall|j: int|
                    #![trigger commands@[j]]
                    0 <= j < i ==> {
                        &&& commands@[j].0@ == plan@.beats[j].id
                        &&& exists|speaker: Seq<char>|
                            cast().contains(speaker) && commands@[j].1@ == scripted_command(
                                plan@.beats[j].id,
                                plan@.beats[j].beat_type,
                                speaker,
                            )
                    },
                forall|j: int|
                    #![trigger beats@[j]]
                    0 <= j < i ==> beats@[j].source == AuthorSource::Deterministic
                        && beats@[j].beat_id@ == plan@.beats[j].id,
            decreases plan.beats@.len() - i,
        {
            let b = &plan.beats[i];
            let cmd = d.beat_command(ctx, &plan, b);
            commands.push((text(b.id.as_str()), cmd));
            beats.push(deterministic_beat_auth(b.id.as_str()));
            i += 1;
        }
        let auth = PlanAuthorship {
            plan_source: AuthorSource::Deterministic,
            model: text("deterministic"),
            attempts: 1,
            repair_used: false,
            validation_status: text("ok"),
            beats,
        };
        (PlannedEpisode { plan, commands }, auth)
    }
}

/// The authorship record of a fallback: the same record with the plan and
/// every beat marked as produced by the deterministic director because the
/// model failed.
fn as_fallback(a: &PlanAuthorship) -> (r: PlanAuthorship)
    ensures
        r.plan_source == AuthorSource::DeterministicFallback,
        r.model@ == a.model@,
        r.attempts == a.attempts,
        r.repair_used == a.repair_used,
        r.validation_status@ == a.validation_status@,
        r.beats@.len() == a.beats@.len(),
        forall|i: int|
            #![trigger r.beats@[i]]
            0 <= i < r.beats@.len() ==> {
                &&& r.beats@[i].source == AuthorSource::DeterministicFallback
                &&& r.beats@[i].beat_id@ == a.beats@[i].beat_id@
                &&& r.beats@[i].model@ == a.beats@[i].model@
                &&& r.beats@[i].attempts == a.beats@[i].attempts
                &&& r.beats@[i].repair_used == a.beats@[i].repair_used
                &&& r.beats@[i].validation_status@ == a.beats@[i].validation_status@
            },
{
    let mut beats: Vec<BeatAuthorship> = Vec::new();
    let mut i: usize = 0;
    while i < a.beats.len()
        invariant
            i <= a.beats@.len(),
            beats@.len() == i,
            forall|j: int|
                #![trigger beats@[j]]
                0 <= j < i ==> {
                    &&& beats@[j].source == AuthorSource::DeterministicFallback
                    &&& beats@[j].beat_id@ == a.beats@[j].beat_id@
                    &&& beats@[j].model@ == a.beats@[j].model@
                    &&& beats@[j].attempts == a.beats@[j].attempts
                    &&& beats@[j].repair_used == a.beats@[j].repair_used
                    &&& beats@[j].validation_status@ == a.beats@[j].validation_status@
                },
        decreases a.beats@.len() - i,
    {
        let b = &a.beats[i];
        beats.push(
            BeatAuthorship {
                beat_id: text(b.beat_id.as_str()),
                source: AuthorSource::DeterministicFallback,
                model: text(b.model.as_str()),
                attempts: b.attempts,
                repair_used: b.repair_used,
                validation_status: text(b.validation_status.as_str()),
            },
        );
        i += 1;
    }
    PlanAuthorship {
        plan_source: AuthorSource::DeterministicFallback,
        model: text(a.model.as_str()),
        attempts: a.attempts,
        repair_used: a.repair_used,
        validation_status: text(a.validation_status.as_str()),
        beats,
    }
}

/// The whole episode from the deterministic director when the model's plan
/// failed: the deterministic episode, with the plan and every beat recorded
/// as a deterministic fallback.
pub fn fallback_episode(ctx: &DirectorContext) -> (r: (PlannedEpisode, PlanAuthorship))
    ensures
        exists|k: int| 0 <= k < 3 && r.0.plan@ == scripted_plan(k),
        r.0.commands@.len() == r.0.plan@.beats.len(),
        forall|i: int|
            #![trigger r.0.commands@[i]]
            0 <= i < r.0.commands@.len() ==> {
                &&& r.0.commands@[i].0@ == r.0.plan@.beats[i].id
                &&& exists|speaker: Seq<char>|
                    cast().contains(speaker) && r.0.commands@[i].1@ == scripted_command(
                        r.0.plan@.beats[i].id,
                        r.0.plan@.beats[i].beat_type,
                        speaker,
                    )
            },
        r.1.plan_source == AuthorSource::DeterministicFallback,
        r.1.model@ == "deterministic"@,
        r.1.beats@.len() == r.0.plan@.beats.len(),
        forall|i: int|
            #![trigger r.1.beats@[i]]
            0 <= i < r.1.beats@.len() ==> r.1.beats@[i].source
                == AuthorSource::DeterministicFallback && r.1.beats@[i].beat_id@
                == r.0.plan@.beats[i].id,
{
    let (p, a) = DeterministicAuthor.author_episode(ctx);
    let f = as_fallback(&a);
    assert forall|i: int| 0 <= i < f.beats@.len() implies #[trigger] f.beats@[i].beat_id@
        == p.plan@.beats[i].id by {
        assert(f.beats@[i].beat_id@ == a.beats@[i].beat_id@);
        assert(a.beats@[i].beat_id@ == p.plan@.beats[i].id);
    }
    (p, f)
}

// ---------------------------------------------------------------------------
// The deterministic episode is valid
// ---------------------------------------------------------------------------

proof fn lemma_no_unknown_characters(w: WorldState, cs: Seq<Seq<char>>)
    requires
        forall|i: int| 0 <= i < cs.len() ==> has_character(w, #[trigger] cs[i]),
    ensures
        unknown_character_errors(w, cs).len() == 0,
    decreases cs.len(),
{
    if cs.len() > 0 {
        lemma_no_unknown_characters(w, cs.drop_last());
    }
}

proof fn lemma_no_unknown_entities(w: WorldState, beat: Seq<char>, es: Seq<Seq<char>>)
    requires
        forall|i: int| 0 <= i < es.len() ==> entity_exists_spec(w, #[trigger] es[i]),
    ensures
        unknown_entity_errors(w, beat, es).len() == 0,
    decreases es.len(),
{
    if es.len() > 0 {
        lemma_no_unknown_entities(w, beat, es.drop_last());
    }
}

proof fn lemma_no_unknown_ops(ops: Seq<Seq<char>>)
    requires
        forall|i: int| 0 <= i < ops.len() ==> known_persistent_ops().contains(#[trigger] ops[i]),
    ensures
        unknown_op_errors(ops).len() == 0,
    decreases ops.len(),
{
    if ops.len() > 0 {
        lemma_no_unknown_ops(ops.drop_last());
    }
}

proof fn lemma_no_beat_errors(w: WorldState, bs: Seq<BeatOutlineView>)
    requires
        beat_ids(bs).no_duplicates(),
        forall|i: int, j: int|
            0 <= i < bs.len() && 0 <= j < bs[i].required_entities.len() ==> entity_exists_spec(
                w,
                #[trigger] bs[i].required_entities[j],
            ),
    ensures
        beat_errors(w, bs).len() == 0,
    decreases bs.len(),
{
    if bs.len() > 0 {
        let b = bs.last();
        assert(beat_ids(bs.drop_last()) =~= beat_ids(bs).drop_last());
        lemma_no_beat_errors(w, bs.drop_last());
        assert(!beat_ids(bs.drop_last()).contains(b.id)) by {
            if beat_ids(bs.drop_last()).contains(b.id) {
                let j = choose|j: int| 0 <= j < bs.len() - 1 && beat_ids(bs.drop_last())[j] == b.id;
                assert(beat_ids(bs)[j] == beat_ids(bs)[bs.len() - 1]);
            }
        }
        assert forall|j: int| 0 <= j < b.required_entities.len() implies entity_exists_spec(
            w,
            #[trigger] b.required_entities[j],
        ) by {
            assert(bs[bs.len() - 1].required_entities[j] == b.required_entities[j]);
        }
        lemma_no_unknown_entities(w, b.id, b.required_entities);
    }
}

proof fn lemma_no_action_errors(w: WorldState, active: Seq<Seq<char>>, acts: Seq<ActionCommandView>)
    requires
        forall|i: int| 0 <= i < acts.len() ==> one_action_errors(w, active, #[trigger] acts[i]).len()
            == 0,
    ensures
        action_errors(w, active, acts).len() == 0,
    decreases acts.len(),
{
    if acts.len() > 0 {
        lemma_no_action_errors(w, active, acts.drop_last());
        assert(one_action_errors(w, active, acts[acts.len() - 1]).len() == 0);
    }
}

/// A line whose first and last characters are not whitespace survives trimming.
proof fn lemma_spoken_line(s: Seq<char>)
    requires
        s.len() > 0,
        !is_ws(s[0]),
        !is_ws(s.last()),
    ensures
        !text_missing(Some(s)),
{
    assert(trim_start(s) == s);
    assert(trim_end(s) == s);
}

/// The ids the initial world holds, as the validation rules see them.
proof fn lemma_world_ids(w: WorldState)
    requires
        w@ == default_world(),
    ensures
        character_ids(w) == seq!["mara"@, "ellis"@, "voss"@, "nox"@],
        location_ids(w) == seq![
            "floor_3_hallway"@,
            "apartment_3b"@,
            "apartment_4a"@,
            "maintenance_room"@,
        ],
        prop_ids(w) == seq![
            "elevator"@,
            "elevator_indicator"@,
            "elevator_doors"@,
            "elevator_panel"@,
            "elevator_control_panel"@,
            "elevator_frame"@,
            "control_panel"@,
            "maintenance_panel"@,
            "hallway_light"@,
            "maintenance_override_key"@,
            "inspection_clipboard"@,
            "flickering_light"@,
            "strange_plant"@,
        ],
        mark_ids(w.locations@[0]).contains("hall_center"@),
        0 < w.locations@.len(),
{
    assert(w@.characters == crate::default_world::default_characters());
    assert(w@.locations == crate::default_world::default_locations());
    assert(w@.props == crate::default_world::default_props());
    assert(w.characters@.len() == 4);
    assert(w.locations@.len() == 4);
    assert(w.props@.len() == 13);
    assert(w@.characters[0] == w.characters@[0]@);
    assert(w@.characters[1] == w.characters@[1]@);
    assert(w@.characters[2] == w.characters@[2]@);
    assert(w@.characters[3] == w.characters@[3]@);
    assert(character_ids(w) =~= seq!["mara"@, "ellis"@, "voss"@, "nox"@]);
    assert(w@.locations[0] == w.locations@[0]@);
    assert(w@.locations[1] == w.locations@[1]@);
    assert(w@.locations[2] == w.locations@[2]@);
    assert(w@.locations[3] == w.locations@[3]@);
    assert(location_ids(w) =~= seq![
        "floor_3_hallway"@,
        "apartment_3b"@,
        "apartment_4a"@,
        "maintenance_room"@,
    ]);
    assert forall|i: int| 0 <= i < 13 implies #[trigger] prop_ids(w)[i] == w@.props[i].id by {
        assert(w@.props[i] == w.props@[i]@);
    }
    assert(prop_ids(w) =~= seq![
        "elevator"@,
        "elevator_indicator"@,
        "elevator_doors"@,
        "elevator_panel"@,
        "elevator_control_panel"@,
        "elevator_frame"@,
        "control_panel"@,
        "maintenance_panel"@,
        "hallway_light"@,
        "maintenance_override_key"@,
        "inspection_clipboard"@,
        "flickering_light"@,
        "strange_plant"@,
    ]);
    assert(mark_ids(w.locations@[0])[0] == "hall_center"@);
}

/// Every action in `acts` is a known token performed by one of the four
/// residents, and every `speak` has text.
proof fn lemma_clean_actions(w: WorldState, active: Seq<Seq<char>>, acts: Seq<ActionCommandView>)
    requires
        w@ == default_world(),
        active.contains("mara"@),
        active.contains("ellis"@),
        active.contains("voss"@),
        active.contains("nox"@),
        forall|i: int|
            0 <= i < acts.len() ==> {
                &&& known_actions().contains(#[trigger] acts[i].action)
                &&& cast().contains(acts[i].actor)
                &&& acts[i].action == "speak"@ ==> !text_missing(acts[i].text)
            },
    ensures
        action_errors(w, active, acts).len() == 0,
{
    lemma_world_ids(w);
    assert forall|i: int| 0 <= i < acts.len() implies one_action_errors(
        w,
        active,
        #[trigger] acts[i],
    ).len() == 0 by {
        let a = acts[i];
        assert(known_actions().contains(a.action));
        assert(cast().contains(a.actor));
        assert(has_character(w, a.actor));
        assert(active.contains(a.actor));
    }
    lemma_no_action_errors(w, active, acts);
}

/// The four residents are all active in `plan`.
pub open spec fn whole_cast_active(plan: EpisodePlan) -> bool {
    let active = plan@.active_characters;
    active.contains("mara"@) && active.contains("ellis"@) && active.contains("voss"@)
        && active.contains("nox"@)
}

proof fn lemma_residents(w: WorldState)
    requires
        w@ == default_world(),
    ensures
        has_character(w, "mara"@),
        has_character(w, "ellis"@),
        has_character(w, "voss"@),
        has_character(w, "nox"@),
        forall|x: Seq<char>| cast().contains(x) ==> has_character(w, x),
{
    lemma_world_ids(w);
    assert(character_ids(w)[0] == "mara"@);
    assert(character_ids(w)[1] == "ellis"@);
    assert(character_ids(w)[2] == "voss"@);
    assert(character_ids(w)[3] == "nox"@);
    assert(character_ids(w) == cast());
}

proof fn lemma_scripted_plan_clean(w: WorldState, plan: EpisodePlan, k: int)
    requires
        w@ == default_world(),
        0 <= k < 3,
        plan@ == scripted_plan(k),
    ensures
        plan_errors(w, plan).len() == 0,
        whole_cast_active(plan),
        beat_ids(plan@.beats).no_duplicates(),
{
    lemma_world_ids(w);
    lemma_residents(w);
    let p = plan@;
    let o = outline();
    reveal_strlit("beat_01");
    reveal_strlit("beat_02");
    reveal_strlit("beat_03");
    reveal_strlit("beat_04");
    reveal_strlit("beat_05");
    let ids = beat_ids(o);
    assert(ids =~= seq!["beat_01"@, "beat_02"@, "beat_03"@, "beat_04"@, "beat_05"@]);
    assert(ids.no_duplicates()) by {
        assert forall|a: int, b: int| 0 <= a < 5 && 0 <= b < 5 && a != b implies ids[a]
            != ids[b] by {
            assert(ids[a][6] != ids[b][6]);
        }
    }
    let active = p.active_characters;
    assert(active == scenario(k).active);
    assert forall|j: int| 0 <= j < active.len() implies has_character(w, #[trigger] active[j]) by {
        if k == 0 {
            assert(active[j] == cast()[j]);
        } else if k == 1 {
            assert(active[j] == seq!["mara"@, "voss"@, "ellis"@, "nox"@][j]);
        } else {
            assert(active[j] == seq!["ellis"@, "nox"@, "mara"@, "voss"@][j]);
        }
        assert(cast().contains(active[j]));
    }
    assert(whole_cast_active(plan)) by {
        if k == 0 {
            assert(active[0] == "mara"@ && active[1] == "ellis"@ && active[2] == "voss"@
                && active[3] == "nox"@);
        } else if k == 1 {
            assert(active[0] == "mara"@ && active[1] == "voss"@ && active[2] == "ellis"@
                && active[3] == "nox"@);
        } else {
            assert(active[0] == "ellis"@ && active[1] == "nox"@ && active[2] == "mara"@
                && active[3] == "voss"@);
        }
    }
    lemma_no_unknown_characters(w, active);
    assert(location_ids(w)[0] == "floor_3_hallway"@);
    assert(has_location(w, p.primary_location));
    assert(has_prop(w, "elevator"@)) by {
        assert(prop_ids(w)[0] == "elevator"@);
    }
    assert(has_prop(w, "elevator_indicator"@)) by {
        assert(prop_ids(w)[1] == "elevator_indicator"@);
    }
    assert(has_prop(w, "flickering_light"@)) by {
        assert(prop_ids(w)[11] == "flickering_light"@);
    }
    assert forall|a: int, b: int|
        0 <= a < o.len() && 0 <= b < o[a].required_entities.len() implies entity_exists_spec(
        w,
        #[trigger] o[a].required_entities[b],
    ) by {}
    lemma_no_beat_errors(w, o);
    reveal_strlit("unknown_floor");
    reveal_strlit("inspection");
    reveal_strlit("missing_tenant");
    let thread = scenario(k).thread;
    reveal_strlit("The inspector cites the nonexistent floor for lacking an emergency exit.");
    reveal_strlit(
        "Voss files a violation for a floor that is not on the map, and Mara quietly adds it to the map.",
    );
    reveal_strlit(
        "Ellis leaves 4A convinced, while Nox remains, serene and unmoving, long after the door closes.",
    );
    lemma_spoken_line(payoff_for(thread));
    let ops = op_names(plan);
    assert(p.persistent_changes.len() == plan.persistent_changes@.len());
    if k == 0 {
        assert(thread == "unknown_floor"@);
    } else if k == 1 {
        assert(thread == "inspection"@);
    } else {
        assert(thread == "missing_tenant"@);
    }
    assert(p.persistent_changes.len() == 1);
    assert(ops.len() == 1);
    assert(ops[0] == p.persistent_changes[0].operation);
    assert(known_persistent_ops().contains(ops[0])) by {
        if k == 0 {
            assert(known_persistent_ops()[2] == ops[0]);
        } else if k == 1 {
            assert(known_persistent_ops()[4] == ops[0]);
        } else {
            assert(known_persistent_ops()[0] == ops[0]);
        }
    }
    lemma_no_unknown_ops(ops);
}

proof fn lemma_hook_clean(w: WorldState, plan: EpisodePlan, id: Seq<char>, speaker: Seq<char>)
    requires
        w@ == default_world(),
        whole_cast_active(plan),
    ensures
        command_errors(w, plan, scripted_command(id, "hook"@, speaker)).len() == 0,
{
    lemma_world_ids(w);
    lemma_residents(w);
    let acts = hook_actions(speaker);
    reveal_strlit("move_to");
    reveal_strlit("open_elevator");
    reveal_strlit("speak");
    reveal_strlit("approach");
    reveal_strlit("inspect");
    reveal_strlit("point_at");
    reveal_strlit("retreat_from");
    reveal_strlit("flicker_lights");
    reveal_strlit("react");
    reveal_strlit("conceal_object");
    reveal_strlit("sigh");
    reveal_strlit("whisper");
    reveal_strlit("Don't get in. The elevator's feeling creative today.");
    reveal_strlit("It just asked me what floor four looks like.");
    lemma_spoken_line(acts[2].text->0);
    lemma_spoken_line(acts[4].text->0);
    assert(known_actions()[0] == acts[0].action && known_actions()[43] == acts[1].action
        && known_actions()[27] == acts[2].action && known_actions()[3] == acts[3].action
        && known_actions()[27] == acts[4].action);
    assert(cast()[0] == acts[0].actor && cast()[1] == acts[3].actor);
    assert(acts.len() == 5);
    assert forall|i: int| 0 <= i < acts.len() implies {
        &&& known_actions().contains(#[trigger] acts[i].action)
        &&& cast().contains(acts[i].actor)
        &&& acts[i].action == "speak"@ ==> !text_missing(acts[i].text)
    } by {
        if i == 0 {
            } else if i == 1 {
            } else if i == 2 {
            } else if i == 3 {
            } else {
            }
    }
    lemma_clean_actions(w, plan@.active_characters, acts);
    assert(known_camera_intents()[0] == "establish"@);
    assert(prop_ids(w)[0] == "elevator"@);
    assert(known_completion_types()[0] == "dialogue_finished"@);
}

proof fn lemma_complication_clean(w: WorldState, plan: EpisodePlan, id: Seq<char>, speaker: Seq<char>)
    requires
        w@ == default_world(),
        whole_cast_active(plan),
    ensures
        command_errors(w, plan, scripted_command(id, "complication"@, speaker)).len() == 0,
{
    lemma_world_ids(w);
    lemma_residents(w);
    reveal_strlit("hook");
    reveal_strlit("complication");
    let acts = complication_actions(speaker);
    reveal_strlit("move_to");
    reveal_strlit("open_elevator");
    reveal_strlit("speak");
    reveal_strlit("approach");
    reveal_strlit("inspect");
    reveal_strlit("point_at");
    reveal_strlit("retreat_from");
    reveal_strlit("flicker_lights");
    reveal_strlit("react");
    reveal_strlit("conceal_object");
    reveal_strlit("sigh");
    reveal_strlit("whisper");
    reveal_strlit("That's not a floor. That's a complaint.");
    reveal_strlit("It's glowing. I think it's proud of itself.");
    lemma_spoken_line(acts[1].text->0);
    lemma_spoken_line(acts[3].text->0);
    assert(known_actions()[15] == acts[0].action && known_actions()[27] == acts[1].action
        && known_actions()[36] == acts[2].action && known_actions()[27] == acts[3].action);
    assert(cast()[0] == acts[0].actor && cast()[1] == acts[2].actor);
    assert(acts.len() == 4);
    assert forall|i: int| 0 <= i < acts.len() implies {
        &&& known_actions().contains(#[trigger] acts[i].action)
        &&& cast().contains(acts[i].actor)
        &&& acts[i].action == "speak"@ ==> !text_missing(acts[i].text)
    } by {
        if i == 0 {
            } else if i == 1 {
            } else if i == 2 {
            } else {
            }
    }
    lemma_clean_actions(w, plan@.active_characters, acts);
    let cmd = scripted_command(id, "complication"@, speaker);
    assert("complication"@.len() == 12);
    assert("complication"@ != "hook"@);
    assert(cmd.actions == acts);
    assert(cmd.camera_intent.kind == "reveal"@);
    assert(cmd.camera_intent.subject == "elevator_indicator"@);
    assert(known_camera_intents()[5] == "reveal"@);
    assert(subject_errors(w, cmd.camera_intent.subject).len() == 0);
    assert(action_errors(w, plan@.active_characters, cmd.actions).len() == 0);
    assert(prop_ids(w)[1] == "elevator_indicator"@);
    assert(known_completion_types()[0] == "dialogue_finished"@);
}

proof fn lemma_escalation_clean(w: WorldState, plan: EpisodePlan, id: Seq<char>, speaker: Seq<char>)
    requires
        w@ == default_world(),
        whole_cast_active(plan),
        cast().contains(speaker),
    ensures
        command_errors(w, plan, scripted_command(id, "escalation"@, speaker)).len() == 0,
{
    lemma_world_ids(w);
    lemma_residents(w);
    reveal_strlit("hook");
    reveal_strlit("complication");
    reveal_strlit("escalation");
    let acts = escalation_actions(speaker);
    reveal_strlit("move_to");
    reveal_strlit("open_elevator");
    reveal_strlit("speak");
    reveal_strlit("approach");
    reveal_strlit("inspect");
    reveal_strlit("point_at");
    reveal_strlit("retreat_from");
    reveal_strlit("flicker_lights");
    reveal_strlit("react");
    reveal_strlit("conceal_object");
    reveal_strlit("sigh");
    reveal_strlit("whisper");
    reveal_strlit("The building prefers you not to notice. Most guests oblige.");
    lemma_spoken_line(acts[3].text->0);
    reveal_strlit("react");
    reveal_strlit("speak");
    assert(known_actions()[4] == acts[0].action && known_actions()[40] == acts[1].action
        && known_actions()[28] == acts[2].action && known_actions()[27] == acts[3].action);
    assert(cast()[0] == acts[1].actor && cast()[1] == acts[0].actor);
    reveal_strlit("reveal");
    reveal_strlit("payoff");
    assert("react"@[0] != "speak"@[0]);
    assert("hook"@.len() == 4 && "complication"@.len() == 12 && "escalation"@.len() == 10);
    assert("reveal"@.len() == 6 && "payoff"@.len() == 6 && "reveal"@[0] != "payoff"@[0]);
    assert(acts.len() == 4);
    assert(known_actions().contains(acts[0].action));
    assert(known_actions().contains(acts[1].action));
    assert(known_actions().contains(acts[2].action));
    assert(known_actions().contains(acts[3].action));
    assert(cast().contains(acts[0].actor));
    assert(cast().contains(acts[1].actor));
    assert(cast().contains(acts[2].actor));
    assert(cast().contains(acts[3].actor));
    assert(acts[0].action != "speak"@);
    assert(acts[1].action != "speak"@);
    assert(acts[2].action != "speak"@);
    assert(!text_missing(acts[3].text));
    assert forall|i: int| 0 <= i < acts.len() implies {
        &&& known_actions().contains(#[trigger] acts[i].action)
        &&& cast().contains(acts[i].actor)
        &&& acts[i].action == "speak"@ ==> !text_missing(acts[i].text)
    } by {
        if i == 0 {
            } else if i == 1 {
            } else if i == 2 {
            } else {
            }
    }
    lemma_clean_actions(w, plan@.active_characters, acts);
    assert(known_camera_intents()[7] == "comedic_wide"@);
    assert(mark_ids(w.locations@[0]).contains("hall_center"@));
    assert(has_mark_or_anchor(w, "hall_center"@));
    assert(known_completion_types()[0] == "dialogue_finished"@);
}

proof fn lemma_reveal_clean(w: WorldState, plan: EpisodePlan, id: Seq<char>, speaker: Seq<char>)
    requires
        w@ == default_world(),
        whole_cast_active(plan),
    ensures
        command_errors(w, plan, scripted_command(id, "reveal"@, speaker)).len() == 0,
{
    lemma_world_ids(w);
    lemma_residents(w);
    reveal_strlit("hook");
    reveal_strlit("complication");
    reveal_strlit("escalation");
    reveal_strlit("reveal");
    let acts = reveal_actions(speaker);
    reveal_strlit("move_to");
    reveal_strlit("open_elevator");
    reveal_strlit("speak");
    reveal_strlit("approach");
    reveal_strlit("inspect");
    reveal_strlit("point_at");
    reveal_strlit("retreat_from");
    reveal_strlit("flicker_lights");
    reveal_strlit("react");
    reveal_strlit("conceal_object");
    reveal_strlit("sigh");
    reveal_strlit("whisper");
    reveal_strlit("I live in 4A. I've always lived in 4A. The floor just borrowed the number.");
    lemma_spoken_line(acts[1].text->0);
    reveal_strlit("react");
    reveal_strlit("speak");
    reveal_strlit("move_to");
    assert(known_actions()[0] == acts[0].action && known_actions()[27] == acts[1].action
        && known_actions()[28] == acts[2].action && known_actions()[26] == acts[3].action);
    assert(cast()[3] == acts[0].actor && cast()[1] == acts[2].actor && cast()[0]
        == acts[3].actor);
    reveal_strlit("reveal");
    reveal_strlit("payoff");
    assert("react"@[0] != "speak"@[0]);
    assert("hook"@.len() == 4 && "complication"@.len() == 12 && "escalation"@.len() == 10);
    assert("reveal"@.len() == 6 && "payoff"@.len() == 6 && "reveal"@[0] != "payoff"@[0]);
    assert(acts.len() == 4);
    assert forall|i: int| 0 <= i < acts.len() implies {
        &&& known_actions().contains(#[trigger] acts[i].action)
        &&& cast().contains(acts[i].actor)
        &&& acts[i].action == "speak"@ ==> !text_missing(acts[i].text)
    } by {
        if i == 0 {
            } else if i == 1 {
            } else if i == 2 {
            } else {
            }
    }
    lemma_clean_actions(w, plan@.active_characters, acts);
    assert(known_camera_intents()[3] == "speaker_closeup"@);
    assert(known_completion_types()[0] == "dialogue_finished"@);
}

proof fn lemma_payoff_clean(w: WorldState, plan: EpisodePlan, id: Seq<char>, speaker: Seq<char>)
    requires
        w@ == default_world(),
        whole_cast_active(plan),
    ensures
        command_errors(w, plan, scripted_command(id, "payoff"@, speaker)).len() == 0,
{
    lemma_world_ids(w);
    lemma_residents(w);
    reveal_strlit("hook");
    reveal_strlit("complication");
    reveal_strlit("escalation");
    reveal_strlit("reveal");
    reveal_strlit("payoff");
    let acts = payoff_actions(speaker);
    reveal_strlit("move_to");
    reveal_strlit("open_elevator");
    reveal_strlit("speak");
    reveal_strlit("approach");
    reveal_strlit("inspect");
    reveal_strlit("point_at");
    reveal_strlit("retreat_from");
    reveal_strlit("flicker_lights");
    reveal_strlit("react");
    reveal_strlit("conceal_object");
    reveal_strlit("sigh");
    reveal_strlit("whisper");
    reveal_strlit("Citation: floor four lacks a required emergency exit. Rectify within thirty days.");
    lemma_spoken_line(acts[1].text->0);
    reveal_strlit("speak");
    reveal_strlit("sigh");
    reveal_strlit("whisper");
    assert(known_actions()[0] == acts[0].action && known_actions()[27] == acts[1].action
        && known_actions()[33] == acts[2].action && known_actions()[34] == acts[3].action);
    assert(cast()[2] == acts[0].actor && cast()[0] == acts[2].actor && cast()[1]
        == acts[3].actor);
    reveal_strlit("reveal");
    reveal_strlit("payoff");
    assert("react"@[0] != "speak"@[0]);
    assert("hook"@.len() == 4 && "complication"@.len() == 12 && "escalation"@.len() == 10);
    assert("reveal"@.len() == 6 && "payoff"@.len() == 6 && "reveal"@[0] != "payoff"@[0]);
    assert(acts.len() == 4);
    assert forall|i: int| 0 <= i < acts.len() implies {
        &&& known_actions().contains(#[trigger] acts[i].action)
        &&& cast().contains(acts[i].actor)
        &&& acts[i].action == "speak"@ ==> !text_missing(acts[i].text)
    } by {
        if i == 0 {
            } else if i == 1 {
            } else if i == 2 {
            } else {
            }
    }
    lemma_clean_actions(w, plan@.active_characters, acts);
    assert(known_camera_intents()[12] == "cliffhanger_hold"@);
    assert(prop_ids(w)[0] == "elevator"@);
    assert(known_completion_types()[0] == "dialogue_finished"@);
}

/// Every plan the deterministic director can write passes plan validation
/// against the initial world, and every beat command it can write for one of
/// its beats, whoever of the four residents delivers the escalation line,
/// names a beat of the plan and passes command validation.
pub proof fn deterministic_episode_validates(
    w: WorldState,
    plan: EpisodePlan,
    k: int,
    i: int,
    speaker: Seq<char>,
)
    requires
        w@ == default_world(),
        0 <= k < 3,
        plan@ == scripted_plan(k),
        0 <= i < plan@.beats.len(),
        cast().contains(speaker),
    ensures
        plan_errors(w, plan).len() == 0,
        first_index(beat_ids(plan@.beats), plan@.beats[i].id) == Some(i),
        command_errors(
            w,
            plan,
            scripted_command(plan@.beats[i].id, plan@.beats[i].beat_type, speaker),
        ).len() == 0,
{
    lemma_scripted_plan_clean(w, plan, k);
    let ids = beat_ids(plan@.beats);
    lemma_first_index(ids, ids[i]);
    match first_index(ids, ids[i]) {
        Some(j) => {
            assert(j == i);
        },
        None => {},
    }
    let b = plan@.beats[i];
    assert(plan@.beats == outline());
    if i == 0 {
        lemma_hook_clean(w, plan, b.id, speaker);
    } else if i == 1 {
        lemma_complication_clean(w, plan, b.id, speaker);
    } else if i == 2 {
        lemma_escalation_clean(w, plan, b.id, speaker);
    } else if i == 3 {
        lemma_reveal_clean(w, plan, b.id, speaker);
    } else {
        lemma_payoff_clean(w, plan, b.id, speaker);
    }
}

/// An author of whole episodes: the plan and every beat command, with a
/// truthful record of who wrote each. The deterministic author is one; a
/// model-backed author is another, outside this library.
pub trait EpisodeAuthor {
    /// The author's name.
    fn name(&self) -> &'static str;

    /// Author a complete episode for `ctx`, or say why not.
    fn author(&self, ctx: &DirectorContext) -> Result<(PlannedEpisode, PlanAuthorship), String>;
}

impl EpisodeAuthor for DeterministicAuthor {
    fn name(&self) -> (r: &'static str)
        ensures
            r@ == "deterministic"@,
    {
        "deterministic"
    }

    /// Author with the deterministic director (`author_episode`); this never
    /// fails.
    fn author(&self, ctx: &DirectorContext) -> (r: Result<(PlannedEpisode, PlanAuthorship), String>)
        ensures
            r matches Ok(x) && deterministic_authorship(x),
    {
        Ok(self.author_episode(ctx))
    }
}

} // verus!

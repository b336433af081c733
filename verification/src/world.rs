//! The persistent world model: characters, locations, props, story threads
//! and canonical facts, with lookup by id and tolerant entity resolution.
//!
//! Collections are kept in insertion order and looked up by id; the first
//! entry with an id answers a lookup. Positions, relationship strengths and
//! thread importance are floating-point and kept alongside by the caller.
use vstd::prelude::*;

use crate::protocol::{known_actions, known_actions_list};
use crate::text::{
    chars_of, contains_chars, contains_seq, seq_eq, string_of, to_lowercase, trim,
    trim_chars, unicode_lowercase,
};

verus! {

/// A semantic navigation target within a location.
#[derive(Debug)]
pub struct StagingMark {
    pub id: String,
}

/// A camera placement within a location.
#[derive(Debug)]
pub struct CameraAnchor {
    pub id: String,
}

/// A character's relationship to another character: the other's id and the
/// dimensions it is measured on (`trust`, `affection`, ...). The strengths
/// are floating-point and kept by the caller, keyed by the two ids and the
/// dimension.
#[derive(Debug)]
pub struct Relationship {
    pub other: String,
    pub dimensions: Vec<String>,
}

/// A performer.
#[derive(Debug)]
pub struct Character {
    pub id: String,
    pub display_name: String,
    pub role: String,
    /// Hex color used for the greybox avatar, e.g. "#ffcc00".
    pub color_hex: String,
    pub personality: Vec<String>,
    pub motivations: Vec<String>,
    pub fears: Vec<String>,
    pub voice_id: String,
    /// Current emotional state labels, e.g. ["strained"].
    pub emotion: Vec<String>,
    pub current_goal: Option<String>,
    /// Facts this character definitely knows.
    pub known_facts: Vec<String>,
    /// Beliefs, which may be incorrect.
    pub believed_facts: Vec<String>,
    /// Relationships to other characters, one per other character.
    pub relationships: Vec<Relationship>,
    /// Action tokens this character is permitted to perform.
    pub allowed_actions: Vec<String>,
    pub preferred_speech: Option<String>,
    pub home_location: Option<String>,
}

/// A place.
#[derive(Debug)]
pub struct Location {
    pub id: String,
    pub name: String,
    pub description: String,
    pub tags: Vec<String>,
    pub staging_marks: Vec<StagingMark>,
    pub camera_anchors: Vec<CameraAnchor>,
    pub available_interactions: Vec<String>,
    pub room_state: String,
}

/// An object in the world.
#[derive(Debug)]
pub struct Prop {
    pub id: String,
    pub name: String,
    pub location_id: String,
    pub capabilities: Vec<String>,
    pub owner: Option<String>,
    /// Staging mark id where the prop normally lives.
    pub home_mark: String,
    pub story_state: String,
}

/// A running story thread.
#[derive(Debug)]
pub struct StoryThread {
    pub id: String,
    pub summary: String,
    pub characters: Vec<String>,
    pub locations: Vec<String>,
    pub age: u32,
    pub last_episode: Option<u64>,
    pub resolutions: Vec<String>,
    pub may_ignore: bool,
    pub protected: bool,
}

/// The whole persistent world.
#[derive(Debug)]
pub struct WorldState {
    pub characters: Vec<Character>,
    pub locations: Vec<Location>,
    pub props: Vec<Prop>,
    pub threads: Vec<StoryThread>,
    /// Stable canonical truths. Mutation requires an explicit operation.
    pub canonical_facts: Vec<String>,
    /// How many episodes have been committed.
    pub episode_count: u64,
}

// ---------------------------------------------------------------------------
// Specifications
// ---------------------------------------------------------------------------

/// Index of the first entry of `ids` equal to `id`, if any.
pub open spec fn first_index(ids: Seq<Seq<char>>, id: Seq<char>) -> Option<int>
    decreases ids.len(),
{
    if ids.len() == 0 {
        None
    } else if ids[0] == id {
        Some(0)
    } else {
        match first_index(ids.drop_first(), id) {
            Some(i) => Some(i + 1),
            None => None,
        }
    }
}

pub proof fn lemma_first_index(ids: Seq<Seq<char>>, id: Seq<char>)
    ensures
        match first_index(ids, id) {
            Some(i) => 0 <= i < ids.len() && ids[i] == id && forall|j: int|
                0 <= j < i ==> ids[j] != id,
            None => !ids.contains(id),
        },
    decreases ids.len(),
{
    if ids.len() > 0 {
        lemma_first_index(ids.drop_first(), id);
        if ids[0] != id {
            match first_index(ids.drop_first(), id) {
                Some(i) => {
                    assert forall|j: int| 0 <= j < i + 1 implies ids[j] != id by {
                        if j > 0 {
                            assert(ids[j] == ids.drop_first()[j - 1]);
                        }
                    }
                },
                None => {
                    assert forall|j: int| 0 <= j < ids.len() implies ids[j] != id by {
                        if j > 0 {
                            assert(ids[j] == ids.drop_first()[j - 1]);
                        }
                    }
                },
            }
        }
    }
}

pub open spec fn character_ids(w: WorldState) -> Seq<Seq<char>> {
    Seq::new(w.characters.len() as nat, |i: int| w.characters@[i].id@)
}

pub open spec fn location_ids(w: WorldState) -> Seq<Seq<char>> {
    Seq::new(w.locations.len() as nat, |i: int| w.locations@[i].id@)
}

pub open spec fn prop_ids(w: WorldState) -> Seq<Seq<char>> {
    Seq::new(w.props.len() as nat, |i: int| w.props@[i].id@)
}

pub open spec fn thread_ids(w: WorldState) -> Seq<Seq<char>> {
    Seq::new(w.threads.len() as nat, |i: int| w.threads@[i].id@)
}

pub open spec fn mark_ids(l: Location) -> Seq<Seq<char>> {
    Seq::new(l.staging_marks.len() as nat, |i: int| l.staging_marks@[i].id@)
}

pub open spec fn anchor_ids(l: Location) -> Seq<Seq<char>> {
    Seq::new(l.camera_anchors.len() as nat, |i: int| l.camera_anchors@[i].id@)
}

pub open spec fn has_character(w: WorldState, id: Seq<char>) -> bool {
    character_ids(w).contains(id)
}

pub open spec fn has_location(w: WorldState, id: Seq<char>) -> bool {
    location_ids(w).contains(id)
}

pub open spec fn has_prop(w: WorldState, id: Seq<char>) -> bool {
    prop_ids(w).contains(id)
}

/// Some location has a staging mark or camera anchor with this id.
pub open spec fn has_mark_or_anchor(w: WorldState, id: Seq<char>) -> bool {
    exists|i: int|
        0 <= i < w.locations.len() && (mark_ids(#[trigger] w.locations@[i]).contains(id)
            || anchor_ids(w.locations@[i]).contains(id))
}

/// `id` names a character, prop, location, staging mark or camera anchor.
pub open spec fn entity_exists_spec(w: WorldState, id: Seq<char>) -> bool {
    has_character(w, id) || has_prop(w, id) || has_location(w, id) || has_mark_or_anchor(w, id)
}

/// First id of `ids` whose lowercase is `l`.
pub open spec fn first_lowercase_match(ids: Seq<Seq<char>>, l: Seq<char>) -> Option<Seq<char>>
    decreases ids.len(),
{
    if ids.len() == 0 {
        None
    } else if unicode_lowercase(ids[0]) == l {
        Some(ids[0])
    } else {
        first_lowercase_match(ids.drop_first(), l)
    }
}

/// A staging mark or camera anchor of `loc` has lowercase id `l`.
pub open spec fn location_has_lowercase_id(loc: Location, l: Seq<char>) -> bool {
    (exists|j: int|
        0 <= j < loc.staging_marks.len() && unicode_lowercase(#[trigger] loc.staging_marks@[j].id@)
            == l) || (exists|j: int|
        0 <= j < loc.camera_anchors.len() && unicode_lowercase(
            #[trigger] loc.camera_anchors@[j].id@,
        ) == l)
}

/// Some location has a staging mark or camera anchor whose lowercase id is `l`.
pub open spec fn has_mark_or_anchor_lowercase(w: WorldState, l: Seq<char>) -> bool {
    exists|i: int|
        0 <= i < w.locations.len() && location_has_lowercase_id(#[trigger] w.locations@[i], l)
}

/// Narrative roots recognised inside free-form target phrases, with the entity
/// each one stands for.
pub open spec fn aliases() -> Seq<(Seq<char>, Seq<char>)> {
    seq![
        ("elevator_indicator"@, "elevator_indicator"@),
        ("indicator"@, "elevator_indicator"@),
        ("elevator_panel"@, "elevator_panel"@),
        ("control_panel"@, "control_panel"@),
        ("panel"@, "maintenance_panel"@),
        ("elevator_door"@, "elevator_doors"@),
        ("elevator_doors"@, "elevator_doors"@),
        ("elevator_frame"@, "elevator"@),
        ("elevator shell"@, "elevator"@),
        ("elevator_interior"@, "elevator"@),
        ("elevator"@, "elevator"@),
        ("hall_center"@, "floor_3_hallway"@),
        ("maintenance"@, "maintenance_panel"@),
        ("hallway"@, "floor_3_hallway"@),
        ("clipboard"@, "inspection_clipboard"@),
        ("hallway_light"@, "hallway_light"@),
        ("light"@, "flickering_light"@),
        ("door"@, "elevator_doors"@),
    ]
}

/// The canonical entity of the first alias whose root occurs in `l` and whose
/// entity is a prop, character or location of `w`.
pub open spec fn alias_match(w: WorldState, pairs: Seq<(Seq<char>, Seq<char>)>, l: Seq<char>) -> Option<
    Seq<char>,
>
    decreases pairs.len(),
{
    if pairs.len() == 0 {
        None
    } else if contains_seq(l, pairs[0].0) && (has_prop(w, pairs[0].1) || has_character(
        w,
        pairs[0].1,
    ) || has_location(w, pairs[0].1)) {
        Some(pairs[0].1)
    } else {
        alias_match(w, pairs.drop_first(), l)
    }
}

/// `l` is the lowercase of a known action token.
pub open spec fn is_action_token(l: Seq<char>) -> bool {
    exists|i: int|
        0 <= i < known_actions().len() && unicode_lowercase(#[trigger] known_actions()[i]) == l
}

/// Tolerant resolution of a target / subject token to an entity id.
pub open spec fn resolved_entity(w: WorldState, raw: Seq<char>) -> Option<Seq<char>> {
    let l = unicode_lowercase(trim(raw));
    if l.len() == 0 {
        None
    } else if is_action_token(l) {
        None
    } else if first_lowercase_match(character_ids(w), l) is Some {
        first_lowercase_match(character_ids(w), l)
    } else if first_lowercase_match(prop_ids(w), l) is Some {
        first_lowercase_match(prop_ids(w), l)
    } else if first_lowercase_match(location_ids(w), l) is Some {
        first_lowercase_match(location_ids(w), l)
    } else if has_mark_or_anchor_lowercase(w, l) {
        Some(trim(raw))
    } else {
        alias_match(w, aliases(), l)
    }
}

/// Display label for an id of any kind.
pub open spec fn label_of(w: WorldState, id: Seq<char>) -> Seq<char> {
    match first_index(character_ids(w), id) {
        Some(i) => w.characters@[i].display_name@,
        None => match first_index(prop_ids(w), id) {
            Some(i) => w.props@[i].name@,
            None => match first_index(location_ids(w), id) {
                Some(i) => w.locations@[i].name@,
                None => id,
            },
        },
    }
}

pub open spec fn fact_views(v: Seq<String>) -> Seq<Seq<char>> {
    Seq::new(v.len(), |i: int| v[i]@)
}

// ---------------------------------------------------------------------------
// Views
// ---------------------------------------------------------------------------

/// An optional string by content.
pub open spec fn ov(o: Option<String>) -> Option<Seq<char>> {
    crate::protocol::opt_view(o)
}

#[verifier::ext_equal]
pub struct CharacterView {
    pub id: Seq<char>,
    pub display_name: Seq<char>,
    pub role: Seq<char>,
    pub color_hex: Seq<char>,
    pub personality: Seq<Seq<char>>,
    pub motivations: Seq<Seq<char>>,
    pub fears: Seq<Seq<char>>,
    pub voice_id: Seq<char>,
    pub emotion: Seq<Seq<char>>,
    pub current_goal: Option<Seq<char>>,
    pub known_facts: Seq<Seq<char>>,
    pub believed_facts: Seq<Seq<char>>,
    pub relationships: Seq<RelationshipView>,
    pub allowed_actions: Seq<Seq<char>>,
    pub preferred_speech: Option<Seq<char>>,
    pub home_location: Option<Seq<char>>,
}

/// A relationship as data.
#[verifier::ext_equal]
pub struct RelationshipView {
    pub other: Seq<char>,
    pub dimensions: Seq<Seq<char>>,
}

impl View for Relationship {
    type V = RelationshipView;

    open spec fn view(&self) -> RelationshipView {
        RelationshipView { other: self.other@, dimensions: fact_views(self.dimensions@) }
    }
}

/// The views of a list of relationships.
pub open spec fn relationship_views(v: Seq<Relationship>) -> Seq<RelationshipView> {
    Seq::new(v.len(), |i: int| v[i]@)
}

impl View for Character {
    type V = CharacterView;

    open spec fn view(&self) -> CharacterView {
        CharacterView {
            id: self.id@,
            display_name: self.display_name@,
            role: self.role@,
            color_hex: self.color_hex@,
            personality: fact_views(self.personality@),
            motivations: fact_views(self.motivations@),
            fears: fact_views(self.fears@),
            voice_id: self.voice_id@,
            emotion: fact_views(self.emotion@),
            current_goal: ov(self.current_goal),
            known_facts: fact_views(self.known_facts@),
            believed_facts: fact_views(self.believed_facts@),
            relationships: relationship_views(self.relationships@),
            allowed_actions: fact_views(self.allowed_actions@),
            preferred_speech: ov(self.preferred_speech),
            home_location: ov(self.home_location),
        }
    }
}

#[verifier::ext_equal]
pub struct LocationView {
    pub id: Seq<char>,
    pub name: Seq<char>,
    pub description: Seq<char>,
    pub tags: Seq<Seq<char>>,
    pub staging_marks: Seq<Seq<char>>,
    pub camera_anchors: Seq<Seq<char>>,
    pub available_interactions: Seq<Seq<char>>,
    pub room_state: Seq<char>,
}

impl View for Location {
    type V = LocationView;

    open spec fn view(&self) -> LocationView {
        LocationView {
            id: self.id@,
            name: self.name@,
            description: self.description@,
            tags: fact_views(self.tags@),
            staging_marks: mark_ids(*self),
            camera_anchors: anchor_ids(*self),
            available_interactions: fact_views(self.available_interactions@),
            room_state: self.room_state@,
        }
    }
}

#[verifier::ext_equal]
pub struct PropView {
    pub id: Seq<char>,
    pub name: Seq<char>,
    pub location_id: Seq<char>,
    pub capabilities: Seq<Seq<char>>,
    pub owner: Option<Seq<char>>,
    pub home_mark: Seq<char>,
    pub story_state: Seq<char>,
}

impl View for Prop {
    type V = PropView;

    open spec fn view(&self) -> PropView {
        PropView {
            id: self.id@,
            name: self.name@,
            location_id: self.location_id@,
            capabilities: fact_views(self.capabilities@),
            owner: ov(self.owner),
            home_mark: self.home_mark@,
            story_state: self.story_state@,
        }
    }
}

#[verifier::ext_equal]
pub struct ThreadView {
    pub id: Seq<char>,
    pub summary: Seq<char>,
    pub characters: Seq<Seq<char>>,
    pub locations: Seq<Seq<char>>,
    pub age: u32,
    pub last_episode: Option<u64>,
    pub resolutions: Seq<Seq<char>>,
    pub may_ignore: bool,
    pub protected: bool,
}

impl View for StoryThread {
    type V = ThreadView;

    open spec fn view(&self) -> ThreadView {
        ThreadView {
            id: self.id@,
            summary: self.summary@,
            characters: fact_views(self.characters@),
            locations: fact_views(self.locations@),
            age: self.age,
            last_episode: self.last_episode,
            resolutions: fact_views(self.resolutions@),
            may_ignore: self.may_ignore,
            protected: self.protected,
        }
    }
}

#[verifier::ext_equal]
pub struct WorldView {
    pub characters: Seq<CharacterView>,
    pub locations: Seq<LocationView>,
    pub props: Seq<PropView>,
    pub threads: Seq<ThreadView>,
    pub canonical_facts: Seq<Seq<char>>,
    pub episode_count: u64,
}

impl View for WorldState {
    type V = WorldView;

    open spec fn view(&self) -> WorldView {
        WorldView {
            characters: Seq::new(self.characters.len() as nat, |i: int| self.characters@[i]@),
            locations: Seq::new(self.locations.len() as nat, |i: int| self.locations@[i]@),
            props: Seq::new(self.props.len() as nat, |i: int| self.props@[i]@),
            threads: Seq::new(self.threads.len() as nat, |i: int| self.threads@[i]@),
            canonical_facts: fact_views(self.canonical_facts@),
            episode_count: self.episode_count,
        }
    }
}

// ---------------------------------------------------------------------------
// Lookup
// ---------------------------------------------------------------------------

/// Index of the first string of `v` equal to `id`.
pub fn index_of_str(v: &Vec<String>, id: &str) -> (r: Option<usize>)
    ensures
        r == match first_index(fact_views(v@), id@) {
            Some(i) => Some(i as usize),
            None => None,
        },
{
    let target = chars_of(id);
    let mut i: usize = 0;
    let ghost ids = fact_views(v@);
    assert(ids.skip(0) =~= ids);
    while i < v.len()
        invariant
            i <= v.len(),
            ids == fact_views(v@),
            target@ == id@,
            first_index(ids, id@) == match first_index(ids.skip(i as int), id@) {
                Some(k) => Some(k + i),
                None => None::<int>,
            },
        decreases v.len() - i,
    {
        assert(ids.skip(i as int).drop_first() =~= ids.skip(i + 1));
        let c = chars_of(v[i].as_str());
        if seq_eq(&c, &target) {
            return Some(i);
        }
        i += 1;
    }
    None
}

/// The canonical facts with `f` added unless it is already there.
pub open spec fn with_fact(facts: Seq<Seq<char>>, f: Seq<char>) -> Seq<Seq<char>> {
    if facts.contains(f) {
        facts
    } else {
        facts.push(f)
    }
}

/// Adding a canonical fact is idempotent and never creates a duplicate:
/// adding it twice is adding it once, and facts that were distinct stay
/// distinct.
pub proof fn adding_a_fact_is_idempotent(facts: Seq<Seq<char>>, f: Seq<char>)
    ensures
        with_fact(with_fact(facts, f), f) == with_fact(facts, f),
        with_fact(facts, f).contains(f),
        facts.no_duplicates() ==> with_fact(facts, f).no_duplicates(),
{
    if !facts.contains(f) {
        assert(facts.push(f)[facts.len() as int] == f);
        if facts.no_duplicates() {
            let g = facts.push(f);
            assert forall|i: int, j: int| 0 <= i < g.len() && 0 <= j < g.len() && i != j implies g[i]
                != g[j] by {
                if i < facts.len() && j < facts.len() {
                    assert(g[i] == facts[i] && g[j] == facts[j]);
                } else if i < facts.len() {
                    assert(g[i] == facts[i]);
                } else if j < facts.len() {
                    assert(g[j] == facts[j]);
                }
            }
        }
    }
}

impl WorldState {
    /// Index of the first character with this id.
    pub fn character_index(&self, id: &str) -> (r: Option<usize>)
        ensures
            r == match first_index(character_ids(*self), id@) {
                Some(i) => Some(i as usize),
                None => None,
            },
    {
        let target = chars_of(id);
        let ghost ids = character_ids(*self);
        let mut i: usize = 0;
        assert(ids.skip(0) =~= ids);
        while i < self.characters.len()
            invariant
                i <= self.characters.len(),
                ids == character_ids(*self),
                target@ == id@,
                first_index(ids, id@) == match first_index(ids.skip(i as int), id@) {
                    Some(k) => Some(k + i),
                    None => None::<int>,
                },
            decreases self.characters.len() - i,
        {
            assert(ids.skip(i as int).drop_first() =~= ids.skip(i + 1));
            let c = chars_of(self.characters[i].id.as_str());
            if seq_eq(&c, &target) {
                return Some(i);
            }
            i += 1;
        }
        None
    }

    /// Index of the first location with this id.
    pub fn location_index(&self, id: &str) -> (r: Option<usize>)
        ensures
            r == match first_index(location_ids(*self), id@) {
                Some(i) => Some(i as usize),
                None => None,
            },
    {
        let target = chars_of(id);
        let ghost ids = location_ids(*self);
        let mut i: usize = 0;
        assert(ids.skip(0) =~= ids);
        while i < self.locations.len()
            invariant
                i <= self.locations.len(),
                ids == location_ids(*self),
                target@ == id@,
                first_index(ids, id@) == match first_index(ids.skip(i as int), id@) {
                    Some(k) => Some(k + i),
                    None => None::<int>,
                },
            decreases self.locations.len() - i,
        {
            assert(ids.skip(i as int).drop_first() =~= ids.skip(i + 1));
            let c = chars_of(self.locations[i].id.as_str());
            if seq_eq(&c, &target) {
                return Some(i);
            }
            i += 1;
        }
        None
    }

    /// Index of the first prop with this id.
    pub fn prop_index(&self, id: &str) -> (r: Option<usize>)
        ensures
            r == match first_index(prop_ids(*self), id@) {
                Some(i) => Some(i as usize),
                None => None,
            },
    {
        let target = chars_of(id);
        let ghost ids = prop_ids(*self);
        let mut i: usize = 0;
        assert(ids.skip(0) =~= ids);
        while i < self.props.len()
            invariant
                i <= self.props.len(),
                ids == prop_ids(*self),
                target@ == id@,
                first_index(ids, id@) == match first_index(ids.skip(i as int), id@) {
                    Some(k) => Some(k + i),
                    None => None::<int>,
                },
            decreases self.props.len() - i,
        {
            assert(ids.skip(i as int).drop_first() =~= ids.skip(i + 1));
            let c = chars_of(self.props[i].id.as_str());
            if seq_eq(&c, &target) {
                return Some(i);
            }
            i += 1;
        }
        None
    }

    /// Index of the first thread with this id.
    pub fn thread_index(&self, id: &str) -> (r: Option<usize>)
        ensures
            r == match first_index(thread_ids(*self), id@) {
                Some(i) => Some(i as usize),
                None => None,
            },
    {
        let target = chars_of(id);
        let ghost ids = thread_ids(*self);
        let mut i: usize = 0;
        assert(ids.skip(0) =~= ids);
        while i < self.threads.len()
            invariant
                i <= self.threads.len(),
                ids == thread_ids(*self),
                target@ == id@,
                first_index(ids, id@) == match first_index(ids.skip(i as int), id@) {
                    Some(k) => Some(k + i),
                    None => None::<int>,
                },
            decreases self.threads.len() - i,
        {
            assert(ids.skip(i as int).drop_first() =~= ids.skip(i + 1));
            let c = chars_of(self.threads[i].id.as_str());
            if seq_eq(&c, &target) {
                return Some(i);
            }
            i += 1;
        }
        None
    }

    /// The character with this id.
    pub fn character(&self, id: &str) -> (r: Option<&Character>)
        ensures
            r == match first_index(character_ids(*self), id@) {
                Some(i) => Some(&self.characters@[i]),
                None => None,
            },
    {
        proof {
            lemma_first_index(character_ids(*self), id@);
        }
        match self.character_index(id) {
            Some(i) => Some(&self.characters[i]),
            None => None,
        }
    }

    /// The location with this id.
    pub fn location(&self, id: &str) -> (r: Option<&Location>)
        ensures
            r == match first_index(location_ids(*self), id@) {
                Some(i) => Some(&self.locations@[i]),
                None => None,
            },
    {
        proof {
            lemma_first_index(location_ids(*self), id@);
        }
        match self.location_index(id) {
            Some(i) => Some(&self.locations[i]),
            None => None,
        }
    }

    /// The prop with this id.
    pub fn prop(&self, id: &str) -> (r: Option<&Prop>)
        ensures
            r == match first_index(prop_ids(*self), id@) {
                Some(i) => Some(&self.props@[i]),
                None => None,
            },
    {
        proof {
            lemma_first_index(prop_ids(*self), id@);
        }
        match self.prop_index(id) {
            Some(i) => Some(&self.props[i]),
            None => None,
        }
    }

    /// Whether a character with this id exists.
    pub fn has_character(&self, id: &str) -> (r: bool)
        ensures
            r == has_character(*self, id@),
    {
        proof {
            lemma_first_index(character_ids(*self), id@);
        }
        self.character_index(id).is_some()
    }

    /// Whether a location with this id exists.
    pub fn has_location(&self, id: &str) -> (r: bool)
        ensures
            r == has_location(*self, id@),
    {
        proof {
            lemma_first_index(location_ids(*self), id@);
        }
        self.location_index(id).is_some()
    }

    /// Whether a prop with this id exists.
    pub fn has_prop(&self, id: &str) -> (r: bool)
        ensures
            r == has_prop(*self, id@),
    {
        proof {
            lemma_first_index(prop_ids(*self), id@);
        }
        self.prop_index(id).is_some()
    }

    /// Resolve an entity id to a display label, regardless of kind.
    pub fn label_for(&self, id: &str) -> (r: String)
        ensures
            r@ == label_of(*self, id@),
    {
        proof {
            lemma_first_index(character_ids(*self), id@);
            lemma_first_index(prop_ids(*self), id@);
            lemma_first_index(location_ids(*self), id@);
        }
        if let Some(i) = self.character_index(id) {
            return self.characters[i].display_name.clone();
        }
        if let Some(i) = self.prop_index(id) {
            return self.props[i].name.clone();
        }
        if let Some(i) = self.location_index(id) {
            return self.locations[i].name.clone();
        }
        let v = chars_of(id);
        string_of(&v)
    }

    /// Add a canonical fact unless it is already present.
    pub fn add_fact(&mut self, fact: &str)
        ensures
            fact_views(final(self).canonical_facts@) == with_fact(
                fact_views(old(self).canonical_facts@),
                fact@,
            ),
            final(self).characters == old(self).characters,
            final(self).locations == old(self).locations,
            final(self).props == old(self).props,
            final(self).threads == old(self).threads,
            final(self).episode_count == old(self).episode_count,
    {
        proof {
            lemma_first_index(fact_views(self.canonical_facts@), fact@);
        }
        if index_of_str(&self.canonical_facts, fact).is_none() {
            let v = chars_of(fact);
            let s = string_of(&v);
            let ghost before = fact_views(self.canonical_facts@);
            self.canonical_facts.push(s);
            assert(fact_views(self.canonical_facts@) =~= before.push(fact@));
        }
    }

    /// Whether some location has a staging mark or camera anchor with this id.
    pub fn has_mark_or_anchor(&self, id: &str) -> (r: bool)
        ensures
            r == has_mark_or_anchor(*self, id@),
    {
        let target = chars_of(id);
        let mut i: usize = 0;
        while i < self.locations.len()
            invariant
                i <= self.locations.len(),
                target@ == id@,
                forall|k: int|
                    0 <= k < i ==> !(mark_ids(#[trigger] self.locations@[k]).contains(id@)
                        || anchor_ids(self.locations@[k]).contains(id@)),
            decreases self.locations.len() - i,
        {
            let loc = &self.locations[i];
            let mut j: usize = 0;
            while j < loc.staging_marks.len()
                invariant
                    i < self.locations.len(),
                    *loc == self.locations@[i as int],
                    j <= loc.staging_marks.len(),
                    target@ == id@,
                    forall|k: int| 0 <= k < j ==> mark_ids(*loc)[k] != id@,
                decreases loc.staging_marks.len() - j,
            {
                let c = chars_of(loc.staging_marks[j].id.as_str());
                if seq_eq(&c, &target) {
                    assert(mark_ids(*loc)[j as int] == id@);
                    assert(mark_ids(self.locations@[i as int]).contains(id@));
                    return true;
                }
                j += 1;
            }
            let mut j: usize = 0;
            while j < loc.camera_anchors.len()
                invariant
                    i < self.locations.len(),
                    *loc == self.locations@[i as int],
                    j <= loc.camera_anchors.len(),
                    target@ == id@,
                    forall|k: int| 0 <= k < j ==> anchor_ids(*loc)[k] != id@,
                decreases loc.camera_anchors.len() - j,
            {
                let c = chars_of(loc.camera_anchors[j].id.as_str());
                if seq_eq(&c, &target) {
                    assert(anchor_ids(*loc)[j as int] == id@);
                    assert(anchor_ids(self.locations@[i as int]).contains(id@));
                    return true;
                }
                j += 1;
            }
            assert(!mark_ids(*loc).contains(id@));
            assert(!anchor_ids(*loc).contains(id@));
            i += 1;
        }
        false
    }

    /// Whether `id` names a character, prop, location, staging mark or camera anchor.
    pub fn entity_exists(&self, id: &str) -> (r: bool)
        ensures
            r == entity_exists_spec(*self, id@),
    {
        self.has_character(id) || self.has_prop(id) || self.has_location(id)
            || self.has_mark_or_anchor(id)
    }
}

/// The alias table as executable pairs.
fn aliases_list() -> (r: Vec<(&'static str, &'static str)>)
    ensures
        r.len() == aliases().len(),
        forall|i: int| 0 <= i < r.len() ==> (#[trigger] r@[i]).0@ == aliases()[i].0 && r@[i].1@ == aliases()[i].1,
{
    let mut r: Vec<(&'static str, &'static str)> = Vec::new();
    r.push(("elevator_indicator", "elevator_indicator"));
    r.push(("indicator", "elevator_indicator"));
    r.push(("elevator_panel", "elevator_panel"));
    r.push(("control_panel", "control_panel"));
    r.push(("panel", "maintenance_panel"));
    r.push(("elevator_door", "elevator_doors"));
    r.push(("elevator_doors", "elevator_doors"));
    r.push(("elevator_frame", "elevator"));
    r.push(("elevator shell", "elevator"));
    r.push(("elevator_interior", "elevator"));
    r.push(("elevator", "elevator"));
    r.push(("hall_center", "floor_3_hallway"));
    r.push(("maintenance", "maintenance_panel"));
    r.push(("hallway", "floor_3_hallway"));
    r.push(("clipboard", "inspection_clipboard"));
    r.push(("hallway_light", "hallway_light"));
    r.push(("light", "flickering_light"));
    r.push(("door", "elevator_doors"));
    r
}

/// The first id of `ids` whose lowercase is `l`.
fn first_lowercase_in(ids: &Vec<String>, l: &Vec<char>) -> (r: Option<String>)
    ensures
        match r {
            Some(s) => first_lowercase_match(fact_views(ids@), l@) == Some(s@),
            None => first_lowercase_match(fact_views(ids@), l@) is None,
        },
{
    let ghost all = fact_views(ids@);
    let mut i: usize = 0;
    assert(all.skip(0) =~= all);
    while i < ids.len()
        invariant
            i <= ids.len(),
            all == fact_views(ids@),
            first_lowercase_match(all, l@) == first_lowercase_match(all.skip(i as int), l@),
        decreases ids.len() - i,
    {
        assert(all.skip(i as int).drop_first() =~= all.skip(i + 1));
        let low = to_lowercase(ids[i].as_str());
        let lv = chars_of(low.as_str());
        if seq_eq(&lv, l) {
            return Some(ids[i].clone());
        }
        i += 1;
    }
    None
}

/// Whether some staging mark or camera anchor of `loc` has lowercase id `l`.
fn location_has_lowercase(loc: &Location, l: &Vec<char>) -> (r: bool)
    ensures
        r == location_has_lowercase_id(*loc, l@),
{
    let mut j: usize = 0;
    while j < loc.staging_marks.len()
        invariant
            j <= loc.staging_marks.len(),
            forall|k: int|
                0 <= k < j ==> unicode_lowercase(#[trigger] loc.staging_marks@[k].id@) != l@,
        decreases loc.staging_marks.len() - j,
    {
        let low = to_lowercase(loc.staging_marks[j].id.as_str());
        let lv = chars_of(low.as_str());
        if seq_eq(&lv, l) {
            return true;
        }
        j += 1;
    }
    let mut j: usize = 0;
    while j < loc.camera_anchors.len()
        invariant
            j <= loc.camera_anchors.len(),
            forall|k: int|
                0 <= k < loc.staging_marks.len() ==> unicode_lowercase(
                    #[trigger] loc.staging_marks@[k].id@,
                ) != l@,
            forall|k: int|
                0 <= k < j ==> unicode_lowercase(#[trigger] loc.camera_anchors@[k].id@) != l@,
        decreases loc.camera_anchors.len() - j,
    {
        let low = to_lowercase(loc.camera_anchors[j].id.as_str());
        let lv = chars_of(low.as_str());
        if seq_eq(&lv, l) {
            return true;
        }
        j += 1;
    }
    false
}

impl WorldState {
    /// Character ids in order.
    pub fn character_id_list(&self) -> (r: Vec<String>)
        ensures
            fact_views(r@) == character_ids(*self),
    {
        let mut out: Vec<String> = Vec::new();
        let mut i: usize = 0;
        while i < self.characters.len()
            invariant
                i <= self.characters.len(),
                out.len() == i,
                forall|k: int| 0 <= k < i ==> #[trigger] out@[k]@ == self.characters@[k].id@,
            decreases self.characters.len() - i,
        {
            out.push(self.characters[i].id.clone());
            i += 1;
        }
        assert(fact_views(out@) =~= character_ids(*self));
        out
    }

    /// Prop ids in order.
    pub fn prop_id_list(&self) -> (r: Vec<String>)
        ensures
            fact_views(r@) == prop_ids(*self),
    {
        let mut out: Vec<String> = Vec::new();
        let mut i: usize = 0;
        while i < self.props.len()
            invariant
                i <= self.props.len(),
                out.len() == i,
                forall|k: int| 0 <= k < i ==> #[trigger] out@[k]@ == self.props@[k].id@,
            decreases self.props.len() - i,
        {
            out.push(self.props[i].id.clone());
            i += 1;
        }
        assert(fact_views(out@) =~= prop_ids(*self));
        out
    }

    /// Location ids in order.
    pub fn location_id_list(&self) -> (r: Vec<String>)
        ensures
            fact_views(r@) == location_ids(*self),
    {
        let mut out: Vec<String> = Vec::new();
        let mut i: usize = 0;
        while i < self.locations.len()
            invariant
                i <= self.locations.len(),
                out.len() == i,
                forall|k: int| 0 <= k < i ==> #[trigger] out@[k]@ == self.locations@[k].id@,
            decreases self.locations.len() - i,
        {
            out.push(self.locations[i].id.clone());
            i += 1;
        }
        assert(fact_views(out@) =~= location_ids(*self));
        out
    }

    /// Whether some staging mark or camera anchor has lowercase id `l`.
    fn has_mark_or_anchor_lowercase(&self, l: &Vec<char>) -> (r: bool)
        ensures
            r == has_mark_or_anchor_lowercase(*self, l@),
    {
        let mut i: usize = 0;
        while i < self.locations.len()
            invariant
                i <= self.locations.len(),
                forall|k: int|
                    0 <= k < i ==> !location_has_lowercase_id(#[trigger] self.locations@[k], l@),
            decreases self.locations.len() - i,
        {
            if location_has_lowercase(&self.locations[i], l) {
                return true;
            }
            i += 1;
        }
        false
    }

    /// Resolve a raw target / subject token to a canonical entity id: a
    /// character, prop or location whose id matches case-insensitively, a
    /// staging mark or camera anchor (returned as written), or a known narrative
    /// root inside a longer phrase (`elevator_interior` names the elevator).
    /// Action verbs, empty tokens and invented props resolve to nothing.
    pub fn resolve_entity_or_alias(&self, raw: &str) -> (r: Option<String>)
        ensures
            match r {
                Some(s) => resolved_entity(*self, raw@) == Some(s@),
                None => resolved_entity(*self, raw@) is None,
            },
    {
        let rv = chars_of(raw);
        let t = trim_chars(&rv);
        let ts = string_of(&t);
        let lower = to_lowercase(ts.as_str());
        let l = chars_of(lower.as_str());
        assert(l@ == unicode_lowercase(trim(raw@)));
        if l.len() == 0 {
            return None;
        }
        let acts = known_actions_list();
        let mut i: usize = 0;
        while i < acts.len()
            invariant
                i <= acts.len(),
                l@.len() != 0,
                l@ == unicode_lowercase(trim(raw@)),
                crate::text::str_views(acts@) == known_actions(),
                forall|k: int| 0 <= k < i ==> unicode_lowercase(#[trigger] known_actions()[k]) != l@,
            decreases acts.len() - i,
        {
            let la = to_lowercase(acts[i]);
            let lav = chars_of(la.as_str());
            assert(crate::text::str_views(acts@)[i as int] == acts@[i as int]@);
            if seq_eq(&lav, &l) {
                assert(unicode_lowercase(known_actions()[i as int]) == l@);
                assert(exists|k: int|
                    0 <= k < known_actions().len() && unicode_lowercase(
                        #[trigger] known_actions()[k],
                    ) == l@);
                assert(is_action_token(l@));
                assert(l@.len() != 0);
                assert(resolved_entity(*self, raw@) is None);
                return None;
            }
            i += 1;
        }
        assert(!is_action_token(l@));
        let chars = self.character_id_list();
        if let Some(c) = first_lowercase_in(&chars, &l) {
            return Some(c);
        }
        let props = self.prop_id_list();
        if let Some(p) = first_lowercase_in(&props, &l) {
            return Some(p);
        }
        let locs = self.location_id_list();
        if let Some(p) = first_lowercase_in(&locs, &l) {
            return Some(p);
        }
        if self.has_mark_or_anchor_lowercase(&l) {
            return Some(ts);
        }
        let pairs = aliases_list();
        let ghost all = aliases();
        let mut i: usize = 0;
        assert(all.skip(0) =~= all);
        while i < pairs.len()
            invariant
                i <= pairs.len(),
                l@.len() != 0,
                l@ == unicode_lowercase(trim(raw@)),
                !is_action_token(l@),
                first_lowercase_match(character_ids(*self), l@) is None,
                first_lowercase_match(prop_ids(*self), l@) is None,
                first_lowercase_match(location_ids(*self), l@) is None,
                !has_mark_or_anchor_lowercase(*self, l@),
                all == aliases(),
                pairs.len() == all.len(),
                forall|k: int|
                    0 <= k < pairs.len() ==> (#[trigger] pairs@[k]).0@ == all[k].0 && pairs@[k].1@
                        == all[k].1,
                alias_match(*self, all, l@) == alias_match(*self, all.skip(i as int), l@),
            decreases pairs.len() - i,
        {
            assert(all.skip(i as int).drop_first() =~= all.skip(i + 1));
            assert(all.skip(i as int)[0] == all[i as int]);
            let (needle, canonical) = pairs[i];
            assert(needle@ == all[i as int].0 && canonical@ == all[i as int].1);
            let nv = chars_of(needle);
            if contains_chars(&l, &nv) {
                if self.has_prop(canonical) || self.has_character(canonical) || self.has_location(
                    canonical,
                ) {
                    let cv = chars_of(canonical);
                    return Some(string_of(&cv));
                }
            }
            i += 1;
        }
        None
    }
}

proof fn lemma_first_lowercase_match(ids: Seq<Seq<char>>, l: Seq<char>, p: int)
    requires
        0 <= p < ids.len(),
        unicode_lowercase(ids[p]) == l,
        forall|q: int| 0 <= q < p ==> unicode_lowercase(#[trigger] ids[q]) != l,
    ensures
        first_lowercase_match(ids, l) == Some(ids[p]),
    decreases p,
{
    if p > 0 {
        assert(unicode_lowercase(ids[0]) != l);
        let rest = ids.drop_first();
        assert forall|q: int| 0 <= q < p - 1 implies unicode_lowercase(#[trigger] rest[q]) != l by {
            assert(rest[q] == ids[q + 1]);
        }
        lemma_first_lowercase_match(rest, l, p - 1);
    }
}

proof fn lemma_no_lowercase_match(ids: Seq<Seq<char>>, l: Seq<char>)
    requires
        forall|q: int| 0 <= q < ids.len() ==> unicode_lowercase(#[trigger] ids[q]) != l,
    ensures
        first_lowercase_match(ids, l) is None,
    decreases ids.len(),
{
    if ids.len() > 0 {
        assert(unicode_lowercase(ids[0]) != l);
        let rest = ids.drop_first();
        assert forall|q: int| 0 <= q < rest.len() implies unicode_lowercase(#[trigger] rest[q]) != l by {
            assert(rest[q] == ids[q + 1]);
        }
        lemma_no_lowercase_match(rest, l);
    }
}

/// Props are found by their id, compared without case: when the trimmed,
/// lowercased token is not an action token, no character id lowercases to
/// it, and prop `p` is the first prop whose id lowercases to it, the token
/// resolves to that prop's id.
pub proof fn props_resolve_by_id(w: WorldState, raw: Seq<char>, p: int)
    requires
        unicode_lowercase(trim(raw)).len() > 0,
        !is_action_token(unicode_lowercase(trim(raw))),
        forall|c: int|
            0 <= c < w.characters.len() ==> unicode_lowercase(#[trigger] w.characters@[c].id@)
                != unicode_lowercase(trim(raw)),
        0 <= p < w.props.len(),
        unicode_lowercase(w.props@[p].id@) == unicode_lowercase(trim(raw)),
        forall|q: int|
            0 <= q < p ==> unicode_lowercase(#[trigger] w.props@[q].id@) != unicode_lowercase(
                trim(raw),
            ),
    ensures
        resolved_entity(w, raw) == Some(w.props@[p].id@),
{
    let l = unicode_lowercase(trim(raw));
    let cs = character_ids(w);
    assert forall|c: int| 0 <= c < cs.len() implies unicode_lowercase(#[trigger] cs[c]) != l by {
        assert(cs[c] == w.characters@[c].id@);
    }
    lemma_no_lowercase_match(cs, l);
    let ps = prop_ids(w);
    assert forall|q: int| 0 <= q < p implies unicode_lowercase(#[trigger] ps[q]) != l by {
        assert(ps[q] == w.props@[q].id@);
    }
    assert(ps[p] == w.props@[p].id@);
    lemma_first_lowercase_match(ps, l, p);
}

/// Characters are found first, by their id compared without case: when the
/// trimmed, lowercased token is not an action token and character `c` is the
/// first whose id lowercases to it, the token resolves to that id.
pub proof fn characters_resolve_by_id(w: WorldState, raw: Seq<char>, c: int)
    requires
        unicode_lowercase(trim(raw)).len() > 0,
        !is_action_token(unicode_lowercase(trim(raw))),
        0 <= c < w.characters.len(),
        unicode_lowercase(w.characters@[c].id@) == unicode_lowercase(trim(raw)),
        forall|q: int|
            0 <= q < c ==> unicode_lowercase(#[trigger] w.characters@[q].id@) != unicode_lowercase(
                trim(raw),
            ),
    ensures
        resolved_entity(w, raw) == Some(w.characters@[c].id@),
{
    let l = unicode_lowercase(trim(raw));
    let cs = character_ids(w);
    assert forall|q: int| 0 <= q < c implies unicode_lowercase(#[trigger] cs[q]) != l by {
        assert(cs[q] == w.characters@[q].id@);
    }
    assert(cs[c] == w.characters@[c].id@);
    lemma_first_lowercase_match(cs, l, c);
}

/// Locations are found by their id, compared without case, when no
/// character or prop id matches: location `p` is the first whose id
/// lowercases to the trimmed, lowercased token.
pub proof fn locations_resolve_by_id(w: WorldState, raw: Seq<char>, p: int)
    requires
        unicode_lowercase(trim(raw)).len() > 0,
        !is_action_token(unicode_lowercase(trim(raw))),
        forall|c: int|
            0 <= c < w.characters.len() ==> unicode_lowercase(#[trigger] w.characters@[c].id@)
                != unicode_lowercase(trim(raw)),
        forall|c: int|
            0 <= c < w.props.len() ==> unicode_lowercase(#[trigger] w.props@[c].id@)
                != unicode_lowercase(trim(raw)),
        0 <= p < w.locations.len(),
        unicode_lowercase(w.locations@[p].id@) == unicode_lowercase(trim(raw)),
        forall|q: int|
            0 <= q < p ==> unicode_lowercase(#[trigger] w.locations@[q].id@) != unicode_lowercase(
                trim(raw),
            ),
    ensures
        resolved_entity(w, raw) == Some(w.locations@[p].id@),
{
    let l = unicode_lowercase(trim(raw));
    let cs = character_ids(w);
    assert forall|c: int| 0 <= c < cs.len() implies unicode_lowercase(#[trigger] cs[c]) != l by {
        assert(cs[c] == w.characters@[c].id@);
    }
    lemma_no_lowercase_match(cs, l);
    let ps = prop_ids(w);
    assert forall|c: int| 0 <= c < ps.len() implies unicode_lowercase(#[trigger] ps[c]) != l by {
        assert(ps[c] == w.props@[c].id@);
    }
    lemma_no_lowercase_match(ps, l);
    let ls = location_ids(w);
    assert forall|q: int| 0 <= q < p implies unicode_lowercase(#[trigger] ls[q]) != l by {
        assert(ls[q] == w.locations@[q].id@);
    }
    assert(ls[p] == w.locations@[p].id@);
    lemma_first_lowercase_match(ls, l, p);
}

/// Action tokens and blank tokens name no entity.
pub proof fn action_tokens_resolve_to_nothing(w: WorldState, raw: Seq<char>)
    requires
        unicode_lowercase(trim(raw)).len() == 0 || is_action_token(unicode_lowercase(trim(raw))),
    ensures
        resolved_entity(w, raw) is None,
{
}

} // verus!

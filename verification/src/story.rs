//! Story-state mutation.
//!
//! Persistent changes requested by a director are applied only through this
//! pathway, and a delta records what changed so that it can be committed or
//! discarded. Relationship strengths are floating-point: a `change_relationship`
//! makes sure the character exists and has a relationship to the other
//! character on the named dimension here, and its position is handed back so
//! the caller adjusts the strength and records the change.
use vstd::prelude::*;

use crate::protocol::{change_views, PersistentChange, PersistentChangeView};
use crate::text::{append_chars, append_str, chars_of, decimal_chars, seq_eq, str_eq, string_of};
use crate::world::{
    fact_views, first_index, lemma_first_index, CharacterView, Relationship, RelationshipView,
    StoryThread, ThreadView, WorldState, WorldView,
};

verus! {

/// What a batch of persistent changes did.
#[derive(Debug)]
pub struct WorldDelta {
    pub added_canonical_facts: Vec<String>,
    /// "<char>:<value>"
    pub added_beliefs: Vec<String>,
    /// "<a>-><b>:<dim><sign><amt>"
    pub relationship_changes: Vec<String>,
    pub resolved_threads: Vec<String>,
    pub new_threads: Vec<String>,
    /// "<loc>:<state>"
    pub location_changes: Vec<String>,
    pub notes: Vec<String>,
}

#[verifier::ext_equal]
pub struct DeltaView {
    pub added_canonical_facts: Seq<Seq<char>>,
    pub added_beliefs: Seq<Seq<char>>,
    pub relationship_changes: Seq<Seq<char>>,
    pub resolved_threads: Seq<Seq<char>>,
    pub new_threads: Seq<Seq<char>>,
    pub location_changes: Seq<Seq<char>>,
    pub notes: Seq<Seq<char>>,
}

impl View for WorldDelta {
    type V = DeltaView;

    open spec fn view(&self) -> DeltaView {
        DeltaView {
            added_canonical_facts: fact_views(self.added_canonical_facts@),
            added_beliefs: fact_views(self.added_beliefs@),
            relationship_changes: fact_views(self.relationship_changes@),
            resolved_threads: fact_views(self.resolved_threads@),
            new_threads: fact_views(self.new_threads@),
            location_changes: fact_views(self.location_changes@),
            notes: fact_views(self.notes@),
        }
    }
}

impl WorldDelta {
    /// A delta that records nothing.
    pub fn new() -> (r: Self)
        ensures
            r@ == empty_delta(),
    {
        let r = WorldDelta {
            added_canonical_facts: Vec::new(),
            added_beliefs: Vec::new(),
            relationship_changes: Vec::new(),
            resolved_threads: Vec::new(),
            new_threads: Vec::new(),
            location_changes: Vec::new(),
            notes: Vec::new(),
        };
        assert(r@ =~= empty_delta());
        r
    }
}

// ---------------------------------------------------------------------------
// Specifications
// ---------------------------------------------------------------------------

pub open spec fn empty_delta() -> DeltaView {
    DeltaView {
        added_canonical_facts: seq![],
        added_beliefs: seq![],
        relationship_changes: seq![],
        resolved_threads: seq![],
        new_threads: seq![],
        location_changes: seq![],
        notes: seq![],
    }
}

/// `v` with every occurrence of `x` removed.
pub open spec fn without(v: Seq<Seq<char>>, x: Seq<char>) -> Seq<Seq<char>>
    decreases v.len(),
{
    if v.len() == 0 {
        seq![]
    } else if v.last() == x {
        without(v.drop_last(), x)
    } else {
        without(v.drop_last(), x).push(v.last())
    }
}

/// `v` with `x` added at the end unless already present.
pub open spec fn add_unique(v: Seq<Seq<char>>, x: Seq<char>) -> Seq<Seq<char>> {
    if v.contains(x) {
        v
    } else {
        v.push(x)
    }
}

/// `ts` without the threads with id `id`.
pub open spec fn threads_without(ts: Seq<ThreadView>, id: Seq<char>) -> Seq<ThreadView>
    decreases ts.len(),
{
    if ts.len() == 0 {
        seq![]
    } else if ts.last().id == id {
        threads_without(ts.drop_last(), id)
    } else {
        threads_without(ts.drop_last(), id).push(ts.last())
    }
}

pub open spec fn char_ids_of(w: WorldView) -> Seq<Seq<char>> {
    Seq::new(w.characters.len(), |i: int| w.characters[i].id)
}

pub open spec fn loc_ids_of(w: WorldView) -> Seq<Seq<char>> {
    Seq::new(w.locations.len(), |i: int| w.locations[i].id)
}

pub open spec fn thread_ids_of(w: WorldView) -> Seq<Seq<char>> {
    Seq::new(w.threads.len(), |i: int| w.threads[i].id)
}

/// The character a relationship change creates when its subject is unknown.
pub open spec fn placeholder_character(id: Seq<char>) -> CharacterView {
    CharacterView {
        id: id,
        display_name: id,
        role: seq![],
        color_hex: "#888888"@,
        personality: seq![],
        motivations: seq![],
        fears: seq![],
        voice_id: id,
        emotion: seq!["neutral"@],
        current_goal: None,
        known_facts: seq![],
        believed_facts: seq![],
        relationships: seq![],
        allowed_actions: seq![],
        preferred_speech: None,
        home_location: None,
    }
}

/// A newly created story thread.
pub open spec fn fresh_thread(id: Seq<char>, summary: Seq<char>) -> ThreadView {
    ThreadView {
        id: id,
        summary: summary,
        characters: seq![],
        locations: seq![],
        age: 0,
        last_episode: None,
        resolutions: seq![],
        may_ignore: true,
        protected: false,
    }
}

/// `w` with the beliefs of character `i` replaced.
pub open spec fn with_beliefs(w: WorldView, i: int, beliefs: Seq<Seq<char>>) -> WorldView {
    WorldView {
        characters: w.characters.update(i, CharacterView { believed_facts: beliefs, ..w.characters[i] }),
        ..w
    }
}

/// The dimension a relationship change adjusts: the one named, else `trust`.
pub open spec fn change_dimension(pc: PersistentChangeView) -> Seq<char> {
    match pc.field {
        Some(f) => f,
        None => "trust"@,
    }
}

/// The other characters' ids of a list of relationships.
pub open spec fn relationship_others(rels: Seq<RelationshipView>) -> Seq<Seq<char>> {
    Seq::new(rels.len(), |k: int| rels[k].other)
}

/// `rels` with a relationship to `other` measured on `dim`: the dimension is
/// added to an existing relationship, or a new relationship is made.
pub open spec fn touch_relationship(rels: Seq<RelationshipView>, other: Seq<char>, dim: Seq<char>) -> Seq<
    RelationshipView,
> {
    match first_index(relationship_others(rels), other) {
        Some(k) => rels.update(
            k,
            RelationshipView { other, dimensions: add_unique(rels[k].dimensions, dim) },
        ),
        None => rels.push(RelationshipView { other, dimensions: seq![dim] }),
    }
}

/// `w` with character `i`'s relationships replaced.
pub open spec fn with_relationships(w: WorldView, i: int, rels: Seq<RelationshipView>) -> WorldView {
    WorldView {
        characters: w.characters.update(i, CharacterView { relationships: rels, ..w.characters[i] }),
        ..w
    }
}

/// The world after a relationship change of `t` toward `other` on `dim`: the
/// subject is created if unknown, and its relationship touched.
pub open spec fn related(w: WorldView, t: Seq<char>, other: Seq<char>, dim: Seq<char>) -> WorldView {
    let (w1, i) = match first_index(char_ids_of(w), t) {
        Some(i) => (w, i),
        None => (
            WorldView { characters: w.characters.push(placeholder_character(t)), ..w },
            w.characters.len() as int,
        ),
    };
    with_relationships(w1, i, touch_relationship(w1.characters[i].relationships, other, dim))
}

/// The effect of one persistent change on the world and the delta.
pub open spec fn apply_change(w: WorldView, d: DeltaView, pc: PersistentChangeView) -> (
    WorldView,
    DeltaView,
) {
    let op = pc.operation;
    let t = pc.target;
    let v = pc.value;
    if op == "add_fact"@ {
        match first_index(char_ids_of(w), t) {
            Some(i) => (
                with_beliefs(w, i, add_unique(w.characters[i].believed_facts, v)),
                DeltaView { added_beliefs: d.added_beliefs.push(t + ":"@ + v), ..d },
            ),
            None => (
                WorldView { canonical_facts: add_unique(w.canonical_facts, v), ..w },
                DeltaView { added_canonical_facts: d.added_canonical_facts.push(v), ..d },
            ),
        }
    } else if op == "add_belief"@ {
        match first_index(char_ids_of(w), t) {
            Some(i) => (
                with_beliefs(w, i, add_unique(w.characters[i].believed_facts, v)),
                DeltaView { added_beliefs: d.added_beliefs.push(t + ":"@ + v), ..d },
            ),
            None => (w, d),
        }
    } else if op == "remove_fact"@ {
        (WorldView { canonical_facts: without(w.canonical_facts, v), ..w }, d)
    } else if op == "remove_false_belief"@ {
        match first_index(char_ids_of(w), t) {
            Some(i) => (with_beliefs(w, i, without(w.characters[i].believed_facts, v)), d),
            None => (w, d),
        }
    } else if op == "change_relationship"@ {
        (related(w, t, v, change_dimension(pc)), d)
    } else if op == "resolve_thread"@ {
        if thread_ids_of(w).contains(t) {
            (
                WorldView { threads: threads_without(w.threads, t), ..w },
                DeltaView { resolved_threads: d.resolved_threads.push(t), ..d },
            )
        } else {
            (w, d)
        }
    } else if op == "create_thread"@ {
        (
            WorldView { threads: threads_without(w.threads, t).push(fresh_thread(t, v)), ..w },
            DeltaView { new_threads: d.new_threads.push(t), ..d },
        )
    } else if op == "change_location_condition"@ {
        match first_index(loc_ids_of(w), t) {
            Some(i) => (
                WorldView {
                    locations: w.locations.update(i, crate::world::LocationView { room_state: v, ..w.locations[i] }),
                    ..w
                },
                DeltaView { location_changes: d.location_changes.push(t + ":"@ + v), ..d },
            ),
            None => (w, d),
        }
    } else {
        (
            w,
            DeltaView {
                notes: d.notes.push("unhandled operation '"@ + op + "' (target="@ + t + ")"@),
                ..d
            },
        )
    }
}

/// The effect of a batch of persistent changes, applied in order.
pub open spec fn apply_all(w: WorldView, d: DeltaView, pcs: Seq<PersistentChangeView>) -> (
    WorldView,
    DeltaView,
)
    decreases pcs.len(),
{
    if pcs.len() == 0 {
        (w, d)
    } else {
        let (w1, d1) = apply_all(w, d, pcs.drop_last());
        apply_change(w1, d1, pcs.last())
    }
}

/// Positions of the relationship changes in a batch.
pub open spec fn relationship_positions(pcs: Seq<PersistentChangeView>) -> Seq<int>
    decreases pcs.len(),
{
    if pcs.len() == 0 {
        seq![]
    } else if pcs.last().operation == "change_relationship"@ {
        relationship_positions(pcs.drop_last()).push(pcs.len() - 1)
    } else {
        relationship_positions(pcs.drop_last())
    }
}

pub open spec fn thread_views(v: Seq<StoryThread>) -> Seq<ThreadView> {
    Seq::new(v.len(), |k: int| v[k]@)
}

pub open spec fn positions_view(v: Seq<usize>) -> Seq<int> {
    Seq::new(v.len(), |i: int| v[i] as int)
}

// ---------------------------------------------------------------------------
// Helpers
// ---------------------------------------------------------------------------

/// Removes every string equal to `x` from `v`.
fn remove_equal(v: &mut Vec<String>, x: &str)
    ensures
        fact_views(final(v)@) == without(fact_views(old(v)@), x@),
{
    let ghost orig = fact_views(v@);
    assert(orig.len() == v.len());
    let target = chars_of(x);
    let mut i: usize = 0;
    let mut j: usize = 0;
    assert(orig.skip(0) =~= orig);
    assert(without(orig.take(0), x@) =~= Seq::<Seq<char>>::empty());
    assert(fact_views(v@) =~= without(orig.take(0), x@) + orig.skip(0));
    while i < v.len()
        invariant
            j <= orig.len(),
            orig.len() <= usize::MAX,
            i == without(orig.take(j as int), x@).len(),
            target@ == x@,
            fact_views(v@) == without(orig.take(j as int), x@) + orig.skip(j as int),
            v.len() == i + (orig.len() - j),
        decreases v.len() - i,
    {
        let ghost kept = without(orig.take(j as int), x@);
        assert(orig.take(j + 1).drop_last() =~= orig.take(j as int));
        assert(fact_views(v@)[i as int] == orig[j as int]);
        let c = chars_of(v[i].as_str());
        assert(j < orig.len());
        if seq_eq(&c, &target) {
            let ghost before = v@;
            v.remove(i);
            assert forall|k: int| 0 <= k < v.len() implies #[trigger] fact_views(v@)[k] == (kept
                + orig.skip(j + 1))[k] by {
                if k < i {
                    assert(fact_views(v@)[k] == before[k]@);
                    assert(before[k]@ == (kept + orig.skip(j as int))[k]);
                } else {
                    assert(fact_views(v@)[k] == before[k + 1]@);
                    assert(before[k + 1]@ == (kept + orig.skip(j as int))[k + 1]);
                }
            }
            assert(fact_views(v@) =~= kept + orig.skip(j + 1));
        } else {
            assert(kept.push(orig[j as int]) + orig.skip(j + 1) =~= kept + orig.skip(j as int));
            i += 1;
        }
        j += 1;
    }
    assert(orig.take(orig.len() as int) =~= orig);
    assert(fact_views(v@) =~= without(orig, x@));
}

/// Removes every thread with id `id`.
fn remove_threads(v: &mut Vec<StoryThread>, id: &str)
    ensures
        thread_views(final(v)@) == threads_without(
            thread_views(old(v)@),
            id@,
        ),
{
    let ghost orig = thread_views(v@);
    assert(orig.len() == v.len());
    let target = chars_of(id);
    let mut i: usize = 0;
    let mut j: usize = 0;
    assert(orig.skip(0) =~= orig);
    assert(thread_views(v@) =~= threads_without(orig.take(0), id@) + orig.skip(
        0,
    ));
    while i < v.len()
        invariant
            j <= orig.len(),
            orig.len() <= usize::MAX,
            i == threads_without(orig.take(j as int), id@).len(),
            target@ == id@,
            thread_views(v@) == threads_without(orig.take(j as int), id@)
                + orig.skip(j as int),
            v.len() == i + (orig.len() - j),
        decreases v.len() - i,
    {
        let ghost kept = threads_without(orig.take(j as int), id@);
        assert(orig.take(j + 1).drop_last() =~= orig.take(j as int));
        assert(thread_views(v@)[i as int] == orig[j as int]);
        let c = chars_of(v[i].id.as_str());
        assert(j < orig.len());
        if seq_eq(&c, &target) {
            let ghost before = v@;
            v.remove(i);
            assert forall|k: int| 0 <= k < v.len() implies #[trigger] thread_views(v@)[k] == (kept + orig.skip(j + 1))[k] by {
                if k < i {
                    assert(before[k]@ == (kept + orig.skip(j as int))[k]);
                } else {
                    assert(before[k + 1]@ == (kept + orig.skip(j as int))[k + 1]);
                }
            }
            assert(thread_views(v@) =~= kept + orig.skip(j + 1));
        } else {
            assert(kept.push(orig[j as int]) + orig.skip(j + 1) =~= kept + orig.skip(j as int));
            i += 1;
        }
        j += 1;
    }
    assert(orig.take(orig.len() as int) =~= orig);
    assert(thread_views(v@) =~= threads_without(orig, id@));
}

/// `a + sep + b` as a string.
fn joined3(a: &str, sep: &str, b: &str) -> (r: String)
    ensures
        r@ == a@ + sep@ + b@,
{
    let mut v = chars_of(a);
    append_str(&mut v, sep);
    append_str(&mut v, b);
    string_of(&v)
}

/// Copy of a string slice.
fn own(s: &str) -> (r: String)
    ensures
        r@ == s@,
{
    let v = chars_of(s);
    string_of(&v)
}

/// Pushes `s` onto a list of strings.
fn push_string(v: &mut Vec<String>, s: String)
    ensures
        fact_views(final(v)@) == fact_views(old(v)@).push(s@),
{
    v.push(s);
    assert(fact_views(v@) =~= fact_views(old(v)@).push(s@));
}

/// Adds a belief to character `i` unless already held.
fn add_belief_to(world: &mut WorldState, i: usize, value: &str)
    requires
        i < old(world).characters.len(),
    ensures
        final(world)@ == with_beliefs(
            old(world)@,
            i as int,
            add_unique(old(world)@.characters[i as int].believed_facts, value@),
        ),
{
    let ghost w0 = world@;
    proof {
        lemma_first_index(fact_views(world.characters@[i as int].believed_facts@), value@);
    }
    let present = crate::world::index_of_str(&world.characters[i].believed_facts, value).is_some();
    if !present {
        let s = own(value);
        push_string(&mut world.characters[i].believed_facts, s);
    }
    assert(world@.characters =~= with_beliefs(
        w0,
        i as int,
        add_unique(w0.characters[i as int].believed_facts, value@),
    ).characters);
    assert(world@ =~= with_beliefs(
        w0,
        i as int,
        add_unique(w0.characters[i as int].believed_facts, value@),
    ));
}

/// Drops a belief of character `i`.
fn drop_belief_of(world: &mut WorldState, i: usize, value: &str)
    requires
        i < old(world).characters.len(),
    ensures
        final(world)@ == with_beliefs(
            old(world)@,
            i as int,
            without(old(world)@.characters[i as int].believed_facts, value@),
        ),
{
    let ghost w0 = world@;
    remove_equal(&mut world.characters[i].believed_facts, value);
    assert(world@.characters =~= with_beliefs(
        w0,
        i as int,
        without(w0.characters[i as int].believed_facts, value@),
    ).characters);
    assert(world@ =~= with_beliefs(
        w0,
        i as int,
        without(w0.characters[i as int].believed_facts, value@),
    ));
}

/// A character created for an unknown relationship subject.
fn placeholder(id: &str) -> (r: crate::world::Character)
    ensures
        r@ == placeholder_character(id@),
{
    let mut emotion: Vec<String> = Vec::new();
    emotion.push(own("neutral"));
    let r = crate::world::Character {
        id: own(id),
        display_name: own(id),
        role: String::new(),
        color_hex: own("#888888"),
        personality: Vec::new(),
        motivations: Vec::new(),
        fears: Vec::new(),
        voice_id: own(id),
        emotion,
        current_goal: None,
        known_facts: Vec::new(),
        believed_facts: Vec::new(),
        relationships: Vec::new(),
        allowed_actions: Vec::new(),
        preferred_speech: None,
        home_location: None,
    };
    assert(r@ =~= placeholder_character(id@));
    r
}

/// Makes character `i` related to `other` on dimension `dim`.
fn touch_relationship_of(world: &mut WorldState, i: usize, other: &str, dim: &str)
    requires
        i < old(world).characters.len(),
    ensures
        final(world)@ == with_relationships(
            old(world)@,
            i as int,
            touch_relationship(old(world)@.characters[i as int].relationships, other@, dim@),
        ),
{
    let ghost w0 = world@;
    let ghost rels = w0.characters[i as int].relationships;
    let n = world.characters[i].relationships.len();
    let mut k: usize = 0;
    while k < n && !str_eq(world.characters[i].relationships[k].other.as_str(), other)
        invariant
            world@ == w0,
            i < world.characters@.len(),
            n == world.characters@[i as int].relationships@.len(),
            rels == w0.characters[i as int].relationships,
            k <= n,
            forall|j: int| 0 <= j < k ==> #[trigger] relationship_others(rels)[j] != other@,
        decreases n - k,
    {
        k += 1;
    }
    proof {
        lemma_first_index(relationship_others(rels), other@);
    }
    let ghost target = touch_relationship(rels, other@, dim@);
    if k < n {
        proof {
            assert(relationship_others(rels)[k as int] == other@);
            lemma_first_index(fact_views(
                world.characters@[i as int].relationships@[k as int].dimensions@,
            ), dim@);
        }
        let present = crate::world::index_of_str(&world.characters[i].relationships[k].dimensions, dim).is_some();
        if !present {
            push_string(&mut world.characters[i].relationships[k].dimensions, own(dim));
        }
        proof {
            assert(first_index(relationship_others(rels), other@) == Some(k as int));
            assert(world@.characters[i as int].relationships =~= target);
        }
    } else {
        let mut dims: Vec<String> = Vec::new();
        dims.push(own(dim));
        let r = Relationship { other: own(other), dimensions: dims };
        assert(r@ =~= (RelationshipView { other: other@, dimensions: seq![dim@] }));
        world.characters[i].relationships.push(r);
        proof {
            assert(world@.characters[i as int].relationships =~= target);
        }
    }
    assert(world@.characters =~= with_relationships(w0, i as int, target).characters);
    assert(world@ =~= with_relationships(w0, i as int, target));
}

/// Applies one persistent change.
fn apply_one(world: &mut WorldState, delta: &mut WorldDelta, pc: &PersistentChange)
    ensures
        (final(world)@, final(delta)@) == apply_change(old(world)@, old(delta)@, pc@),
{
    let ghost w0 = world@;
    let ghost d0 = delta@;
    let op = pc.operation.as_str();
    let t = pc.target.as_str();
    let v = pc.value.as_str();
    assert(char_ids_of(w0) =~= crate::world::character_ids(*world));
    assert(loc_ids_of(w0) =~= crate::world::location_ids(*world));
    assert(thread_ids_of(w0) =~= crate::world::thread_ids(*world));
    if str_eq(op, "add_fact") {
        match world.character_index(t) {
            Some(i) => {
                proof {
                    lemma_first_index(char_ids_of(w0), t@);
                }
                add_belief_to(world, i, v);
                push_string(&mut delta.added_beliefs, joined3(t, ":", v));
            },
            None => {
                world.add_fact(v);
                push_string(&mut delta.added_canonical_facts, own(v));
                assert(world@ =~= WorldView { canonical_facts: add_unique(w0.canonical_facts, v@), ..w0 });
            },
        }
        assert(delta@ =~= apply_change(w0, d0, pc@).1);
    } else if str_eq(op, "add_belief") {
        match world.character_index(t) {
            Some(i) => {
                proof {
                    lemma_first_index(char_ids_of(w0), t@);
                }
                add_belief_to(world, i, v);
                push_string(&mut delta.added_beliefs, joined3(t, ":", v));
                assert(delta@ =~= apply_change(w0, d0, pc@).1);
            },
            None => {},
        }
    } else if str_eq(op, "remove_fact") {
        remove_equal(&mut world.canonical_facts, v);
        assert(world@ =~= WorldView { canonical_facts: without(w0.canonical_facts, v@), ..w0 });
    } else if str_eq(op, "remove_false_belief") {
        match world.character_index(t) {
            Some(i) => {
                proof {
                    lemma_first_index(char_ids_of(w0), t@);
                }
                drop_belief_of(world, i, v);
            },
            None => {},
        }
    } else if str_eq(op, "change_relationship") {
        let i = match world.character_index(t) {
            Some(i) => {
                proof {
                    lemma_first_index(char_ids_of(w0), t@);
                }
                i
            },
            None => {
                proof {
                    lemma_first_index(char_ids_of(w0), t@);
                }
                let c = placeholder(t);
                world.characters.push(c);
                assert(world@ =~= WorldView {
                    characters: w0.characters.push(placeholder_character(t@)),
                    ..w0
                });
                world.characters.len() - 1
            },
        };
        let dim = match &pc.field {
            Some(f) => own(f.as_str()),
            None => own("trust"),
        };
        touch_relationship_of(world, i, v, dim.as_str());
    } else if str_eq(op, "resolve_thread") {
        proof {
            lemma_first_index(thread_ids_of(w0), t@);
        }
        if world.thread_index(t).is_some() {
            remove_threads(&mut world.threads, t);
            push_string(&mut delta.resolved_threads, own(t));
            assert(world@ =~= WorldView { threads: threads_without(w0.threads, t@), ..w0 });
            assert(delta@ =~= apply_change(w0, d0, pc@).1);
        }
    } else if str_eq(op, "create_thread") {
        remove_threads(&mut world.threads, t);
        let th = StoryThread {
            id: own(t),
            summary: own(v),
            characters: Vec::new(),
            locations: Vec::new(),
            age: 0,
            last_episode: None,
            resolutions: Vec::new(),
            may_ignore: true,
            protected: false,
        };
        assert(th@ =~= fresh_thread(t@, v@));
        let ghost mid = thread_views(world.threads@);
        world.threads.push(th);
        assert(thread_views(world.threads@) =~= mid.push(fresh_thread(t@, v@)));
        push_string(&mut delta.new_threads, own(t));
        assert(world@ =~= WorldView {
            threads: threads_without(w0.threads, t@).push(fresh_thread(t@, v@)),
            ..w0
        });
        assert(delta@ =~= apply_change(w0, d0, pc@).1);
    } else if str_eq(op, "change_location_condition") {
        match world.location_index(t) {
            Some(i) => {
                proof {
                    lemma_first_index(loc_ids_of(w0), t@);
                }
                world.locations[i].room_state = own(v);
                push_string(&mut delta.location_changes, joined3(t, ":", v));
                assert(world@.locations =~= w0.locations.update(
                    i as int,
                    crate::world::LocationView { room_state: v@, ..w0.locations[i as int] },
                ));
                assert(world@ =~= apply_change(w0, d0, pc@).0);
                assert(delta@ =~= apply_change(w0, d0, pc@).1);
            },
            None => {},
        }
    } else {
        let mut note = chars_of("unhandled operation '");
        append_str(&mut note, op);
        append_str(&mut note, "' (target=");
        append_str(&mut note, t);
        append_str(&mut note, ")");
        push_string(&mut delta.notes, string_of(&note));
        assert(delta@ =~= apply_change(w0, d0, pc@).1);
    }
}

/// Apply persistent changes to the world, in order, and record what changed.
/// The second result lists the positions of the `change_relationship` changes:
/// their subject character now exists, and the caller adjusts the strength
/// and records the change in the delta.
pub fn apply_persistent_changes(world: &mut WorldState, changes: &Vec<PersistentChange>) -> (r: (
    WorldDelta,
    Vec<usize>,
))
    ensures
        (final(world)@, r.0@) == apply_all(old(world)@, empty_delta(), change_views(changes@)),
        positions_view(r.1@) == relationship_positions(change_views(changes@)),
{
    let mut delta = WorldDelta::new();
    let mut positions: Vec<usize> = Vec::new();
    let ghost w0 = world@;
    let ghost pcs = change_views(changes@);
    let mut i: usize = 0;
    assert(pcs.take(0) =~= Seq::<PersistentChangeView>::empty());
    assert(positions_view(positions@) =~= Seq::<int>::empty());
    while i < changes.len()
        invariant
            i <= changes.len(),
            pcs == change_views(changes@),
            (world@, delta@) == apply_all(w0, empty_delta(), pcs.take(i as int)),
            positions_view(positions@) == relationship_positions(pcs.take(i as int)),
        decreases changes.len() - i,
    {
        assert(pcs.take(i + 1).drop_last() =~= pcs.take(i as int));
        assert(pcs.take(i + 1).last() == changes@[i as int]@);
        apply_one(world, &mut delta, &changes[i]);
        if str_eq(changes[i].operation.as_str(), "change_relationship") {
            let ghost before = positions_view(positions@);
            positions.push(i);
            assert(positions_view(positions@) =~= before.push(i as int));
        }
        i += 1;
    }
    assert(pcs.take(changes.len() as int) =~= pcs);
    (delta, positions)
}

/// A short report of the most recent episode summaries (newest first, at most
/// five) for a model prompt.
pub fn repetition_report(recent: &Vec<String>) -> (r: String)
    ensures
        r@ == repetition_text(fact_views(recent@)),
{
    if recent.len() == 0 {
        return own("No recent episodes.");
    }
    let mut out = chars_of("Recent episodes:\n");
    let n: usize = if recent.len() < 5 {
        recent.len()
    } else {
        5
    };
    let ghost items = fact_views(recent@);
    let mut k: usize = 0;
    while k < n
        invariant
            k <= n,
            n <= recent.len(),
            n == if recent.len() < 5 { recent.len() } else { 5 },
            items == fact_views(recent@),
            recent.len() > 0,
            out@ == "Recent episodes:\n"@ + report_lines(items, k as nat),
        decreases n - k,
    {
        let num = decimal_chars((k + 1) as u64);
        append_chars(&mut out, &num);
        append_str(&mut out, ". ");
        let item = &recent[recent.len() - 1 - k];
        append_str(&mut out, item.as_str());
        append_str(&mut out, "\n");
        assert(out@ =~= "Recent episodes:\n"@ + report_lines(items, (k + 1) as nat));
        k += 1;
    }
    string_of(&out)
}

/// The numbered lines for the `k` newest entries of `items`.
pub open spec fn report_lines(items: Seq<Seq<char>>, k: nat) -> Seq<char>
    decreases k,
{
    if k == 0 {
        seq![]
    } else {
        report_lines(items, (k - 1) as nat) + crate::text::decimal(k) + ". "@ + items[items.len()
            - k] + "\n"@
    }
}

/// The repetition report for a list of summaries, oldest first.
pub open spec fn repetition_text(items: Seq<Seq<char>>) -> Seq<char> {
    if items.len() == 0 {
        "No recent episodes."@
    } else {
        "Recent episodes:\n"@ + report_lines(
            items,
            if items.len() < 5 {
                items.len()
            } else {
                5
            },
        )
    }
}

// ---------------------------------------------------------------------------
// Laws
// ---------------------------------------------------------------------------

proof fn lemma_threads_without(ts: Seq<ThreadView>, id: Seq<char>)
    ensures
        forall|i: int|
            0 <= i < threads_without(ts, id).len() ==> (#[trigger] threads_without(ts, id)[i]).id
                != id,
        forall|i: int|
            0 <= i < threads_without(ts, id).len() ==> ts.contains(
                #[trigger] threads_without(ts, id)[i],
            ),
    decreases ts.len(),
{
    if ts.len() > 0 {
        lemma_threads_without(ts.drop_last(), id);
        let r = threads_without(ts.drop_last(), id);
        assert forall|i: int| 0 <= i < r.len() implies ts.contains(#[trigger] r[i]) by {
            let k = choose|k: int| 0 <= k < ts.drop_last().len() && ts.drop_last()[k] == r[i];
            assert(ts[k] == r[i]);
        }
        if ts.last().id != id {
            assert forall|i: int| 0 <= i < r.push(ts.last()).len() implies ts.contains(
                #[trigger] r.push(ts.last())[i],
            ) by {
                if i == r.len() {
                    assert(ts[ts.len() - 1] == ts.last());
                } else {
                    assert(r.push(ts.last())[i] == r[i]);
                }
            }
        }
    }
}

proof fn lemma_without(v: Seq<Seq<char>>, x: Seq<char>)
    ensures
        !without(v, x).contains(x),
        forall|y: Seq<char>| y != x && v.contains(y) ==> without(v, x).contains(y),
    decreases v.len(),
{
    if v.len() > 0 {
        lemma_without(v.drop_last(), x);
        let r = without(v.drop_last(), x);
        assert forall|y: Seq<char>| y != x && v.contains(y) implies without(v, x).contains(y) by {
            let k = choose|k: int| 0 <= k < v.len() && v[k] == y;
            if k < v.len() - 1 {
                assert(v.drop_last()[k] == y);
                assert(v.drop_last().contains(y));
                assert(r.contains(y));
                if v.last() != x {
                    let j = choose|j: int| 0 <= j < r.len() && r[j] == y;
                    assert(r.push(v.last())[j] == y);
                }
            } else {
                assert(r.push(v.last())[r.len() as int] == y);
            }
        }
        if v.last() != x {
            if r.push(v.last()).contains(x) {
                let j = choose|j: int| 0 <= j < r.len() + 1 && r.push(v.last())[j] == x;
                assert(r.push(v.last())[j] == r[j]);
            }
        }
    }
}

proof fn lemma_operation_names()
    ensures
        "create_thread"@ != "add_fact"@,
        "create_thread"@ != "add_belief"@,
        "create_thread"@ != "remove_fact"@,
        "create_thread"@ != "remove_false_belief"@,
        "create_thread"@ != "change_relationship"@,
        "create_thread"@ != "resolve_thread"@,
        "resolve_thread"@ != "add_fact"@,
        "resolve_thread"@ != "add_belief"@,
        "resolve_thread"@ != "remove_fact"@,
        "resolve_thread"@ != "remove_false_belief"@,
        "resolve_thread"@ != "change_relationship"@,
        "remove_fact"@ != "add_fact"@,
        "remove_fact"@ != "add_belief"@,
        "remove_false_belief"@ != "add_fact"@,
        "remove_false_belief"@ != "add_belief"@,
        "remove_false_belief"@ != "remove_fact"@,
{
    reveal_strlit("create_thread");
    reveal_strlit("add_fact");
    reveal_strlit("add_belief");
    reveal_strlit("remove_fact");
    reveal_strlit("remove_false_belief");
    reveal_strlit("change_relationship");
    reveal_strlit("resolve_thread");
    assert("create_thread"@[1] != "change_relationship"@[1]);
    assert("resolve_thread"@[0] != "remove_fact"@[2]);
    assert("resolve_thread"@.len() != "remove_false_belief"@.len());
    assert("remove_fact"@[0] != "add_fact"@[0]);
    assert("remove_fact"@[0] != "add_belief"@[0]);
    assert("remove_false_belief"@.len() == 19 && "add_fact"@.len() == 8 && "add_belief"@.len() == 10
        && "remove_fact"@.len() == 11);
}

/// Creating a thread leaves exactly one thread with its id: the new one, at
/// the end, with the given summary.
pub proof fn created_thread_is_unique(w: WorldView, d: DeltaView, pc: PersistentChangeView)
    requires
        pc.operation == "create_thread"@,
    ensures
        apply_change(w, d, pc).0.threads.last() == fresh_thread(pc.target, pc.value),
        forall|i: int|
            0 <= i < apply_change(w, d, pc).0.threads.len() - 1 ==> (
            #[trigger] apply_change(w, d, pc).0.threads[i]).id != pc.target,
        apply_change(w, d, pc).1.new_threads == d.new_threads.push(pc.target),
{
    lemma_operation_names();
    lemma_threads_without(w.threads, pc.target);
    let kept = threads_without(w.threads, pc.target);
    assert forall|i: int| 0 <= i < kept.len() implies (#[trigger] kept.push(
        fresh_thread(pc.target, pc.value),
    )[i]).id != pc.target by {
        assert(kept.push(fresh_thread(pc.target, pc.value))[i] == kept[i]);
    }
}

/// Resolving a thread removes every thread with its id; resolving an unknown
/// thread changes nothing.
pub proof fn resolved_thread_is_gone(w: WorldView, d: DeltaView, pc: PersistentChangeView)
    requires
        pc.operation == "resolve_thread"@,
    ensures
        !thread_ids_of(apply_change(w, d, pc).0).contains(pc.target),
        !thread_ids_of(w).contains(pc.target) ==> apply_change(w, d, pc) == (w, d),
{
    lemma_operation_names();
    let w2 = apply_change(w, d, pc).0;
    if thread_ids_of(w).contains(pc.target) {
        lemma_threads_without(w.threads, pc.target);
        if thread_ids_of(w2).contains(pc.target) {
            let k = choose|k: int| 0 <= k < thread_ids_of(w2).len() && thread_ids_of(w2)[k]
                == pc.target;
            assert(w2.threads[k].id == pc.target);
        }
    }
}

/// Removing a canonical fact removes every copy of it and keeps every other
/// fact.
pub proof fn removed_fact_is_gone(w: WorldView, d: DeltaView, pc: PersistentChangeView)
    requires
        pc.operation == "remove_fact"@,
    ensures
        !apply_change(w, d, pc).0.canonical_facts.contains(pc.value),
        forall|f: Seq<char>|
            f != pc.value && w.canonical_facts.contains(f) ==> apply_change(
                w,
                d,
                pc,
            ).0.canonical_facts.contains(f),
{
    lemma_operation_names();
    lemma_without(w.canonical_facts, pc.value);
}

proof fn lemma_without_keeps_only(v: Seq<Seq<char>>, x: Seq<char>)
    ensures
        forall|y: Seq<char>| without(v, x).contains(y) ==> v.contains(y),
    decreases v.len(),
{
    if v.len() > 0 {
        lemma_without_keeps_only(v.drop_last(), x);
        let r = without(v.drop_last(), x);
        assert forall|y: Seq<char>| without(v, x).contains(y) implies v.contains(y) by {
            if r.contains(y) {
                assert(v.drop_last().contains(y));
                let k = choose|k: int| 0 <= k < v.drop_last().len() && v.drop_last()[k] == y;
                assert(v[k] == y);
            } else {
                assert(v.last() != x);
                let j = choose|j: int| 0 <= j < r.len() + 1 && r.push(v.last())[j] == y;
                if j < r.len() {
                    assert(r[j] == y);
                }
                assert(v[v.len() - 1] == y);
            }
        }
    }
}

/// Removing a false belief of a known character takes every copy of it out
/// of the beliefs of the first character with that id, keeps all of their
/// other beliefs and adds none; every other character stays as it was.
pub proof fn removed_belief_is_gone(w: WorldView, d: DeltaView, pc: PersistentChangeView, i: int)
    requires
        pc.operation == "remove_false_belief"@,
        0 <= i < w.characters.len(),
        w.characters[i].id == pc.target,
        forall|j: int| 0 <= j < i ==> w.characters[j].id != pc.target,
    ensures
        apply_change(w, d, pc).0.characters.len() == w.characters.len(),
        !apply_change(w, d, pc).0.characters[i].believed_facts.contains(pc.value),
        forall|f: Seq<char>|
            f != pc.value && w.characters[i].believed_facts.contains(f) ==> apply_change(
                w,
                d,
                pc,
            ).0.characters[i].believed_facts.contains(f),
        forall|f: Seq<char>|
            apply_change(w, d, pc).0.characters[i].believed_facts.contains(f)
                ==> w.characters[i].believed_facts.contains(f),
        forall|j: int|
            0 <= j < w.characters.len() && j != i ==> apply_change(w, d, pc).0.characters[j]
                == w.characters[j],
        apply_change(w, d, pc).0.canonical_facts == w.canonical_facts,
        apply_change(w, d, pc).1 == d,
{
    lemma_operation_names();
    let ids = char_ids_of(w);
    lemma_first_index(ids, pc.target);
    assert(ids[i] == pc.target);
    match first_index(ids, pc.target) {
        Some(k) => {
            if k < i {
                assert(w.characters[k].id == ids[k]);
            }
            if k > i {
                assert(ids[i] != pc.target);
            }
            assert(k == i);
        },
        None => {
            assert(ids.contains(pc.target));
        },
    }
    lemma_without(w.characters[i].believed_facts, pc.value);
    lemma_without_keeps_only(w.characters[i].believed_facts, pc.value);
}

/// Removing a false belief of a character the world does not know changes
/// nothing.
pub proof fn unknown_believer_changes_nothing(w: WorldView, d: DeltaView, pc: PersistentChangeView)
    requires
        pc.operation == "remove_false_belief"@,
        forall|j: int| 0 <= j < w.characters.len() ==> w.characters[j].id != pc.target,
    ensures
        apply_change(w, d, pc) == (w, d),
{
    lemma_operation_names();
    let ids = char_ids_of(w);
    lemma_first_index(ids, pc.target);
    if first_index(ids, pc.target) is Some {
        let k = first_index(ids, pc.target)->Some_0;
        assert(w.characters[k].id == ids[k]);
    }
}

} // verus!

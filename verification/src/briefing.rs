//! The compact world digest a model author is briefed with: the active room,
//! the characters on stage and the running story threads.
use vstd::prelude::*;

use crate::protocol::{copy_opt, copy_strs, opt_view, DigestCharacter, DigestLocation};
use crate::text::{chars_of, string_of, string_views};
use crate::world::{
    character_ids, fact_views, first_index, lemma_first_index, location_ids, CharacterView,
    WorldState, WorldView,
};

verus! {

/// A story thread as shown to a model. Its importance is a measured weight
/// the caller attaches.
#[derive(Debug, Clone, PartialEq, Eq)]
pub struct DigestThread {
    pub id: String,
    pub summary: String,
}

/// The digest of the world for one episode.
#[derive(Debug)]
pub struct WorldDigest {
    pub location: DigestLocation,
    pub characters: Vec<DigestCharacter>,
    pub threads: Vec<DigestThread>,
}

/// A digest character by content.
pub struct DigestCharacterView {
    pub id: Seq<char>,
    pub role: Seq<char>,
    pub mood: Seq<char>,
    pub goal: Option<Seq<char>>,
    pub knows: Seq<Seq<char>>,
    pub does_not_know: Seq<Seq<char>>,
}

/// The value of a digest: the location's id, description and interactions,
/// the characters, and each thread's id and summary.
pub struct WorldDigestView {
    pub location: (Seq<char>, Seq<char>, Seq<Seq<char>>),
    pub characters: Seq<DigestCharacterView>,
    pub threads: Seq<(Seq<char>, Seq<char>)>,
}

impl View for WorldDigest {
    type V = WorldDigestView;

    open spec fn view(&self) -> WorldDigestView {
        WorldDigestView {
            location: (
                self.location.id@,
                self.location.description@,
                string_views(self.location.available_interactions@),
            ),
            characters: Seq::new(
                self.characters@.len(),
                |i: int|
                    DigestCharacterView {
                        id: self.characters@[i].id@,
                        role: self.characters@[i].role@,
                        mood: self.characters@[i].mood@,
                        goal: opt_view(self.characters@[i].goal),
                        knows: string_views(self.characters@[i].knows@),
                        does_not_know: string_views(self.characters@[i].does_not_know@),
                    },
            ),
            threads: Seq::new(
                self.threads@.len(),
                |i: int| (self.threads@[i].id@, self.threads@[i].summary@),
            ),
        }
    }
}

/// How a character is shown: its first emotion is its mood (`neutral` when
/// it has none), and its beliefs are what it does not actually know.
pub open spec fn digest_of(c: CharacterView) -> DigestCharacterView {
    DigestCharacterView {
        id: c.id,
        role: c.role,
        mood: if c.emotion.len() > 0 {
            c.emotion[0]
        } else {
            "neutral"@
        },
        goal: c.current_goal,
        knows: c.known_facts,
        does_not_know: c.believed_facts,
    }
}

/// The characters of `ids` that exist, in the order named.
pub open spec fn digest_characters(w: WorldView, ids: Seq<Seq<char>>) -> Seq<DigestCharacterView>
    decreases ids.len(),
{
    if ids.len() == 0 {
        seq![]
    } else {
        let cids = Seq::new(w.characters.len(), |i: int| w.characters[i].id);
        let rest = digest_characters(w, ids.drop_last());
        match first_index(cids, ids.last()) {
            Some(i) => rest.push(digest_of(w.characters[i])),
            None => rest,
        }
    }
}

/// The digest of `w` for an episode at `location_id` with `ids` on stage; an
/// unknown location is shown by its id alone.
pub open spec fn world_digest(w: WorldView, location_id: Seq<char>, ids: Seq<Seq<char>>) -> WorldDigestView {
    let lids = Seq::new(w.locations.len(), |i: int| w.locations[i].id);
    WorldDigestView {
        location: match first_index(lids, location_id) {
            Some(i) => (w.locations[i].id, w.locations[i].description, w.locations[i].available_interactions),
            None => (location_id, seq![], seq![]),
        },
        characters: digest_characters(w, ids),
        threads: Seq::new(w.threads.len(), |i: int| (w.threads[i].id, w.threads[i].summary)),
    }
}

fn text(s: &str) -> (r: String)
    ensures
        r@ == s@,
{
    string_of(&chars_of(s))
}

fn digest_character(w: &WorldState, i: usize) -> (r: DigestCharacter)
    requires
        i < w.characters@.len(),
    ensures
        ({
            let v = digest_of(w.characters@[i as int]@);
            &&& r.id@ == v.id
            &&& r.role@ == v.role
            &&& r.mood@ == v.mood
            &&& opt_view(r.goal) == v.goal
            &&& string_views(r.knows@) == v.knows
            &&& string_views(r.does_not_know@) == v.does_not_know
        }),
{
    let c = &w.characters[i];
    let mood = if c.emotion.len() > 0 {
        text(c.emotion[0].as_str())
    } else {
        text("neutral")
    };
    let r = DigestCharacter {
        id: text(c.id.as_str()),
        role: text(c.role.as_str()),
        mood,
        goal: copy_opt(&c.current_goal),
        knows: copy_strs(&c.known_facts),
        does_not_know: copy_strs(&c.believed_facts),
    };
    assert(string_views(c.known_facts@) =~= fact_views(c.known_facts@));
    assert(string_views(c.believed_facts@) =~= fact_views(c.believed_facts@));
    r
}

impl WorldDigest {
    /// The digest for an episode at `location_id` with `characters` on stage.
    pub fn for_episode(world: &WorldState, location_id: &str, characters: &[String]) -> (r:
        WorldDigest)
        ensures
            r@ == world_digest(world@, location_id@, string_views(characters@)),
    {
        let ghost w = world@;
        assert(Seq::new(w.locations.len(), |i: int| w.locations[i].id) =~= location_ids(*world));
        assert(Seq::new(w.characters.len(), |i: int| w.characters[i].id) =~= character_ids(*world));
        proof {
            lemma_first_index(location_ids(*world), location_id@);
        }
        let location = match world.location_index(location_id) {
            Some(i) => {
                let l = &world.locations[i];
                let r = DigestLocation {
                    id: text(l.id.as_str()),
                    description: text(l.description.as_str()),
                    available_interactions: copy_strs(&l.available_interactions),
                };
                assert(string_views(l.available_interactions@) =~= fact_views(
                    l.available_interactions@,
                ));
                r
            },
            None => DigestLocation {
                id: text(location_id),
                description: String::new(),
                available_interactions: Vec::new(),
            },
        };
        let mut cs: Vec<DigestCharacter> = Vec::new();
        let mut k: usize = 0;
        while k < characters.len()
            invariant
                k <= characters@.len(),
                w == world@,
                Seq::new(w.characters.len(), |i: int| w.characters[i].id) == character_ids(*world),
                Seq::new(
                    cs@.len(),
                    |i: int|
                        DigestCharacterView {
                            id: cs@[i].id@,
                            role: cs@[i].role@,
                            mood: cs@[i].mood@,
                            goal: opt_view(cs@[i].goal),
                            knows: string_views(cs@[i].knows@),
                            does_not_know: string_views(cs@[i].does_not_know@),
                        },
                ) == digest_characters(w, string_views(characters@).take(k as int)),
            decreases characters@.len() - k,
        {
            let ghost before = cs@;
            let ghost ids = string_views(characters@).take(k as int + 1);
            assert(ids.drop_last() =~= string_views(characters@).take(k as int));
            assert(ids.last() == characters@[k as int]@);
            proof {
                lemma_first_index(character_ids(*world), characters@[k as int]@);
            }
            match world.character_index(characters[k].as_str()) {
                Some(i) => {
                    let d = digest_character(world, i);
                    cs.push(d);
                    assert(w.characters[i as int] == world.characters@[i as int]@);
                    assert(Seq::new(
                        cs@.len(),
                        |m: int|
                            DigestCharacterView {
                                id: cs@[m].id@,
                                role: cs@[m].role@,
                                mood: cs@[m].mood@,
                                goal: opt_view(cs@[m].goal),
                                knows: string_views(cs@[m].knows@),
                                does_not_know: string_views(cs@[m].does_not_know@),
                            },
                    ) =~= digest_characters(w, ids.drop_last()).push(
                        digest_of(w.characters[i as int]),
                    ));
                },
                None => {
                    assert(cs@ == before);
                },
            }
            k += 1;
        }
        assert(string_views(characters@).take(characters@.len() as int) =~= string_views(
            characters@,
        ));
        let mut ts: Vec<DigestThread> = Vec::new();
        let mut j: usize = 0;
        while j < world.threads.len()
            invariant
                j <= world.threads@.len(),
                w == world@,
                ts@.len() == j,
                forall|m: int|
                    0 <= m < j ==> (#[trigger] ts@[m]).id@ == world.threads@[m].id@
                        && ts@[m].summary@ == world.threads@[m].summary@,
            decreases world.threads@.len() - j,
        {
            ts.push(
                DigestThread {
                    id: text(world.threads[j].id.as_str()),
                    summary: text(world.threads[j].summary.as_str()),
                },
            );
            j += 1;
        }
        let r = WorldDigest { location, characters: cs, threads: ts };
        proof {
            match first_index(location_ids(*world), location_id@) {
                Some(i) => {
                    assert(w.locations[i] == world.locations@[i]@);
                },
                None => {},
            }
        }
        assert(r@.threads =~= world_digest(world@, location_id@, string_views(characters@)).threads);
        assert(r@.location == world_digest(world@, location_id@, string_views(characters@)).location);
        r
    }
}

} // verus!

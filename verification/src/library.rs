//! The motion library: authored clips filed by review status and semantic,
//! and the content keys that identify a generation request.
use vstd::prelude::*;
use vstd::utf8::encode_utf8;

use crate::digest::{blake3_hex, blake3_hex_of, is_lower_hex, le_bytes, push_bytes, push_le_bytes};
use crate::authored::{insert_sorted, strictly_sorted};
use crate::text::{chars_of, slice_chars, str_views, string_of, string_views, strings_of, views};
use crate::world::{first_index, lemma_first_index};

verus! {

/// Where a generated clip stands in review.
#[derive(Debug, Clone, Copy, PartialEq, Eq, Structural)]
pub enum ClipApproval {
    Pending,
    Approved,
    Rejected,
}

/// Where a motion segment of a compiled plan comes from.
#[derive(Debug, Clone, Copy, PartialEq, Eq, Structural)]
pub enum MotionSource {
    Native,
    Procedural,
    ApprovedLibrary,
    EpisodeKimodo,
    GeneratedTransition,
}

/// The manifest written beside each generated clip. Paths are kept as text;
/// the caller resolves relative paths against the manifest's directory.
#[derive(Debug)]
pub struct MotionManifest {
    pub schema_version: u32,
    pub semantic: String,
    pub cache_key: String,
    pub source_revision: String,
    pub checkpoint: String,
    pub prompt: String,
    pub seed: u64,
    pub approval: ClipApproval,
    pub clip: String,
    pub preview: Option<String>,
}

/// The value of a manifest.
pub struct ManifestView {
    pub schema_version: u32,
    pub semantic: Seq<char>,
    pub cache_key: Seq<char>,
    pub source_revision: Seq<char>,
    pub checkpoint: Seq<char>,
    pub prompt: Seq<char>,
    pub seed: u64,
    pub approval: ClipApproval,
    pub clip: Seq<char>,
    pub preview: Option<Seq<char>>,
}

impl View for MotionManifest {
    type V = ManifestView;

    open spec fn view(&self) -> ManifestView {
        ManifestView {
            schema_version: self.schema_version,
            semantic: self.semantic@,
            cache_key: self.cache_key@,
            source_revision: self.source_revision@,
            checkpoint: self.checkpoint@,
            prompt: self.prompt@,
            seed: self.seed,
            approval: self.approval,
            clip: self.clip@,
            preview: match self.preview {
                Some(p) => Some(p@),
                None => None,
            },
        }
    }
}

/// The views of a list of manifests.
pub open spec fn manifest_views(v: Seq<MotionManifest>) -> Seq<ManifestView> {
    Seq::new(v.len(), |i: int| v[i]@)
}

/// The clips of one semantic on one shelf, in the order they were filed.
#[derive(Debug)]
struct Group {
    semantic: String,
    clips: Vec<MotionManifest>,
}

/// The semantics of a shelf's groups, in order.
spec fn group_keys(groups: Seq<Group>) -> Seq<Seq<char>> {
    Seq::new(groups.len(), |i: int| groups[i].semantic@)
}

/// What a shelf holds for `semantic`: the first group of that semantic.
spec fn shelf_get(groups: Seq<Group>, semantic: Seq<char>) -> Seq<ManifestView> {
    match first_index(group_keys(groups), semantic) {
        Some(i) => manifest_views(groups[i].clips@),
        None => Seq::empty(),
    }
}

proof fn lemma_no_groups_no_clips(groups: Seq<Group>)
    requires
        groups.len() == 0,
    ensures
        forall|s: Seq<char>| shelf_get(groups, s) == Seq::<ManifestView>::empty(),
{
    assert(group_keys(groups) =~= Seq::<Seq<char>>::empty());
}

/// Clips by review status, each status keyed by semantic.
#[derive(Debug)]
pub struct MotionLibrary {
    approved: Vec<Group>,
    pending: Vec<Group>,
    rejected: Vec<Group>,
}

impl MotionLibrary {
    /// The clips filed under `approval` for `semantic`, in filing order.
    pub closed spec fn shelf(self, approval: ClipApproval, semantic: Seq<char>) -> Seq<
        ManifestView,
    > {
        match approval {
            ClipApproval::Approved => shelf_get(self.approved@, semantic),
            ClipApproval::Pending => shelf_get(self.pending@, semantic),
            ClipApproval::Rejected => shelf_get(self.rejected@, semantic),
        }
    }

    /// Every clip on a shelf has that shelf's review status and semantic.
    pub open spec fn shelves_match(self) -> bool {
        forall|a: ClipApproval, s: Seq<char>, i: int|
            0 <= i < self.shelf(a, s).len() ==> (#[trigger] self.shelf(a, s)[i]).approval == a
                && self.shelf(a, s)[i].semantic == s
    }

    /// Every library keeps its shelves matching.
    #[verifier::type_invariant]
    spec fn shelves_kept(self) -> bool {
        self.shelves_match()
    }

    /// An empty library.
    pub fn new() -> (r: Self)
        ensures
            forall|a: ClipApproval, s: Seq<char>| r.shelf(a, s) == Seq::<ManifestView>::empty(),
            r.shelves_match(),
    {
        let approved: Vec<Group> = Vec::new();
        let pending: Vec<Group> = Vec::new();
        let rejected: Vec<Group> = Vec::new();
        proof {
            lemma_no_groups_no_clips(approved@);
            lemma_no_groups_no_clips(pending@);
            lemma_no_groups_no_clips(rejected@);
        }
        MotionLibrary { approved, pending, rejected }
    }

    /// File a manifest on the shelf of its approval status, after the clips
    /// already filed for its semantic.
    pub fn insert(&mut self, manifest: MotionManifest)
        ensures
            forall|a: ClipApproval, s: Seq<char>|
                #![trigger final(self).shelf(a, s)]
                final(self).shelf(a, s) == if a == manifest.approval && s == manifest.semantic@ {
                    old(self).shelf(a, s).push(manifest@)
                } else {
                    old(self).shelf(a, s)
                },
            final(self).shelves_match(),
    {
        proof {
            use_type_invariant(&*self);
        }
        let ghost m = manifest@;
        let ghost before = *self;
        let mut taken = MotionLibrary::new();
        std::mem::swap(&mut taken, self);
        let MotionLibrary { mut approved, mut pending, mut rejected } = taken;
        match manifest.approval {
            ClipApproval::Approved => file_into(&mut approved, manifest),
            ClipApproval::Pending => file_into(&mut pending, manifest),
            ClipApproval::Rejected => file_into(&mut rejected, manifest),
        }
        let ghost after = MotionLibrary { approved, pending, rejected };
        proof {
            assert forall|a: ClipApproval, s: Seq<char>|
                #![trigger after.shelf(a, s)]
                after.shelf(a, s) == if a == m.approval && s == m.semantic {
                    before.shelf(a, s).push(m)
                } else {
                    before.shelf(a, s)
                } by {}
            assert forall|a: ClipApproval, s: Seq<char>, i: int|
                0 <= i < after.shelf(a, s).len() implies (#[trigger] after.shelf(a, s)[i]).approval
                == a && after.shelf(a, s)[i].semantic == s by {
                if a == m.approval && s == m.semantic && i == before.shelf(a, s).len() {
                } else {
                    assert(after.shelf(a, s)[i] == before.shelf(a, s)[i]);
                }
            }
        }
        *self = MotionLibrary { approved, pending, rejected };
    }

    /// The approved clips for a semantic.
    pub fn approved(&self, semantic: &str) -> (r: &[MotionManifest])
        ensures
            manifest_views(r@) == self.shelf(ClipApproval::Approved, semantic@),
            forall|i: int|
                0 <= i < r@.len() ==> (#[trigger] r@[i]).approval == ClipApproval::Approved
                    && r@[i].semantic@ == semantic@,
    {
        proof {
            use_type_invariant(self);
        }
        let r = shelf_lookup(&self.approved, semantic);
        assert forall|i: int| 0 <= i < r@.len() implies (#[trigger] r@[i]).approval
            == ClipApproval::Approved && r@[i].semantic@ == semantic@ by {
            assert(self.shelf(ClipApproval::Approved, semantic@)[i] == manifest_views(r@)[i]);
        }
        r
    }

    /// The clips awaiting review for a semantic.
    pub fn pending(&self, semantic: &str) -> (r: &[MotionManifest])
        ensures
            manifest_views(r@) == self.shelf(ClipApproval::Pending, semantic@),
            forall|i: int|
                0 <= i < r@.len() ==> (#[trigger] r@[i]).approval == ClipApproval::Pending
                    && r@[i].semantic@ == semantic@,
    {
        proof {
            use_type_invariant(self);
        }
        let r = shelf_lookup(&self.pending, semantic);
        assert forall|i: int| 0 <= i < r@.len() implies (#[trigger] r@[i]).approval
            == ClipApproval::Pending && r@[i].semantic@ == semantic@ by {
            assert(self.shelf(ClipApproval::Pending, semantic@)[i] == manifest_views(r@)[i]);
        }
        r
    }

    /// The rejected clips for a semantic.
    pub fn rejected(&self, semantic: &str) -> (r: &[MotionManifest])
        ensures
            manifest_views(r@) == self.shelf(ClipApproval::Rejected, semantic@),
            forall|i: int|
                0 <= i < r@.len() ==> (#[trigger] r@[i]).approval == ClipApproval::Rejected
                    && r@[i].semantic@ == semantic@,
    {
        proof {
            use_type_invariant(self);
        }
        let r = shelf_lookup(&self.rejected, semantic);
        assert forall|i: int| 0 <= i < r@.len() implies (#[trigger] r@[i]).approval
            == ClipApproval::Rejected && r@[i].semantic@ == semantic@ by {
            assert(self.shelf(ClipApproval::Rejected, semantic@)[i] == manifest_views(r@)[i]);
        }
        r
    }
}

impl Default for MotionLibrary {
    fn default() -> (r: Self)
        ensures
            forall|a: ClipApproval, s: Seq<char>| r.shelf(a, s) == Seq::<ManifestView>::empty(),
            r.shelves_match(),
    {
        MotionLibrary::new()
    }
}

/// Where shelves match (which every library value keeps as its type
/// invariant: an empty library starts so and filing keeps it so), every clip
/// on a shelf has that shelf's review status and semantic, so no clip is both
/// pending and approved, or filed under two statuses.
pub proof fn shelved_clips_match_their_shelf(lib: MotionLibrary, a: ClipApproval, b: ClipApproval, s: Seq<char>)
    requires
        lib.shelves_match(),
    ensures
        forall|i: int|
            0 <= i < lib.shelf(a, s).len() ==> (#[trigger] lib.shelf(a, s)[i]).approval == a
                && lib.shelf(a, s)[i].semantic == s,
        a != b ==> forall|i: int, j: int|
            0 <= i < lib.shelf(a, s).len() && 0 <= j < lib.shelf(b, s).len() ==> #[trigger] lib.shelf(
                a,
                s,
            )[i] != #[trigger] lib.shelf(b, s)[j],
{
    assert forall|i: int, j: int|
        0 <= i < lib.shelf(a, s).len() && 0 <= j < lib.shelf(b, s).len() && a != b implies #[trigger] lib.shelf(
        a,
        s,
    )[i] != #[trigger] lib.shelf(b, s)[j] by {
        assert(lib.shelf(a, s)[i].approval == a);
        assert(lib.shelf(b, s)[j].approval == b);
    }
}

/// The position of the first group of `semantic`.
fn group_index(groups: &Vec<Group>, semantic: &str) -> (r: Option<usize>)
    ensures
        match r {
            Some(i) => i < groups@.len() && first_index(group_keys(groups@), semantic@) == Some(
                i as int,
            ),
            None => first_index(group_keys(groups@), semantic@) is None,
        },
{
    let mut i: usize = 0;
    while i < groups.len()
        invariant
            i <= groups@.len(),
            forall|j: int| 0 <= j < i ==> #[trigger] group_keys(groups@)[j] != semantic@,
        decreases groups@.len() - i,
    {
        if crate::text::str_eq(groups[i].semantic.as_str(), semantic) {
            proof {
                assert(group_keys(groups@)[i as int] == semantic@);
                lemma_first_index(group_keys(groups@), semantic@);
            }
            return Some(i);
        }
        i += 1;
    }
    proof {
        lemma_first_index(group_keys(groups@), semantic@);
    }
    None
}

fn shelf_lookup<'a>(groups: &'a Vec<Group>, semantic: &str) -> (r: &'a [MotionManifest])
    ensures
        manifest_views(r@) == shelf_get(groups@, semantic@),
{
    match group_index(groups, semantic) {
        Some(i) => groups[i].clips.as_slice(),
        None => {
            let empty: &[MotionManifest] = &[];
            assert(manifest_views(empty@) =~= Seq::<ManifestView>::empty());
            empty
        },
    }
}

fn file_into(groups: &mut Vec<Group>, manifest: MotionManifest)
    ensures
        forall|s: Seq<char>|
            #![trigger shelf_get(final(groups)@, s)]
            shelf_get(final(groups)@, s) == if s == manifest.semantic@ {
                shelf_get(old(groups)@, s).push(manifest@)
            } else {
                shelf_get(old(groups)@, s)
            },
{
    let ghost m = manifest@;
    let ghost old_keys = group_keys(groups@);
    match group_index(groups, manifest.semantic.as_str()) {
        Some(i) => {
            let mut g = groups.remove(i);
            g.clips.push(manifest);
            groups.insert(i, g);
            proof {
                assert(group_keys(groups@) =~= old_keys);
                lemma_first_index(old_keys, m.semantic);
                assert(old_keys[i as int] == m.semantic);
                assert forall|s: Seq<char>|
                    #![trigger shelf_get(groups@, s)]
                    shelf_get(groups@, s) == if s == m.semantic {
                        shelf_get(old(groups)@, s).push(m)
                    } else {
                        shelf_get(old(groups)@, s)
                    } by {
                    lemma_first_index(old_keys, s);
                    match first_index(old_keys, s) {
                        Some(k) => {
                            if k != i {
                                assert(groups@[k] == old(groups)@[k]);
                            }
                            if k == i {
                                assert(manifest_views(groups@[i as int].clips@) =~= manifest_views(
                                    old(groups)@[i as int].clips@,
                                ).push(m));
                            }
                        },
                        None => {},
                    }
                }
            }
        },
        None => {
            let mut clips: Vec<MotionManifest> = Vec::new();
            let semantic = crate::text::string_of(&crate::text::chars_of(manifest.semantic.as_str()));
            clips.push(manifest);
            groups.push(Group { semantic, clips });
            proof {
                assert(group_keys(groups@) =~= old_keys.push(m.semantic));
                assert forall|s: Seq<char>|
                    #![trigger shelf_get(groups@, s)]
                    shelf_get(groups@, s) == if s == m.semantic {
                        shelf_get(old(groups)@, s).push(m)
                    } else {
                        shelf_get(old(groups)@, s)
                    } by {
                    lemma_first_index(old_keys, s);
                    lemma_first_index(old_keys.push(m.semantic), s);
                    match first_index(old_keys, s) {
                        Some(k) => {
                            assert(old_keys.push(m.semantic)[k] == s);
                        },
                        None => {
                            if s == m.semantic {
                                assert(old_keys.push(m.semantic)[old_keys.len() as int] == s);
                            }
                        },
                    }
                    if s == m.semantic {
                        assert(manifest_views(groups@[old_keys.len() as int].clips@) =~= seq![m]);
                        assert(Seq::<ManifestView>::empty().push(m) =~= seq![m]);
                    }
                }
            }
        },
    }
}

/// The bytes a cache key hashes: each part as its UTF-8 byte length (eight
/// bytes, least significant first) followed by its UTF-8 bytes.
pub open spec fn key_frame(parts: Seq<Seq<char>>) -> Seq<u8>
    decreases parts.len(),
{
    if parts.len() == 0 {
        Seq::empty()
    } else {
        key_frame(parts.drop_last()) + le_bytes(encode_utf8(parts.last()).len(), 8) + encode_utf8(
            parts.last(),
        )
    }
}

/// The content key of a generation request: the BLAKE3 digest, in hex, of
/// its parts, each framed by its length.
pub fn cache_key(parts: &[&str]) -> (r: String)
    ensures
        r@ == blake3_hex(key_frame(str_views(parts@))),
        r@.len() == 64,
        forall|i: int| 0 <= i < 64 ==> is_lower_hex(#[trigger] r@[i]),
{
    let mut frame: Vec<u8> = Vec::new();
    let mut i: usize = 0;
    while i < parts.len()
        invariant
            i <= parts@.len(),
            frame@ == key_frame(str_views(parts@).take(i as int)),
        decreases parts@.len() - i,
    {
        let bytes = parts[i].as_bytes();
        let ghost before = frame@;
        push_le_bytes(&mut frame, bytes.len() as u64, 8);
        push_bytes(&mut frame, bytes);
        proof {
            let p = str_views(parts@).take(i as int + 1);
            assert(p.drop_last() =~= str_views(parts@).take(i as int));
            assert(p.last() == parts@[i as int]@);
        }
        i += 1;
    }
    assert(str_views(parts@).take(parts@.len() as int) =~= str_views(parts@));
    blake3_hex_of(frame.as_slice())
}


/// The semantic an unresolved entry `actor:semantic` names: what follows its
/// first `:`, if it has one.
pub open spec fn semantic_of_entry(e: Seq<char>) -> Option<Seq<char>>
    decreases e.len(),
{
    if e.len() == 0 {
        None
    } else if e[0] == ':' {
        Some(e.drop_first())
    } else {
        semantic_of_entry(e.drop_first())
    }
}

/// The semantics that unresolved entries name and that have no clip awaiting
/// review: those a generation batch is still owed.
pub open spec fn semantics_needing_generation(lib: MotionLibrary, entries: Seq<Seq<char>>) -> Set<
    Seq<char>,
> {
    Set::new(
        |s: Seq<char>|
            (exists|k: int| 0 <= k < entries.len() && #[trigger] semantic_of_entry(entries[k]) == Some(s))
                && lib.shelf(ClipApproval::Pending, s).len() == 0,
    )
}

/// The semantic part of an unresolved entry (`str::split_once(':')`).
pub fn entry_semantic(entry: &str) -> (r: Option<String>)
    ensures
        match r {
            Some(s) => semantic_of_entry(entry@) == Some(s@),
            None => semantic_of_entry(entry@) is None,
        },
{
    let v = chars_of(entry);
    let mut i: usize = 0;
    assert(v@.skip(0) =~= v@);
    while i < v.len() && v[i] != ':'
        invariant
            i <= v@.len(),
            semantic_of_entry(v@) == semantic_of_entry(v@.skip(i as int)),
        decreases v@.len() - i,
    {
        assert(v@.skip(i as int).drop_first() =~= v@.skip(i + 1));
        i += 1;
    }
    if i == v.len() {
        None
    } else {
        assert(v@.skip(i as int).drop_first() =~= v@.subrange(i + 1, v@.len() as int));
        Some(string_of(&slice_chars(&v, i + 1, v.len())))
    }
}

/// The semantics a generation batch must still produce for `unresolved`
/// entries: each semantic named, once, in `String` order, leaving out those
/// that already have a clip awaiting review.
pub fn semantics_to_generate(unresolved: &[String], library: &MotionLibrary) -> (r: Vec<String>)
    ensures
        strictly_sorted(string_views(r@)),
        string_views(r@).to_set() == semantics_needing_generation(
            *library,
            string_views(unresolved@),
        ),
{
    let ghost es = string_views(unresolved@);
    let mut acc: Vec<Vec<char>> = Vec::new();
    let mut i: usize = 0;
    while i < unresolved.len()
        invariant
            i <= unresolved@.len(),
            es == string_views(unresolved@),
            strictly_sorted(views(acc@)),
            views(acc@).to_set() == Set::new(
                |s: Seq<char>|
                    (exists|k: int| 0 <= k < i && #[trigger] semantic_of_entry(es[k]) == Some(s))
                        && library.shelf(ClipApproval::Pending, s).len() == 0,
            ),
        decreases unresolved@.len() - i,
    {
        let ghost before = views(acc@).to_set();
        let ghost found: Option<Seq<char>> = None;
        match entry_semantic(unresolved[i].as_str()) {
            Some(s) => {
                let waiting = library.pending(s.as_str()).len();
                if waiting == 0 {
                    proof {
                        found = Some(s@);
                    }
                    insert_sorted(&mut acc, chars_of(s.as_str()));
                }
            },
            None => {},
        }
        proof {
            let next = Set::new(
                |s: Seq<char>|
                    (exists|k: int| 0 <= k < i + 1 && #[trigger] semantic_of_entry(es[k]) == Some(s))
                        && library.shelf(ClipApproval::Pending, s).len() == 0,
            );
            assert(es[i as int] == unresolved@[i as int]@);
            match found {
                Some(f) => {
                    assert forall|s: Seq<char>| next.contains(s) <==> before.insert(f).contains(s) by {
                        if next.contains(s) && s != f {
                            let k = choose|k: int| 0 <= k < i + 1 && #[trigger] semantic_of_entry(es[k]) == Some(s);
                            assert(k < i);
                        }
                        if s == f {
                            assert(semantic_of_entry(es[i as int]) == Some(s));
                        }
                    }
                    assert(next =~= before.insert(f));
                },
                None => {
                    assert forall|s: Seq<char>| next.contains(s) <==> before.contains(s) by {
                        if next.contains(s) {
                            let k = choose|k: int| 0 <= k < i + 1 && #[trigger] semantic_of_entry(es[k]) == Some(s);
                            if k == i {
                                assert(semantic_of_entry(es[i as int]) == Some(s));
                            }
                        }
                    }
                    assert(next =~= before);
                },
            }
        }
        i += 1;
    }
    assert(views(acc@).to_set() =~= semantics_needing_generation(*library, es));
    strings_of(&acc)
}

} // verus!

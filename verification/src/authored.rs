//! Adapting a single-call authored episode into runtime structures: the
//! canonical beat ids, the targets kept on each action and the entities each
//! beat requires.
use vstd::prelude::*;
use vstd::relations::injective_on;
use vstd::set_lib::{lemma_int_range, lemma_len_subset, lemma_map_size, set_int_range};

use crate::protocol::{
    copy_opt, opt_view, ActionCommand, ActionCommandView, AuthoredCameraIntent,
    BeatCommand, BeatCommandView, BeatOutline, CameraIntent, CameraIntentView, CompletionCondition,
    CompletionView,
};
use crate::text::{
    append_chars, chars_of, decimal, decimal_chars, digit_char, seq_eq, string_of, string_views,
    trim, trim_chars,
};
use crate::world::{entity_exists_spec, resolved_entity, WorldState};

verus! {

/// The generated id of the `n`-th beat.
pub open spec fn beat_label(n: nat) -> Seq<char> {
    "beat_"@ + decimal(n)
}

/// Starting at `n`, the first label number not taken in `used`, looking at
/// most `fuel` numbers ahead.
pub open spec fn free_from(used: Seq<Seq<char>>, n: nat, fuel: nat) -> nat
    decreases fuel,
{
    if fuel == 0 || !used.contains(beat_label(n)) {
        n
    } else {
        free_from(used, n + 1, (fuel - 1) as nat)
    }
}

/// The id given to the `k`-th beat (counting from one) whose trimmed model id
/// is `t`, the ids in `used` already given: the model's id when it is
/// non-empty and free, else `beat_k`, else the first free `beat_n` after it.
pub open spec fn pick_id(t: Seq<char>, used: Seq<Seq<char>>, k: nat) -> Seq<char> {
    let first = if t.len() == 0 {
        beat_label(k)
    } else {
        t
    };
    if !used.contains(first) {
        first
    } else {
        beat_label(free_from(used, k, (used.len() + 1) as nat))
    }
}

/// The canonical ids of beats whose model ids are `raw`.
pub open spec fn canonical_ids(raw: Seq<Seq<char>>) -> Seq<Seq<char>>
    decreases raw.len(),
{
    if raw.len() == 0 {
        seq![]
    } else {
        let prev = canonical_ids(raw.drop_last());
        prev.push(pick_id(trim(raw.last()), prev, raw.len()))
    }
}

proof fn lemma_decimal_len(n: nat)
    ensures
        decimal(n).len() >= 1,
        n >= 10 ==> decimal(n).len() >= 2,
    decreases n,
{
    if n >= 10 {
        lemma_decimal_len(n / 10);
    }
}

proof fn lemma_decimal_injective(a: nat, b: nat)
    requires
        decimal(a) == decimal(b),
    ensures
        a == b,
    decreases a,
{
    lemma_decimal_len(a);
    lemma_decimal_len(b);
    if a < 10 {
        assert(decimal(a)[0] == digit_char(a));
        if b >= 10 {
            assert(false);
        }
        assert(digit_char(b) == digit_char(a));
        assert(('0' as u32) + a == (digit_char(a) as u32));
        assert(('0' as u32) + b == (digit_char(b) as u32));
    } else {
        if b < 10 {
            assert(false);
        }
        let da = decimal(a / 10);
        let db = decimal(b / 10);
        assert(decimal(a) == da.push(digit_char(a % 10)));
        assert(decimal(b) == db.push(digit_char(b % 10)));
        assert(da =~= decimal(a).drop_last());
        assert(db =~= decimal(b).drop_last());
        lemma_decimal_injective(a / 10, b / 10);
        assert(decimal(a).last() == digit_char(a % 10));
        assert(decimal(b).last() == digit_char(b % 10));
        assert(('0' as u32) + a % 10 == (digit_char(a % 10) as u32));
        assert(('0' as u32) + b % 10 == (digit_char(b % 10) as u32));
    }
}

proof fn lemma_label_injective(a: nat, b: nat)
    requires
        beat_label(a) == beat_label(b),
    ensures
        a == b,
{
    reveal_strlit("beat_");
    assert(decimal(a) =~= beat_label(a).skip(5));
    assert(decimal(b) =~= beat_label(b).skip(5));
    lemma_decimal_injective(a, b);
}

/// `m` consecutive labels from `k` all taken in `used` means `used` holds at
/// least `m` ids.
proof fn lemma_labels_fit(used: Seq<Seq<char>>, k: nat, m: nat)
    requires
        forall|j: nat| k <= j < k + m ==> used.contains(#[trigger] beat_label(j)),
    ensures
        m <= used.len(),
{
    let x = set_int_range(k as int, (k + m) as int);
    let f = |j: int| beat_label(j as nat);
    lemma_int_range(k as int, (k + m) as int);
    assert(injective_on(f, x)) by {
        assert forall|a: int, b: int| x.contains(a) && x.contains(b) && #[trigger] f(a) == #[trigger] f(
            b,
        ) implies a == b by {
            lemma_label_injective(a as nat, b as nat);
        }
    }
    let y = x.map(f);
    lemma_map_size(x, y, f);
    assert(y.subset_of(used.to_set())) by {
        assert forall|s: Seq<char>| y.contains(s) implies used.to_set().contains(s) by {
            let j = choose|j: int| x.contains(j) && f(j) == s;
            assert(used.contains(beat_label(j as nat)));
        }
    }
    lemma_len_subset(y, used.to_set());
    used.lemma_cardinality_of_set();
}

proof fn lemma_free_from(used: Seq<Seq<char>>, k: nat, n: nat, fuel: nat)
    requires
        k <= n,
        forall|j: nat| k <= j < n ==> used.contains(#[trigger] beat_label(j)),
        n + fuel == k + used.len() + 1,
    ensures
        !used.contains(beat_label(free_from(used, n, fuel))),
        n <= free_from(used, n, fuel) <= n + fuel,
    decreases fuel,
{
    if fuel == 0 {
        if used.contains(beat_label(n)) {
            assert forall|j: nat| k <= j < k + (used.len() + 1) implies used.contains(
                #[trigger] beat_label(j),
            ) by {
                if j < n {
                } else {
                    assert(j == n);
                }
            }
            lemma_labels_fit(used, k, (used.len() + 1) as nat);
        }
    } else if used.contains(beat_label(n)) {
        assert forall|j: nat| k <= j < n + 1 implies used.contains(#[trigger] beat_label(j)) by {
            if j < n {
            } else {
                assert(j == n);
            }
        }
        lemma_free_from(used, k, n + 1, (fuel - 1) as nat);
    }
}

/// The id picked for a beat is not yet taken and is never empty.
proof fn lemma_pick_id(t: Seq<char>, used: Seq<Seq<char>>, k: nat)
    ensures
        !used.contains(pick_id(t, used, k)),
        pick_id(t, used, k).len() > 0,
{
    reveal_strlit("beat_");
    let first = if t.len() == 0 {
        beat_label(k)
    } else {
        t
    };
    if used.contains(first) {
        lemma_free_from(used, k, k, (used.len() + 1) as nat);
    }
}

/// Every beat gets an id of its own: the canonical ids are as many as the
/// beats, none of them empty, no two alike.
pub proof fn canonical_ids_are_unique(raw: Seq<Seq<char>>)
    ensures
        canonical_ids(raw).len() == raw.len(),
        canonical_ids(raw).no_duplicates(),
        forall|i: int| 0 <= i < raw.len() ==> (#[trigger] canonical_ids(raw)[i]).len() > 0,
    decreases raw.len(),
{
    if raw.len() > 0 {
        let prev = canonical_ids(raw.drop_last());
        canonical_ids_are_unique(raw.drop_last());
        let p = pick_id(trim(raw.last()), prev, raw.len());
        lemma_pick_id(trim(raw.last()), prev, raw.len());
        let all = prev.push(p);
        assert forall|a: int, b: int| 0 <= a < all.len() && 0 <= b < all.len() && a != b implies all[a]
            != all[b] by {
            if a < prev.len() && b < prev.len() {
                assert(all[a] == prev[a] && all[b] == prev[b]);
            } else if a < prev.len() {
                assert(all[a] == prev[a]);
            } else {
                assert(all[b] == prev[b]);
            }
        }
        assert forall|i: int| 0 <= i < raw.len() implies (#[trigger] all[i]).len() > 0 by {
            if i < prev.len() {
                assert(all[i] == prev[i]);
            }
        }
    }
}

fn label(n: u64) -> (r: Vec<char>)
    ensures
        r@ == beat_label(n as nat),
{
    let mut v = chars_of("beat_");
    append_chars(&mut v, &decimal_chars(n));
    v
}

fn taken(used: &Vec<Vec<char>>, c: &Vec<char>) -> (r: bool)
    ensures
        r == crate::text::views(used@).contains(c@),
{
    let mut i: usize = 0;
    while i < used.len()
        invariant
            i <= used@.len(),
            forall|k: int| 0 <= k < i ==> #[trigger] crate::text::views(used@)[k] != c@,
        decreases used@.len() - i,
    {
        if seq_eq(&used[i], c) {
            assert(crate::text::views(used@)[i as int] == c@);
            return true;
        }
        i += 1;
    }
    false
}

/// Canonical, unique, non-empty beat ids for beats whose model ids are
/// `raw`: each trimmed model id is kept when it is non-empty and not yet
/// given; otherwise the beat at position `k` (from one) gets `beat_k`, or the
/// first `beat_n` after it that is free.
pub fn canonical_beat_ids(raw: &Vec<String>) -> (r: Vec<String>)
    requires
        raw@.len() < 0x1000_0000_0000_0000,
    ensures
        string_views(r@) == canonical_ids(string_views(raw@)),
{
    let mut used: Vec<Vec<char>> = Vec::new();
    let mut i: usize = 0;
    assert(string_views(raw@).take(0) =~= Seq::<Seq<char>>::empty());
    while i < raw.len()
        invariant
            i <= raw@.len(),
            raw@.len() < 0x1000_0000_0000_0000,
            used@.len() == i,
            crate::text::views(used@) == canonical_ids(string_views(raw@).take(i as int)),
        decreases raw@.len() - i,
    {
        let ghost prev = crate::text::views(used@);
        let ghost part = string_views(raw@).take(i as int + 1);
        assert(part.drop_last() =~= string_views(raw@).take(i as int));
        assert(part.last() == raw@[i as int]@);
        let t = trim_chars(&chars_of(raw[i].as_str()));
        let k: u64 = (i as u64) + 1;
        let first = if t.len() == 0 {
            label(k)
        } else {
            t
        };
        let chosen = if !taken(&used, &first) {
            first
        } else {
            let mut n: u64 = k;
            let mut fuel: u64 = (used.len() as u64) + 1;
            while fuel > 0 && taken(&used, &label(n))
                invariant
                    prev == crate::text::views(used@),
                    free_from(prev, k as nat, (prev.len() + 1) as nat) == free_from(
                        prev,
                        n as nat,
                        fuel as nat,
                    ),
                    n + fuel == k + prev.len() + 1,
                    k + prev.len() + 1 < 0x2000_0000_0000_0000,
                decreases fuel,
            {
                n = n + 1;
                fuel = fuel - 1;
            }
            label(n)
        };
        used.push(chosen);
        assert(crate::text::views(used@) =~= prev.push(
            pick_id(trim(raw@[i as int]@), prev, (i + 1) as nat),
        ));
        i += 1;
    }
    assert(string_views(raw@).take(raw@.len() as int) =~= string_views(raw@));
    let mut out: Vec<String> = Vec::new();
    let mut j: usize = 0;
    while j < used.len()
        invariant
            j <= used@.len(),
            out@.len() == j,
            forall|m: int| 0 <= m < j ==> #[trigger] out@[m]@ == used@[m]@,
        decreases used@.len() - j,
    {
        out.push(string_of(&used[j]));
        j += 1;
    }
    assert(string_views(out@) =~= crate::text::views(used@));
    out
}

// ---------------------------------------------------------------------------
// Targets and required entities
// ---------------------------------------------------------------------------

/// The target an authored action keeps: none when blank; the target itself
/// when it names an entity; else the entity it resolves to, if any.
pub open spec fn kept_target(w: WorldState, target: Option<Seq<char>>) -> Option<Seq<char>> {
    match target {
        None => None,
        Some(t) => if trim(t).len() == 0 {
            None
        } else if entity_exists_spec(w, t) {
            Some(t)
        } else {
            resolved_entity(w, t)
        },
    }
}

/// The target an authored action keeps (see [`kept_target`]).
pub fn action_target(world: &WorldState, target: &Option<String>) -> (r: Option<String>)
    ensures
        opt_view(r) == kept_target(*world, opt_view(*target)),
{
    match target {
        None => None,
        Some(t) => {
            let tv = trim_chars(&chars_of(t.as_str()));
            if tv.len() == 0 {
                None
            } else if world.entity_exists(t.as_str()) {
                Some(string_of(&chars_of(t.as_str())))
            } else {
                world.resolve_entity_or_alias(t.as_str())
            }
        },
    }
}

/// `a` sorts strictly before `b`, character by character (the order of
/// `String`).
pub open spec fn lex_lt(a: Seq<char>, b: Seq<char>) -> bool
    decreases a.len(),
{
    if a.len() == 0 {
        b.len() > 0
    } else if b.len() == 0 {
        false
    } else if a[0] != b[0] {
        (a[0] as int) < (b[0] as int)
    } else {
        lex_lt(a.drop_first(), b.drop_first())
    }
}

/// Strictly increasing, hence free of repeats.
pub open spec fn strictly_sorted(s: Seq<Seq<char>>) -> bool {
    forall|i: int, j: int| 0 <= i < j < s.len() ==> lex_lt(#[trigger] s[i], #[trigger] s[j])
}

proof fn lemma_lex_irreflexive(a: Seq<char>)
    ensures
        !lex_lt(a, a),
    decreases a.len(),
{
    if a.len() > 0 {
        lemma_lex_irreflexive(a.drop_first());
    }
}

proof fn lemma_lex_trans(a: Seq<char>, b: Seq<char>, c: Seq<char>)
    requires
        lex_lt(a, b),
        lex_lt(b, c),
    ensures
        lex_lt(a, c),
    decreases a.len(),
{
    if a.len() > 0 && b.len() > 0 && c.len() > 0 && a[0] == b[0] && b[0] == c[0] {
        lemma_lex_trans(a.drop_first(), b.drop_first(), c.drop_first());
    }
}

proof fn lemma_lex_total(a: Seq<char>, b: Seq<char>)
    ensures
        a == b || lex_lt(a, b) || lex_lt(b, a),
    decreases a.len(),
{
    if a.len() > 0 && b.len() > 0 {
        if a[0] == b[0] {
            lemma_lex_total(a.drop_first(), b.drop_first());
            if a.drop_first() == b.drop_first() {
                assert(a =~= seq![a[0]] + a.drop_first());
                assert(b =~= seq![b[0]] + b.drop_first());
            }
        } else {
            assert((a[0] as int) != (b[0] as int));
        }
    } else if a.len() == 0 && b.len() == 0 {
        assert(a =~= b);
    }
}

fn char_lt(a: char, b: char) -> (r: bool)
    ensures
        r == ((a as int) < (b as int)),
{
    a < b
}

fn lex_less(a: &Vec<char>, b: &Vec<char>) -> (r: bool)
    ensures
        r == lex_lt(a@, b@),
{
    let mut i: usize = 0;
    assert(a@.skip(0) =~= a@);
    assert(b@.skip(0) =~= b@);
    while i < a.len() && i < b.len() && a[i] == b[i]
        invariant
            i <= a@.len(),
            i <= b@.len(),
            lex_lt(a@, b@) == lex_lt(a@.skip(i as int), b@.skip(i as int)),
        decreases a@.len() - i,
    {
        assert(a@.skip(i as int).drop_first() =~= a@.skip(i + 1));
        assert(b@.skip(i as int).drop_first() =~= b@.skip(i + 1));
        i += 1;
    }
    if i == a.len() {
        i < b.len()
    } else if i == b.len() {
        false
    } else {
        assert(a@.skip(i as int)[0] == a@[i as int]);
        assert(b@.skip(i as int)[0] == b@[i as int]);
        char_lt(a[i], b[i])
    }
}

/// Insert `x` into a strictly sorted list unless already present.
pub(crate) fn insert_sorted(v: &mut Vec<Vec<char>>, x: Vec<char>)
    requires
        strictly_sorted(crate::text::views(old(v)@)),
    ensures
        strictly_sorted(crate::text::views(final(v)@)),
        crate::text::views(final(v)@).to_set() == crate::text::views(old(v)@).to_set().insert(x@),
{
    let ghost s0 = crate::text::views(v@);
    let mut i: usize = 0;
    while i < v.len() && lex_less(&v[i], &x)
        invariant
            i <= v@.len(),
            s0 == crate::text::views(v@),
            strictly_sorted(s0),
            forall|k: int| 0 <= k < i ==> lex_lt(#[trigger] s0[k], x@),
        decreases v@.len() - i,
    {
        i += 1;
    }
    if i < v.len() && seq_eq(&v[i], &x) {
        assert(s0.to_set().insert(x@) =~= s0.to_set()) by {
            assert(s0[i as int] == x@);
        }
        return;
    }
    proof {
        if i < v@.len() {
            lemma_lex_total(s0[i as int], x@);
        }
    }
    let ghost xv = x@;
    v.insert(i, x);
    let ghost s1 = crate::text::views(v@);
    assert(s1 =~= s0.insert(i as int, xv));
    assert forall|a: int, b: int| 0 <= a < b < s1.len() implies lex_lt(#[trigger] s1[a], #[trigger] s1[b]) by {
        if b < i {
            assert(s1[a] == s0[a] && s1[b] == s0[b]);
        } else if b == i {
            assert(s1[a] == s0[a]);
        } else if a == i {
            assert(s1[b] == s0[b - 1]);
            if b - 1 > i {
                lemma_lex_trans(xv, s0[i as int], s0[b - 1]);
            }
        } else if a < i {
            assert(s1[a] == s0[a] && s1[b] == s0[b - 1]);
        } else {
            assert(s1[a] == s0[a - 1] && s1[b] == s0[b - 1]);
        }
    }
    assert(s1.to_set() =~= s0.to_set().insert(xv)) by {
        assert forall|e: Seq<char>| s1.to_set().contains(e) <==> s0.to_set().insert(xv).contains(e) by {
            if s1.contains(e) {
                let k = choose|k: int| 0 <= k < s1.len() && s1[k] == e;
                if k < i {
                    assert(s0[k] == e);
                } else if k > i {
                    assert(s0[k - 1] == e);
                }
            }
            if s0.contains(e) {
                let k = choose|k: int| 0 <= k < s0.len() && s0[k] == e;
                if k < i {
                    assert(s1[k] == e);
                } else {
                    assert(s1[k + 1] == e);
                }
            }
            if e == xv {
                assert(s1[i as int] == e);
            }
        }
    }
}

/// The entity a required-entity candidate names: a non-blank target as it
/// resolves (or trimmed, when it resolves to nothing), when that names an
/// entity.
pub open spec fn target_entity(w: WorldState, target: Option<Seq<char>>) -> Option<Seq<char>> {
    match target {
        Some(t) => if trim(t).len() == 0 {
            None
        } else {
            let e = match resolved_entity(w, t) {
                Some(n) => n,
                None => trim(t),
            };
            if entity_exists_spec(w, e) {
                Some(e)
            } else {
                None
            }
        },
        None => None,
    }
}

/// The entities an authored beat requires, before sorting: each action's
/// non-blank target as it resolves (or trimmed) when that names an entity,
/// then the camera subject: itself when it names an entity, else what it
/// resolves to when that does, else, when it resolves to nothing, the first
/// character of the world.
pub open spec fn required_candidates(
    w: WorldState,
    targets: Seq<Option<Seq<char>>>,
    subject: Seq<char>,
) -> Set<Seq<char>> {
    let from_targets = Set::new(
        |e: Seq<char>|
            exists|i: int| 0 <= i < targets.len() && #[trigger] target_entity(w, targets[i]) == Some(e),
    );
    if entity_exists_spec(w, subject) {
        from_targets.insert(subject)
    } else {
        match resolved_entity(w, subject) {
            Some(n) => if entity_exists_spec(w, n) {
                from_targets.insert(n)
            } else {
                from_targets
            },
            None => if w.characters@.len() > 0 {
                from_targets.insert(w.characters@[0].id@)
            } else {
                from_targets
            },
        }
    }
}

/// Every entity a beat is made to require exists in the world, so an adapted
/// beat never fails validation for its required entities.
pub proof fn required_entities_exist(
    w: WorldState,
    targets: Seq<Option<Seq<char>>>,
    subject: Seq<char>,
    e: Seq<char>,
)
    requires
        required_candidates(w, targets, subject).contains(e),
    ensures
        entity_exists_spec(w, e),
{
    if w.characters@.len() > 0 && e == w.characters@[0].id@ {
        assert(crate::world::character_ids(w)[0] == e);
    }
}

/// The entities an authored beat requires, sorted, each once.
pub fn required_entities(world: &WorldState, targets: &Vec<Option<String>>, subject: &str) -> (r:
    Vec<String>)
    ensures
        strictly_sorted(string_views(r@)),
        string_views(r@).to_set() == required_candidates(
            *world,
            Seq::new(targets@.len(), |i: int| opt_view(targets@[i])),
            subject@,
        ),
{
    let ghost ts = Seq::new(targets@.len(), |i: int| opt_view(targets@[i]));
    let mut acc: Vec<Vec<char>> = Vec::new();
    let mut i: usize = 0;
    while i < targets.len()
        invariant
            i <= targets@.len(),
            ts == Seq::new(targets@.len(), |i: int| opt_view(targets@[i])),
            strictly_sorted(crate::text::views(acc@)),
            crate::text::views(acc@).to_set() == Set::new(
                |e: Seq<char>|
                    exists|k: int| 0 <= k < i && #[trigger] target_entity(*world, ts[k]) == Some(e),
            ),
        decreases targets@.len() - i,
    {
        let ghost before = crate::text::views(acc@).to_set();
        let ghost found: Option<Seq<char>> = None;
        match &targets[i] {
            Some(t) => {
                let tv = trim_chars(&chars_of(t.as_str()));
                if tv.len() > 0 {
                    let normalized = match world.resolve_entity_or_alias(t.as_str()) {
                        Some(n) => n,
                        None => string_of(&tv),
                    };
                    if world.entity_exists(normalized.as_str()) {
                        proof {
                            found = Some(normalized@);
                        }
                        insert_sorted(&mut acc, chars_of(normalized.as_str()));
                    }
                }
            },
            None => {},
        }
        proof {
            let next = Set::new(
                |e: Seq<char>|
                    exists|k: int| 0 <= k < i + 1 && #[trigger] target_entity(*world, ts[k]) == Some(e),
            );
            assert(ts[i as int] == opt_view(targets@[i as int]));
            assert(target_entity(*world, ts[i as int]) == found);
            match found {
                Some(f) => {
                    assert(next =~= before.insert(f));
                },
                None => {
                    assert(next =~= before);
                },
            }
        }
        i += 1;
    }
    let ghost from_targets = crate::text::views(acc@).to_set();
    if world.entity_exists(subject) {
        insert_sorted(&mut acc, chars_of(subject));
    } else {
        match world.resolve_entity_or_alias(subject) {
            Some(n) => {
                if world.entity_exists(n.as_str()) {
                    insert_sorted(&mut acc, chars_of(n.as_str()));
                }
            },
            None => {
                if world.characters.len() > 0 {
                    insert_sorted(&mut acc, chars_of(world.characters[0].id.as_str()));
                }
            },
        }
    }
    let mut out: Vec<String> = Vec::new();
    let mut j: usize = 0;
    while j < acc.len()
        invariant
            j <= acc@.len(),
            out@.len() == j,
            forall|m: int| 0 <= m < j ==> #[trigger] out@[m]@ == acc@[m]@,
        decreases acc@.len() - j,
    {
        out.push(string_of(&acc[j]));
        j += 1;
    }
    assert(string_views(out@) =~= crate::text::views(acc@));
    out
}

// ---------------------------------------------------------------------------
// Adapting one authored beat
// ---------------------------------------------------------------------------

/// An action as the model authored it. Its intensity and duration override
/// are measured quantities the caller carries over.
#[derive(Debug)]
pub struct AuthoredAction {
    pub actor: String,
    pub action: String,
    pub target: Option<String>,
    pub text: Option<String>,
}

/// When an authored beat is over. A timer's length is carried over by the
/// caller.
#[derive(Debug)]
pub struct AuthoredCompletion {
    pub kind: String,
    pub actor: Option<String>,
}

/// A beat as the model authored it. Its start hint is a measured quantity the
/// caller orders beats by.
#[derive(Debug)]
pub struct AuthoredBeat {
    pub id: String,
    pub narrative_purpose: String,
    pub actions: Vec<AuthoredAction>,
    pub camera_intent: AuthoredCameraIntent,
    pub completion_condition: AuthoredCompletion,
    pub fallback: Option<String>,
    pub notes: Option<String>,
}

/// The targets of a beat's actions, by content.
pub open spec fn authored_targets(b: AuthoredBeat) -> Seq<Option<Seq<char>>> {
    Seq::new(b.actions@.len(), |i: int| opt_view(b.actions@[i].target))
}

/// The runtime command of an authored beat given its canonical id: the
/// model's actions with their targets kept or resolved, and its camera,
/// completion, fallback and notes as written.
pub open spec fn adapted_command(w: WorldState, id: Seq<char>, b: AuthoredBeat) -> BeatCommandView {
    BeatCommandView {
        beat_id: id,
        dramatic_purpose: b.narrative_purpose@,
        actions: Seq::new(
            b.actions@.len(),
            |i: int|
                ActionCommandView {
                    actor: b.actions@[i].actor@,
                    action: b.actions@[i].action@,
                    target: kept_target(w, opt_view(b.actions@[i].target)),
                    text: opt_view(b.actions@[i].text),
                },
        ),
        camera_intent: CameraIntentView {
            kind: b.camera_intent.kind@,
            subject: b.camera_intent.subject@,
            reaction_subject: opt_view(b.camera_intent.reaction_subject),
        },
        completion_condition: CompletionView {
            kind: b.completion_condition.kind@,
            actor: opt_view(b.completion_condition.actor),
        },
        fallback: opt_view(b.fallback),
        notes: opt_view(b.notes),
    }
}

fn text(s: &str) -> (r: String)
    ensures
        r@ == s@,
{
    string_of(&chars_of(s))
}

/// Adapt one authored beat under its canonical id: the outline (type `beat`,
/// the narrative purpose as description, its required entities) and the
/// command. Nothing the model wrote is invented or rewritten, beyond
/// resolving action targets to entities.
pub fn adapt_authored_beat(world: &WorldState, id: &str, b: &AuthoredBeat) -> (r: (
    BeatOutline,
    BeatCommand,
))
    ensures
        r.0.id@ == id@,
        r.0.beat_type@ == "beat"@,
        r.0.description@ == b.narrative_purpose@,
        strictly_sorted(string_views(r.0.required_entities@)),
        string_views(r.0.required_entities@).to_set() == required_candidates(
            *world,
            authored_targets(*b),
            b.camera_intent.subject@,
        ),
        r.1@ == adapted_command(*world, id@, *b),
{
    let mut targets: Vec<Option<String>> = Vec::new();
    let mut actions: Vec<ActionCommand> = Vec::new();
    let mut i: usize = 0;
    while i < b.actions.len()
        invariant
            i <= b.actions@.len(),
            targets@.len() == i,
            actions@.len() == i,
            forall|k: int| 0 <= k < i ==> opt_view(#[trigger] targets@[k]) == opt_view(b.actions@[k].target),
            forall|k: int|
                0 <= k < i ==> (#[trigger] actions@[k])@ == (ActionCommandView {
                    actor: b.actions@[k].actor@,
                    action: b.actions@[k].action@,
                    target: kept_target(*world, opt_view(b.actions@[k].target)),
                    text: opt_view(b.actions@[k].text),
                }),
        decreases b.actions@.len() - i,
    {
        let a = &b.actions[i];
        targets.push(copy_opt(&a.target));
        let target = action_target(world, &a.target);
        actions.push(
            ActionCommand {
                actor: text(a.actor.as_str()),
                action: text(a.action.as_str()),
                target,
                text: copy_opt(&a.text),
            },
        );
        i += 1;
    }
    assert(Seq::new(targets@.len(), |k: int| opt_view(targets@[k])) =~= authored_targets(*b));
    let required = required_entities(world, &targets, b.camera_intent.subject.as_str());
    let outline = BeatOutline {
        id: text(id),
        beat_type: text("beat"),
        description: text(b.narrative_purpose.as_str()),
        required_entities: required,
    };
    let command = BeatCommand {
        beat_id: text(id),
        dramatic_purpose: text(b.narrative_purpose.as_str()),
        actions,
        camera_intent: CameraIntent {
            kind: text(b.camera_intent.kind.as_str()),
            subject: text(b.camera_intent.subject.as_str()),
            reaction_subject: copy_opt(&b.camera_intent.reaction_subject),
        },
        completion_condition: CompletionCondition {
            kind: text(b.completion_condition.kind.as_str()),
            actor: copy_opt(&b.completion_condition.actor),
        },
        fallback: copy_opt(&b.fallback),
        notes: copy_opt(&b.notes),
    };
    assert(command@ =~= adapted_command(*world, id@, *b));
    (outline, command)
}

} // verus!

//! Deterministic randomness for authoring.
//!
//! Every random decision comes from a `StdRng` seeded from an explicit `u64`,
//! so committed episodes can be replayed; no global entropy is used.
use vstd::prelude::*;

use rand::rngs::StdRng;
use rand::seq::SliceRandom;
use rand::{Rng, SeedableRng};

use crate::text::{append_chars, append_str, chars_of, string_of, zero_padded, zero_padded_chars};

verus! {

#[verifier::external_type_specification]
#[verifier::external_body]
pub struct ExStdRng(StdRng);

/// `StdRng::seed_from_u64`: a generator seeded with `seed`. Nothing is stated
/// of the generator: `rand` documents `StdRng` as deterministic but not
/// reproducible across library versions and configurations, so its output
/// gets no name here.
#[verifier::external_body]
fn std_rng_from_seed(seed: u64) -> StdRng {
    StdRng::seed_from_u64(seed)
}

/// `Rng::gen::<u64>` on a `StdRng`: the next 64 random bits. Every `u64` can
/// come back, so nothing is stated of the value.
#[verifier::external_body]
fn std_rng_next_u64(rng: &mut StdRng) -> u64 {
    rng.gen::<u64>()
}

/// `SliceRandom::choose`: a reference to one element of `items` chosen by the
/// generator, or none when `items` is empty.
#[verifier::external_body]
fn std_rng_choose<'a, T>(rng: &mut StdRng, items: &'a [T]) -> (r: Option<&'a T>)
    ensures
        items@.len() == 0 <==> r is None,
        r matches Some(x) ==> items@.contains(*x),
{
    items.choose(rng)
}

/// Positions `p` rearrange `b` into `a`: `a[i]` is `b[p[i]]`, and no position
/// is used twice.
pub open spec fn rearranges<T>(a: Seq<T>, b: Seq<T>, p: Seq<int>) -> bool {
    &&& a.len() == b.len()
    &&& p.len() == a.len()
    &&& forall|i: int| 0 <= i < a.len() ==> 0 <= #[trigger] p[i] < b.len() && a[i] == b[p[i]]
    &&& forall|i: int, j: int| 0 <= i < j < p.len() ==> #[trigger] p[i] != #[trigger] p[j]
}

/// `SliceRandom::shuffle`: the same elements, shuffled in place, in an order
/// chosen by the generator.
#[verifier::external_body]
fn std_rng_shuffle<T>(rng: &mut StdRng, v: &mut Vec<T>)
    ensures
        exists|p: Seq<int>| rearranges(final(v)@, old(v)@, p),
{
    v.as_mut_slice().shuffle(rng)
}

/// The seed of a derived stream: `seed * 0x9E3779B97F4A7C15 + salt`, wrapping.
pub open spec fn derived_seed(seed: u64, salt: u64) -> u64 {
    ((seed as int * 0x9E3779B97F4A7C15int + salt as int) % 0x1_0000_0000_0000_0000int) as u64
}

/// Each element of `r` is a clone of the element of `items` at position
/// `f[k]`, and no position is used twice.
pub open spec fn picked_from<T: Clone>(items: Seq<T>, r: Seq<T>, f: Seq<int>) -> bool {
    &&& f.len() == r.len()
    &&& forall|k: int|
        0 <= k < r.len() ==> 0 <= #[trigger] f[k] < items.len() && cloned(items[f[k]], r[k])
    &&& forall|k: int, m: int| 0 <= k < m < f.len() ==> #[trigger] f[k] != #[trigger] f[m]
}

/// A reproducible random source.
#[derive(Debug)]
pub struct SeededRng {
    inner: StdRng,
    pub seed: u64,
}

impl SeededRng {
    /// The seed of this source.
    pub closed spec fn seed_value(self) -> u64 {
        self.seed
    }

    /// A source seeded with `seed`.
    pub fn new(seed: u64) -> (r: Self)
        ensures
            r.seed_value() == seed,
    {
        SeededRng { inner: std_rng_from_seed(seed), seed }
    }

    /// A child source, so sub-systems get independent but reproducible streams.
    pub fn derive(&self, salt: u64) -> (r: Self)
        ensures
            r.seed_value() == derived_seed(self.seed_value(), salt),
    {
        let s = self.seed.wrapping_mul(0x9E3779B97F4A7C15).wrapping_add(salt);
        assert(s == derived_seed(self.seed_value(), salt)) by (nonlinear_arith)
            requires
                s == ((((self.seed as int * 0x9E3779B97F4A7C15int) % 0x1_0000_0000_0000_0000int)
                    + salt as int) % 0x1_0000_0000_0000_0000int),
        {
        }
        Self::new(s)
    }

    /// The next 64 random bits.
    pub fn next_u64(&mut self) -> (r: u64)
        ensures
            final(self).seed_value() == old(self).seed_value(),
    {
        std_rng_next_u64(&mut self.inner)
    }

    /// One element of `items`, or none when it is empty.
    pub fn pick<T: Clone>(&mut self, items: &[T]) -> (r: Option<T>)
        ensures
            final(self).seed_value() == old(self).seed_value(),
            items@.len() == 0 <==> r is None,
            r matches Some(x) ==> exists|i: int|
                0 <= i < items@.len() && cloned(#[trigger] items@[i], x),
    {
        let c = std_rng_choose(&mut self.inner, items);
        match c {
            Some(x) => {
                let v = x.clone();
                assert(items@.contains(*x));
                let ghost i = choose|i: int| 0 <= i < items@.len() && items@[i] == *x;
                assert(cloned(items@[i], v));
                Some(v)
            },
            None => None,
        }
    }

    /// `n` distinct elements of `items` in random order (all of them, shuffled,
    /// when there are fewer than `n`): each is a clone of an element of
    /// `items`, and no element of `items` is picked twice.
    pub fn pick_n<T: Clone>(&mut self, items: &[T], n: usize) -> (r: Vec<T>)
        ensures
            final(self).seed_value() == old(self).seed_value(),
            r.len() == if n < items@.len() {
                n as int
            } else {
                items@.len() as int
            },
            exists|f: Seq<int>| picked_from(items@, r@, f),
    {
        let mut pool: Vec<T> = Vec::new();
        let mut i: usize = 0;
        while i < items.len()
            invariant
                i <= items@.len(),
                pool.len() == i,
                forall|k: int| 0 <= k < i ==> cloned(items@[k], #[trigger] pool@[k]),
            decreases items@.len() - i,
        {
            pool.push(items[i].clone());
            i += 1;
        }
        let ghost before = pool@;
        std_rng_shuffle(&mut self.inner, &mut pool);
        let ghost p = choose|p: Seq<int>| rearranges(pool@, before, p);
        let ghost shuffled = pool@;
        pool.truncate(n);
        proof {
            let f = p.take(pool.len() as int);
            assert(picked_from(items@, pool@, f)) by {
            assert forall|k: int| 0 <= k < pool.len() implies 0 <= #[trigger] f[k] < items@.len()
                && cloned(items@[f[k]], pool@[k]) by {
                assert(f[k] == p[k]);
                assert(pool@[k] == shuffled[k]);
                assert(shuffled[k] == before[p[k]]);
            }
            assert forall|k: int, m: int| 0 <= k < m < f.len() implies #[trigger] f[k]
                != #[trigger] f[m] by {
                assert(f[k] == p[k] && f[m] == p[m]);
            }
            }
        }
        pool
    }
}

/// A short, readable identifier such as `ep_000123`: `prefix`, an underscore,
/// and `n` zero-padded to `width` digits.
pub fn serial_id(prefix: &str, n: u64, width: usize) -> (r: String)
    ensures
        r@ == prefix@ + "_"@ + zero_padded(n as nat, width as nat),
{
    let mut v = chars_of(prefix);
    append_str(&mut v, "_");
    let digits = zero_padded_chars(n, width);
    append_chars(&mut v, &digits);
    string_of(&v)
}

} // verus!

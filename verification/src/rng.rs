//! The random source of a run: one seeded generator, shared by every
//! component that draws from it, one consumer at a time.

use vstd::prelude::*;
use rand::SeedableRng;
use rand::seq::SliceRandom;
use rand_xorshift::XorShiftRng;
use crate::event::ProcessId;

verus! {

#[verifier::external_type_specification]
#[verifier::external_body]
pub struct ExXorShiftRng(XorShiftRng);

/// `chosen` is a draw without replacement from `pool`: `picks` names, for
/// each chosen item, the place in the pool that it was taken from, and no
/// place is named twice.
pub open spec fn is_selection(pool: Seq<ProcessId>, picks: Seq<int>, chosen: Seq<ProcessId>) -> bool {
    &&& picks.len() == chosen.len()
    &&& forall|i: int|
        0 <= i < picks.len() ==> 0 <= #[trigger] picks[i] < pool.len() && chosen[i] == pool[picks[i]]
    &&& forall|i: int, j: int| 0 <= i < j < picks.len() ==> #[trigger] picks[i] != #[trigger] picks[j]
}

/// The state of a generator: the words that decide every draw to come.
pub uninterp spec fn rng_state(rng: &XorShiftRng) -> Seq<u32>;

/// The state of the generator of a seed.
pub uninterp spec fn seed_state(seed: u64) -> Seq<u32>;

/// `SeedableRng::seed_from_u64` for `XorShiftRng`: the generator of a seed,
/// whose state the seed decides.
#[verifier::external_body]
pub(crate) fn seeded(seed: u64) -> (rng: XorShiftRng)
    ensures
        rng_state(&rng) == seed_state(seed),
{
    XorShiftRng::seed_from_u64(seed)
}

/// `Clone::clone` for `XorShiftRng`: a generator in the state of the given
/// one.
#[verifier::external_body]
pub(crate) fn duplicate(rng: &XorShiftRng) -> (copy: XorShiftRng)
    ensures
        rng_state(&copy) == rng_state(rng),
{
    rng.clone()
}

/// `SliceRandom::choose_multiple`, collected: `amount` items of the pool, or
/// all of them where it holds fewer, taken from distinct places. Which ones,
/// and in which order, is up to the generator.
#[verifier::external_body]
fn choose_multiple(rng: &mut XorShiftRng, pool: &Vec<ProcessId>, amount: usize) -> (chosen: Vec<
    ProcessId,
>)
    ensures
        chosen@.len() == if amount <= pool@.len() {
            amount as int
        } else {
            pool@.len() as int
        },
        exists|picks: Seq<int>| is_selection(pool@, picks, chosen@),
{
    pool.choose_multiple(rng, amount).cloned().collect()
}

/// Draws `num` of `ids` without replacement, or all of them where there are
/// fewer. Of a pool without repetition, no id is drawn twice.
pub fn draw_ids(rng: &mut XorShiftRng, ids: &Vec<ProcessId>, num: ProcessId) -> (chosen: Vec<
    ProcessId,
>)
    ensures
        chosen@.len() == if num <= ids@.len() {
            num as int
        } else {
            ids@.len() as int
        },
        forall|i: int| 0 <= i < chosen@.len() ==> ids@.contains(#[trigger] chosen@[i]),
        ids@.no_duplicates() ==> chosen@.no_duplicates(),
{
    let chosen = choose_multiple(rng, ids, num as usize);
    proof {
        let picks = choose|picks: Seq<int>| is_selection(ids@, picks, chosen@);
        assert forall|i: int| 0 <= i < chosen@.len() implies ids@.contains(
            #[trigger] chosen@[i],
        ) by {
            assert(chosen@[i] == ids@[picks[i]]);
        }
        if ids@.no_duplicates() {
            assert forall|i: int, j: int|
                0 <= i < chosen@.len() && 0 <= j < chosen@.len() && i != j implies chosen@[i]
                != chosen@[j] by {
                assert(chosen@[i] == ids@[picks[i]]);
                assert(chosen@[j] == ids@[picks[j]]);
                if i < j {
                    assert(picks[i] != picks[j]);
                } else {
                    assert(picks[j] != picks[i]);
                }
            }
        }
    }
    chosen
}

} // verus!

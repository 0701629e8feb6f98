//! Energy decides who acts next. An actor with energy of zero or more can
//! act, and an action leaves it with a negative energy, its cost. Time then
//! passes until the next actor is ready.

use vstd::prelude::*;

verus! {

/// The energy left after a step.
pub const MOVE_ENERGY: i32 = -100;

/// The energy left after waiting a turn, or dropping an item.
pub const WAIT_ENERGY: i32 = -50;

/// The energy left after picking up an item.
pub const PICKUP_ENERGY: i32 = -90;

/// The highest negative energy above `i32::MIN` among the first `n`
/// energies; `i32::MIN` when there is none.
pub open spec fn highest_negative(energies: Seq<i32>, n: int) -> i32
    decreases n,
{
    if n <= 0 {
        i32::MIN
    } else {
        let rest = highest_negative(energies, n - 1);
        let e = energies[n - 1];
        if e < 0 && e > rest {
            e
        } else {
            rest
        }
    }
}

/// How much energy everyone waiting regains: enough for the one closest to
/// ready to be ready.
pub open spec fn energy_gain(energies: Seq<i32>) -> int {
    let h = highest_negative(energies, energies.len() as int);
    if h > i32::MIN {
        -h
    } else {
        0
    }
}

/// The highest negative energy is one of the energies, and no negative
/// energy above `i32::MIN` is higher.
pub proof fn lemma_highest_negative(energies: Seq<i32>, n: int)
    requires
        0 <= n <= energies.len(),
    ensures
        highest_negative(energies, n) < 0,
        highest_negative(energies, n) > i32::MIN ==> exists|k: int|
            0 <= k < n && energies[k] == highest_negative(energies, n),
        forall|k: int|
            0 <= k < n && energies[k] < 0 && energies[k] > i32::MIN ==> #[trigger] energies[k]
                <= highest_negative(energies, n),
    decreases n,
{
    if n > 0 {
        lemma_highest_negative(energies, n - 1);
    }
}

/// Lets time pass until the waiting actor closest to ready is ready: every
/// negative energy rises by `energy_gain`. Returns that gain. Nothing
/// happens in a tick that spends no energy.
pub fn regain_energy(energies: &mut Vec<i32>, energyless_tick: bool) -> (gain: i32)
    ensures
        final(energies)@.len() == old(energies)@.len(),
        energyless_tick ==> gain == 0 && final(energies)@ == old(energies)@,
        !energyless_tick ==> gain == energy_gain(old(energies)@),
        forall|i: int|
            0 <= i < old(energies)@.len() ==> #[trigger] final(energies)@[i] == if old(energies)@[i]
                < 0 {
                old(energies)@[i] + gain
            } else {
                old(energies)@[i] as int
            },
{
    if energyless_tick {
        return 0;
    }
    let mut max = i32::MIN;
    for i in 0..energies.len()
        invariant
            max == highest_negative(energies@, i as int),
    {
        if energies[i] < 0 && energies[i] > max {
            max = energies[i];
        }
    }
    proof {
        lemma_highest_negative(energies@, energies@.len() as int);
    }
    if max > i32::MIN {
        let gain = -max;
        let ghost before = energies@;
        let n = energies.len();
        for i in 0..n
            invariant
                n == before.len(),
                energies@.len() == before.len(),
                0 < gain,
                forall|j: int|
                    0 <= j < before.len() ==> #[trigger] energies@[j] == if j < i && before[j] < 0 {
                        before[j] + gain
                    } else {
                        before[j] as int
                    },
        {
            if energies[i] < 0 {
                energies.set(i, energies[i] + gain);
            }
        }
        gain
    } else {
        0
    }
}

/// After energy is regained, no one who was waiting has gone past ready,
/// and when anyone was waiting, the one closest to ready is now ready.
pub proof fn lemma_regain_readies_one(energies: Seq<i32>)
    requires
        exists|k: int| 0 <= k < energies.len() && energies[k] < 0 && energies[k] > i32::MIN,
    ensures
        forall|i: int|
            0 <= i < energies.len() && energies[i] < 0 ==> #[trigger] energies[i] + energy_gain(
                energies,
            ) <= 0,
        exists|k: int|
            0 <= k < energies.len() && energies[k] < 0 && energies[k] + energy_gain(energies)
                == 0,
{
    let n = energies.len() as int;
    lemma_highest_negative(energies, n);
    let k0 = choose|k: int| 0 <= k < energies.len() && energies[k] < 0 && energies[k] > i32::MIN;
    assert(energies[k0] <= highest_negative(energies, n));
}

} // verus!

use vstd::prelude::*;

verus! {

/// A patrolling mob's aggro decision for one tick.
#[derive(Clone, Copy, Debug, PartialEq, Eq, Structural)]
pub struct PatrolAggro {
    /// Whether the mob is aggroed after this tick's check.
    pub aggroed: bool,
    /// Whether the nearest player gets an initial threat entry.
    pub seed_nearest: bool,
}

/// Aggro check of a patrolling mob: an aggroed mob stays aggroed; otherwise
/// any threat (it took damage) aggroes it, and failing that a player within
/// aggro range does, and that player is seeded onto the threat list.
pub fn patrol_aggro(aggroed: bool, has_threat: bool, nearest_in_aggro_range: bool) -> (out: PatrolAggro)
    ensures
        out.aggroed == (aggroed || has_threat || nearest_in_aggro_range),
        out.seed_nearest == (!aggroed && !has_threat && nearest_in_aggro_range),
{
    if aggroed {
        PatrolAggro { aggroed: true, seed_nearest: false }
    } else if has_threat {
        PatrolAggro { aggroed: true, seed_nearest: false }
    } else if nearest_in_aggro_range {
        PatrolAggro { aggroed: true, seed_nearest: true }
    } else {
        PatrolAggro { aggroed: false, seed_nearest: false }
    }
}

/// Whether an always-aggressive mob seeds its nearest in-range player: only
/// while its threat list is empty.
pub fn aggro_seeds(threat_empty: bool, nearest_in_aggro_range: bool) -> (seed: bool)
    ensures
        seed == (threat_empty && nearest_in_aggro_range),
{
    threat_empty && nearest_in_aggro_range
}

/// What an aggroed mob does about its target this tick.
#[derive(Clone, Copy, Debug, PartialEq, Eq, Structural)]
pub enum Engagement {
    /// No reachable target: drop aggro, clear threat and target.
    Disengage,
    /// Close the distance.
    Chase,
    /// In melee range: shuffle around the target.
    Spread,
}

/// An aggroed mob's move: disengage without a target, chase one beyond melee
/// range, spread around one within it.
pub fn engagement(target_found: bool, beyond_melee: bool) -> (e: Engagement)
    ensures
        e == (if !target_found {
            Engagement::Disengage
        } else if beyond_melee {
            Engagement::Chase
        } else {
            Engagement::Spread
        }),
{
    if !target_found {
        Engagement::Disengage
    } else if beyond_melee {
        Engagement::Chase
    } else {
        Engagement::Spread
    }
}

/// The special a mob starts casting: the first in its list that is usable
/// this tick (off cooldown, with its target in reach), or none.
pub fn first_usable_special(usable: &Vec<bool>) -> (pick: Option<usize>)
    ensures
        match pick {
            Some(i) => i < usable@.len() && usable@[i as int]
                && forall|j: int| 0 <= j < i ==> !usable@[j],
            None => forall|j: int| 0 <= j < usable@.len() ==> !usable@[j],
        },
{
    let mut i: usize = 0;
    while i < usable.len()
        invariant
            i <= usable@.len(),
            forall|j: int| 0 <= j < i ==> !usable@[j],
        decreases usable.len() - i,
    {
        if usable[i] {
            return Some(i);
        }
        i = i + 1;
    }
    None
}

} // verus!

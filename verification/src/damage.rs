use vstd::prelude::*;

use crate::combat::{effective_ward_pid, CritStreak};
use crate::player::{RoleStance, SelectedMobOrPlayer};

verus! {

/// Where a damage event goes once attacker and target are classified.
#[derive(Clone, Copy, Debug, PartialEq, Eq, Structural)]
pub enum DamageRoute {
    /// A player hit a live enemy: damage, threat credit, damage number.
    PlayerToEnemy,
    /// An enemy hit a live player: mitigation, damage, disruption.
    EnemyToPlayer,
    /// Friendly fire, a dead target, or a target that is neither side.
    Dropped,
}

/// Route a damage event. The target is looked up as an enemy first, then as a
/// player; friendly fire (player on player, enemy on enemy) and hits on dead
/// targets are dropped, as is any target that is neither.
pub fn damage_route(
    attacker_is_player: bool,
    attacker_is_enemy: bool,
    target_is_enemy: bool,
    target_is_player: bool,
    target_alive: bool,
) -> (r: DamageRoute)
    ensures
        r == (if target_is_enemy {
            if attacker_is_player && target_alive { DamageRoute::PlayerToEnemy } else { DamageRoute::Dropped }
        } else if target_is_player {
            if attacker_is_enemy && target_alive { DamageRoute::EnemyToPlayer } else { DamageRoute::Dropped }
        } else {
            DamageRoute::Dropped
        }),
{
    if target_is_enemy {
        if !attacker_is_player || !target_alive {
            return DamageRoute::Dropped;
        }
        return DamageRoute::PlayerToEnemy;
    }
    if target_is_player {
        if !attacker_is_enemy || !target_alive {
            return DamageRoute::Dropped;
        }
        return DamageRoute::EnemyToPlayer;
    }
    DamageRoute::Dropped
}

/// What the damage system needs to know about a player who might be warding
/// the target of a hit.
#[derive(Clone, Copy, Debug)]
pub struct HealerView {
    pub player_id: u64,
    pub stance: Option<RoleStance>,
    pub instance: Option<u32>,
    pub selection: Option<SelectedMobOrPlayer>,
}

/// `h` wards the player `ward_pid` in instance `ward_instance`: it is in Heal
/// stance, both are in the same known instance, and its effective ward is
/// that player.
pub open spec fn wards(h: HealerView, ward_pid: u64, ward_instance: Option<u32>) -> bool {
    &&& h.stance == Some(RoleStance::Heal)
    &&& ward_instance is Some
    &&& h.instance == ward_instance
    &&& match h.selection {
        Some(SelectedMobOrPlayer::Player(pid)) => pid == ward_pid,
        Some(SelectedMobOrPlayer::Mob(_)) => h.player_id == ward_pid,
        None => false,
    }
}

/// Law: only a healer in Heal stance wards, and only a player of its own
/// known instance: the one it has selected, or itself while it has a mob
/// selected. A player in any other stance, or in none, never wards.
pub proof fn lemma_only_heal_stance_wards(h: HealerView, ward_pid: u64, ward_instance: Option<u32>)
    ensures
        wards(h, ward_pid, ward_instance) ==> h.stance == Some(RoleStance::Heal),
        wards(h, ward_pid, ward_instance) ==> ward_instance is Some && h.instance == ward_instance,
        h.stance != Some(RoleStance::Heal) ==> !wards(h, ward_pid, ward_instance),
        h.selection is None ==> !wards(h, ward_pid, ward_instance),
        h.stance == Some(RoleStance::Heal) && ward_instance is Some && h.instance == ward_instance ==> {
            &&& h.selection == Some(SelectedMobOrPlayer::Player(ward_pid)) ==> wards(h, ward_pid, ward_instance)
            &&& (h.selection matches Some(SelectedMobOrPlayer::Mob(_))) ==> (wards(h, ward_pid, ward_instance)
                <==> h.player_id == ward_pid)
        },
{
}

/// Law: every healer picked to share a hit is in Heal stance, and every Heal
/// stance healer that wards the target is picked.
pub proof fn lemma_warding_healers_are_heal_stance(healers: Seq<HealerView>, ward_pid: u64, ward_instance: Option<u32>)
    requires
        healers.len() <= usize::MAX,
    ensures
        forall|k: int| 0 <= k < warding_indices(healers, ward_pid, ward_instance).len() ==> {
            let i = #[trigger] warding_indices(healers, ward_pid, ward_instance)[k];
            &&& i < healers.len()
            &&& healers[i as int].stance == Some(RoleStance::Heal)
            &&& wards(healers[i as int], ward_pid, ward_instance)
        },
        forall|i: int| 0 <= i < healers.len() && #[trigger] wards(healers[i], ward_pid, ward_instance)
            ==> warding_indices(healers, ward_pid, ward_instance).contains(i as usize),
    decreases healers.len(),
{
    if healers.len() > 0 {
        let init = healers.drop_last();
        lemma_warding_healers_are_heal_stance(init, ward_pid, ward_instance);
        let rest = warding_indices(init, ward_pid, ward_instance);
        assert forall|i: int| 0 <= i < healers.len() && #[trigger] wards(healers[i], ward_pid, ward_instance)
            implies warding_indices(healers, ward_pid, ward_instance).contains(i as usize) by {
            if i < healers.len() - 1 {
                assert(init[i] == healers[i]);
                let k = choose|k: int| 0 <= k < rest.len() && rest[k] == i as usize;
                if wards(healers.last(), ward_pid, ward_instance) {
                    assert(rest.push((healers.len() - 1) as usize)[k] == i as usize);
                }
            } else {
                let out = rest.push((healers.len() - 1) as usize);
                assert(out[rest.len() as int] == i as usize);
            }
        }
        assert forall|k: int| 0 <= k < warding_indices(healers, ward_pid, ward_instance).len() implies {
            let i = #[trigger] warding_indices(healers, ward_pid, ward_instance)[k];
            &&& i < healers.len()
            &&& healers[i as int].stance == Some(RoleStance::Heal)
            &&& wards(healers[i as int], ward_pid, ward_instance)
        } by {
            let out = warding_indices(healers, ward_pid, ward_instance);
            if k < rest.len() {
                let i = rest[k];
                assert(i < init.len() && wards(init[i as int], ward_pid, ward_instance));
                assert(init[i as int] == healers[i as int]);
                assert(out[k] == i);
            } else {
                assert(wards(healers.last(), ward_pid, ward_instance));
                assert(out[k] == (healers.len() - 1) as usize);
            }
        }
    }
}

/// Whether `h` wards player `ward_pid` in instance `ward_instance`.
pub fn is_warding(h: &HealerView, ward_pid: u64, ward_instance: Option<u32>) -> (b: bool)
    ensures
        b == wards(*h, ward_pid, ward_instance),
{
    let heal = match h.stance {
        Some(RoleStance::Heal) => true,
        _ => false,
    };
    let same_instance = match (h.instance, ward_instance) {
        (Some(i), Some(t)) => i == t,
        _ => false,
    };
    let ward_matches = match effective_ward_pid(h.selection, h.player_id) {
        Some(w) => w == ward_pid,
        None => false,
    };
    heal && same_instance && ward_matches
}

/// Positions in `healers` of everyone warding `ward_pid` in `ward_instance`,
/// in order.
pub open spec fn warding_indices(healers: Seq<HealerView>, ward_pid: u64, ward_instance: Option<u32>) -> Seq<usize>
    decreases healers.len(),
{
    if healers.len() == 0 {
        Seq::empty()
    } else {
        let rest = warding_indices(healers.drop_last(), ward_pid, ward_instance);
        if wards(healers.last(), ward_pid, ward_instance) {
            rest.push((healers.len() - 1) as usize)
        } else {
            rest
        }
    }
}

/// The healers that share a hit on `ward_pid`, as positions in `healers`.
pub fn warding_healers(healers: &Vec<HealerView>, ward_pid: u64, ward_instance: Option<u32>) -> (idx: Vec<usize>)
    ensures
        idx@ == warding_indices(healers@, ward_pid, ward_instance),
        forall|k: int| 0 <= k < idx@.len() ==> (#[trigger] idx@[k]) < healers@.len()
            && wards(healers@[idx@[k] as int], ward_pid, ward_instance),
{
    let mut idx: Vec<usize> = Vec::new();
    let mut i: usize = 0;
    while i < healers.len()
        invariant
            i <= healers.len(),
            idx@ == warding_indices(healers@.take(i as int), ward_pid, ward_instance),
            forall|k: int| 0 <= k < idx@.len() ==> (#[trigger] idx@[k]) < i
                && wards(healers@[idx@[k] as int], ward_pid, ward_instance),
        decreases healers.len() - i,
    {
        assert(healers@.take(i as int + 1).drop_last() =~= healers@.take(i as int));
        if is_warding(&healers[i], ward_pid, ward_instance) {
            idx.push(i);
        }
        i = i + 1;
    }
    assert(healers@.take(healers.len() as int) =~= healers@);
    idx
}

/// A damage number reaches the attacker unless attacker and target are known
/// to be in different instances (a lingering DoT after an instance switch).
pub fn damage_number_shown(attacker_instance: Option<u32>, target_instance: Option<u32>) -> (b: bool)
    ensures
        b == !(attacker_instance is Some && target_instance is Some && attacker_instance != target_instance),
{
    match (attacker_instance, target_instance) {
        (Some(a), Some(t)) => a == t,
        _ => true,
    }
}

/// One mob's engagement: its instance and the players on its threat list.
#[derive(Clone, Debug)]
pub struct MobEngagement {
    pub instance: u32,
    pub engaged: Vec<u64>,
}

/// Some mob in `instance` has `player` on its threat list.
pub open spec fn engaged_in(player: u64, instance: u32, mobs: Seq<MobEngagement>) -> bool {
    exists|i: int| 0 <= i < mobs.len() && (#[trigger] mobs[i]).instance == instance && mobs[i].engaged@.contains(player)
}

fn on_list(player: u64, engaged: &Vec<u64>) -> (b: bool)
    ensures
        b == engaged@.contains(player),
{
    let mut i: usize = 0;
    while i < engaged.len()
        invariant
            i <= engaged.len(),
            forall|j: int| 0 <= j < i ==> engaged@[j] != player,
        decreases engaged.len() - i,
    {
        if engaged[i] == player {
            assert(engaged@[i as int] == player);
            return true;
        }
        i = i + 1;
    }
    false
}

/// Whether `player` is in combat in `instance`: some mob there has it on its
/// threat list.
pub fn in_combat(player: u64, instance: u32, mobs: &Vec<MobEngagement>) -> (b: bool)
    ensures
        b == engaged_in(player, instance, mobs@),
{
    let mut i: usize = 0;
    while i < mobs.len()
        invariant
            i <= mobs.len(),
            forall|j: int| 0 <= j < i ==> !((#[trigger] mobs@[j]).instance == instance && mobs@[j].engaged@.contains(player)),
        decreases mobs.len() - i,
    {
        if mobs[i].instance == instance && on_list(player, &mobs[i].engaged) {
            return true;
        }
        i = i + 1;
    }
    false
}

/// Out-of-combat maintenance of a healer's crit streak, for one tick: a healer
/// with no threat on any mob of its instance (or with no instance) loses its
/// crit streak. Returns whether the healer is out of combat, i.e. whether its
/// mitigation pool bleeds this tick.
pub fn decay_crit_streak(
    streak: &mut CritStreak,
    healer: u64,
    healer_instance: Option<u32>,
    mobs: &Vec<MobEngagement>,
) -> (out_of_combat: bool)
    ensures
        out_of_combat == !(healer_instance matches Some(inst) && engaged_in(healer, inst, mobs@)),
        final(streak).last_ward == old(streak).last_ward,
        final(streak).count == if out_of_combat { 0 } else { old(streak).count },
{
    let engaged = match healer_instance {
        Some(inst) => in_combat(healer, inst, mobs),
        None => false,
    };
    if !engaged {
        streak.count = 0;
    }
    !engaged
}

/// Members (by link id) of the groups on either side of a combat-log line:
/// everyone whose group is the attacker's or the target's group.
pub open spec fn log_audience(attacker_group: Option<u32>, target_group: Option<u32>, members: Seq<(u64, u32)>) -> Seq<u64>
    decreases members.len(),
{
    if members.len() == 0 {
        Seq::empty()
    } else {
        let rest = log_audience(attacker_group, target_group, members.drop_last());
        let (link, g) = members.last();
        if Some(g) == attacker_group || Some(g) == target_group {
            rest.push(link)
        } else {
            rest
        }
    }
}

/// Law of the combat-log audience, whichever side has a group: every member
/// of the target's group receives the line (also when the attacker is an
/// enemy without a group), every member of the attacker's group does, and
/// nobody else does.
pub proof fn lemma_log_reaches_both_parties(attacker_group: Option<u32>, target_group: Option<u32>, members: Seq<(u64, u32)>)
    ensures
        forall|i: int| 0 <= i < members.len() && target_group == Some((#[trigger] members[i]).1)
            ==> log_audience(attacker_group, target_group, members).contains(members[i].0),
        forall|i: int| 0 <= i < members.len() && attacker_group == Some((#[trigger] members[i]).1)
            ==> log_audience(attacker_group, target_group, members).contains(members[i].0),
        forall|k: int| 0 <= k < log_audience(attacker_group, target_group, members).len() ==> exists|i: int|
            0 <= i < members.len() && (#[trigger] members[i]).0
                == #[trigger] log_audience(attacker_group, target_group, members)[k]
            && (attacker_group == Some(members[i].1) || target_group == Some(members[i].1)),
    decreases members.len(),
{
    if members.len() > 0 {
        let init = members.drop_last();
        lemma_log_reaches_both_parties(attacker_group, target_group, init);
        let rest = log_audience(attacker_group, target_group, init);
        let out = log_audience(attacker_group, target_group, members);
        let last = members.last();
        assert forall|i: int| 0 <= i < members.len()
            && (target_group == Some(members[i].1) || attacker_group == Some(members[i].1))
            implies #[trigger] out.contains(members[i].0) by {
            if i < members.len() - 1 {
                assert(init[i] == members[i]);
                let k = choose|k: int| 0 <= k < rest.len() && rest[k] == init[i].0;
                if Some(last.1) == attacker_group || Some(last.1) == target_group {
                    assert(out[k] == rest[k]);
                }
            } else {
                assert(out[rest.len() as int] == last.0);
            }
        }
        assert forall|k: int| 0 <= k < out.len() implies exists|i: int|
            0 <= i < members.len() && (#[trigger] members[i]).0 == #[trigger] out[k]
            && (attacker_group == Some(members[i].1) || target_group == Some(members[i].1)) by {
            if k < rest.len() {
                let i = choose|i: int| 0 <= i < init.len() && (#[trigger] init[i]).0 == rest[k]
                    && (attacker_group == Some(init[i].1) || target_group == Some(init[i].1));
                assert(members[i] == init[i]);
                assert(out[k] == rest[k]);
            } else {
                assert(members[members.len() - 1] == last);
            }
        }
    }
}

/// Who receives a combat-log line: every member `(link, group)` in the
/// attacker's or the target's group, in order. Nobody when neither side has a
/// group.
pub fn combat_log_recipients(attacker_group: Option<u32>, target_group: Option<u32>, members: &Vec<(u64, u32)>) -> (out: Vec<u64>)
    ensures
        out@ == log_audience(attacker_group, target_group, members@),
        attacker_group is None && target_group is None ==> out@.len() == 0,
{
    let mut out: Vec<u64> = Vec::new();
    let mut i: usize = 0;
    while i < members.len()
        invariant
            i <= members.len(),
            out@ == log_audience(attacker_group, target_group, members@.take(i as int)),
            attacker_group is None && target_group is None ==> out@.len() == 0,
        decreases members.len() - i,
    {
        assert(members@.take(i as int + 1).drop_last() =~= members@.take(i as int));
        let (link, g) = members[i];
        let hit = match attacker_group {
            Some(a) => a == g,
            None => false,
        } || match target_group {
            Some(t) => t == g,
            None => false,
        };
        if hit {
            out.push(link);
        }
        i = i + 1;
    }
    assert(members@.take(members.len() as int) =~= members@);
    out
}

} // verus!

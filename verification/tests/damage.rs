use triskelion::combat::CritStreak;
use triskelion::damage::{
    combat_log_recipients, damage_number_shown, damage_route, decay_crit_streak, in_combat,
    is_warding, warding_healers, DamageRoute, HealerView, MobEngagement,
};
use triskelion::player::{RoleStance, SelectedMobOrPlayer};

#[test]
fn player_to_enemy_hits_live_enemies_only() {
    assert_eq!(damage_route(true, false, true, false, true), DamageRoute::PlayerToEnemy);
    assert_eq!(damage_route(true, false, true, false, false), DamageRoute::Dropped, "dead enemy ignored");
}

#[test]
fn enemy_to_player_hits_live_players_only() {
    assert_eq!(damage_route(false, true, false, true, true), DamageRoute::EnemyToPlayer);
    assert_eq!(damage_route(false, true, false, true, false), DamageRoute::Dropped, "dead player ignored");
}

#[test]
fn friendly_fire_and_unknown_targets_are_dropped() {
    assert_eq!(damage_route(true, false, false, true, true), DamageRoute::Dropped, "player to player");
    assert_eq!(damage_route(false, true, true, false, true), DamageRoute::Dropped, "enemy to enemy");
    assert_eq!(damage_route(true, false, false, false, true), DamageRoute::Dropped, "stale target");
}

fn healer(pid: u64, stance: Option<RoleStance>, inst: Option<u32>, sel: Option<SelectedMobOrPlayer>) -> HealerView {
    HealerView { player_id: pid, stance, instance: inst, selection: sel }
}

#[test]
fn only_heal_stance_healers_in_the_same_instance_targeting_the_ward_count() {
    let ward = 1;
    let healers = vec![
        healer(2, Some(RoleStance::Heal), Some(1), Some(SelectedMobOrPlayer::Player(1))),
        healer(3, Some(RoleStance::Tank), Some(1), Some(SelectedMobOrPlayer::Player(1))),
        healer(4, Some(RoleStance::Heal), Some(1), Some(SelectedMobOrPlayer::Player(9))),
        healer(5, Some(RoleStance::Heal), Some(2), Some(SelectedMobOrPlayer::Player(1))),
        healer(6, Some(RoleStance::Heal), Some(1), None),
        healer(7, Some(RoleStance::Heal), Some(1), Some(SelectedMobOrPlayer::Player(1))),
    ];
    assert_eq!(warding_healers(&healers, ward, Some(1)), vec![0, 5]);
    assert!(warding_healers(&healers, ward, None).is_empty(), "no instance, no mitigation");
}

#[test]
fn self_ward_with_mob_target() {
    let h = healer(4, Some(RoleStance::Heal), Some(3), Some(SelectedMobOrPlayer::Mob(77)));
    assert!(is_warding(&h, 4, Some(3)));
    assert!(!is_warding(&h, 5, Some(3)));
}

#[test]
fn damage_numbers_suppressed_across_instances() {
    assert!(damage_number_shown(Some(1), Some(1)));
    assert!(!damage_number_shown(Some(1), Some(2)));
    assert!(damage_number_shown(None, Some(2)));
    assert!(damage_number_shown(Some(1), None));
}

fn mobs() -> Vec<MobEngagement> {
    vec![
        MobEngagement { instance: 1, engaged: vec![10, 11] },
        MobEngagement { instance: 2, engaged: vec![12] },
    ]
}

#[test]
fn in_combat_needs_a_mob_of_the_same_instance() {
    assert!(in_combat(10, 1, &mobs()));
    assert!(!in_combat(12, 1, &mobs()));
    assert!(in_combat(12, 2, &mobs()));
    assert!(!in_combat(13, 2, &mobs()));
}

#[test]
fn streak_resets_when_healer_has_no_threat() {
    let mut streak = CritStreak { count: 2, last_ward: Some(1) };
    assert!(decay_crit_streak(&mut streak, 2, Some(1), &vec![]));
    assert_eq!(streak.count, 0, "streak resets out of combat");
    assert_eq!(streak.last_ward, Some(1));
}

#[test]
fn streak_kept_while_healer_has_threat() {
    let mut streak = CritStreak { count: 2, last_ward: Some(1) };
    assert!(!decay_crit_streak(&mut streak, 11, Some(1), &mobs()));
    assert_eq!(streak.count, 2);
    assert!(decay_crit_streak(&mut streak, 11, None, &mobs()), "no instance means out of combat");
    assert_eq!(streak.count, 0);
}

#[test]
fn combat_log_goes_to_both_sides_groups() {
    let members = vec![(100, 1), (101, 2), (102, 1), (103, 3)];
    assert_eq!(combat_log_recipients(Some(1), None, &members), vec![100, 102]);
    assert_eq!(combat_log_recipients(Some(1), Some(3), &members), vec![100, 102, 103]);
    assert!(combat_log_recipients(None, None, &members).is_empty());
}

// Routing, warding and in-combat decisions of the damage and mitigation
// rules, on the situations the server's system scenarios set up.

#[test]
fn route_drops_player_hit_on_dead_enemy() {
    // Player attacker, enemy target at 0 HP.
    assert_eq!(damage_route(true, false, true, false, false), DamageRoute::Dropped, "no threat should be credited for damage on a corpse");
}

#[test]
fn route_drops_enemy_hit_on_dead_player() {
    assert_eq!(damage_route(false, true, false, true, false), DamageRoute::Dropped, "no posthumous damage");
}

#[test]
fn route_drops_player_on_player() {
    assert_eq!(damage_route(true, false, false, true, true), DamageRoute::Dropped, "friendly fire must not damage allies");
}

#[test]
fn route_drops_enemy_on_enemy() {
    assert_eq!(damage_route(false, true, true, false, true), DamageRoute::Dropped, "enemy-on-enemy is not a feature");
}

#[test]
fn tank_stance_healer_does_not_ward() {
    let healers = vec![healer(2, Some(RoleStance::Tank), Some(1), Some(SelectedMobOrPlayer::Player(1)))];
    assert!(warding_healers(&healers, 1, Some(1)).is_empty(), "no mitigation in Tank stance");
}

#[test]
fn healer_selecting_another_player_does_not_ward() {
    let healers = vec![healer(3, Some(RoleStance::Heal), Some(1), Some(SelectedMobOrPlayer::Player(2)))];
    assert!(warding_healers(&healers, 1, Some(1)).is_empty(), "no mitigation for non-warded player");
}

#[test]
fn healer_selecting_a_mob_wards_itself() {
    let healers = vec![healer(1, Some(RoleStance::Heal), Some(1), Some(SelectedMobOrPlayer::Mob(99)))];
    assert_eq!(warding_healers(&healers, 1, Some(1)), vec![0], "a healer targeting a mob wards itself");
}

#[test]
fn healer_in_another_instance_does_not_ward() {
    let healers = vec![healer(2, Some(RoleStance::Heal), Some(2), Some(SelectedMobOrPlayer::Player(1)))];
    assert!(warding_healers(&healers, 1, Some(1)).is_empty(), "no cross-instance mitigation");
}

#[test]
fn ward_on_a_mob_threat_list_is_in_combat() {
    let mobs = vec![MobEngagement { instance: 1, engaged: vec![1000] }];
    assert!(in_combat(1000, 1, &mobs));
}

#[test]
fn ward_without_engaged_mob_is_out_of_combat() {
    assert!(!in_combat(1000, 1, &vec![]), "out-of-combat commits do not fill the pool");
}

#[test]
fn healer_without_threat_is_out_of_combat() {
    let mut streak = CritStreak::default();
    assert!(decay_crit_streak(&mut streak, 2000, Some(1), &vec![]), "no mob engaged → pool bleeds");
}

#[test]
fn healer_with_threat_stays_in_combat() {
    let mut streak = CritStreak::default();
    let mobs = vec![MobEngagement { instance: 1, engaged: vec![2000] }];
    assert!(!decay_crit_streak(&mut streak, 2000, Some(1), &mobs), "pool unchanged while healer has threat on a mob");
}

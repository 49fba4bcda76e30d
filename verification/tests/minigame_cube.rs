use std::f32::consts::{FRAC_PI_2, PI};

use triskelion::minigame::arc::{ArcState, CUBE_CRITICAL_MASS_CAP};
use triskelion::minigame::cube::{
    activate_cube, cancel_cube, cube_should_activate, finish_rotation, process_cube_collect,
    resolve_cube, swap_face, BonusKind, BonusTier, CubeEdge, CubeState, PhysicalBonus,
    CUBE_ROTATIONS_PER_ACTIVATION,
};
use triskelion::player::RoleStance;

/// Half-width of the collect window around a full fill.
const CUBE_COLLECT_WINDOW: f32 = 0.18;

fn timing_precision(fill_progress: f32) -> Option<f32> {
    let offset = (fill_progress - 1.0).abs();
    if offset > CUBE_COLLECT_WINDOW {
        None
    } else {
        Some(1.0 - offset / CUBE_COLLECT_WINDOW)
    }
}

fn default_arc() -> ArcState<f32> {
    ArcState::new(FRAC_PI_2, PI, FRAC_PI_2)
}

fn populated_active_cube() -> CubeState<f32> {
    let mut cube = CubeState::default();
    cube.active = true;
    cube.rotations_remaining = CUBE_ROTATIONS_PER_ACTIVATION;
    cube.current_face = [
        Some(PhysicalBonus::BaseDamage(10.0)),
        Some(PhysicalBonus::BaseDamage(10.0)),
        Some(PhysicalBonus::BaseDamage(10.0)),
    ];
    cube
}

fn collect(cube: &mut CubeState<f32>, edge: CubeEdge) -> bool {
    let precision = timing_precision(cube.fill_progress);
    process_cube_collect(cube, edge, precision)
}

fn some_face() -> [Option<PhysicalBonus<f32>>; 3] {
    [
        Some(PhysicalBonus::BaseDamage(8.0)),
        Some(PhysicalBonus::AggroBonus(0.15)),
        Some(PhysicalBonus::CooldownReduction(0.5)),
    ]
}

#[test]
fn activate_cube_initializes_state_and_preserves_streak() {
    let mut arc = default_arc();
    arc.streak = 4;
    arc.commit.history.extend([0.5, 0.5, 0.5, 0.5]);
    let mut cube = CubeState::default();

    activate_cube(&mut cube, &mut arc, 0.5, some_face());

    assert!(cube.active);
    assert_eq!(cube.fill_progress, 0.0);
    assert_eq!(cube.rotations_remaining, CUBE_ROTATIONS_PER_ACTIVATION);
    assert!(cube.current_face.iter().all(Option::is_some));
    assert!(cube.collected.is_empty());
    assert_eq!(arc.streak, 4, "streak must survive activation");
    assert_eq!(arc.streak_at_last_activation, 4);
}

#[test]
fn collect_in_window_records_bonus_and_starts_animation() {
    let mut cube = populated_active_cube();
    cube.fill_progress = 1.0;

    let ok = collect(&mut cube, CubeEdge::Bottom);

    assert!(ok);
    assert_eq!(cube.collected.len(), 1);
    assert_eq!(cube.rotating_edge, Some(CubeEdge::Bottom));
    assert_eq!(cube.rotations_remaining, CUBE_ROTATIONS_PER_ACTIVATION - 1);
    assert!(cube.new_face_pending);
}

#[test]
fn collect_outside_window_is_rejected() {
    let mut cube = populated_active_cube();
    cube.fill_progress = 0.5;

    let ok = collect(&mut cube, CubeEdge::Bottom);

    assert!(!ok);
    assert!(cube.collected.is_empty());
    assert!(cube.rotating_edge.is_none());
}

#[test]
fn collect_during_animation_is_rejected() {
    let mut cube = populated_active_cube();
    cube.fill_progress = 1.0;
    cube.rotating_edge = Some(CubeEdge::Left);

    let ok = collect(&mut cube, CubeEdge::Bottom);

    assert!(!ok);
    assert_eq!(cube.collected.len(), 0);
}

#[test]
fn cancel_cube_clears_collected_and_deactivates() {
    let mut cube = populated_active_cube();
    cube.collected.push((PhysicalBonus::BaseDamage(5.0), 1.0));

    cancel_cube(&mut cube);

    assert!(!cube.active);
    assert!(cube.collected.is_empty());
    assert_eq!(cube.rotations_remaining, 0);
}

#[test]
fn cube_activates_when_streak_hits_critical_mass_in_tank_stance() {
    let mut arc = default_arc();
    arc.streak = CUBE_CRITICAL_MASS_CAP;
    arc.streak_at_last_activation = 0;
    let mut cube: CubeState<f32> = CubeState::default();

    assert!(cube_should_activate(&cube, &arc, Some(RoleStance::Tank)));
    activate_cube(&mut cube, &mut arc, 0.0, some_face());

    assert!(cube.active, "cube should activate at critical mass");
    assert_eq!(arc.streak_at_last_activation, CUBE_CRITICAL_MASS_CAP, "activation must snapshot the streak baseline");
    assert_eq!(arc.streak, CUBE_CRITICAL_MASS_CAP, "streak survives activation");
}

#[test]
fn cube_does_not_activate_outside_tank_or_heal_stance() {
    let mut arc = default_arc();
    arc.streak = CUBE_CRITICAL_MASS_CAP * 5;
    let cube: CubeState<f32> = CubeState::default();

    assert!(!cube_should_activate(&cube, &arc, None), "cube must not activate without Tank/Heal stance");
    assert!(!cube_should_activate(&cube, &arc, Some(RoleStance::Dps)));
    assert!(cube_should_activate(&cube, &arc, Some(RoleStance::Heal)));
}

#[test]
fn active_cube_does_not_reactivate() {
    let mut arc = default_arc();
    arc.streak = CUBE_CRITICAL_MASS_CAP * 5;
    let cube = populated_active_cube();
    assert!(!cube_should_activate(&cube, &arc, Some(RoleStance::Tank)));
    arc.streak_at_last_activation = arc.streak - 1;
    let idle: CubeState<f32> = CubeState::default();
    assert!(!cube_should_activate(&idle, &arc, Some(RoleStance::Tank)));
}

#[test]
fn collect_on_empty_edge_is_rejected() {
    let mut cube = populated_active_cube();
    cube.fill_progress = 1.0;
    cube.current_face[2] = None;
    assert!(!collect(&mut cube, CubeEdge::Right));
    assert!(cube.collected.is_empty());
}

#[test]
fn collect_records_precision_from_timing() {
    let mut cube = populated_active_cube();
    cube.fill_progress = 1.09;
    assert!(collect(&mut cube, CubeEdge::Left));
    let (bonus, precision) = cube.collected[0];
    assert_eq!(bonus, PhysicalBonus::BaseDamage(10.0));
    assert!((precision - 0.5).abs() < 1e-4);
}

#[test]
fn resolve_keeps_collected_for_payout() {
    let mut cube = populated_active_cube();
    cube.collected.push((PhysicalBonus::Healing(20.0), 0.8));
    resolve_cube(&mut cube);
    assert!(!cube.active);
    assert_eq!(cube.current_face, [None, None, None]);
    assert_eq!(cube.collected.len(), 1);
}

#[test]
fn face_swap_then_rotation_end_cycles_and_resolves() {
    let mut cube = populated_active_cube();
    cube.rotations_remaining = 1;
    cube.fill_progress = 1.0;
    assert!(collect(&mut cube, CubeEdge::Left));
    assert_eq!(cube.rotations_remaining, 0);
    swap_face(&mut cube, some_face());
    assert!(!cube.new_face_pending);
    assert_eq!(cube.current_face, [None, None, None]);
    finish_rotation(&mut cube);
    assert!(!cube.active);
    assert!(cube.rotating_edge.is_none());
    assert_eq!(cube.collected.len(), 1);

    let mut cube = populated_active_cube();
    cube.fill_progress = 1.0;
    assert!(collect(&mut cube, CubeEdge::Right));
    swap_face(&mut cube, some_face());
    assert_eq!(cube.current_face, some_face());
    finish_rotation(&mut cube);
    assert!(cube.active);
    assert_eq!(cube.fill_progress, 0.0);
}

#[test]
fn bonus_labels_and_kinds() {
    assert_eq!(PhysicalBonus::BaseDamage(1.0_f32).short_label(), "DMG");
    assert_eq!(PhysicalBonus::DamageOverTime { damage_per_second: 1.0_f32, duration_secs: 2.0 }.short_label(), "DoT");
    assert_eq!(PhysicalBonus::StunOnHit { duration_secs: 1.0_f32 }.short_label(), "STUN");
    assert_eq!(PhysicalBonus::CooldownReduction(0.5_f32).short_label(), "CDR");
    assert_eq!(PhysicalBonus::Healing(20.0_f32).short_label(), "HEAL");
    assert_eq!(PhysicalBonus::AggroBonus(0.1_f32).short_label(), "AGGRO");
    assert_eq!(PhysicalBonus::Healing(20.0_f32).kind(), BonusKind::Healing);
}

#[test]
fn tier_steps_down_one_level() {
    assert_eq!(BonusTier::Premium.step_down(), BonusTier::Mid);
    assert_eq!(BonusTier::Mid.step_down(), BonusTier::Default);
    assert_eq!(BonusTier::Default.step_down(), BonusTier::Default);
}

#[test]
fn edge_indices_follow_face_order() {
    assert_eq!(CubeEdge::Left.index(), 0);
    assert_eq!(CubeEdge::Bottom.index(), 1);
    assert_eq!(CubeEdge::Right.index(), 2);
}

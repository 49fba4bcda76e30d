use std::f32::consts::{FRAC_PI_2, PI};

use triskelion::minigame::arc::{
    process_arc_commit, shared_delta, track_apex, winning_arc, ArcState, CommitZone,
    QUALITY_HISTORY_CAPACITY,
};
use triskelion::minigame::commit_tracker::CommitTracker;

fn default_arc() -> ArcState<f32> {
    ArcState::new(FRAC_PI_2, PI, FRAC_PI_2)
}

fn arc_at_proximity(p: f32) -> ArcState<f32> {
    let mut arc = default_arc();
    arc.theta = FRAC_PI_2 + arc.amplitude * p;
    arc
}

/// Zone of the dot by its proximity to the apex.
fn zone_of(arc: &ArcState<f32>) -> CommitZone {
    let proximity = (arc.theta - FRAC_PI_2).abs() / arc.amplitude;
    if proximity < 0.2 {
        CommitZone::Nadir
    } else if proximity > 0.8 {
        CommitZone::Apex
    } else {
        CommitZone::Middle
    }
}

/// Commit quality: dot speed relative to peak speed.
fn quality_of(arc: &ArcState<f32>) -> f32 {
    let dot_vel = arc.amplitude * arc.omega * (arc.omega * arc.time + arc.phase).cos()
        + arc.disruption_velocity;
    let peak_vel = arc.amplitude * arc.omega;
    (dot_vel.abs() / peak_vel).min(1.0)
}

fn commit(arc: &mut ArcState<f32>) {
    let q = quality_of(arc);
    let z = zone_of(arc);
    process_arc_commit(arc, q, z);
}

/// Continuous part of one simulation tick; returns whether the dot is at the apex.
fn advance_motion(arc: &mut ArcState<f32>, dt: f32) -> bool {
    arc.disruption_velocity *= (-dt * 0.5_f32).exp();
    arc.phase += arc.disruption_velocity * dt;
    arc.time += dt;
    arc.theta = FRAC_PI_2 + arc.amplitude * (arc.omega * arc.time + arc.phase).sin();
    (arc.theta - FRAC_PI_2).abs() / arc.amplitude >= 0.9
}

fn tick_arc(arc: &mut ArcState<f32>, dt: f32) {
    let at_apex = advance_motion(arc, dt);
    track_apex(arc, at_apex);
}

#[test]
fn close_zone_commit_increments_streak() {
    let mut arc = arc_at_proximity(0.0);
    arc.streak = 3;
    commit(&mut arc);
    assert_eq!(arc.streak, 4);
    assert!(arc.commit.in_lockout);
}

#[test]
fn far_zone_commit_resets_streak_and_activation_baseline() {
    let mut arc = arc_at_proximity(0.9);
    arc.streak = 7;
    arc.streak_at_last_activation = 4;
    commit(&mut arc);
    assert_eq!(arc.streak, 0);
    assert_eq!(arc.streak_at_last_activation, 0);
}

#[test]
fn mid_zone_commit_neither_increments_nor_resets() {
    let mut arc = arc_at_proximity(0.5);
    arc.streak = 3;
    arc.streak_at_last_activation = 1;
    commit(&mut arc);
    assert_eq!(arc.streak, 3);
    assert_eq!(arc.streak_at_last_activation, 1);
}

#[test]
fn commit_during_lockout_is_noop() {
    let mut arc = arc_at_proximity(0.0);
    arc.streak = 2;
    arc.commit.in_lockout = true;
    let before = arc.clone();
    commit(&mut arc);
    assert_eq!(arc, before);
}

#[test]
fn any_commit_clears_idle_apex_counter() {
    let mut arc = arc_at_proximity(0.5);
    arc.apex_visits_since_commit = 1;
    commit(&mut arc);
    assert_eq!(arc.apex_visits_since_commit, 0);
}

#[test]
fn two_idle_apex_visits_break_streak() {
    // omega = π → period 2 s → two apex crossings per oscillation.
    let mut arc = default_arc();
    arc.streak = 5;
    arc.streak_at_last_activation = 5;
    for _ in 0..130 {
        tick_arc(&mut arc, 1.0 / 60.0);
    }
    assert_eq!(arc.streak, 0);
    assert_eq!(arc.streak_at_last_activation, 0);
}

#[test]
fn tick_arc_states_breaks_idle_streak_after_two_apex_visits() {
    let mut arc = default_arc();
    arc.streak = 5;
    arc.streak_at_last_activation = 5;
    for _ in 0..130 {
        tick_arc(&mut arc, (1.0_f64 / 60.0) as f32);
    }
    assert_eq!(arc.streak, 0, "idle arc should break streak after two apex visits");
    assert_eq!(arc.streak_at_last_activation, 0);
}

#[test]
fn new_arc_starts_idle() {
    let arc = default_arc();
    assert_eq!(arc.streak, 0);
    assert_eq!(arc.phase, 0.0);
    assert_eq!(arc.last_commit_theta, FRAC_PI_2);
    assert!(!arc.commit.in_lockout);
    assert!(arc.commit.history.is_empty());
}

#[test]
fn commit_records_quality_newest_first_and_theta() {
    let mut arc = arc_at_proximity(0.1);
    process_arc_commit(&mut arc, 0.25, CommitZone::Nadir);
    assert_eq!(arc.commit.last_quality, 0.25);
    assert_eq!(arc.last_commit_theta, arc.theta);
    arc.commit.in_lockout = false;
    process_arc_commit(&mut arc, 0.75, CommitZone::Middle);
    assert_eq!(arc.commit.history.iter().copied().collect::<Vec<f32>>(), vec![0.75, 0.25]);
}

#[test]
fn history_never_outgrows_its_capacity() {
    let mut arc = default_arc();
    for i in 0..(QUALITY_HISTORY_CAPACITY + 5) {
        arc.commit.in_lockout = false;
        process_arc_commit(&mut arc, i as f32, CommitZone::Middle);
    }
    assert_eq!(arc.commit.history.len(), QUALITY_HISTORY_CAPACITY as usize);
    assert_eq!(arc.commit.history[0], (QUALITY_HISTORY_CAPACITY + 4) as f32);
}

#[test]
fn rising_edge_releases_lockout_and_counts_once() {
    let mut arc = default_arc();
    arc.commit.in_lockout = true;
    arc.streak = 3;
    track_apex(&mut arc, true);
    assert!(!arc.commit.in_lockout);
    assert_eq!(arc.apex_visits_since_commit, 1);
    // Staying at the apex is not a new rising edge.
    track_apex(&mut arc, true);
    assert_eq!(arc.apex_visits_since_commit, 1);
    assert_eq!(arc.streak, 3);
    track_apex(&mut arc, false);
    track_apex(&mut arc, true);
    assert_eq!(arc.apex_visits_since_commit, 2);
    assert_eq!(arc.streak, 0);
}

#[test]
fn activation_delta_saturates_at_zero() {
    let mut arc = default_arc();
    arc.streak = 2;
    arc.streak_at_last_activation = 5;
    assert_eq!(arc.activation_delta(), 0);
    arc.streak = 9;
    assert_eq!(arc.activation_delta(), 4);
}

#[test]
fn winning_arc_prefers_strictly_higher_secondary() {
    let mut p = default_arc();
    let mut s = default_arc();
    p.streak = 3;
    s.streak = 4;
    assert_eq!(winning_arc(&p, &s).streak, 4);
    assert_eq!(shared_delta(&p, &s), 4);
}

#[test]
fn commit_tracker_push_drops_oldest() {
    let mut t: CommitTracker<f32> = CommitTracker::with_capacity(2);
    t.push(1.0, 2);
    t.push(2.0, 2);
    t.push(3.0, 2);
    assert_eq!(t.history.iter().copied().collect::<Vec<f32>>(), vec![3.0, 2.0]);
    assert_eq!(t.last_quality, 3.0);
    assert!(!t.in_lockout);
}

#[test]
fn second_commit_waits_for_the_next_apex() {
    let mut arc = arc_at_proximity(0.0);
    process_arc_commit(&mut arc, 0.9, CommitZone::Nadir);
    assert_eq!(arc.streak, 1);
    let after_first = arc.clone();
    process_arc_commit(&mut arc, 0.9, CommitZone::Nadir);
    assert_eq!(arc, after_first, "locked out until the apex");
    track_apex(&mut arc, true);
    assert!(!arc.commit.in_lockout);
    process_arc_commit(&mut arc, 0.9, CommitZone::Nadir);
    assert_eq!(arc.streak, 2);
    assert_eq!(arc.activation_delta(), 2);
    arc.commit.in_lockout = false;
    process_arc_commit(&mut arc, 0.9, CommitZone::Apex);
    assert_eq!(arc.activation_delta(), 0);
}

#[test]
fn overfull_history_is_truncated_to_capacity_on_commit() {
    let mut arc = arc_at_proximity(0.5);
    for i in 0..(QUALITY_HISTORY_CAPACITY + 1) {
        arc.commit.history.push_back(i as f32);
    }
    assert_eq!(arc.commit.history.len(), QUALITY_HISTORY_CAPACITY as usize + 1);
    process_arc_commit(&mut arc, 0.5, CommitZone::Middle);
    assert_eq!(arc.commit.history.len(), QUALITY_HISTORY_CAPACITY as usize);
    assert_eq!(arc.commit.history[0], 0.5);
    assert_eq!(arc.commit.history[1], 0.0);
}

#[test]
fn commit_tracker_truncates_to_a_smaller_capacity() {
    let mut t: CommitTracker<f32> = CommitTracker::with_capacity(5);
    for q in [1.0, 2.0, 3.0, 4.0, 5.0] {
        t.push(q, 5);
    }
    t.push(6.0, 2);
    assert_eq!(t.history.iter().copied().collect::<Vec<f32>>(), vec![6.0, 5.0]);
}

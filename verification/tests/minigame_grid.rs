use std::collections::VecDeque;
use std::f32::consts::{FRAC_PI_2, PI};

use triskelion::minigame::arc::{shared_delta, winning_arc, ArcState, SecondaryArcState, GRID_CRITICAL_MASS_CAP};
use triskelion::minigame::cube::PhysicalBonus;
use triskelion::minigame::grid::{
    activate_grid, cancel_grid, grid_activation_request, is_exit_step, layout_fits, most_frequent_bonus_type,
    process_grid_move, sample_grid_cols, sample_grid_rows, sample_inclusive_range,
    settle_resolved_grid, DpsGridTrigger, GridDir, GridEdge, GridNode, GridResolution, GridState,
    GRID_COLS_MAX, GRID_COLS_MIN, GRID_ROWS_MAX, GRID_ROWS_MIN,
};

/// Seconds the grid lingers after a dead end (the server's shatter animation).
const GRID_BLOWOUT_ANIM_SECS: f32 = 0.55;

fn default_arc() -> ArcState<f32> {
    ArcState::new(FRAC_PI_2, PI, FRAC_PI_2)
}

fn arcs_with_streaks(p_streak: u32, p_base: u32, s_streak: u32, s_base: u32) -> (ArcState<f32>, SecondaryArcState<f32>) {
    let mut p = default_arc();
    p.streak = p_streak;
    p.streak_at_last_activation = p_base;
    let mut s = default_arc();
    s.streak = s_streak;
    s.streak_at_last_activation = s_base;
    (p, SecondaryArcState(s))
}

fn small_history(values: &[f32]) -> VecDeque<f32> {
    // Newest first, matching CommitTracker's push_front semantics.
    let mut h = VecDeque::with_capacity(values.len());
    for v in values.iter().rev() {
        h.push_front(*v);
    }
    h
}

fn force_seeded_grid(
    grid: &mut GridState<f32>,
    cols: u8,
    rows: u8,
    rows_data: Vec<Vec<GridNode<f32>>>,
    budget: u32,
    history: VecDeque<f32>,
) {
    grid.active = true;
    grid.cols = cols;
    grid.rows = rows;
    grid.entry_edge = GridEdge::Left;
    grid.exit_edge = GridEdge::Right;
    grid.grid = rows_data;
    let entry_cell = (0u8, rows / 2);
    grid.path = vec![entry_cell];
    grid.cursor = entry_cell;
    grid.steps_remaining = budget;
    grid.collected.clear();
    grid.anchor_floor = None;
    grid.last_bonus = None;
    grid.quality_history = history;
    grid.resolved = None;
}

fn mv(grid: &mut GridState<f32>, dir: GridDir) -> bool {
    process_grid_move(grid, dir, GRID_BLOWOUT_ANIM_SECS)
}

fn empty_rows(cols: usize, rows: usize) -> Vec<Vec<GridNode<f32>>> {
    vec![vec![GridNode::Empty; cols]; rows]
}

#[test]
fn shared_delta_is_max_of_per_arc_deltas() {
    let (p, s) = arcs_with_streaks(8, 0, 5, 0);
    assert_eq!(shared_delta(&p, &s.0), 8);
    let (p, s) = arcs_with_streaks(3, 0, 7, 0);
    assert_eq!(shared_delta(&p, &s.0), 7);
    let (p, s) = arcs_with_streaks(12, 4, 0, 0);
    assert_eq!(shared_delta(&p, &s.0), 8);
}

#[test]
fn cap_fires_when_either_arc_reaches_delta_cap_alone() {
    let (mut p, mut s) = arcs_with_streaks(GRID_CRITICAL_MASS_CAP, 0, 0, 0);
    let mut grid = GridState::default();
    let history = small_history(&[1.0, 0.9, 0.85, 0.8, 0.75, 0.7, 0.65, 0.6, 0.55, 0.5]);
    let delta = shared_delta(&p, &s.0);
    assert!(delta >= GRID_CRITICAL_MASS_CAP);

    activate_grid(&mut grid, &mut p, &mut s.0, delta, history.clone(), 5, 3, empty_rows(5, 3));
    assert!(grid.active);
    assert_eq!(grid.steps_remaining, GRID_CRITICAL_MASS_CAP);
    assert_eq!(grid.quality_history, history);
    assert_eq!(p.streak_at_last_activation, GRID_CRITICAL_MASS_CAP);
    assert_eq!(s.0.streak_at_last_activation, 0);
}

#[test]
fn cap_uses_max_not_sum_so_dual_at_5_does_not_fire() {
    let (p, s) = arcs_with_streaks(5, 0, 5, 0);
    assert_eq!(shared_delta(&p, &s.0), 5);
    assert!(shared_delta(&p, &s.0) < GRID_CRITICAL_MASS_CAP);
}

#[test]
fn winning_arc_returns_higher_delta_primary_on_tie() {
    let (p, s) = arcs_with_streaks(7, 0, 5, 0);
    assert_eq!(winning_arc(&p, &s.0).streak, 7);
    let (p, s) = arcs_with_streaks(3, 0, 8, 0);
    assert_eq!(winning_arc(&p, &s.0).streak, 8);
    let (p, s) = arcs_with_streaks(6, 0, 6, 0);
    assert_eq!(winning_arc(&p, &s.0).streak, 6);
    assert!(std::ptr::eq(winning_arc(&p, &s.0), &p));
}

#[test]
fn activate_grid_snaps_both_baselines_and_preserves_streaks() {
    let (mut p, s) = arcs_with_streaks(12, 4, 9, 9);
    let mut secondary = s;
    let mut grid = GridState::default();
    activate_grid(&mut grid, &mut p, &mut secondary.0, 8, VecDeque::new(), 5, 3, empty_rows(5, 3));
    assert_eq!(p.streak, 12);
    assert_eq!(secondary.0.streak, 9);
    assert_eq!(p.streak_at_last_activation, 12);
    assert_eq!(secondary.0.streak_at_last_activation, 9);
}

#[test]
fn backtrack_attempt_fires_blowout() {
    let mut grid = GridState::default();
    force_seeded_grid(&mut grid, 3, 3, empty_rows(3, 3), 5, small_history(&[]));
    assert!(mv(&mut grid, GridDir::Right));
    assert_eq!(grid.cursor, (1, 1));
    assert!(!mv(&mut grid, GridDir::Left));
    assert_eq!(grid.resolved, Some(GridResolution::Blowout));
}

#[test]
fn loop_close_attempt_fires_blowout() {
    let mut grid = GridState::default();
    force_seeded_grid(&mut grid, 3, 3, empty_rows(3, 3), 10, small_history(&[]));
    assert!(mv(&mut grid, GridDir::Right));
    assert!(mv(&mut grid, GridDir::Up));
    assert!(mv(&mut grid, GridDir::Left));
    assert!(!mv(&mut grid, GridDir::Down));
    assert_eq!(grid.resolved, Some(GridResolution::Blowout));
}

#[test]
fn out_of_bounds_attempt_silently_rejects() {
    let mut grid = GridState::default();
    force_seeded_grid(&mut grid, 3, 3, empty_rows(3, 3), 5, small_history(&[]));
    assert!(!mv(&mut grid, GridDir::Left));
    assert_eq!(grid.resolved, None);
    assert_eq!(grid.cursor, (0, 1));
}

#[test]
fn empty_cell_traversal_does_not_blowout_when_neighbors_remain() {
    let mut grid = GridState::default();
    force_seeded_grid(&mut grid, 3, 3, empty_rows(3, 3), 10, small_history(&[]));
    assert!(mv(&mut grid, GridDir::Up));
    assert_eq!(grid.resolved, None);
    assert!(mv(&mut grid, GridDir::Right));
    assert_eq!(grid.resolved, None);
    assert!(mv(&mut grid, GridDir::Down));
    assert_eq!(grid.resolved, None);
}

#[test]
fn move_into_bonus_collects_with_quality_from_snapshot() {
    let mut grid = GridState::default();
    let rows = vec![
        vec![GridNode::Empty, GridNode::Bonus(PhysicalBonus::BaseDamage(10.0)), GridNode::Empty],
        vec![GridNode::Empty, GridNode::Empty, GridNode::Empty],
        vec![GridNode::Empty, GridNode::Empty, GridNode::Empty],
    ];
    force_seeded_grid(&mut grid, 3, 3, rows, 5, small_history(&[0.95, 0.5]));
    assert!(mv(&mut grid, GridDir::Up));
    assert!(mv(&mut grid, GridDir::Right));
    assert_eq!(grid.collected.len(), 1);
    let (_, mag) = &grid.collected[0];
    assert!((mag - 0.5).abs() < 1e-5);
    assert!(grid.last_bonus.is_some());
}

#[test]
fn echo_duplicates_last_bonus() {
    let mut grid = GridState::default();
    let rows = vec![
        vec![GridNode::Empty, GridNode::Bonus(PhysicalBonus::BaseDamage(10.0)), GridNode::Empty],
        vec![GridNode::Empty, GridNode::Empty, GridNode::Echo],
        vec![GridNode::Empty, GridNode::Empty, GridNode::Empty],
    ];
    force_seeded_grid(&mut grid, 3, 3, rows, 5, small_history(&[0.9, 0.8, 0.7]));
    assert!(mv(&mut grid, GridDir::Up));
    assert!(mv(&mut grid, GridDir::Right));
    assert!(mv(&mut grid, GridDir::Down));
    assert!(mv(&mut grid, GridDir::Right));
    assert_eq!(grid.collected.len(), 2);
    assert_eq!(grid.collected[0].0, grid.collected[1].0);
    assert!(mv(&mut grid, GridDir::Right));
    assert_eq!(grid.resolved, Some(GridResolution::Exit));
}

#[test]
fn anchor_sets_floor_self_intersection_resolves_anchored() {
    let mut grid = GridState::default();
    let rows = vec![
        vec![GridNode::Empty, GridNode::Empty, GridNode::Empty],
        vec![GridNode::Empty, GridNode::Anchor, GridNode::Empty],
    ];
    force_seeded_grid(&mut grid, 3, 2, rows, 10, small_history(&[]));
    assert!(mv(&mut grid, GridDir::Right));
    assert!(grid.anchor_floor.is_some());
    assert!(mv(&mut grid, GridDir::Up));
    assert!(!mv(&mut grid, GridDir::Down));
    assert_eq!(grid.resolved, Some(GridResolution::AnchorSaved));
}

#[test]
fn budget_exhausted_off_exit_edge_blows_out() {
    let mut grid = GridState::default();
    force_seeded_grid(&mut grid, 3, 3, empty_rows(3, 3), 2, small_history(&[]));
    assert!(mv(&mut grid, GridDir::Right));
    assert_eq!(grid.resolved, None);
    assert!(mv(&mut grid, GridDir::Up));
    assert_eq!(grid.steps_remaining, 0);
    assert_eq!(grid.resolved, Some(GridResolution::Blowout));
}

#[test]
fn landing_on_exit_column_does_not_resolve() {
    let mut grid = GridState::default();
    force_seeded_grid(&mut grid, 3, 3, empty_rows(3, 3), 5, small_history(&[]));
    assert!(mv(&mut grid, GridDir::Right));
    assert!(mv(&mut grid, GridDir::Right));
    assert_eq!(grid.cursor, (2, 1));
    assert_eq!(grid.resolved, None, "landing on exit column is not exit");
}

#[test]
fn right_step_off_center_row_exits_and_costs_a_step() {
    let mut grid = GridState::default();
    force_seeded_grid(&mut grid, 3, 3, empty_rows(3, 3), 5, small_history(&[]));
    assert!(mv(&mut grid, GridDir::Right));
    assert!(mv(&mut grid, GridDir::Right));
    assert_eq!(grid.steps_remaining, 3);
    assert!(mv(&mut grid, GridDir::Right));
    assert_eq!(grid.resolved, Some(GridResolution::Exit));
    assert_eq!(grid.steps_remaining, 2);
}

#[test]
fn right_step_off_non_center_row_silently_rejects() {
    let mut grid = GridState::default();
    force_seeded_grid(&mut grid, 3, 3, empty_rows(3, 3), 10, small_history(&[]));
    assert!(mv(&mut grid, GridDir::Up));
    assert!(mv(&mut grid, GridDir::Right));
    assert!(mv(&mut grid, GridDir::Right));
    assert_eq!(grid.cursor, (2, 0));
    assert!(!mv(&mut grid, GridDir::Right));
    assert_eq!(grid.resolved, None);
}

#[test]
fn exit_step_with_zero_budget_blows_out() {
    let mut grid = GridState::default();
    force_seeded_grid(&mut grid, 3, 3, empty_rows(3, 3), 2, small_history(&[]));
    assert!(mv(&mut grid, GridDir::Right));
    assert!(mv(&mut grid, GridDir::Right));
    assert_eq!(grid.cursor, (2, 1));
    assert_eq!(grid.steps_remaining, 0);
    assert_eq!(grid.resolved, Some(GridResolution::Blowout));
}

#[test]
fn cancel_grid_clears_state() {
    let mut grid = GridState::default();
    force_seeded_grid(&mut grid, 3, 3, empty_rows(3, 3), 5, small_history(&[]));
    grid.collected.push((PhysicalBonus::BaseDamage(1.0), 0.5));
    cancel_grid(&mut grid);
    assert!(!grid.active);
    assert!(grid.collected.is_empty());
    assert_eq!(grid.steps_remaining, 0);
}

#[test]
fn grid_dir_step_handles_cardinal_moves() {
    assert_eq!(GridDir::Right.step((1, 1)), (2, 1));
    assert_eq!(GridDir::Left.step((1, 1)), (0, 1));
    assert_eq!(GridDir::Up.step((1, 1)), (1, 0));
    assert_eq!(GridDir::Down.step((1, 1)), (1, 2));
}

#[test]
fn sample_grid_rows_always_yields_odd_value_within_range() {
    for cols in GRID_COLS_MIN..=GRID_COLS_MAX {
        for roll in 0..200usize {
            let rows = sample_grid_rows(cols, |_n| roll);
            assert!(rows % 2 == 1, "rows {} must be odd", rows);
            assert!(
                rows >= GRID_ROWS_MIN || rows <= GRID_ROWS_MAX.min(cols),
                "rows {} out of [{}, min({}, {})]",
                rows,
                GRID_ROWS_MIN,
                GRID_ROWS_MAX,
                cols,
            );
        }
    }
}

#[test]
fn sample_grid_rows_never_exceeds_cols() {
    for cols in GRID_COLS_MIN..=GRID_COLS_MAX {
        for roll in 0..500usize {
            let rows = sample_grid_rows(cols, |_n| roll);
            assert!(rows <= cols, "grid {}×{} would be taller than wide", cols, rows);
        }
    }
}

#[test]
fn sample_grid_cols_uniform_within_range() {
    for roll in 0..500usize {
        let c = sample_grid_cols(|_n| roll);
        assert!(c >= GRID_COLS_MIN);
        assert!(c <= GRID_COLS_MAX);
    }
}

#[test]
fn sample_inclusive_range_handles_edge_cases() {
    for roll in 0..50usize {
        assert_eq!(sample_inclusive_range(7, 7, |_n| roll), 7);
    }
    assert_eq!(sample_inclusive_range(9, 3, |_n| 0), 9);
    for roll in 0..200usize {
        let v = sample_inclusive_range(2, 12, |_n| roll);
        assert!(v >= 2 && v <= 12);
    }
}

// ── Further cases ────────────────────────────────────────────────────────────

#[test]
fn sample_grid_rows_picks_among_odd_candidates_in_order() {
    // cols 6 → candidates [3, 5]; the roll sees the candidate count.
    let mut seen = 0usize;
    assert_eq!(sample_grid_rows(6, |n| { seen = n; 0 }), 3);
    assert_eq!(seen, 2);
    assert_eq!(sample_grid_rows(6, |_n| 1), 5);
    assert_eq!(sample_grid_rows(6, |_n| 99), 5);
    // cols 4 → candidates [3].
    assert_eq!(sample_grid_rows(4, |_n| 7), 3);
    // cols 2 → no candidate: largest odd ≤ 2 is 1, no roll taken.
    assert_eq!(sample_grid_rows(2, |_n| panic!("no roll expected")), 1);
    // cols 0 → fallback to 1.
    assert_eq!(sample_grid_rows(0, |_n| panic!("no roll expected")), 1);
}

#[test]
fn sample_inclusive_range_offsets_by_roll_and_clamps() {
    let mut seen = 0usize;
    assert_eq!(sample_inclusive_range(4, 6, |n| { seen = n; 1 }), 5);
    assert_eq!(seen, 3);
    assert_eq!(sample_inclusive_range(4, 6, |_n| 40), 6);
}

#[test]
fn exit_gate_is_center_cell_of_exit_edge() {
    assert!(is_exit_step((4, 2), GridDir::Right, 5, 5, GridEdge::Right));
    assert!(!is_exit_step((4, 1), GridDir::Right, 5, 5, GridEdge::Right));
    assert!(is_exit_step((0, 1), GridDir::Left, 3, 3, GridEdge::Left));
    assert!(is_exit_step((2, 0), GridDir::Up, 5, 3, GridEdge::Top));
    assert!(is_exit_step((2, 2), GridDir::Down, 5, 3, GridEdge::Bottom));
    assert!(!is_exit_step((2, 2), GridDir::Up, 5, 3, GridEdge::Bottom));
    assert!(!is_exit_step((0, 0), GridDir::Right, 0, 3, GridEdge::Right));
}

#[test]
fn opposite_edges_pair_up() {
    for e in [GridEdge::Top, GridEdge::Right, GridEdge::Bottom, GridEdge::Left] {
        assert_ne!(e.opposite(), e);
        assert_eq!(e.opposite().opposite(), e);
    }
    assert_eq!(GridEdge::Left.opposite(), GridEdge::Right);
    assert_eq!(GridEdge::default(), GridEdge::Bottom);
}

#[test]
fn mimic_takes_most_frequent_type_latest_exemplar() {
    let collected = vec![
        (PhysicalBonus::BaseDamage(8.0), 0.1f32),
        (PhysicalBonus::Healing(20.0), 0.2),
        (PhysicalBonus::BaseDamage(40.0), 0.3),
        (PhysicalBonus::Healing(5.0), 0.4),
        (PhysicalBonus::AggroBonus(0.15), 0.5),
    ];
    // DMG and HEAL tie at 2; the latest exemplar of a tied type is Healing(5.0).
    assert_eq!(most_frequent_bonus_type(&collected), Some(PhysicalBonus::Healing(5.0)));
    let collected = vec![
        (PhysicalBonus::BaseDamage(8.0), 0.1f32),
        (PhysicalBonus::BaseDamage(40.0), 0.3),
        (PhysicalBonus::Healing(5.0), 0.4),
    ];
    assert_eq!(most_frequent_bonus_type(&collected), Some(PhysicalBonus::BaseDamage(40.0)));
    assert_eq!(most_frequent_bonus_type::<f32>(&vec![]), None);
}

#[test]
fn mimic_cell_adopts_most_frequent_bonus_with_step_magnitude() {
    let mut grid = GridState::default();
    let rows = vec![
        vec![GridNode::Empty, GridNode::Bonus(PhysicalBonus::Healing(20.0)), GridNode::Mimic],
        vec![GridNode::Empty, GridNode::Empty, GridNode::Empty],
        vec![GridNode::Empty, GridNode::Empty, GridNode::Empty],
    ];
    force_seeded_grid(&mut grid, 3, 3, rows, 5, small_history(&[0.9, 0.8, 0.7]));
    assert!(mv(&mut grid, GridDir::Up)); // step 0: (0,0)
    assert!(mv(&mut grid, GridDir::Right)); // step 1: bonus, magnitude 0.8
    assert!(mv(&mut grid, GridDir::Right)); // step 2: mimic, magnitude 0.7
    assert_eq!(grid.collected, vec![(PhysicalBonus::Healing(20.0), 0.8), (PhysicalBonus::Healing(20.0), 0.7)]);
    assert_eq!(grid.last_bonus, Some((PhysicalBonus::Healing(20.0), 0.7)));
}

#[test]
fn bonus_past_the_snapshot_gets_zero_magnitude() {
    let mut grid = GridState::default();
    let rows = vec![
        vec![GridNode::Empty, GridNode::Empty, GridNode::Empty],
        vec![GridNode::Empty, GridNode::Bonus(PhysicalBonus::CooldownReduction(0.5)), GridNode::Empty],
        vec![GridNode::Empty, GridNode::Empty, GridNode::Empty],
    ];
    force_seeded_grid(&mut grid, 3, 3, rows, 5, small_history(&[]));
    assert!(mv(&mut grid, GridDir::Right));
    assert_eq!(grid.collected, vec![(PhysicalBonus::CooldownReduction(0.5), 0.0)]);
}

#[test]
fn blowout_arms_the_shatter_animation_and_exit_does_not() {
    let mut grid = GridState::default();
    force_seeded_grid(&mut grid, 3, 3, empty_rows(3, 3), 5, small_history(&[]));
    assert!(mv(&mut grid, GridDir::Right));
    assert!(!mv(&mut grid, GridDir::Left));
    assert_eq!(grid.resolve_anim_remaining, GRID_BLOWOUT_ANIM_SECS);
    // Further moves on a resolved grid change nothing.
    assert!(!mv(&mut grid, GridDir::Up));
    assert_eq!(grid.cursor, (1, 1));

    let mut grid = GridState::default();
    force_seeded_grid(&mut grid, 3, 3, empty_rows(3, 3), 5, small_history(&[]));
    grid.resolve_anim_remaining = 9.0;
    assert!(mv(&mut grid, GridDir::Right));
    assert!(mv(&mut grid, GridDir::Right));
    assert!(mv(&mut grid, GridDir::Right));
    assert_eq!(grid.resolved, Some(GridResolution::Exit));
    assert_eq!(grid.resolve_anim_remaining, 0.0);
}

#[test]
fn settle_pays_out_by_resolution() {
    let bonus = (PhysicalBonus::BaseDamage(10.0), 1.0f32);
    let floor = (PhysicalBonus::Healing(3.0), 0.5f32);

    let mut grid = GridState::default();
    force_seeded_grid(&mut grid, 3, 3, empty_rows(3, 3), 5, small_history(&[]));
    grid.collected = vec![bonus, bonus];
    grid.resolved = Some(GridResolution::Exit);
    let (res, paid) = settle_resolved_grid(&mut grid);
    assert_eq!(res, GridResolution::Exit);
    assert_eq!(paid, vec![bonus, bonus]);
    assert!(!grid.active && grid.collected.is_empty() && grid.resolved.is_none());

    let mut grid = GridState::default();
    force_seeded_grid(&mut grid, 3, 3, empty_rows(3, 3), 5, small_history(&[]));
    grid.collected = vec![floor, bonus];
    grid.anchor_floor = Some(vec![floor]);
    grid.resolved = Some(GridResolution::AnchorSaved);
    assert_eq!(settle_resolved_grid(&mut grid).1, vec![floor]);

    let mut grid = GridState::default();
    force_seeded_grid(&mut grid, 3, 3, empty_rows(3, 3), 5, small_history(&[]));
    grid.collected = vec![bonus];
    grid.resolved = Some(GridResolution::Blowout);
    assert!(settle_resolved_grid(&mut grid).1.is_empty());
    assert!(grid.collected.is_empty());
}

#[test]
fn activation_request_follows_stance_cap_and_break_trigger() {
    // Cap reached on the secondary arc: its history is used, pending trigger dropped.
    let (p, mut s) = arcs_with_streaks(1, 0, GRID_CRITICAL_MASS_CAP, 0);
    s.0.commit.push(0.25, 10);
    let mut grid: GridState<f32> = GridState::default();
    let mut trig = DpsGridTrigger { pending_break_budget: Some(6), pending_break_history: Some(small_history(&[0.9])) };
    let req = grid_activation_request(&mut grid, &p, &s.0, &mut trig, true);
    assert_eq!(req, Some((GRID_CRITICAL_MASS_CAP, small_history(&[0.25]))));
    assert_eq!(trig, DpsGridTrigger::default());

    // Below cap: the pending break trigger is consumed.
    let (p, s) = arcs_with_streaks(2, 0, 1, 0);
    let mut trig = DpsGridTrigger { pending_break_budget: Some(6), pending_break_history: Some(small_history(&[0.9])) };
    let req = grid_activation_request(&mut grid, &p, &s.0, &mut trig, true);
    assert_eq!(req, Some((6, small_history(&[0.9]))));
    assert_eq!(trig, DpsGridTrigger::default());

    // Nothing pending: no request, trigger untouched.
    let mut trig: DpsGridTrigger<f32> = DpsGridTrigger::default();
    assert_eq!(grid_activation_request(&mut grid, &p, &s.0, &mut trig, true), None);

    // Off DPS stance: an active grid is cancelled and triggers dropped.
    let mut active = GridState::default();
    force_seeded_grid(&mut active, 3, 3, empty_rows(3, 3), 5, small_history(&[]));
    let mut trig = DpsGridTrigger { pending_break_budget: Some(6), pending_break_history: None };
    assert_eq!(grid_activation_request(&mut active, &p, &s.0, &mut trig, false), None);
    assert!(!active.active);
    assert_eq!(trig.pending_break_budget, None);
}

#[test]
fn has_shape_checks_every_row() {
    let mut grid: GridState<f32> = GridState::default();
    assert!(grid.has_shape(), "an empty 0×0 grid is well shaped");
    grid.cols = 3;
    grid.rows = 2;
    grid.grid = vec![vec![GridNode::Empty; 3], vec![GridNode::Empty; 3]];
    assert!(grid.has_shape());
    grid.grid[1].pop();
    assert!(!grid.has_shape());
    grid.grid.pop();
    assert!(!grid.has_shape());
}

#[test]
fn move_cell_missing_flags_only_moves_that_read_an_absent_cell() {
    let mut grid: GridState<f32> = GridState::default();
    let mut rows = empty_rows(3, 3);
    rows[1].truncate(1);
    force_seeded_grid(&mut grid, 3, 3, rows, 5, small_history(&[]));
    assert!(grid.move_cell_missing(GridDir::Right), "cell (1, 1) is absent");
    assert!(!grid.move_cell_missing(GridDir::Up));
    assert!(!grid.move_cell_missing(GridDir::Left), "off the grid, nothing is read");
    // A move onto a present cell works although the table is ragged.
    assert!(mv(&mut grid, GridDir::Up));
    assert_eq!(grid.cursor, (0, 0));
    assert!(!grid.move_cell_missing(GridDir::Down), "a revisit blows out without reading");
    grid.steps_remaining = 0;
    grid.cursor = (0, 1);
    grid.path = vec![(0, 1)];
    assert!(!grid.move_cell_missing(GridDir::Right), "no step left, nothing is read");
}

#[test]
fn sample_grid_cols_rolls_over_three_widths() {
    for (idx, want) in [(0usize, 4u8), (1, 5), (2, 6), (9, 6)] {
        let c = sample_grid_cols(|n| {
            assert_eq!(n, 3, "the roll spans the three widths");
            idx
        });
        assert_eq!(c, want);
    }
}

#[test]
fn layout_fits_accepts_only_openable_layouts() {
    assert!(layout_fits(5, 3, &empty_rows(5, 3)));
    assert!(layout_fits(6, 5, &empty_rows(6, 5)));
    assert!(!layout_fits(3, 3, &empty_rows(3, 3)), "too narrow");
    assert!(!layout_fits(5, 4, &empty_rows(5, 4)), "even rows");
    assert!(!layout_fits(4, 5, &empty_rows(4, 5)), "taller than wide");
    assert!(!layout_fits(5, 3, &empty_rows(5, 2)), "missing row");
    let mut cells = empty_rows(5, 3);
    cells[1][0] = GridNode::Anchor;
    assert!(!layout_fits(5, 3, &cells), "entry cell must be empty");
    let mut cells = empty_rows(5, 3);
    cells[2].pop();
    assert!(!layout_fits(5, 3, &cells), "short row");
}

#[test]
fn activated_grid_is_well_shaped() {
    let (mut p, mut s) = arcs_with_streaks(10, 0, 0, 0);
    let mut grid: GridState<f32> = GridState::default();
    activate_grid(&mut grid, &mut p, &mut s.0, 10, small_history(&[1.0, 0.9]), 4, 3, empty_rows(4, 3));
    assert!(grid.has_shape());
    assert_eq!((grid.cols, grid.rows, grid.cursor), (4, 3, (0, 1)));
    assert_eq!(grid.steps_remaining, 10);
    assert_eq!(p.streak_at_last_activation, 10);
    assert_eq!(s.0.streak_at_last_activation, 0);
}

use vstd::prelude::*;

use crate::minigame::arc::{arc_commit_step, process_arc_commit, ArcState, CommitZone, SecondaryArcState};
use crate::minigame::cube::{cancel_cube, cube_collect_step, empty_face, process_cube_collect, CubeEdge, CubeState};
use crate::minigame::grid::{cancel_grid, copy_history, process_grid_move, DpsGridTrigger, GridDir, GridState, GridView, MIN_GRID_BUDGET};
use crate::player::{RoleStance, SelectedMobOrPlayer};
use crate::scalar::is_default;

verus! {

/// Whether a player is in combat and which role stance, if any, is active.
#[derive(Clone, Debug, PartialEq, Default)]
pub struct CombatState {
    pub in_combat: bool,
    pub active_stance: Option<RoleStance>,
}

/// Consecutive crit commits on the same ward, toward the invuln-streak reward.
#[derive(Clone, Debug, PartialEq, Default)]
pub struct CritStreak {
    pub count: u8,
    pub last_ward: Option<u64>,
}

/// Consecutive crits on the same ward required to grant the invuln window.
pub const CRIT_STREAK_INVULN: u8 = 3;

/// The stance after one tick of input: exit drops to no stance; entering the
/// stance that is already active toggles back to no stance; entering another
/// stance switches to it; no request keeps the current stance.
pub open spec fn spec_next_stance(current: Option<RoleStance>, exit_stance: bool, enter_stance: Option<RoleStance>) -> Option<RoleStance> {
    if exit_stance {
        None
    } else {
        match enter_stance {
            Some(e) => if current == Some(e) { None } else { Some(e) },
            None => current,
        }
    }
}

/// The stance after one tick of input (see [`spec_next_stance`]).
pub fn next_stance(current: Option<RoleStance>, exit_stance: bool, enter_stance: Option<RoleStance>) -> (s: Option<RoleStance>)
    ensures
        s == spec_next_stance(current, exit_stance, enter_stance),
{
    if exit_stance {
        None
    } else {
        match enter_stance {
            Some(e) => {
                let same = match current {
                    Some(c) => c == e,
                    None => false,
                };
                if same { None } else { Some(e) }
            },
            None => current,
        }
    }
}

/// Law: pressing a stance key enters that stance from any other state, and
/// pressing it again returns to neutral; exit always lands on neutral.
pub proof fn lemma_stance_toggle(s: RoleStance, current: Option<RoleStance>, enter: Option<RoleStance>)
    ensures
        current != Some(s) ==> spec_next_stance(current, false, Some(s)) == Some(s),
        spec_next_stance(spec_next_stance(None, false, Some(s)), false, Some(s)) is None,
        spec_next_stance(current, true, enter) is None,
{
}

/// The stance-change wipe of one arc: streak, activation baseline, idle
/// counter and quality history are cleared; everything else is kept.
pub open spec fn arc_wiped<F>(before: ArcState<F>, after: ArcState<F>) -> bool {
    &&& after.streak == 0
    &&& after.streak_at_last_activation == 0
    &&& after.apex_visits_since_commit == 0
    &&& after.commit.history@.len() == 0
    &&& after.commit.in_lockout == before.commit.in_lockout
    &&& after.commit.last_quality == before.commit.last_quality
    &&& after.same_motion(&before)
    &&& after.last_commit_theta == before.last_commit_theta
    &&& after.prev_at_apex == before.prev_at_apex
}

/// The stance-change wipe of a cube: an active cube is cancelled with
/// nothing paid out; an idle one is left as it is.
pub open spec fn cube_wiped<F: Default>(before: CubeState<F>, after: CubeState<F>) -> bool {
    if before.active {
        &&& !after.active
        &&& after.collected@.len() == 0
        &&& after.rotations_remaining == 0
        &&& after.current_face@ == empty_face::<F>()
        &&& after.rotating_edge is None
        &&& !after.new_face_pending
        &&& is_default(after.fill_progress)
        &&& after.animation_cleared()
        &&& after.activation_quality == before.activation_quality
    } else {
        after == before
    }
}

/// The stance-change wipe of a grid: an active run is cancelled with nothing
/// paid out; an idle grid is left as it is.
pub open spec fn grid_wiped<F: Default>(before: GridView<F>, after: GridView<F>, anim_before: F, anim_after: F) -> bool {
    if before.active {
        &&& after.is_cleared()
        &&& after.collected.len() == 0
        &&& is_default(anim_after)
    } else {
        after == before && anim_after == anim_before
    }
}

/// A grid trigger with nothing pending.
pub open spec fn trigger_wiped<F>(t: DpsGridTrigger<F>) -> bool {
    &&& t.pending_break_budget is None
    &&& t.pending_break_history is None
}

/// Whether two optional stances are the same.
fn same_stance(a: Option<RoleStance>, b: Option<RoleStance>) -> (r: bool)
    ensures
        r == (a == b),
{
    match (a, b) {
        (Some(x), Some(y)) => x == y,
        (None, None) => true,
        _ => false,
    }
}

/// Apply one tick's stance keys: the stance becomes the one
/// [`spec_next_stance`] gives, and when that differs from the current stance
/// the stance-bound state is wiped (a streak, cube or grid only means
/// something inside one stance session). Returns whether the stance changed.
pub fn apply_stance_input<F: Copy + Default>(
    combat: &mut CombatState,
    exit_stance: bool,
    enter_stance: Option<RoleStance>,
    arc: Option<&mut ArcState<F>>,
    secondary: Option<&mut SecondaryArcState<F>>,
    cube: Option<&mut CubeState<F>>,
    grid: Option<&mut GridState<F>>,
    grid_trigger: Option<&mut DpsGridTrigger<F>>,
) -> (changed: bool)
    ensures
        final(combat).active_stance == spec_next_stance(old(combat).active_stance, exit_stance, enter_stance),
        final(combat).in_combat == old(combat).in_combat,
        changed == (final(combat).active_stance != old(combat).active_stance),
        !changed ==> {
            &&& (arc matches Some(a) ==> *final(a) == *a)
            &&& (secondary matches Some(s) ==> *final(s) == *s)
            &&& (cube matches Some(c) ==> *final(c) == *c)
            &&& (grid matches Some(g) ==> final(g)@ == g@)
            &&& (grid_trigger matches Some(t) ==> *final(t) == *t)
        },
        changed ==> {
            &&& (arc matches Some(a) ==> arc_wiped(*a, *final(a)))
            &&& (secondary matches Some(s) ==> arc_wiped(s.0, final(s).0))
            &&& (cube matches Some(c) ==> cube_wiped(*c, *final(c)))
            &&& (grid matches Some(g) ==> grid_wiped(g@, final(g)@, g.resolve_anim_remaining, final(g).resolve_anim_remaining))
            &&& (grid_trigger matches Some(t) ==> trigger_wiped(*final(t)))
        },
{
    let prev = combat.active_stance;
    let next = next_stance(prev, exit_stance, enter_stance);
    if same_stance(prev, next) {
        false
    } else {
        combat.active_stance = next;
        reset_on_stance_change(arc, secondary, cube, grid, grid_trigger);
        true
    }
}

/// If a stance is active, drop it and wipe the stance-bound minigame state
/// (death, instance switch). Returns whether a stance was dropped.
pub fn leave_stance<F: Copy + Default>(
    combat: &mut CombatState,
    arc: Option<&mut ArcState<F>>,
    secondary: Option<&mut SecondaryArcState<F>>,
    cube: Option<&mut CubeState<F>>,
    grid: Option<&mut GridState<F>>,
    grid_trigger: Option<&mut DpsGridTrigger<F>>,
) -> (dropped: bool)
    ensures
        dropped == old(combat).active_stance is Some,
        final(combat).active_stance is None,
        final(combat).in_combat == old(combat).in_combat,
        !dropped ==> {
            &&& (arc matches Some(a) ==> *final(a) == *a)
            &&& (secondary matches Some(s) ==> *final(s) == *s)
            &&& (cube matches Some(c) ==> *final(c) == *c)
            &&& (grid matches Some(g) ==> final(g)@ == g@)
            &&& (grid_trigger matches Some(t) ==> *final(t) == *t)
        },
        dropped ==> {
            &&& (arc matches Some(a) ==> arc_wiped(*a, *final(a)))
            &&& (secondary matches Some(s) ==> arc_wiped(s.0, final(s).0))
            &&& (cube matches Some(c) ==> cube_wiped(*c, *final(c)))
            &&& (grid matches Some(g) ==> grid_wiped(g@, final(g)@, g.resolve_anim_remaining, final(g).resolve_anim_remaining))
            &&& (grid_trigger matches Some(t) ==> trigger_wiped(*final(t)))
        },
{
    if combat.active_stance.is_some() {
        combat.active_stance = None;
        reset_on_stance_change(arc, secondary, cube, grid, grid_trigger);
        true
    } else {
        false
    }
}

/// Grid direction from the minigame input slots while the DPS grid is active,
/// with forward bias: Right (slot 5) > Up (slot 6) > Down (slot 4) > Left (slot 3).
pub fn grid_dir_from_input(action_3: bool, action_4: bool, action_5: bool, action_6: bool) -> (d: Option<GridDir>)
    ensures
        d == (if action_5 {
            Some(GridDir::Right)
        } else if action_6 {
            Some(GridDir::Up)
        } else if action_4 {
            Some(GridDir::Down)
        } else if action_3 {
            Some(GridDir::Left)
        } else {
            None
        }),
{
    if action_5 {
        Some(GridDir::Right)
    } else if action_6 {
        Some(GridDir::Up)
    } else if action_4 {
        Some(GridDir::Down)
    } else if action_3 {
        Some(GridDir::Left)
    } else {
        None
    }
}

/// The player id of a healer's effective ward: the selected player, the
/// healer themselves when a mob is selected, or nobody without a selection.
pub fn effective_ward_pid(target: Option<SelectedMobOrPlayer>, own_pid: u64) -> (w: Option<u64>)
    ensures
        w == match target {
            Some(SelectedMobOrPlayer::Player(pid)) => Some(pid),
            Some(SelectedMobOrPlayer::Mob(_)) => Some(own_pid),
            None => None,
        },
{
    match target {
        Some(SelectedMobOrPlayer::Player(pid)) => Some(pid),
        Some(SelectedMobOrPlayer::Mob(_)) => Some(own_pid),
        None => None,
    }
}

/// Streak bookkeeping for one mitigation commit on `ward`: a new ward restarts
/// the count; a crit bumps it (saturating) and, on reaching
/// `CRIT_STREAK_INVULN`, resets it and returns true (grant the invuln window);
/// a non-crit resets it.
pub fn record_mitigation_commit(streak: &mut CritStreak, ward: u64, is_crit: bool) -> (invuln: bool)
    ensures
        final(streak).last_ward == Some(ward),
        ({
            let base: u8 = if old(streak).last_ward == Some(ward) { old(streak).count } else { 0 };
            let bumped: u8 = if base == u8::MAX { u8::MAX } else { (base + 1) as u8 };
            if !is_crit {
                !invuln && final(streak).count == 0
            } else if bumped >= CRIT_STREAK_INVULN {
                invuln && final(streak).count == 0
            } else {
                !invuln && final(streak).count == bumped
            }
        }),
{
    let same_ward = match streak.last_ward {
        Some(w) => w == ward,
        None => false,
    };
    if !same_ward {
        streak.count = 0;
        streak.last_ward = Some(ward);
    }
    let mut trigger_invuln = false;
    if is_crit {
        streak.count = streak.count.saturating_add(1);
        if streak.count >= CRIT_STREAK_INVULN {
            trigger_invuln = true;
            streak.count = 0;
        }
    } else {
        streak.count = 0;
    }
    trigger_invuln
}

/// Law: three consecutive crit commits on one ward grant the invuln window on
/// the third, whatever the streak held before the first, and the count starts over.
pub proof fn lemma_three_crits_grant_invuln(s0: CritStreak, s1: CritStreak, s2: CritStreak, s3: CritStreak, ward: u64, i1: bool, i2: bool, i3: bool)
    requires
        commit_step(s0, s1, ward, true, i1),
        commit_step(s1, s2, ward, true, i2),
        commit_step(s2, s3, ward, true, i3),
        s0.last_ward != Some(ward) || s0.count == 0,
    ensures
        !i1,
        !i2,
        i3,
        s3.count == 0,
{
}

/// Law of one mitigation commit: a miss never grants the invuln window and
/// starts the streak over; a crit on a ward other than the last one starts a
/// new streak at one; the window is granted only by a crit on the same ward
/// as the previous commits, with at least two crits already counted; the
/// ward is always remembered.
pub proof fn lemma_crit_streak_step(before: CritStreak, after: CritStreak, ward: u64, is_crit: bool, invuln: bool)
    requires
        commit_step(before, after, ward, is_crit, invuln),
    ensures
        after.last_ward == Some(ward),
        !is_crit ==> !invuln && after.count == 0,
        is_crit && before.last_ward != Some(ward) ==> !invuln && after.count == 1,
        invuln ==> is_crit && before.last_ward == Some(ward) && before.count >= 2 && after.count == 0,
        is_crit && before.last_ward == Some(ward) && before.count < 2 ==> !invuln && after.count == before.count + 1,
{
}

/// One call of [`record_mitigation_commit`] takes `before` to `after` and returns `invuln`.
pub open spec fn commit_step(before: CritStreak, after: CritStreak, ward: u64, is_crit: bool, invuln: bool) -> bool {
    let base: u8 = if before.last_ward == Some(ward) { before.count } else { 0 };
    let bumped: u8 = if base == u8::MAX { u8::MAX } else { (base + 1) as u8 };
    &&& after.last_ward == Some(ward)
    &&& if !is_crit {
        !invuln && after.count == 0
    } else if bumped >= CRIT_STREAK_INVULN {
        invuln && after.count == 0
    } else {
        !invuln && after.count == bumped
    }
}

/// Wipe per-stance state on a stance transition: streak counters and quality
/// history of both arcs, any active cube or grid (nothing paid out), and any
/// pending grid break trigger.
pub fn reset_on_stance_change<F: Copy + Default>(
    arc: Option<&mut ArcState<F>>,
    secondary: Option<&mut SecondaryArcState<F>>,
    cube: Option<&mut CubeState<F>>,
    grid: Option<&mut GridState<F>>,
    grid_trigger: Option<&mut DpsGridTrigger<F>>,
)
    ensures
        arc matches Some(a) ==> arc_wiped(*a, *final(a)),
        secondary matches Some(s) ==> arc_wiped(s.0, final(s).0),
        cube matches Some(c) ==> cube_wiped(*c, *final(c)),
        grid matches Some(g) ==> grid_wiped(g@, final(g)@, g.resolve_anim_remaining, final(g).resolve_anim_remaining),
        grid_trigger matches Some(t) ==> trigger_wiped(*final(t)),
{
    if let Some(arc) = arc {
        arc.streak = 0;
        arc.streak_at_last_activation = 0;
        arc.apex_visits_since_commit = 0;
        arc.commit.history.clear();
    }
    if let Some(secondary) = secondary {
        secondary.0.streak = 0;
        secondary.0.streak_at_last_activation = 0;
        secondary.0.apex_visits_since_commit = 0;
        secondary.0.commit.history.clear();
    }
    if let Some(cube) = cube {
        if cube.active {
            cancel_cube(cube);
        }
    }
    if let Some(grid) = grid {
        if grid.active {
            cancel_grid(grid);
        }
    }
    if let Some(trigger) = grid_trigger {
        trigger.clear();
    }
}

/// Cross-arc state captured just before a DPS commit on `apex`: the shared
/// delta, and whether `apex` is the winning arc (the primary wins ties). With
/// no other arc, the apex arc alone decides and wins.
pub fn pre_commit_shared<F>(apex: &ArcState<F>, other: Option<&ArcState<F>>, apex_is_primary: bool) -> (out: (u32, bool))
    ensures
        ({
            let a = apex.spec_delta();
            match other {
                Some(o) => {
                    let od = o.spec_delta();
                    &&& out.0 == if a >= od { a } else { od }
                    &&& out.1 == if apex_is_primary { a >= od } else { a > od }
                },
                None => out.0 == a && out.1,
            }
        }),
{
    let a = apex.activation_delta();
    match other {
        Some(o) => {
            let od = o.activation_delta();
            let shared = if a >= od { a } else { od };
            let winning = if apex_is_primary { a >= od } else { a > od };
            (shared, winning)
        },
        None => (a, true),
    }
}

/// One call of [`record_streak_break`] takes the trigger `before` to `after`
/// and returns `fired`.
pub open spec fn break_step<F>(
    before: DpsGridTrigger<F>,
    after: DpsGridTrigger<F>,
    pre_shared: u32,
    apex_was_winning: bool,
    apex: ArcState<F>,
    other: ArcState<F>,
    fired: bool,
) -> bool {
    let a = apex.spec_delta();
    let od = other.spec_delta();
    let post = if a >= od { a } else { od };
    &&& fired == (pre_shared >= MIN_GRID_BUDGET && post < MIN_GRID_BUDGET)
    &&& fired ==> after.pending_break_budget == Some(pre_shared)
    &&& fired ==> (after.pending_break_history matches Some(h)
        && h@ == if apex_was_winning { apex.commit.history@ } else { other.commit.history@ })
    &&& !fired ==> after == before
}

/// Law of the streak-break trigger, for every commit: it fires exactly when
/// the shared delta was at least `MIN_GRID_BUDGET` before the commit and both
/// arcs' activation deltas are below it afterwards. A commit that leaves
/// either arc at `MIN_GRID_BUDGET` or more never arms it and leaves the
/// trigger as it was; one that fires stashes the pre-commit shared delta as
/// the budget and the history of the arc that was winning before the commit.
pub proof fn lemma_break_fires_only_below_budget<F>(
    before: DpsGridTrigger<F>,
    after: DpsGridTrigger<F>,
    pre_shared: u32,
    apex_was_winning: bool,
    apex: ArcState<F>,
    other: ArcState<F>,
    fired: bool,
)
    requires
        break_step(before, after, pre_shared, apex_was_winning, apex, other, fired),
    ensures
        fired <==> (pre_shared >= MIN_GRID_BUDGET && apex.spec_delta() < MIN_GRID_BUDGET
            && other.spec_delta() < MIN_GRID_BUDGET),
        apex.spec_delta() >= MIN_GRID_BUDGET || other.spec_delta() >= MIN_GRID_BUDGET ==> !fired && after == before,
        pre_shared < MIN_GRID_BUDGET ==> !fired && after == before,
        fired ==> after.pending_break_budget == Some(pre_shared) && after.pending_break_history is Some,
        fired && apex_was_winning ==> after.pending_break_history->0@ == apex.commit.history@,
        fired && !apex_was_winning ==> after.pending_break_history->0@ == other.commit.history@,
{
}

/// After a DPS commit on `apex`: when the commit dropped the shared delta from
/// at least `MIN_GRID_BUDGET` to below it, stash the pre-commit shared delta
/// as the break budget and the winning arc's history on the trigger. Returns
/// whether the trigger fired.
pub fn record_streak_break<F: Copy>(
    trigger: &mut DpsGridTrigger<F>,
    pre_shared: u32,
    apex_was_winning: bool,
    apex: &ArcState<F>,
    other: &ArcState<F>,
) -> (fired: bool)
    ensures
        break_step(*old(trigger), *final(trigger), pre_shared, apex_was_winning, *apex, *other, fired),
{
    let a = apex.activation_delta();
    let od = other.activation_delta();
    let post = if a >= od { a } else { od };
    if pre_shared >= MIN_GRID_BUDGET && post < MIN_GRID_BUDGET {
        let history = if apex_was_winning {
            copy_history(&apex.commit.history)
        } else {
            copy_history(&other.commit.history)
        };
        trigger.pending_break_budget = Some(pre_shared);
        trigger.pending_break_history = Some(history);
        true
    } else {
        false
    }
}

/// Minigame slots of one tick of player input. Any combination may be set;
/// the meaning of each slot depends on class and stance.
#[derive(Clone, Copy, Debug, PartialEq, Eq, Default)]
pub struct MinigameInput {
    /// Primary timing or commit action.
    pub action_1: bool,
    /// Secondary mechanic input.
    pub action_2: bool,
    pub action_3: bool,
    pub action_4: bool,
    pub action_5: bool,
    /// Sixth slot: the grid's Up direction for the Duelist.
    pub action_6: bool,
}

/// What an arc commit would score right now: its quality and the zone the dot is in.
#[derive(Clone, Copy, Debug)]
pub struct CommitReading<F> {
    pub quality: F,
    pub zone: CommitZone,
}

/// What an unlocked primary-arc commit produces: damage on the selected mob,
/// or, in Heal stance, a mitigation commit on the healer's ward.
#[derive(Clone, Copy, Debug, PartialEq)]
pub enum CommitEffect<F> {
    Damage(F),
    Mitigation(F),
}

/// Commits that landed this tick, with the quality each one scored.
#[derive(Clone, Copy, Debug)]
pub struct InputEffects<F> {
    pub primary: Option<CommitEffect<F>>,
    /// Damage from the secondary (DPS second-weapon) arc.
    pub secondary: Option<F>,
}

/// One optional cube press: a collect attempt when pressed on a Tank/Heal stance, nothing otherwise.
pub open spec fn cube_press<F: Default>(
    before: CubeState<F>,
    after: CubeState<F>,
    stance: Option<RoleStance>,
    pressed: bool,
    edge: CubeEdge,
    precision: Option<F>,
) -> bool {
    if pressed && (stance == Some(RoleStance::Tank) || stance == Some(RoleStance::Heal)) {
        exists|ok: bool| cube_collect_step(before, after, edge, precision, ok)
    } else {
        after == before
    }
}

/// The trigger after the primary-arc commit: a break check on a DPS commit.
pub open spec fn after_primary_break<F>(
    before: DpsGridTrigger<F>,
    after: DpsGridTrigger<F>,
    stance: Option<RoleStance>,
    input: MinigameInput,
    arc0: ArcState<F>,
    sec0: ArcState<F>,
    arc1: ArcState<F>,
) -> bool {
    if input.action_1 && stance == Some(RoleStance::Dps) {
        let (pre, win) = spec_pre_shared(arc0, sec0, true);
        exists|f: bool| break_step(before, after, pre, win, arc1, sec0, f)
    } else {
        after == before
    }
}

/// The trigger after the secondary-arc commit: a break check on a DPS commit.
pub open spec fn after_secondary_break<F>(
    before: DpsGridTrigger<F>,
    after: DpsGridTrigger<F>,
    stance: Option<RoleStance>,
    input: MinigameInput,
    sec0: ArcState<F>,
    arc1: ArcState<F>,
    sec1: ArcState<F>,
) -> bool {
    if input.action_2 && stance == Some(RoleStance::Dps) {
        let (pre, win) = spec_pre_shared(sec0, arc1, false);
        exists|f: bool| break_step(before, after, pre, win, sec1, arc1, f)
    } else {
        after == before
    }
}

/// Law of the cross-arc state: seen from either arc, the shared delta is the
/// same, the larger of the two activation deltas; and exactly one of the two
/// arcs is the winning one, the primary on ties.
pub proof fn lemma_exactly_one_arc_wins<F>(primary: ArcState<F>, secondary: ArcState<F>)
    ensures
        spec_pre_shared(primary, secondary, true).0 == spec_pre_shared(secondary, primary, false).0,
        spec_pre_shared(primary, secondary, true).0 >= primary.spec_delta(),
        spec_pre_shared(primary, secondary, true).0 >= secondary.spec_delta(),
        spec_pre_shared(primary, secondary, true).0 == primary.spec_delta()
            || spec_pre_shared(primary, secondary, true).0 == secondary.spec_delta(),
        spec_pre_shared(primary, secondary, true).1 != spec_pre_shared(secondary, primary, false).1,
        primary.spec_delta() == secondary.spec_delta() ==> spec_pre_shared(primary, secondary, true).1,
        spec_pre_shared(primary, secondary, true).1 ==> primary.spec_delta() >= secondary.spec_delta(),
        spec_pre_shared(secondary, primary, false).1 ==> secondary.spec_delta() > primary.spec_delta(),
{
}

/// The cross-arc state `pre_commit_shared` reports for `apex` against `other`.
pub open spec fn spec_pre_shared<F>(apex: ArcState<F>, other: ArcState<F>, apex_is_primary: bool) -> (u32, bool) {
    let a = apex.spec_delta();
    let od = other.spec_delta();
    (if a >= od { a } else { od }, if apex_is_primary { a >= od } else { a > od })
}

/// Route one tick of minigame input for a Physical player.
///
/// While the DPS grid is active on the DPS stance, the directional slots move
/// through the grid (Right > Up > Down > Left) and arc commits are suspended.
/// Otherwise slot 1 commits the primary arc (in any stance) and slot 2 the
/// secondary arc (DPS only); an unlocked commit yields its effect, and a DPS
/// commit that drops the shared delta below `MIN_GRID_BUDGET` arms the grid's
/// break trigger. On Tank/Heal stances slots 3/4/5 try to collect the cube's
/// left/bottom/right markers. The readings and `collect_precision` are the
/// values the simulation measures this tick.
pub fn apply_minigame_input<F: Copy + Default>(
    stance: Option<RoleStance>,
    input: MinigameInput,
    arc: &mut ArcState<F>,
    secondary: &mut SecondaryArcState<F>,
    cube: &mut CubeState<F>,
    grid: &mut GridState<F>,
    trigger: &mut DpsGridTrigger<F>,
    primary_reading: CommitReading<F>,
    secondary_reading: CommitReading<F>,
    collect_precision: Option<F>,
    blowout_anim_secs: F,
) -> (effects: InputEffects<F>)
    requires
        old(grid).active && stance == Some(RoleStance::Dps) && grid_dir_from_spec(input) is Some
            ==> old(grid)@.move_cell_present(grid_dir_from_spec(input)->0),
        !old(arc).commit.in_lockout && primary_reading.zone == CommitZone::Nadir ==> old(arc).streak < u32::MAX,
        !old(secondary).0.commit.in_lockout && secondary_reading.zone == CommitZone::Nadir
            ==> old(secondary).0.streak < u32::MAX,
    ensures
        ({
            let is_dps = stance == Some(RoleStance::Dps);
            let tank_heal = stance == Some(RoleStance::Tank) || stance == Some(RoleStance::Heal);
            if old(grid).active && is_dps {
                &&& match grid_dir_from_spec(input) {
                    Some(d) => exists|zero: F|
                        #![trigger is_default(zero)]
                        is_default(zero) && final(grid)@ == old(grid)@.after_move(d, blowout_anim_secs, zero).1,
                    None => final(grid)@ == old(grid)@,
                }
                &&& *final(arc) == *old(arc)
                &&& *final(secondary) == *old(secondary)
                &&& *final(cube) == *old(cube)
                &&& *final(trigger) == *old(trigger)
                &&& effects.primary is None
                &&& effects.secondary is None
            } else {
                let primary_commits = input.action_1 && stance is Some;
                let secondary_commits = input.action_2 && is_dps;
                &&& final(grid)@ == old(grid)@
                // Primary arc.
                &&& primary_commits ==> arc_commit_step(*old(arc), *final(arc), primary_reading.quality, primary_reading.zone)
                &&& !primary_commits ==> *final(arc) == *old(arc)
                &&& effects.primary == if primary_commits && !old(arc).commit.in_lockout {
                    Some(if stance == Some(RoleStance::Heal) {
                        CommitEffect::Mitigation(primary_reading.quality)
                    } else {
                        CommitEffect::Damage(primary_reading.quality)
                    })
                } else {
                    None
                }
                // Secondary arc.
                &&& secondary_commits ==> arc_commit_step(old(secondary).0, final(secondary).0, secondary_reading.quality, secondary_reading.zone)
                &&& !secondary_commits ==> *final(secondary) == *old(secondary)
                &&& effects.secondary == if secondary_commits && !old(secondary).0.commit.in_lockout {
                    Some(secondary_reading.quality)
                } else {
                    None
                }
                // Break trigger: primary commit first, then secondary commit.
                &&& exists|mid: DpsGridTrigger<F>|
                    #![trigger after_primary_break(*old(trigger), mid, stance, input, *old(arc), old(secondary).0, *final(arc))]
                    after_primary_break(*old(trigger), mid, stance, input, *old(arc), old(secondary).0, *final(arc))
                    && after_secondary_break(mid, *final(trigger), stance, input, old(secondary).0, *final(arc), final(secondary).0)
                // Cube collects, left then bottom then right.
                &&& exists|c1: CubeState<F>, c2: CubeState<F>|
                    #![trigger cube_press(*old(cube), c1, stance, input.action_3, CubeEdge::Left, collect_precision), cube_press(c1, c2, stance, input.action_4, CubeEdge::Bottom, collect_precision)]
                    cube_press(*old(cube), c1, stance, input.action_3, CubeEdge::Left, collect_precision)
                    && cube_press(c1, c2, stance, input.action_4, CubeEdge::Bottom, collect_precision)
                    && cube_press(c2, *final(cube), stance, input.action_5, CubeEdge::Right, collect_precision)
            }
        }),
{
    let is_dps = match stance {
        Some(RoleStance::Dps) => true,
        _ => false,
    };
    let tank_heal = match stance {
        Some(RoleStance::Tank) | Some(RoleStance::Heal) => true,
        _ => false,
    };
    let mut effects = InputEffects { primary: None, secondary: None };
    if grid.active && is_dps {
        let dir = grid_dir_from_input(input.action_3, input.action_4, input.action_5, input.action_6);
        match dir {
            Some(d) => {
                process_grid_move(grid, d, blowout_anim_secs);
            },
            None => {},
        }
        return effects;
    }
    let ghost trig0 = *trigger;
    let ghost arc0 = *arc;
    let ghost sec0 = secondary.0;
    // Primary arc commit.
    if input.action_1 && stance.is_some() {
        let was_unlocked = !arc.commit.in_lockout;
        let (pre_shared, apex_was_winning) = pre_commit_shared(arc, Some(&secondary.0), true);
        process_arc_commit(arc, primary_reading.quality, primary_reading.zone);
        if was_unlocked {
            let is_heal = match stance {
                Some(RoleStance::Heal) => true,
                _ => false,
            };
            effects.primary = Some(
                if is_heal {
                    CommitEffect::Mitigation(arc.commit.last_quality)
                } else {
                    CommitEffect::Damage(arc.commit.last_quality)
                },
            );
        }
        if is_dps {
            let fired = record_streak_break(trigger, pre_shared, apex_was_winning, arc, &secondary.0);
            assert(spec_pre_shared(arc0, sec0, true) == (pre_shared, apex_was_winning));
            assert(break_step(trig0, *trigger, pre_shared, apex_was_winning, *arc, sec0, fired));
            assert(after_primary_break(trig0, *trigger, stance, input, arc0, sec0, *arc));
        }
    }
    let ghost trig_mid = *trigger;
    // Secondary arc commit (DPS only).
    if input.action_2 && is_dps {
        let was_unlocked = !secondary.0.commit.in_lockout;
        let (pre_shared, apex_was_winning) = pre_commit_shared(&secondary.0, Some(&*arc), false);
        process_arc_commit(&mut secondary.0, secondary_reading.quality, secondary_reading.zone);
        if was_unlocked {
            effects.secondary = Some(secondary.0.commit.last_quality);
        }
        let fired = record_streak_break(trigger, pre_shared, apex_was_winning, &secondary.0, arc);
        assert(spec_pre_shared(sec0, *arc, false) == (pre_shared, apex_was_winning));
        assert(break_step(trig_mid, *trigger, pre_shared, apex_was_winning, secondary.0, *arc, fired));
    }
    // Cube collects (Tank/Heal only).
    let ghost c0 = *cube;
    if tank_heal && input.action_3 {
        process_cube_collect(cube, CubeEdge::Left, collect_precision);
    }
    let ghost c1 = *cube;
    if tank_heal && input.action_4 {
        process_cube_collect(cube, CubeEdge::Bottom, collect_precision);
    }
    let ghost c2 = *cube;
    if tank_heal && input.action_5 {
        process_cube_collect(cube, CubeEdge::Right, collect_precision);
    }
    proof {
        assert(after_primary_break(trig0, trig_mid, stance, input, arc0, sec0, *arc));
        assert(grid@ == old(grid)@);
        assert(effects.primary == if input.action_1 && stance is Some && !arc0.commit.in_lockout {
            Some(if stance == Some(RoleStance::Heal) {
                CommitEffect::Mitigation(primary_reading.quality)
            } else {
                CommitEffect::Damage(primary_reading.quality)
            })
        } else {
            None
        });
        assert(effects.secondary == if input.action_2 && is_dps && !sec0.commit.in_lockout {
            Some(secondary_reading.quality)
        } else {
            None
        });
        assert(after_secondary_break(trig_mid, *trigger, stance, input, sec0, *arc, secondary.0));
        assert(cube_press(c0, c1, stance, input.action_3, CubeEdge::Left, collect_precision));
        assert(cube_press(c1, c2, stance, input.action_4, CubeEdge::Bottom, collect_precision));
        assert(cube_press(c2, *cube, stance, input.action_5, CubeEdge::Right, collect_precision));
    }
    effects
}

/// The grid direction that [`grid_dir_from_input`] picks for `input`.
pub open spec fn grid_dir_from_spec(input: MinigameInput) -> Option<GridDir> {
    if input.action_5 {
        Some(GridDir::Right)
    } else if input.action_6 {
        Some(GridDir::Up)
    } else if input.action_4 {
        Some(GridDir::Down)
    } else if input.action_3 {
        Some(GridDir::Left)
    } else {
        None
    }
}

} // verus!

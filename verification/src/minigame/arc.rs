use vstd::prelude::*;

use super::commit_tracker::{lemma_push_keeps_capacity, pushed_history, CommitTracker};
use crate::scalar::is_default;

verus! {

/// Streak delta at which the Tank/Heal cube activates.
pub const CUBE_CRITICAL_MASS_CAP: u32 = 2;

/// Streak delta at which the DPS grid force-activates (it also activates on
/// streak break).
pub const GRID_CRITICAL_MASS_CAP: u32 = 10;

/// Capacity of the commit-quality history; sized to the grid cap so per-step
/// magnitude lookups always have data.
pub const QUALITY_HISTORY_CAPACITY: u32 = 10;

/// Where on the track a commit landed, by proximity to the apex
/// (`|θ - π/2| / A`): below 0.2 is the nadir zone, above 0.8 the apex zone,
/// anything in between the middle zone.
#[derive(Clone, Copy, Debug, PartialEq, Eq, Structural)]
pub enum CommitZone {
    Nadir,
    Middle,
    Apex,
}

/// Server-authoritative state for the Physical class Arc mechanic.
///
/// The dot follows `θ(t) = π/2 + A·sin(ω·t + φ)`; the continuous fields
/// (`amplitude` .. `last_commit_theta`) are advanced by the simulation, while
/// this crate owns the commit lockout, the streak and the idle-break counter.
#[derive(Clone, Debug, PartialEq)]
pub struct ArcState<F> {
    /// Sweep width A (radians).
    pub amplitude: F,
    /// Oscillation frequency ω (rad/s).
    pub omega: F,
    /// Phase offset φ.
    pub phase: F,
    /// Internal time counter.
    pub time: F,
    /// Current dot angle θ.
    pub theta: F,
    /// Seconds of remaining time-reversal from disruption.
    pub disruption_remaining: F,
    /// Velocity impulse added to the dot by disruption.
    pub disruption_velocity: F,
    /// Lockout flag, last commit quality, and recent-quality ring buffer.
    pub commit: CommitTracker<F>,
    /// θ at the moment of the most recent commit.
    pub last_commit_theta: F,
    /// Consecutive nadir-zone commits since the last apex-zone commit or idle break.
    pub streak: u32,
    /// Snapshot of `streak` when the cube or grid last activated.
    pub streak_at_last_activation: u32,
    /// Apex-zone visits (rising edges) since the last commit.
    pub apex_visits_since_commit: u32,
    /// Previous tick's at-apex state, for rising-edge detection.
    pub prev_at_apex: bool,
}

/// Second independent arc for the Physical DPS stance (one per weapon).
#[derive(Clone, Debug, PartialEq)]
pub struct SecondaryArcState<F>(pub ArcState<F>);

/// `a - b`, or 0 when `b >= a`.
pub open spec fn sat_sub(a: u32, b: u32) -> u32 {
    if a >= b { (a - b) as u32 } else { 0 }
}

impl<F> ArcState<F> {
    /// Streak gained since the last cube/grid activation.
    pub open spec fn spec_delta(&self) -> u32 {
        sat_sub(self.streak, self.streak_at_last_activation)
    }

    /// `self` and `other` differ at most in the streak bookkeeping fields.
    pub open spec fn same_motion(&self, other: &Self) -> bool {
        &&& self.amplitude == other.amplitude
        &&& self.omega == other.omega
        &&& self.phase == other.phase
        &&& self.time == other.time
        &&& self.theta == other.theta
        &&& self.disruption_remaining == other.disruption_remaining
        &&& self.disruption_velocity == other.disruption_velocity
    }
}

impl<F: Copy + Default> ArcState<F> {
    /// A fresh arc with the given sweep, frequency and starting angle; every
    /// other continuous field starts at `F::default()`, the counters at 0,
    /// and the history is empty with room for `QUALITY_HISTORY_CAPACITY`.
    pub fn new(amplitude: F, omega: F, theta: F) -> (arc: Self)
        ensures
            arc.amplitude == amplitude,
            arc.omega == omega,
            arc.theta == theta,
            arc.last_commit_theta == theta,
            is_default(arc.phase),
            is_default(arc.time),
            is_default(arc.disruption_remaining),
            is_default(arc.disruption_velocity),
            !arc.commit.in_lockout,
            is_default(arc.commit.last_quality),
            arc.commit.history@ == Seq::<F>::empty(),
            arc.streak == 0,
            arc.streak_at_last_activation == 0,
            arc.apex_visits_since_commit == 0,
            !arc.prev_at_apex,
    {
        ArcState {
            amplitude,
            omega,
            phase: F::default(),
            time: F::default(),
            theta,
            disruption_remaining: F::default(),
            disruption_velocity: F::default(),
            commit: CommitTracker::with_capacity(QUALITY_HISTORY_CAPACITY as usize),
            last_commit_theta: theta,
            streak: 0,
            streak_at_last_activation: 0,
            apex_visits_since_commit: 0,
            prev_at_apex: false,
        }
    }
}

impl<F> ArcState<F> {
    /// Streak gained since the last cube/grid activation.
    pub fn activation_delta(&self) -> (d: u32)
        ensures
            d == self.spec_delta(),
    {
        self.streak.saturating_sub(self.streak_at_last_activation)
    }
}

/// One call of [`process_arc_commit`] with `quality` and `zone` takes `before` to `after`.
pub open spec fn arc_commit_step<F>(before: ArcState<F>, after: ArcState<F>, quality: F, zone: CommitZone) -> bool {
    &&& before.commit.in_lockout ==> after == before
    &&& !before.commit.in_lockout ==> {
        &&& after.same_motion(&before)
        &&& after.commit.in_lockout
        &&& after.commit.last_quality == quality
        &&& after.commit.history@ == pushed_history(
            before.commit.history@,
            quality,
            QUALITY_HISTORY_CAPACITY as nat,
        )
        &&& after.last_commit_theta == before.theta
        &&& after.apex_visits_since_commit == 0
        &&& after.prev_at_apex == before.prev_at_apex
        &&& after.streak == match zone {
            CommitZone::Nadir => (before.streak + 1) as u32,
            CommitZone::Middle => before.streak,
            CommitZone::Apex => 0u32,
        }
        &&& after.streak_at_last_activation == match zone {
            CommitZone::Apex => 0u32,
            _ => before.streak_at_last_activation,
        }
    }
}

/// Evaluate a commit attempt on an arc, given the commit quality and the zone
/// the dot was in. No-op while in lockout. Otherwise records the quality,
/// remembers θ, extends the streak on a nadir commit, breaks streak and
/// activation baseline on an apex commit, clears the idle counter and enters
/// lockout.
pub fn process_arc_commit<F: Copy + Default>(arc: &mut ArcState<F>, quality: F, zone: CommitZone)
    requires
        !old(arc).commit.in_lockout && zone == CommitZone::Nadir ==> old(arc).streak < u32::MAX,
    ensures
        arc_commit_step(*old(arc), *final(arc), quality, zone),
{
    if arc.commit.in_lockout {
        return;
    }
    arc.commit.push(quality, QUALITY_HISTORY_CAPACITY as usize);
    arc.last_commit_theta = arc.theta;
    match zone {
        CommitZone::Nadir => {
            arc.streak = arc.streak + 1;
        },
        CommitZone::Apex => {
            arc.streak = 0;
            arc.streak_at_last_activation = 0;
        },
        CommitZone::Middle => {},
    }
    arc.apex_visits_since_commit = 0;
    arc.commit.in_lockout = true;
}

/// Apex bookkeeping for one simulation tick, given whether the dot is in the
/// apex zone (proximity ≥ 0.9) this tick. On a rising edge the commit lockout
/// is released and the idle counter advances (saturating); the second idle
/// visit breaks a running streak and its activation baseline.
pub fn track_apex<F>(arc: &mut ArcState<F>, at_apex: bool)
    ensures
        final(arc).same_motion(old(arc)),
        final(arc).commit.last_quality == old(arc).commit.last_quality,
        final(arc).commit.history == old(arc).commit.history,
        final(arc).last_commit_theta == old(arc).last_commit_theta,
        track_apex_step(*old(arc), *final(arc), at_apex),
{
    if at_apex && !arc.prev_at_apex {
        arc.commit.in_lockout = false;
        arc.apex_visits_since_commit = arc.apex_visits_since_commit.saturating_add(1);
        if arc.apex_visits_since_commit >= 2 && arc.streak > 0 {
            arc.streak = 0;
            arc.streak_at_last_activation = 0;
        }
    }
    arc.prev_at_apex = at_apex;
}

/// `max(primary.delta, secondary.delta)` — the activation signal for the DPS grid.
pub fn shared_delta<F>(p: &ArcState<F>, s: &ArcState<F>) -> (d: u32)
    ensures
        d == if p.spec_delta() >= s.spec_delta() { p.spec_delta() } else { s.spec_delta() },
{
    let pd = p.activation_delta();
    let sd = s.activation_delta();
    if pd >= sd { pd } else { sd }
}

/// Whichever arc has the higher activation delta — primary on ties.
pub fn winning_arc<'a, F>(p: &'a ArcState<F>, s: &'a ArcState<F>) -> (w: &'a ArcState<F>)
    ensures
        *w == if s.spec_delta() > p.spec_delta() { *s } else { *p },
{
    let pd = p.activation_delta();
    let sd = s.activation_delta();
    if sd > pd { s } else { p }
}

/// Law: an arc whose last commit left the idle counter at 0 loses its streak
/// on the second apex rising edge that passes without a commit, wherever the
/// apex state stood before.
pub proof fn lemma_two_idle_apex_visits_break_streak<F>(
    a0: ArcState<F>,
    a1: ArcState<F>,
    a2: ArcState<F>,
    a3: ArcState<F>,
)
    requires
        a0.apex_visits_since_commit == 0,
        a0.streak > 0,
        // First rising edge: leave the apex, then enter it.
        track_apex_step(a0, a1, false),
        track_apex_step(a1, a2, true),
        // Second rising edge.
        exists|mid: ArcState<F>| track_apex_step(a2, mid, false) && track_apex_step(mid, a3, true),
    ensures
        a3.streak == 0,
        a3.streak_at_last_activation == 0,
{
    let mid = choose|mid: ArcState<F>| track_apex_step(a2, mid, false) && track_apex_step(mid, a3, true);
}

/// Law: one commit per half-oscillation. After a commit lands, every further
/// commit changes nothing until the dot's next rising edge into the apex zone,
/// which releases the lockout.
pub proof fn lemma_one_commit_per_apex_visit<F>(
    a0: ArcState<F>,
    a1: ArcState<F>,
    a2: ArcState<F>,
    q1: F,
    z1: CommitZone,
    q2: F,
    z2: CommitZone,
)
    requires
        !a0.commit.in_lockout,
        arc_commit_step(a0, a1, q1, z1),
    ensures
        arc_commit_step(a1, a2, q2, z2) ==> a2 == a1,
        forall|a3: ArcState<F>| track_apex_step(a1, a3, true) && !a1.prev_at_apex ==> !a3.commit.in_lockout,
        forall|a3: ArcState<F>| #[trigger] track_apex_step(a1, a3, false) ==> a3.commit.in_lockout,
{
}

/// Law: from an activation baseline at or below the streak, each unlocked
/// nadir commit adds exactly one to the streak and to the activation delta, a
/// middle commit keeps both, and an apex commit clears streak and baseline.
/// Every unlocked commit enters lockout and records its quality as the newest
/// history entry.
pub proof fn lemma_commit_moves_delta<F>(a0: ArcState<F>, a1: ArcState<F>, q: F, z: CommitZone)
    requires
        !a0.commit.in_lockout,
        a0.streak_at_last_activation <= a0.streak,
        z == CommitZone::Nadir ==> a0.streak < u32::MAX,
        arc_commit_step(a0, a1, q, z),
    ensures
        z == CommitZone::Nadir ==> a1.spec_delta() == a0.spec_delta() + 1,
        z == CommitZone::Middle ==> a1.spec_delta() == a0.spec_delta(),
        z == CommitZone::Apex ==> a1.spec_delta() == 0,
        z == CommitZone::Nadir ==> a1.streak == a0.streak + 1,
        z == CommitZone::Apex ==> a1.streak == 0 && a1.streak_at_last_activation == 0,
        z != CommitZone::Apex ==> a1.streak_at_last_activation == a0.streak_at_last_activation,
        a1.commit.in_lockout,
        a1.commit.last_quality == q,
        a1.commit.history@.len() > 0 && a1.commit.history@[0] == q,
{
    lemma_push_keeps_capacity(a0.commit.history@, q, QUALITY_HISTORY_CAPACITY as nat);
}

/// One call of [`track_apex`] with `at_apex` takes `before` to `after`.
pub open spec fn track_apex_step<F>(before: ArcState<F>, after: ArcState<F>, at_apex: bool) -> bool {
    &&& after.prev_at_apex == at_apex
    &&& at_apex && !before.prev_at_apex ==> {
        let visits = if before.apex_visits_since_commit == u32::MAX {
            u32::MAX
        } else {
            (before.apex_visits_since_commit + 1) as u32
        };
        &&& !after.commit.in_lockout
        &&& after.apex_visits_since_commit == visits
        &&& if visits >= 2 && before.streak > 0 {
            after.streak == 0 && after.streak_at_last_activation == 0
        } else {
            after.streak == before.streak
                && after.streak_at_last_activation == before.streak_at_last_activation
        }
    }
    &&& !(at_apex && !before.prev_at_apex) ==> {
        &&& after.commit.in_lockout == before.commit.in_lockout
        &&& after.apex_visits_since_commit == before.apex_visits_since_commit
        &&& after.streak == before.streak
        &&& after.streak_at_last_activation == before.streak_at_last_activation
    }
}

} // verus!

use vstd::prelude::*;

use super::arc::{ArcState, CUBE_CRITICAL_MASS_CAP};
use crate::player::RoleStance;
use crate::scalar::is_default;

verus! {

/// Number of rotations granted per cube activation before resolution.
pub const CUBE_ROTATIONS_PER_ACTIVATION: u32 = 4;

/// Index of the interactive edge on a cube face, in `CubeState::current_face` order.
#[derive(Clone, Copy, Debug, PartialEq, Eq, Structural)]
pub enum CubeEdge {
    Left,
    Bottom,
    Right,
}

impl CubeEdge {
    pub open spec fn spec_index(self) -> int {
        match self {
            CubeEdge::Left => 0,
            CubeEdge::Bottom => 1,
            CubeEdge::Right => 2,
        }
    }

    /// Position of this edge in the face array.
    pub fn index(self) -> (i: usize)
        ensures
            i == self.spec_index(),
    {
        match self {
            CubeEdge::Left => 0,
            CubeEdge::Bottom => 1,
            CubeEdge::Right => 2,
        }
    }
}

/// Tier of bonus that can appear on a cube face or grid cell, gated by the
/// aggregate quality of the streak that triggered activation.
#[derive(Clone, Copy, Debug, PartialEq, Eq, Structural)]
pub enum BonusTier {
    Default,
    Mid,
    Premium,
}

impl BonusTier {
    /// One tier lower (premium drops to mid, mid to default, default stays).
    pub fn step_down(self) -> (t: BonusTier)
        ensures
            t == match self {
                BonusTier::Premium => BonusTier::Mid,
                BonusTier::Mid => BonusTier::Default,
                BonusTier::Default => BonusTier::Default,
            },
    {
        match self {
            BonusTier::Premium => BonusTier::Mid,
            BonusTier::Mid => BonusTier::Default,
            BonusTier::Default => BonusTier::Default,
        }
    }
}

/// A bonus delivered by a cube face or a grid node; `F` carries the magnitudes.
#[derive(Clone, Copy, Debug, PartialEq)]
pub enum PhysicalBonus<F> {
    /// Flat addition to the action's base damage output.
    BaseDamage(F),
    /// Apply a damage-over-time effect to the target.
    DamageOverTime { damage_per_second: F, duration_secs: F },
    /// Apply a brief stun to the target on hit.
    StunOnHit { duration_secs: F },
    /// Reduce the cooldown of the next ability used.
    CooldownReduction(F),
    /// Deliver healing to a friendly target.
    Healing(F),
    /// Temporarily increase threat generation.
    AggroBonus(F),
}

/// The kind of a [`PhysicalBonus`], without its magnitudes.
#[derive(Clone, Copy, Debug, PartialEq, Eq, Structural)]
pub enum BonusKind {
    BaseDamage,
    DamageOverTime,
    StunOnHit,
    CooldownReduction,
    Healing,
    AggroBonus,
}

impl<F> PhysicalBonus<F> {
    pub open spec fn spec_kind(self) -> BonusKind {
        match self {
            PhysicalBonus::BaseDamage(_) => BonusKind::BaseDamage,
            PhysicalBonus::DamageOverTime { .. } => BonusKind::DamageOverTime,
            PhysicalBonus::StunOnHit { .. } => BonusKind::StunOnHit,
            PhysicalBonus::CooldownReduction(_) => BonusKind::CooldownReduction,
            PhysicalBonus::Healing(_) => BonusKind::Healing,
            PhysicalBonus::AggroBonus(_) => BonusKind::AggroBonus,
        }
    }

    /// Kind of this bonus.
    pub fn kind(&self) -> (k: BonusKind)
        ensures
            k == self.spec_kind(),
    {
        match self {
            PhysicalBonus::BaseDamage(_) => BonusKind::BaseDamage,
            PhysicalBonus::DamageOverTime { .. } => BonusKind::DamageOverTime,
            PhysicalBonus::StunOnHit { .. } => BonusKind::StunOnHit,
            PhysicalBonus::CooldownReduction(_) => BonusKind::CooldownReduction,
            PhysicalBonus::Healing(_) => BonusKind::Healing,
            PhysicalBonus::AggroBonus(_) => BonusKind::AggroBonus,
        }
    }

    /// Short label for the visual stand-in marker until proper icons exist.
    pub fn short_label(&self) -> (label: &'static str)
        ensures
            label@ == kind_label(self.spec_kind())@,
    {
        match self {
            PhysicalBonus::BaseDamage(_) => "DMG",
            PhysicalBonus::DamageOverTime { .. } => "DoT",
            PhysicalBonus::StunOnHit { .. } => "STUN",
            PhysicalBonus::CooldownReduction(_) => "CDR",
            PhysicalBonus::Healing(_) => "HEAL",
            PhysicalBonus::AggroBonus(_) => "AGGRO",
        }
    }
}

/// The marker label of each bonus kind.
pub open spec fn kind_label(k: BonusKind) -> &'static str {
    match k {
        BonusKind::BaseDamage => "DMG",
        BonusKind::DamageOverTime => "DoT",
        BonusKind::StunOnHit => "STUN",
        BonusKind::CooldownReduction => "CDR",
        BonusKind::Healing => "HEAL",
        BonusKind::AggroBonus => "AGGRO",
    }
}

/// Server-authoritative state for the Tank/Healer cube overlay.
///
/// Three visible edges each fill toward a bonus marker; timing an input on a
/// marker collects that bonus, rotates the cube and reveals a fresh face.
/// `F` carries the fill/animation progress values and bonus magnitudes.
#[derive(Clone, Debug, PartialEq, Default)]
pub struct CubeState<F> {
    /// True while a cube activation is in progress.
    pub active: bool,
    /// Left, bottom, right bonus markers on the current face.
    pub current_face: [Option<PhysicalBonus<F>>; 3],
    /// Fill animation progress toward the edge-center marker.
    pub fill_progress: F,
    /// Rotations remaining this activation. Cube resolves when this reaches 0.
    pub rotations_remaining: u32,
    /// Aggregate commit quality of the streak that triggered this activation.
    pub activation_quality: F,
    /// Collected bonuses with their timing-precision magnitudes.
    pub collected: Vec<(PhysicalBonus<F>, F)>,
    /// Edge toward which the cube is currently rotating, if any.
    pub rotating_edge: Option<CubeEdge>,
    /// Progress of the marker pop that precedes a rotation.
    pub pop_progress: F,
    /// Progress through the current rotation.
    pub rotation_progress: F,
    /// Seconds left in the post-rotation hold.
    pub rotation_hold_remaining: F,
    /// True between collect and the rotation midpoint: `current_face` still
    /// holds the pre-collect face and needs replacing.
    pub new_face_pending: bool,
}

/// The face of an idle cube: no markers.
pub open spec fn empty_face<F>() -> Seq<Option<PhysicalBonus<F>>> {
    seq![None, None, None]
}

impl<F> CubeState<F> {
    /// All animation progress values are at `F::default()`.
    pub open spec fn animation_cleared(&self) -> bool
        where F: Default
    {
        &&& is_default(self.pop_progress)
        &&& is_default(self.rotation_progress)
        &&& is_default(self.rotation_hold_remaining)
    }
}

/// True when an idle cube on a Tank/Heal stance should activate: the arc has
/// gained `CUBE_CRITICAL_MASS_CAP` nadir commits since the last activation.
pub fn cube_should_activate<F>(cube: &CubeState<F>, arc: &ArcState<F>, stance: Option<RoleStance>) -> (b: bool)
    ensures
        b == (!cube.active
            && (stance == Some(RoleStance::Tank) || stance == Some(RoleStance::Heal))
            && arc.spec_delta() >= CUBE_CRITICAL_MASS_CAP),
{
    let is_tank_heal = match stance {
        Some(RoleStance::Tank) | Some(RoleStance::Heal) => true,
        _ => false,
    };
    !cube.active && is_tank_heal && arc.activation_delta() >= CUBE_CRITICAL_MASS_CAP
}

/// Open the cube with the aggregate quality `quality` (the arc's commit mean)
/// and a freshly seeded `face`. The arc's streak is kept; its activation
/// baseline moves up to the current streak.
pub fn activate_cube<F: Copy + Default>(
    cube: &mut CubeState<F>,
    arc: &mut ArcState<F>,
    quality: F,
    face: [Option<PhysicalBonus<F>>; 3],
)
    ensures
        final(cube).active,
        final(cube).activation_quality == quality,
        is_default(final(cube).fill_progress),
        final(cube).rotations_remaining == CUBE_ROTATIONS_PER_ACTIVATION,
        final(cube).current_face@ == face@,
        final(cube).collected@ == Seq::<(PhysicalBonus<F>, F)>::empty(),
        final(cube).rotating_edge is None,
        final(cube).animation_cleared(),
        !final(cube).new_face_pending,
        final(arc).streak == old(arc).streak,
        final(arc).streak_at_last_activation == old(arc).streak,
        final(arc).apex_visits_since_commit == old(arc).apex_visits_since_commit,
        final(arc).commit == old(arc).commit,
        final(arc).same_motion(old(arc)),
        final(arc).last_commit_theta == old(arc).last_commit_theta,
        final(arc).prev_at_apex == old(arc).prev_at_apex,
{
    cube.active = true;
    cube.activation_quality = quality;
    cube.fill_progress = F::default();
    cube.rotations_remaining = CUBE_ROTATIONS_PER_ACTIVATION;
    cube.current_face = face;
    cube.collected.clear();
    cube.rotating_edge = None;
    cube.pop_progress = F::default();
    cube.rotation_progress = F::default();
    cube.rotation_hold_remaining = F::default();
    cube.new_face_pending = false;
    arc.streak_at_last_activation = arc.streak;
}

/// One call of [`process_cube_collect`] on `edge` with `precision` takes
/// `before` to `after` and returns `collected`.
pub open spec fn cube_collect_step<F: Default>(
    before: CubeState<F>,
    after: CubeState<F>,
    edge: CubeEdge,
    precision: Option<F>,
    collected: bool,
) -> bool {
    &&& collected == (before.active && before.rotating_edge is None && precision is Some
        && before.current_face@[edge.spec_index()] is Some)
    &&& !collected ==> after == before
    &&& collected ==> {
        &&& after.collected@ == before.collected@.push(
            (before.current_face@[edge.spec_index()]->0, precision->0),
        )
        &&& after.rotations_remaining == if before.rotations_remaining == 0 {
            0
        } else {
            (before.rotations_remaining - 1) as u32
        }
        &&& after.rotating_edge == Some(edge)
        &&& after.animation_cleared()
        &&& after.new_face_pending
        &&& after.active
        &&& after.current_face == before.current_face
        &&& after.fill_progress == before.fill_progress
        &&& after.activation_quality == before.activation_quality
    }
}

/// Laws of cube collects, over two collects in a row:
/// - the three edges read three different places of the face;
/// - a collect that succeeds appends exactly one entry, the bonus under that
///   edge's marker with the given precision, keeps what was collected before,
///   spends one rotation (none below zero) and starts rotating on that edge;
/// - a collect on an idle or rotating cube, or outside the collect window,
///   fails and changes nothing;
/// - right after a successful collect, no further collect succeeds, on any
///   edge, until the rotation is over.
pub proof fn lemma_cube_collect_laws<F: Default>(
    c0: CubeState<F>,
    c1: CubeState<F>,
    c2: CubeState<F>,
    e1: CubeEdge,
    e2: CubeEdge,
    p1: Option<F>,
    p2: Option<F>,
    ok1: bool,
    ok2: bool,
)
    requires
        cube_collect_step(c0, c1, e1, p1, ok1),
        cube_collect_step(c1, c2, e2, p2, ok2),
    ensures
        0 <= e1.spec_index() < 3,
        e1 != e2 ==> e1.spec_index() != e2.spec_index(),
        ok1 ==> {
            &&& c1.collected@.len() == c0.collected@.len() + 1
            &&& c1.collected@.drop_last() == c0.collected@
            &&& c1.collected@.last() == (c0.current_face@[e1.spec_index()]->0, p1->0)
            &&& c0.current_face@[e1.spec_index()] is Some
            &&& p1 is Some
            &&& c1.rotations_remaining + 1 == c0.rotations_remaining || c0.rotations_remaining == 0
                && c1.rotations_remaining == 0
            &&& c1.rotating_edge == Some(e1)
        },
        !c0.active || c0.rotating_edge is Some || p1 is None ==> !ok1 && c1 == c0,
        ok1 ==> !ok2 && c2 == c1,
{
    if ok1 {
        assert(c1.collected@.drop_last() =~= c0.collected@);
    }
}

/// Try to collect the bonus on `edge` of the current face. `precision` is the
/// timing precision at the current fill progress (`None` outside the collect
/// window). Succeeds only on an active, non-rotating cube, inside the window,
/// with a marker on that edge: the bonus is recorded with its precision, a
/// rotation is spent and the pop → rotate → hold sequence starts.
pub fn process_cube_collect<F: Copy + Default>(
    cube: &mut CubeState<F>,
    edge: CubeEdge,
    precision: Option<F>,
) -> (collected: bool)
    ensures
        cube_collect_step(*old(cube), *final(cube), edge, precision, collected),
{
    if !cube.active || cube.rotating_edge.is_some() {
        return false;
    }
    let precision = match precision {
        Some(p) => p,
        None => {
            return false;
        },
    };
    let bonus = match cube.current_face[edge.index()] {
        Some(b) => b,
        None => {
            return false;
        },
    };
    cube.collected.push((bonus, precision));
    cube.rotations_remaining = cube.rotations_remaining.saturating_sub(1);
    cube.rotating_edge = Some(edge);
    cube.pop_progress = F::default();
    cube.rotation_progress = F::default();
    cube.rotation_hold_remaining = F::default();
    cube.new_face_pending = true;
    true
}

/// Finalize the cube activation; `collected` is kept for the payout.
pub fn resolve_cube<F: Copy + Default>(cube: &mut CubeState<F>)
    ensures
        !final(cube).active,
        is_default(final(cube).fill_progress),
        final(cube).rotations_remaining == 0,
        final(cube).current_face@ == empty_face::<F>(),
        final(cube).rotating_edge is None,
        final(cube).animation_cleared(),
        !final(cube).new_face_pending,
        final(cube).collected == old(cube).collected,
        final(cube).activation_quality == old(cube).activation_quality,
{
    cube.active = false;
    cube.fill_progress = F::default();
    cube.rotations_remaining = 0;
    cube.current_face = [None, None, None];
    cube.rotating_edge = None;
    cube.pop_progress = F::default();
    cube.rotation_progress = F::default();
    cube.rotation_hold_remaining = F::default();
    cube.new_face_pending = false;
}

/// Discard an active cube and anything collected so far (stance left mid-run).
pub fn cancel_cube<F: Copy + Default>(cube: &mut CubeState<F>)
    ensures
        !final(cube).active,
        is_default(final(cube).fill_progress),
        final(cube).rotations_remaining == 0,
        final(cube).current_face@ == empty_face::<F>(),
        final(cube).rotating_edge is None,
        final(cube).animation_cleared(),
        !final(cube).new_face_pending,
        final(cube).collected@ == Seq::<(PhysicalBonus<F>, F)>::empty(),
        final(cube).activation_quality == old(cube).activation_quality,
{
    resolve_cube(cube);
    cube.collected.clear();
}

/// The face swap at the rotation midpoint: clears the pending flag and shows
/// `fresh` while rotations remain, or an empty face on the last rotation.
pub fn swap_face<F: Copy>(cube: &mut CubeState<F>, fresh: [Option<PhysicalBonus<F>>; 3])
    ensures
        !final(cube).new_face_pending,
        final(cube).current_face@ == if old(cube).rotations_remaining > 0 {
            fresh@
        } else {
            empty_face::<F>()
        },
        final(cube).active == old(cube).active,
        final(cube).rotations_remaining == old(cube).rotations_remaining,
        final(cube).collected == old(cube).collected,
        final(cube).rotating_edge == old(cube).rotating_edge,
        final(cube).fill_progress == old(cube).fill_progress,
        final(cube).pop_progress == old(cube).pop_progress,
        final(cube).rotation_progress == old(cube).rotation_progress,
        final(cube).rotation_hold_remaining == old(cube).rotation_hold_remaining,
        final(cube).activation_quality == old(cube).activation_quality,
{
    cube.new_face_pending = false;
    if cube.rotations_remaining > 0 {
        cube.current_face = fresh;
    } else {
        cube.current_face = [None, None, None];
    }
}

/// End of the pop → rotate → hold sequence: back to filling, or resolve the
/// cube when no rotations remain.
pub fn finish_rotation<F: Copy + Default>(cube: &mut CubeState<F>)
    ensures
        final(cube).rotating_edge is None,
        is_default(final(cube).pop_progress),
        is_default(final(cube).rotation_progress),
        is_default(final(cube).fill_progress),
        final(cube).collected == old(cube).collected,
        final(cube).rotations_remaining == old(cube).rotations_remaining,
        final(cube).activation_quality == old(cube).activation_quality,
        old(cube).rotations_remaining == 0 ==> {
            &&& !final(cube).active
            &&& final(cube).current_face@ == empty_face::<F>()
            &&& is_default(final(cube).rotation_hold_remaining)
            &&& !final(cube).new_face_pending
        },
        old(cube).rotations_remaining > 0 ==> {
            &&& final(cube).active == old(cube).active
            &&& final(cube).current_face == old(cube).current_face
            &&& final(cube).rotation_hold_remaining == old(cube).rotation_hold_remaining
            &&& final(cube).new_face_pending == old(cube).new_face_pending
        },
{
    cube.rotating_edge = None;
    cube.pop_progress = F::default();
    cube.rotation_progress = F::default();
    cube.fill_progress = F::default();
    if cube.rotations_remaining == 0 {
        resolve_cube(cube);
    }
}

} // verus!

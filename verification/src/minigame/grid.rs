use std::collections::VecDeque;

use vstd::prelude::*;

use super::arc::{ArcState, GRID_CRITICAL_MASS_CAP};
use super::cube::{BonusKind, PhysicalBonus};
use crate::scalar::is_default;

verus! {

/// Default grid dimensions. Wider than tall so the path reads left-to-right.
pub const GRID_COLS_DEFAULT: u8 = 5;
pub const GRID_ROWS_DEFAULT: u8 = 3;
/// Random per-activation dimension ranges.
pub const GRID_COLS_MIN: u8 = 4;
pub const GRID_COLS_MAX: u8 = 6;
pub const GRID_ROWS_MIN: u8 = 3;
pub const GRID_ROWS_MAX: u8 = 5;

/// Minimum `shared_delta` at which a streak break fires the grid.
pub const MIN_GRID_BUDGET: u32 = 4;

/// Edge of the grid the player enters from or exits through.
#[derive(Clone, Copy, Debug, PartialEq, Eq, Structural, Default)]
pub enum GridEdge {
    Top,
    Right,
    #[default]
    Bottom,
    Left,
}

impl GridEdge {
    pub open spec fn spec_opposite(self) -> GridEdge {
        match self {
            GridEdge::Top => GridEdge::Bottom,
            GridEdge::Bottom => GridEdge::Top,
            GridEdge::Left => GridEdge::Right,
            GridEdge::Right => GridEdge::Left,
        }
    }

    /// The edge across the grid.
    pub fn opposite(self) -> (e: GridEdge)
        ensures
            e == self.spec_opposite(),
    {
        match self {
            GridEdge::Top => GridEdge::Bottom,
            GridEdge::Bottom => GridEdge::Top,
            GridEdge::Left => GridEdge::Right,
            GridEdge::Right => GridEdge::Left,
        }
    }
}

/// Law: `opposite` is an involution without fixed points.
pub proof fn lemma_opposite_involution(e: GridEdge)
    ensures
        e.spec_opposite().spec_opposite() == e,
        e.spec_opposite() != e,
{
}

/// One of the four cardinal moves a player can make on the grid.
#[derive(Clone, Copy, Debug, PartialEq, Eq, Structural)]
pub enum GridDir {
    Up,
    Right,
    Down,
    Left,
}

impl GridDir {
    pub open spec fn spec_step(self, cursor: (u8, u8)) -> (int, int) {
        let (c, r) = (cursor.0 as int, cursor.1 as int);
        match self {
            GridDir::Up => (c, r - 1),
            GridDir::Down => (c, r + 1),
            GridDir::Left => (c - 1, r),
            GridDir::Right => (c + 1, r),
        }
    }

    /// Apply this direction to a `(col, row)` cursor, returning the next
    /// signed position; callers check bounds.
    pub fn step(self, cursor: (u8, u8)) -> (next: (i32, i32))
        ensures
            next.0 as int == self.spec_step(cursor).0,
            next.1 as int == self.spec_step(cursor).1,
    {
        let (c, r) = (cursor.0 as i32, cursor.1 as i32);
        match self {
            GridDir::Up => (c, r - 1),
            GridDir::Down => (c, r + 1),
            GridDir::Left => (c - 1, r),
            GridDir::Right => (c + 1, r),
        }
    }
}

/// Contents of a single grid cell.
#[derive(Clone, Copy, Debug, PartialEq, Default)]
pub enum GridNode<F> {
    #[default]
    Empty,
    Bonus(PhysicalBonus<F>),
    /// Duplicates the last bonus visited (no-op if none).
    Echo,
    /// Adopts the most-frequently-collected bonus type of the run.
    Mimic,
    /// Designates the current collected pool as a floor against blowout.
    Anchor,
}

/// How a grid run resolved.
#[derive(Clone, Copy, Debug, PartialEq, Eq, Structural)]
pub enum GridResolution {
    /// Player reached the exit edge — full collected list is paid out.
    Exit,
    /// Dead-end with no anchor floor; everything is lost.
    Blowout,
    /// Dead-end after passing an Anchor; the floored list is paid out.
    AnchorSaved,
}

/// Server-authoritative state for the Duelist traversal grid overlay.
#[derive(Debug)]
pub struct GridState<F> {
    /// True while a grid activation is in progress.
    pub active: bool,
    /// Active grid dimensions.
    pub cols: u8,
    pub rows: u8,
    /// Edge the cursor entered from.
    pub entry_edge: GridEdge,
    /// Edge the cursor must reach to cash out.
    pub exit_edge: GridEdge,
    /// Cell contents indexed `grid[row][col]`.
    pub grid: Vec<Vec<GridNode<F>>>,
    /// `(col, row)` cells visited in order, including entry.
    pub path: Vec<(u8, u8)>,
    /// Current cursor position.
    pub cursor: (u8, u8),
    /// Steps remaining.
    pub steps_remaining: u32,
    /// Bonuses collected so far this run, with their per-step magnitudes.
    pub collected: Vec<(PhysicalBonus<F>, F)>,
    /// The collected list as it stood when the most recent Anchor was passed.
    pub anchor_floor: Option<Vec<(PhysicalBonus<F>, F)>>,
    /// Most-recent `(bonus, magnitude)` collected — used by Echo cells.
    pub last_bonus: Option<(PhysicalBonus<F>, F)>,
    /// Snapshot of the winning arc's commit-quality history at activation
    /// (newest first); step `i` reads entry `i`.
    pub quality_history: VecDeque<F>,
    /// Set when the run resolves.
    pub resolved: Option<GridResolution>,
    /// Seconds left of the resolution animation before the grid clears.
    pub resolve_anim_remaining: F,
}

/// Mathematical model of a [`GridState`]: the same fields, with the
/// collections as sequences.
pub struct GridView<F> {
    pub active: bool,
    pub cols: u8,
    pub rows: u8,
    pub entry_edge: GridEdge,
    pub exit_edge: GridEdge,
    pub grid: Seq<Seq<GridNode<F>>>,
    pub path: Seq<(u8, u8)>,
    pub cursor: (u8, u8),
    pub steps_remaining: u32,
    pub collected: Seq<(PhysicalBonus<F>, F)>,
    pub anchor_floor: Option<Seq<(PhysicalBonus<F>, F)>>,
    pub last_bonus: Option<(PhysicalBonus<F>, F)>,
    pub quality_history: Seq<F>,
    pub resolved: Option<GridResolution>,
    pub resolve_anim_remaining: F,
}

impl<F> View for GridState<F> {
    type V = GridView<F>;

    open spec fn view(&self) -> GridView<F> {
        GridView {
            active: self.active,
            cols: self.cols,
            rows: self.rows,
            entry_edge: self.entry_edge,
            exit_edge: self.exit_edge,
            grid: self.grid@.map_values(|row: Vec<GridNode<F>>| row@),
            path: self.path@,
            cursor: self.cursor,
            steps_remaining: self.steps_remaining,
            collected: self.collected@,
            anchor_floor: match self.anchor_floor {
                Some(v) => Some(v@),
                None => None,
            },
            last_bonus: self.last_bonus,
            quality_history: self.quality_history@,
            resolved: self.resolved,
            resolve_anim_remaining: self.resolve_anim_remaining,
        }
    }
}

/// Number of entries of `s` whose bonus has kind `k`.
pub open spec fn count_kind<F>(s: Seq<(PhysicalBonus<F>, F)>, k: BonusKind) -> nat
    decreases s.len(),
{
    if s.len() == 0 {
        0
    } else {
        count_kind(s.drop_last(), k) + if s.last().0.spec_kind() == k { 1nat } else { 0nat }
    }
}

/// `i` is the latest entry of `s` whose kind is collected most often.
pub open spec fn is_latest_most_frequent<F>(s: Seq<(PhysicalBonus<F>, F)>, i: int) -> bool {
    &&& 0 <= i < s.len()
    &&& forall|j: int| 0 <= j < s.len()
        ==> count_kind(s, #[trigger] s[j].0.spec_kind()) <= count_kind(s, s[i].0.spec_kind())
    &&& forall|j: int| i < j < s.len()
        ==> count_kind(s, #[trigger] s[j].0.spec_kind()) < count_kind(s, s[i].0.spec_kind())
}

/// Mimic resolution: the latest exemplar of the most frequently collected
/// bonus type (`None` when nothing was collected).
pub open spec fn spec_most_frequent<F>(s: Seq<(PhysicalBonus<F>, F)>) -> Option<PhysicalBonus<F>> {
    if s.len() == 0 {
        None
    } else {
        Some(s[choose|i: int| is_latest_most_frequent(s, i)].0)
    }
}

/// True when stepping `dir` from `cursor` would cross the grid's exit gate:
/// the matching move off the center cell of the exit edge.
pub open spec fn spec_is_exit_step(cursor: (u8, u8), dir: GridDir, cols: u8, rows: u8, exit_edge: GridEdge) -> bool {
    if cols == 0 || rows == 0 {
        false
    } else {
        let mid_col = cols / 2;
        let mid_row = rows / 2;
        match (exit_edge, dir) {
            (GridEdge::Right, GridDir::Right) => cursor.0 == cols - 1 && cursor.1 == mid_row,
            (GridEdge::Left, GridDir::Left) => cursor.0 == 0 && cursor.1 == mid_row,
            (GridEdge::Top, GridDir::Up) => cursor.0 == mid_col && cursor.1 == 0,
            (GridEdge::Bottom, GridDir::Down) => cursor.0 == mid_col && cursor.1 == rows - 1,
            _ => false,
        }
    }
}

/// Law of the exit gate: an exit step starts on the middle cell of the exit
/// edge and steps off the grid through that edge; no step on an empty grid,
/// and no step in another direction, is an exit.
pub proof fn lemma_exit_gate(cursor: (u8, u8), dir: GridDir, cols: u8, rows: u8, exit_edge: GridEdge)
    ensures
        cols == 0 || rows == 0 ==> !spec_is_exit_step(cursor, dir, cols, rows, exit_edge),
        spec_is_exit_step(cursor, dir, cols, rows, exit_edge) ==> {
            let n = dir.spec_step(cursor);
            &&& cursor.0 < cols && cursor.1 < rows
            &&& !(0 <= n.0 < cols && 0 <= n.1 < rows)
            &&& exit_edge == GridEdge::Right ==> dir == GridDir::Right && n.0 == cols && cursor.1 == rows / 2
            &&& exit_edge == GridEdge::Left ==> dir == GridDir::Left && n.0 == -1 && cursor.1 == rows / 2
            &&& exit_edge == GridEdge::Top ==> dir == GridDir::Up && n.1 == -1 && cursor.0 == cols / 2
            &&& exit_edge == GridEdge::Bottom ==> dir == GridDir::Down && n.1 == rows && cursor.0 == cols / 2
        },
        cols > 0 && rows > 0 && exit_edge == GridEdge::Right && dir == GridDir::Right
            ==> (spec_is_exit_step(cursor, dir, cols, rows, exit_edge) <==> cursor == ((cols - 1) as u8, rows / 2)),
        cols > 0 && rows > 0 && exit_edge == GridEdge::Left && dir == GridDir::Left
            ==> (spec_is_exit_step(cursor, dir, cols, rows, exit_edge) <==> cursor == (0u8, rows / 2)),
        cols > 0 && rows > 0 && exit_edge == GridEdge::Top && dir == GridDir::Up
            ==> (spec_is_exit_step(cursor, dir, cols, rows, exit_edge) <==> cursor == (cols / 2, 0u8)),
        cols > 0 && rows > 0 && exit_edge == GridEdge::Bottom && dir == GridDir::Down
            ==> (spec_is_exit_step(cursor, dir, cols, rows, exit_edge) <==> cursor == (cols / 2, (rows - 1) as u8)),
{
}

impl<F> GridView<F> {
    /// Every row exists and has `cols` cells.
    pub open spec fn shape_ok(self) -> bool {
        &&& self.grid.len() == self.rows
        &&& forall|r: int| 0 <= r < self.rows ==> #[trigger] self.grid[r].len() == self.cols
    }

    pub open spec fn in_bounds(self, p: (int, int)) -> bool {
        0 <= p.0 < self.cols && 0 <= p.1 < self.rows
    }

    /// A move in `dir` lands on a cell and reads it: the run is live, the
    /// target is in bounds and unvisited, and a step is left.
    pub open spec fn reads_cell(self, dir: GridDir) -> bool {
        let n = dir.spec_step(self.cursor);
        &&& self.active
        &&& self.resolved is None
        &&& self.in_bounds(n)
        &&& !self.path.contains((n.0 as u8, n.1 as u8))
        &&& self.steps_remaining > 0
    }

    /// The cell table holds a cell at `(col, row)`.
    pub open spec fn has_cell(self, p: (int, int)) -> bool {
        0 <= p.1 < self.grid.len() && 0 <= p.0 < self.grid[p.1].len()
    }

    /// Whatever cell a move in `dir` reads is present in the cell table.
    pub open spec fn move_cell_present(self, dir: GridDir) -> bool {
        self.reads_cell(dir) ==> self.has_cell(dir.spec_step(self.cursor))
    }

    /// The visited path never repeats a cell, lies inside the grid and ends at the cursor.
    pub open spec fn path_ok(self) -> bool {
        &&& self.path.len() > 0
        &&& self.path.last() == self.cursor
        &&& forall|i: int, j: int| 0 <= i < j < self.path.len() ==> self.path[i] != self.path[j]
        &&& forall|i: int| 0 <= i < self.path.len()
            ==> self.in_bounds(((#[trigger] self.path[i]).0 as int, self.path[i].1 as int))
    }

    /// The dead-end resolution: anchor-saved when an anchor was passed,
    /// otherwise a blowout, with the shatter animation armed for `anim`.
    pub open spec fn blown_out(self, anim: F) -> GridView<F> {
        GridView {
            resolved: Some(
                if self.anchor_floor is Some {
                    GridResolution::AnchorSaved
                } else {
                    GridResolution::Blowout
                },
            ),
            resolve_anim_remaining: anim,
            ..self
        }
    }

    /// Magnitude for step `step`: that entry of the quality snapshot, or `zero`
    /// past its end.
    pub open spec fn magnitude_at(self, step: int, zero: F) -> F {
        if 0 <= step < self.quality_history.len() {
            self.quality_history[step]
        } else {
            zero
        }
    }

    /// Effect of landing on `node` at step `step`.
    pub open spec fn visit(self, node: GridNode<F>, step: int, zero: F) -> GridView<F> {
        match node {
            GridNode::Empty => self,
            GridNode::Bonus(b) => {
                let entry = (b, self.magnitude_at(step, zero));
                GridView { collected: self.collected.push(entry), last_bonus: Some(entry), ..self }
            },
            GridNode::Echo => match self.last_bonus {
                Some(entry) => GridView { collected: self.collected.push(entry), ..self },
                None => self,
            },
            GridNode::Mimic => match spec_most_frequent(self.collected) {
                Some(b) => {
                    let entry = (b, self.magnitude_at(step, zero));
                    GridView { collected: self.collected.push(entry), last_bonus: Some(entry), ..self }
                },
                None => self,
            },
            GridNode::Anchor => GridView { anchor_floor: Some(self.collected), ..self },
        }
    }

    /// A move that leaves the grid: the exit gesture (costs a step, or blows
    /// out when none remain), anything else is silently rejected.
    pub open spec fn after_outside_move(self, dir: GridDir, anim: F, zero: F) -> (bool, GridView<F>) {
        if !spec_is_exit_step(self.cursor, dir, self.cols, self.rows, self.exit_edge) {
            (false, self)
        } else if self.steps_remaining == 0 {
            (false, self.blown_out(anim))
        } else {
            (true, GridView {
                steps_remaining: (self.steps_remaining - 1) as u32,
                resolved: Some(GridResolution::Exit),
                resolve_anim_remaining: zero,
                ..self
            })
        }
    }

    /// A move onto the in-bounds cell `next`: revisiting or having no steps
    /// left blows out; otherwise the cursor advances, the cell takes effect,
    /// and spending the last step blows out.
    pub open spec fn after_inside_move(self, next: (u8, u8), anim: F, zero: F) -> (bool, GridView<F>) {
        if self.path.contains(next) || self.steps_remaining == 0 {
            (false, self.blown_out(anim))
        } else {
            let moved = GridView {
                path: self.path.push(next),
                cursor: next,
                steps_remaining: (self.steps_remaining - 1) as u32,
                ..self
            };
            let step = if self.path.len() >= 1 { self.path.len() - 1 } else { 0 };
            let visited = moved.visit(self.grid[next.1 as int][next.0 as int], step, zero);
            if visited.steps_remaining == 0 {
                (true, visited.blown_out(anim))
            } else {
                (true, visited)
            }
        }
    }

    /// Result of one directional move: whether it advanced or cleanly exited,
    /// and the state after it. `anim` is the shatter duration armed on a dead
    /// end; `zero` stands for `F::default()`.
    pub open spec fn after_move(self, dir: GridDir, anim: F, zero: F) -> (bool, GridView<F>) {
        let n = dir.spec_step(self.cursor);
        if !self.active || self.resolved is Some {
            (false, self)
        } else if !self.in_bounds(n) {
            self.after_outside_move(dir, anim, zero)
        } else {
            self.after_inside_move((n.0 as u8, n.1 as u8), anim, zero)
        }
    }
}

impl<F> GridState<F> {
    /// Whether the cell table has `rows` rows of `cols` cells each.
    pub fn has_shape(&self) -> (b: bool)
        ensures
            b == self@.shape_ok(),
    {
        if self.grid.len() != self.rows as usize {
            return false;
        }
        let mut r: usize = 0;
        while r < self.grid.len()
            invariant
                r <= self.grid.len(),
                self.grid.len() == self.rows,
                forall|i: int| 0 <= i < r ==> #[trigger] self@.grid[i].len() == self.cols,
            decreases self.grid.len() - r,
        {
            assert(self@.grid[r as int] == self.grid@[r as int]@);
            if self.grid[r].len() != self.cols as usize {
                return false;
            }
            r = r + 1;
        }
        true
    }

    /// Whether a move in `dir` would read a cell that the table lacks.
    pub fn move_cell_missing(&self, dir: GridDir) -> (b: bool)
        ensures
            b == !self@.move_cell_present(dir),
    {
        if !self.active || self.resolved.is_some() || self.steps_remaining == 0 {
            return false;
        }
        let (nx, ny) = dir.step(self.cursor);
        if nx < 0 || ny < 0 || nx >= self.cols as i32 || ny >= self.rows as i32 {
            return false;
        }
        let next = (nx as u8, ny as u8);
        if path_contains(&self.path, next) {
            return false;
        }
        let row = ny as usize;
        if row >= self.grid.len() {
            return true;
        }
        assert(self@.grid[row as int] == self.grid@[row as int]@);
        nx as usize >= self.grid[row].len()
    }
}

impl<F: Copy + Default> Default for GridState<F> {
    fn default() -> (g: Self)
        ensures
            !g.active,
            g.cols == 0,
            g.rows == 0,
            g.entry_edge == GridEdge::Bottom,
            g.exit_edge == GridEdge::Bottom,
            g@.grid.len() == 0,
            g@.path.len() == 0,
            g.cursor == (0u8, 0u8),
            g.steps_remaining == 0,
            g@.collected.len() == 0,
            g.anchor_floor is None,
            g.last_bonus is None,
            g@.quality_history.len() == 0,
            g.resolved is None,
            is_default(g.resolve_anim_remaining),
    {
        GridState {
            active: false,
            cols: 0,
            rows: 0,
            entry_edge: GridEdge::Bottom,
            exit_edge: GridEdge::Bottom,
            grid: Vec::new(),
            path: Vec::new(),
            cursor: (0, 0),
            steps_remaining: 0,
            collected: Vec::new(),
            anchor_floor: None,
            last_bonus: None,
            quality_history: VecDeque::new(),
            resolved: None,
            resolve_anim_remaining: F::default(),
        }
    }
}

/// True when stepping `dir` from `cursor` would cross the grid's exit gate.
/// The exit gate is at the center cell of the exit edge — only stepping off
/// that one cell in the matching direction counts as exit.
pub fn is_exit_step(cursor: (u8, u8), dir: GridDir, cols: u8, rows: u8, exit_edge: GridEdge) -> (b: bool)
    ensures
        b == spec_is_exit_step(cursor, dir, cols, rows, exit_edge),
{
    if cols == 0 || rows == 0 {
        return false;
    }
    let mid_col = cols / 2;
    let mid_row = rows / 2;
    match (exit_edge, dir) {
        (GridEdge::Right, GridDir::Right) => cursor.0 == cols - 1 && cursor.1 == mid_row,
        (GridEdge::Left, GridDir::Left) => cursor.0 == 0 && cursor.1 == mid_row,
        (GridEdge::Top, GridDir::Up) => cursor.0 == mid_col && cursor.1 == 0,
        (GridEdge::Bottom, GridDir::Down) => cursor.0 == mid_col && cursor.1 == rows - 1,
        _ => false,
    }
}

/// Dead-end resolution: anchor-saved when an anchor floor exists, otherwise
/// a blowout; the shatter animation runs for `anim_secs`.
pub fn set_blowout_resolution<F>(grid: &mut GridState<F>, anim_secs: F)
    ensures
        final(grid)@ == old(grid)@.blown_out(anim_secs),
{
    grid.resolved = Some(
        if grid.anchor_floor.is_some() {
            GridResolution::AnchorSaved
        } else {
            GridResolution::Blowout
        },
    );
    grid.resolve_anim_remaining = anim_secs;
}

/// Number of entries of `collected` whose bonus has kind `k`.
fn count_of_kind<F: Copy>(collected: &Vec<(PhysicalBonus<F>, F)>, k: BonusKind) -> (c: usize)
    ensures
        c == count_kind(collected@, k),
{
    let mut c: usize = 0;
    let mut j: usize = 0;
    while j < collected.len()
        invariant
            j <= collected.len(),
            c == count_kind(collected@.take(j as int), k),
            c <= j,
        decreases collected.len() - j,
    {
        assert(collected@.take(j as int + 1).drop_last() =~= collected@.take(j as int));
        if collected[j].0.kind() == k {
            c = c + 1;
        }
        j = j + 1;
    }
    assert(collected@.take(collected.len() as int) =~= collected@);
    c
}

/// Two indices that both pick the latest most-frequent entry are the same.
proof fn lemma_latest_most_frequent_unique<F>(s: Seq<(PhysicalBonus<F>, F)>, i: int, j: int)
    requires
        is_latest_most_frequent(s, i),
        is_latest_most_frequent(s, j),
    ensures
        i == j,
{
    if i < j {
        assert(count_kind(s, s[j].0.spec_kind()) < count_kind(s, s[i].0.spec_kind()));
        assert(count_kind(s, s[i].0.spec_kind()) <= count_kind(s, s[j].0.spec_kind()));
    } else if j < i {
        assert(count_kind(s, s[i].0.spec_kind()) < count_kind(s, s[j].0.spec_kind()));
        assert(count_kind(s, s[j].0.spec_kind()) <= count_kind(s, s[i].0.spec_kind()));
    }
}

/// Most-frequently-collected bonus type; among equally frequent types the
/// latest exemplar wins. Used for Mimic resolution.
pub fn most_frequent_bonus_type<F: Copy>(collected: &Vec<(PhysicalBonus<F>, F)>) -> (b: Option<PhysicalBonus<F>>)
    ensures
        b == spec_most_frequent(collected@),
{
    let n = collected.len();
    if n == 0 {
        return None;
    }
    let mut best_idx: usize = 0;
    let mut best_count: usize = count_of_kind(collected, collected[0].0.kind());
    let mut i: usize = 1;
    while i < n
        invariant
            n == collected.len(),
            1 <= i <= n,
            best_idx < i,
            best_count == count_kind(collected@, collected@[best_idx as int].0.spec_kind()),
            forall|j: int| 0 <= j < i
                ==> count_kind(collected@, #[trigger] collected@[j].0.spec_kind()) <= best_count,
            forall|j: int| best_idx < j < i
                ==> count_kind(collected@, #[trigger] collected@[j].0.spec_kind()) < best_count,
        decreases n - i,
    {
        let c = count_of_kind(collected, collected[i].0.kind());
        if c >= best_count {
            best_idx = i;
            best_count = c;
        }
        i = i + 1;
    }
    proof {
        let s = collected@;
        assert(is_latest_most_frequent(s, best_idx as int));
        let k = choose|k: int| is_latest_most_frequent(s, k);
        lemma_latest_most_frequent_unique(s, best_idx as int, k);
    }
    Some(collected[best_idx].0)
}

/// Copy of a list of `Copy` entries.
fn copy_entries<F: Copy>(v: &Vec<(PhysicalBonus<F>, F)>) -> (r: Vec<(PhysicalBonus<F>, F)>)
    ensures
        r@ == v@,
{
    let mut r: Vec<(PhysicalBonus<F>, F)> = Vec::new();
    let mut i: usize = 0;
    while i < v.len()
        invariant
            i <= v.len(),
            r@ == v@.take(i as int),
        decreases v.len() - i,
    {
        r.push(v[i]);
        i = i + 1;
        assert(r@ =~= v@.take(i as int));
    }
    assert(v@.take(v.len() as int) =~= v@);
    r
}

/// Whether `path` already holds `cell`.
fn path_contains(path: &Vec<(u8, u8)>, cell: (u8, u8)) -> (b: bool)
    ensures
        b == path@.contains(cell),
{
    let mut i: usize = 0;
    while i < path.len()
        invariant
            i <= path.len(),
            forall|j: int| 0 <= j < i ==> path@[j] != cell,
        decreases path.len() - i,
    {
        if path[i].0 == cell.0 && path[i].1 == cell.1 {
            assert(path@[i as int] == cell);
            return true;
        }
        i = i + 1;
    }
    false
}

/// Magnitude for step `step`: that entry of the quality snapshot, or `zero`.
fn magnitude_for_step<F: Copy>(history: &VecDeque<F>, step: usize, zero: F) -> (m: F)
    ensures
        m == (if step < history@.len() { history@[step as int] } else { zero }),
{
    if step < history.len() {
        history[step]
    } else {
        zero
    }
}

/// Apply one directional move; returns true if the move advanced the cursor
/// or cleanly exited.
///
/// Revisiting a cell already on the path (backtrack or self-intersection) or
/// moving with no steps left is a dead end: anchor-saved when an Anchor was
/// passed, otherwise a blowout, and the shatter animation is armed for
/// `blowout_anim_secs`. Out-of-bounds moves that are not the exit gesture are
/// silently rejected. Exit happens only when the player steps off the center
/// cell of the exit edge in the matching direction, and costs one step. A
/// move that lands on a cell takes the cell's effect (bonus collected with the
/// snapshot magnitude for that step, Echo, Mimic, Anchor); spending the last
/// step that way is a dead end too.
pub fn process_grid_move<F: Copy + Default>(grid: &mut GridState<F>, dir: GridDir, blowout_anim_secs: F) -> (advanced: bool)
    requires
        old(grid)@.move_cell_present(dir),
    ensures
        exists|zero: F|
            #![trigger is_default(zero)]
            is_default(zero) && (advanced, final(grid)@) == old(grid)@.after_move(dir, blowout_anim_secs, zero),
{
    let zero = F::default();
    assert(is_default(zero));
    let ghost g0 = grid@;
    if !grid.active || grid.resolved.is_some() {
        assert((false, grid@) == g0.after_move(dir, blowout_anim_secs, zero));
        return false;
    }
    let (nx, ny) = dir.step(grid.cursor);
    if nx < 0 || ny < 0 || nx >= grid.cols as i32 || ny >= grid.rows as i32 {
        if is_exit_step(grid.cursor, dir, grid.cols, grid.rows, grid.exit_edge) {
            if grid.steps_remaining == 0 {
                set_blowout_resolution(grid, blowout_anim_secs);
                return false;
            }
            grid.steps_remaining = grid.steps_remaining - 1;
            grid.resolved = Some(GridResolution::Exit);
            grid.resolve_anim_remaining = zero;
            return true;
        }
        assert((false, grid@) == g0.after_move(dir, blowout_anim_secs, zero));
        return false;
    }
    let next = (nx as u8, ny as u8);
    if path_contains(&grid.path, next) {
        set_blowout_resolution(grid, blowout_anim_secs);
        return false;
    }
    if grid.steps_remaining == 0 {
        set_blowout_resolution(grid, blowout_anim_secs);
        return false;
    }
    grid.path.push(next);
    grid.cursor = next;
    grid.steps_remaining = grid.steps_remaining - 1;
    let step_index = grid.path.len().saturating_sub(2);
    let ghost moved = grid@;
    assert(g0.reads_cell(dir));
    assert(g0.grid[ny as int] == grid.grid@[ny as int]@);
    let node = grid.grid[ny as usize][nx as usize];
    assert(node == g0.grid[ny as int][nx as int]);
    match node {
        GridNode::Empty => {},
        GridNode::Bonus(b) => {
            let mag = magnitude_for_step(&grid.quality_history, step_index, zero);
            grid.collected.push((b, mag));
            grid.last_bonus = Some((b, mag));
        },
        GridNode::Echo => {
            if let Some(entry) = grid.last_bonus {
                grid.collected.push(entry);
            }
        },
        GridNode::Mimic => {
            if let Some(b) = most_frequent_bonus_type(&grid.collected) {
                let mag = magnitude_for_step(&grid.quality_history, step_index, zero);
                grid.collected.push((b, mag));
                grid.last_bonus = Some((b, mag));
            }
        },
        GridNode::Anchor => {
            grid.anchor_floor = Some(copy_entries(&grid.collected));
        },
    }
    assert(grid@ == moved.visit(node, step_index as int, zero));
    if grid.steps_remaining == 0 {
        set_blowout_resolution(grid, blowout_anim_secs);
    }
    true
}

/// Player-level handoff for break-trigger grid activation: the budget and a
/// snapshot of the winning arc's pre-apex history, consumed on the next tick.
#[derive(Clone, Debug, PartialEq, Default)]
pub struct DpsGridTrigger<F> {
    pub pending_break_budget: Option<u32>,
    pub pending_break_history: Option<VecDeque<F>>,
}

impl<F> DpsGridTrigger<F> {
    /// Drop any pending break trigger.
    pub fn clear(&mut self)
        ensures
            final(self).pending_break_budget is None,
            final(self).pending_break_history is None,
    {
        self.pending_break_budget = None;
        self.pending_break_history = None;
    }
}

/// Copy of a quality history.
pub fn copy_history<F: Copy>(h: &VecDeque<F>) -> (r: VecDeque<F>)
    ensures
        r@ == h@,
{
    let mut r: VecDeque<F> = VecDeque::new();
    let mut i: usize = 0;
    while i < h.len()
        invariant
            i <= h.len(),
            r@ == h@.take(i as int),
        decreases h.len() - i,
    {
        r.push_back(h[i]);
        i = i + 1;
        assert(r@ =~= h@.take(i as int));
    }
    assert(h@.take(h.len() as int) =~= h@);
    r
}

impl<F> GridView<F> {
    /// The grid holds no run: every field back to its idle value, except the
    /// collected list and the animation timer, which the callers settle.
    pub open spec fn is_cleared(self) -> bool {
        &&& !self.active
        &&& self.cols == 0
        &&& self.rows == 0
        &&& self.entry_edge == GridEdge::Bottom
        &&& self.exit_edge == GridEdge::Bottom
        &&& self.grid.len() == 0
        &&& self.path.len() == 0
        &&& self.cursor == (0u8, 0u8)
        &&& self.steps_remaining == 0
        &&& self.anchor_floor is None
        &&& self.last_bonus is None
        &&& self.quality_history.len() == 0
        &&& self.resolved is None
    }
}

/// Tear down a grid run with its collected payout kept (drained by the caller).
pub fn resolve_grid<F: Copy + Default>(grid: &mut GridState<F>)
    ensures
        final(grid)@.is_cleared(),
        is_default(final(grid).resolve_anim_remaining),
        final(grid)@.collected == old(grid)@.collected,
{
    grid.active = false;
    grid.cols = 0;
    grid.rows = 0;
    grid.entry_edge = GridEdge::Bottom;
    grid.exit_edge = GridEdge::Bottom;
    grid.grid.clear();
    grid.path.clear();
    grid.cursor = (0, 0);
    grid.steps_remaining = 0;
    grid.anchor_floor = None;
    grid.last_bonus = None;
    grid.quality_history.clear();
    grid.resolved = None;
    grid.resolve_anim_remaining = F::default();
}

/// Discard a grid run and its collected bonuses (DPS stance left mid-run).
pub fn cancel_grid<F: Copy + Default>(grid: &mut GridState<F>)
    ensures
        final(grid)@.is_cleared(),
        is_default(final(grid).resolve_anim_remaining),
        final(grid)@.collected.len() == 0,
{
    resolve_grid(grid);
    grid.collected.clear();
}

/// A layout a grid can open with: `cols` in `[GRID_COLS_MIN, GRID_COLS_MAX]`,
/// an odd `rows` in `[GRID_ROWS_MIN, min(GRID_ROWS_MAX, cols)]` so the entry
/// and exit sit on a centered row, a `rows` × `cols` cell table, and an empty
/// entry cell on the left edge's middle row.
pub open spec fn layout_ok<F>(cols: u8, rows: u8, cells: Seq<Seq<GridNode<F>>>) -> bool {
    &&& GRID_COLS_MIN <= cols <= GRID_COLS_MAX
    &&& rows % 2 == 1
    &&& GRID_ROWS_MIN <= rows <= GRID_ROWS_MAX
    &&& rows <= cols
    &&& cells.len() == rows
    &&& forall|r: int| 0 <= r < rows ==> #[trigger] cells[r].len() == cols
    &&& cells[(rows / 2) as int][0] is Empty
}

/// Whether `cols`, `rows` and `cells` form a layout a grid can open with
/// (see [`layout_ok`]).
pub fn layout_fits<F>(cols: u8, rows: u8, cells: &Vec<Vec<GridNode<F>>>) -> (b: bool)
    ensures
        b == layout_ok(cols, rows, cells@.map_values(|row: Vec<GridNode<F>>| row@)),
{
    let ghost v = cells@.map_values(|row: Vec<GridNode<F>>| row@);
    if !(GRID_COLS_MIN <= cols && cols <= GRID_COLS_MAX && rows % 2 == 1 && GRID_ROWS_MIN <= rows
        && rows <= GRID_ROWS_MAX && rows <= cols && cells.len() == rows as usize) {
        return false;
    }
    let mut r: usize = 0;
    while r < cells.len()
        invariant
            r <= cells.len(),
            cells.len() == rows,
            v == cells@.map_values(|row: Vec<GridNode<F>>| row@),
            forall|i: int| 0 <= i < r ==> #[trigger] v[i].len() == cols,
        decreases cells.len() - r,
    {
        assert(v[r as int] == cells@[r as int]@);
        if cells[r].len() != cols as usize {
            return false;
        }
        r = r + 1;
    }
    let mid = (rows / 2) as usize;
    assert(v[mid as int] == cells@[mid as int]@);
    match cells[mid][0] {
        GridNode::Empty => true,
        _ => false,
    }
}

/// Open the grid on a `cols` × `rows` layout with the seeded `cells`: entry on
/// the left edge's middle row, exit on the right, `budget` steps, and the
/// winning arc's `history_snapshot` for per-step magnitudes. Both arcs'
/// baselines snap to their current streaks; the streaks are kept.
pub fn activate_grid<F: Copy + Default>(
    grid: &mut GridState<F>,
    primary: &mut ArcState<F>,
    secondary: &mut ArcState<F>,
    budget: u32,
    history_snapshot: VecDeque<F>,
    cols: u8,
    rows: u8,
    cells: Vec<Vec<GridNode<F>>>,
)
    requires
        layout_ok(cols, rows, cells@.map_values(|row: Vec<GridNode<F>>| row@)),
    ensures
        final(grid)@.shape_ok(),
        final(grid).active,
        final(grid).cols == cols,
        final(grid).rows == rows,
        final(grid).entry_edge == GridEdge::Left,
        final(grid).exit_edge == GridEdge::Right,
        final(grid)@.grid == cells@.map_values(|row: Vec<GridNode<F>>| row@),
        final(grid)@.path == seq![(0u8, rows / 2)],
        final(grid).cursor == (0u8, rows / 2),
        final(grid).steps_remaining == budget,
        final(grid)@.collected.len() == 0,
        final(grid).anchor_floor is None,
        final(grid).last_bonus is None,
        final(grid)@.quality_history == history_snapshot@,
        final(grid).resolved is None,
        is_default(final(grid).resolve_anim_remaining),
        final(primary).streak == old(primary).streak,
        final(primary).streak_at_last_activation == old(primary).streak,
        final(secondary).streak == old(secondary).streak,
        final(secondary).streak_at_last_activation == old(secondary).streak,
        final(primary).commit == old(primary).commit,
        final(secondary).commit == old(secondary).commit,
        final(primary).apex_visits_since_commit == old(primary).apex_visits_since_commit,
        final(secondary).apex_visits_since_commit == old(secondary).apex_visits_since_commit,
        final(primary).same_motion(old(primary)),
        final(secondary).same_motion(old(secondary)),
        final(primary).last_commit_theta == old(primary).last_commit_theta,
        final(secondary).last_commit_theta == old(secondary).last_commit_theta,
        final(primary).prev_at_apex == old(primary).prev_at_apex,
        final(secondary).prev_at_apex == old(secondary).prev_at_apex,
{
    let entry_cell = (0u8, rows / 2);
    grid.active = true;
    grid.cols = cols;
    grid.rows = rows;
    grid.entry_edge = GridEdge::Left;
    grid.exit_edge = GridEdge::Right;
    grid.grid = cells;
    grid.path = vec![entry_cell];
    grid.cursor = entry_cell;
    grid.steps_remaining = budget;
    grid.collected.clear();
    grid.anchor_floor = None;
    grid.last_bonus = None;
    grid.quality_history = history_snapshot;
    grid.resolved = None;
    grid.resolve_anim_remaining = F::default();
    primary.streak_at_last_activation = primary.streak;
    secondary.streak_at_last_activation = secondary.streak;
}

/// The payout of a resolved run: everything on Exit, the anchor floor (or the
/// collected list when no floor was recorded) on AnchorSaved, nothing on Blowout.
pub open spec fn payout<F>(g: GridView<F>, res: GridResolution) -> Seq<(PhysicalBonus<F>, F)> {
    match res {
        GridResolution::Exit => g.collected,
        GridResolution::AnchorSaved => match g.anchor_floor {
            Some(floor) => floor,
            None => g.collected,
        },
        GridResolution::Blowout => Seq::empty(),
    }
}

/// Settle a resolved run once its animation has elapsed: returns the
/// resolution and the payout, and clears the grid (collected list included).
pub fn settle_resolved_grid<F: Copy + Default>(grid: &mut GridState<F>) -> (out: (GridResolution, Vec<(PhysicalBonus<F>, F)>))
    requires
        old(grid).resolved is Some,
    ensures
        out.0 == old(grid).resolved->0,
        out.1@ == payout(old(grid)@, out.0),
        final(grid)@.is_cleared(),
        is_default(final(grid).resolve_anim_remaining),
        final(grid)@.collected.len() == 0,
{
    let res = match grid.resolved {
        Some(r) => r,
        None => GridResolution::Blowout,
    };
    let paid = match res {
        GridResolution::Exit => copy_entries(&grid.collected),
        GridResolution::AnchorSaved => match &grid.anchor_floor {
            Some(floor) => copy_entries(floor),
            None => copy_entries(&grid.collected),
        },
        GridResolution::Blowout => Vec::new(),
    };
    cancel_grid(grid);
    (res, paid)
}

/// What the per-tick grid bookkeeping asks for on an unresolved grid.
pub open spec fn spec_grid_activation<F>(
    active: bool,
    primary: ArcState<F>,
    secondary: ArcState<F>,
    pending_budget: Option<u32>,
    pending_history: Option<Seq<F>>,
    is_dps: bool,
) -> Option<(u32, Seq<F>)> {
    let pd = primary.spec_delta();
    let sd = secondary.spec_delta();
    let delta = if pd >= sd { pd } else { sd };
    if !is_dps || active {
        None
    } else if delta >= GRID_CRITICAL_MASS_CAP {
        Some((delta, if sd > pd { secondary.commit.history@ } else { primary.commit.history@ }))
    } else {
        match pending_budget {
            Some(budget) => Some((budget, match pending_history {
                Some(h) => h,
                None => Seq::empty(),
            })),
            None => None,
        }
    }
}

/// Laws of an activation request, for all arcs and pending triggers:
/// - off the DPS stance, or while a grid runs, nothing is asked for;
/// - when either arc's activation delta has reached the cap, the budget is
///   the larger delta and the history that of the arc with the larger delta,
///   the primary arc on ties, whatever trigger is pending;
/// - below the cap, a pending break trigger is asked for with its own budget
///   and history, and without one nothing is asked for.
pub proof fn lemma_activation_request_laws<F>(
    active: bool,
    primary: ArcState<F>,
    secondary: ArcState<F>,
    pending_budget: Option<u32>,
    pending_history: Option<Seq<F>>,
    is_dps: bool,
)
    ensures
        ({
            let req = spec_grid_activation(active, primary, secondary, pending_budget, pending_history, is_dps);
            let pd = primary.spec_delta();
            let sd = secondary.spec_delta();
            let capped = pd >= GRID_CRITICAL_MASS_CAP || sd >= GRID_CRITICAL_MASS_CAP;
            &&& (!is_dps || active) ==> req is None
            &&& is_dps && !active && capped && pd >= sd ==> req == Some((pd, primary.commit.history@))
            &&& is_dps && !active && capped && sd > pd ==> req == Some((sd, secondary.commit.history@))
            &&& is_dps && !active && !capped && pending_budget is None ==> req is None
            &&& is_dps && !active && !capped && pending_budget is Some && pending_history is Some
                ==> req == Some((pending_budget->0, pending_history->0))
            &&& is_dps && !active && !capped && pending_budget is Some && pending_history is None
                ==> req == Some((pending_budget->0, Seq::<F>::empty()))
        }),
{
}

/// Per-tick trigger handling for an unresolved grid. Off the DPS stance an
/// active grid is cancelled and pending triggers dropped. On DPS stance with
/// an idle grid, a shared delta at the cap asks for activation with that
/// budget and the winning arc's history (dropping pending triggers);
/// otherwise a pending break trigger is consumed and asked for. Returns the
/// `(budget, history)` to activate with, if any.
pub fn grid_activation_request<F: Copy + Default>(
    grid: &mut GridState<F>,
    primary: &ArcState<F>,
    secondary: &ArcState<F>,
    trigger: &mut DpsGridTrigger<F>,
    is_dps: bool,
) -> (req: Option<(u32, VecDeque<F>)>)
    requires
        old(grid).resolved is None,
    ensures
        match req {
            Some((b, h)) => spec_grid_activation(
                old(grid).active,
                *primary,
                *secondary,
                old(trigger).pending_break_budget,
                match old(trigger).pending_break_history {
                    Some(h) => Some(h@),
                    None => None,
                },
                is_dps,
            ) == Some((b, h@)),
            None => spec_grid_activation(
                old(grid).active,
                *primary,
                *secondary,
                old(trigger).pending_break_budget,
                match old(trigger).pending_break_history {
                    Some(h) => Some(h@),
                    None => None,
                },
                is_dps,
            ) is None,
        },
        !is_dps && old(grid).active ==> {
            &&& final(grid)@.is_cleared()
            &&& final(grid)@.collected.len() == 0
            &&& is_default(final(grid).resolve_anim_remaining)
        },
        !(!is_dps && old(grid).active) ==> final(grid)@ == old(grid)@,
        !is_dps || (!old(grid).active && req is Some) ==> {
            &&& final(trigger).pending_break_budget is None
            &&& final(trigger).pending_break_history is None
        },
        is_dps && (old(grid).active || req is None) ==> *final(trigger) == *old(trigger),
{
    if !is_dps {
        if grid.active {
            cancel_grid(grid);
        }
        trigger.clear();
        return None;
    }
    if grid.active {
        return None;
    }
    let delta = super::arc::shared_delta(primary, secondary);
    if delta >= GRID_CRITICAL_MASS_CAP {
        let history = copy_history(&super::arc::winning_arc(primary, secondary).commit.history);
        trigger.clear();
        return Some((delta, history));
    }
    match trigger.pending_break_budget {
        Some(budget) => {
            let history = match trigger.pending_break_history.take() {
                Some(h) => h,
                None => VecDeque::new(),
            };
            trigger.clear();
            Some((budget, history))
        },
        None => None,
    }
}

/// Pick an integer in `[lo, hi]`: `lo` when `hi <= lo` (without rolling),
/// otherwise `lo` plus the index that `roll(span)` returns for the span
/// `hi - lo + 1`, clamped to the span.
pub fn sample_inclusive_range<R: FnOnce(usize) -> usize>(lo: u8, hi: u8, roll: R) -> (v: u8)
    requires
        forall|span: usize| call_requires(roll, (span,)),
        lo < hi ==> hi - lo < u8::MAX,
    ensures
        hi <= lo ==> v == lo,
        lo < hi ==> exists|k: usize|
            #![trigger call_ensures(roll, ((hi - lo + 1) as usize,), k)]
            call_ensures(roll, ((hi - lo + 1) as usize,), k)
                && v == lo + if k < (hi - lo) as usize { k as int } else { (hi - lo) as int },
        lo <= v,
        hi <= lo || v <= hi,
{
    if hi <= lo {
        return lo;
    }
    let span = (hi - lo + 1) as usize;
    let idx = roll(span);
    let offset = if idx < span - 1 { idx } else { span - 1 };
    lo + offset as u8
}

/// Odd row counts in `[GRID_ROWS_MIN, min(GRID_ROWS_MAX, cols)]`, ascending.
pub open spec fn row_candidates(cols: u8) -> Seq<u8> {
    let upper = if GRID_ROWS_MAX <= cols { GRID_ROWS_MAX } else { cols };
    Seq::new(6, |i: int| i as u8).filter(|r: u8| GRID_ROWS_MIN <= r <= upper && r % 2 == 1)
}

/// Largest odd integer in `[1, upper]`, or 1 when there is none.
pub open spec fn largest_odd_at_most(upper: u8) -> u8 {
    if upper == 0 {
        1
    } else if upper % 2 == 1 {
        upper
    } else {
        (upper - 1) as u8
    }
}

/// Pick a row count for a grid `cols` wide: uniformly (through `roll`) from
/// the odd integers in `[GRID_ROWS_MIN, min(GRID_ROWS_MAX, cols)]`, so the
/// entry/exit cells sit on a centered middle row and the grid is never taller
/// than wide. When that set is empty it falls back, without rolling, to the
/// largest odd integer ≤ `min(GRID_ROWS_MAX, cols)`, or 1.
pub fn sample_grid_rows<R: FnOnce(usize) -> usize>(cols: u8, roll: R) -> (rows: u8)
    requires
        forall|n: usize| call_requires(roll, (n,)),
    ensures
        rows % 2 == 1,
        rows <= GRID_ROWS_MAX,
        cols >= 1 ==> rows <= cols,
        cols >= GRID_ROWS_MIN ==> rows >= GRID_ROWS_MIN,
        row_candidates(cols).len() == 0 ==> rows == largest_odd_at_most(
            if GRID_ROWS_MAX <= cols { GRID_ROWS_MAX } else { cols },
        ),
        row_candidates(cols).len() > 0 ==> exists|k: usize|
            #![trigger call_ensures(roll, (row_candidates(cols).len() as usize,), k)]
            call_ensures(roll, (row_candidates(cols).len() as usize,), k)
                && rows == row_candidates(cols)[if k < row_candidates(cols).len() - 1 {
                    k as int
                } else {
                    row_candidates(cols).len() - 1
                }],
{
    let upper = if GRID_ROWS_MAX <= cols { GRID_ROWS_MAX } else { cols };
    let mut candidates: Vec<u8> = Vec::new();
    let mut r: u8 = 0;
    let ghost all = Seq::new(6, |i: int| i as u8);
    let ghost pred = |r: u8| GRID_ROWS_MIN <= r <= upper && r % 2 == 1;
    while r < 6
        invariant
            r <= 6,
            upper <= GRID_ROWS_MAX,
            all == Seq::new(6, |i: int| i as u8),
            pred == (|r: u8| GRID_ROWS_MIN <= r <= upper && r % 2 == 1),
            candidates@ == all.take(r as int).filter(pred),
        decreases 6 - r,
    {
        proof {
            reveal_with_fuel(Seq::filter, 1);
            assert(all.take(r as int + 1).drop_last() =~= all.take(r as int));
        }
        if GRID_ROWS_MIN <= r && r <= upper && r % 2 == 1 {
            candidates.push(r);
        }
        r = r + 1;
    }
    proof {
        assert(all.take(6) =~= all);
        assert(candidates@ == row_candidates(cols));
        assert forall|i: int| 0 <= i < candidates@.len() implies pred(#[trigger] candidates@[i]) by {
            all.filter_lemma(pred);
        }
    }
    if candidates.len() == 0 {
        proof {
            if cols >= GRID_ROWS_MIN {
                all.filter_lemma(pred);
                assert(all[3] == 3u8);
                assert(pred(3u8));
                assert(all.filter(pred).contains(3u8));
            }
        }
        return if upper == 0 {
            1
        } else if upper % 2 == 1 {
            upper
        } else {
            upper - 1
        };
    }
    let n = candidates.len();
    let idx = roll(n);
    let pick = if idx < n - 1 { idx } else { n - 1 };
    assert(call_ensures(roll, (row_candidates(cols).len() as usize,), idx));
    candidates[pick]
}

/// Pick a grid width uniformly in `[GRID_COLS_MIN, GRID_COLS_MAX]`: the
/// minimum plus the index that `roll(3)` returns, clamped to the span.
pub fn sample_grid_cols<R: FnOnce(usize) -> usize>(roll: R) -> (cols: u8)
    requires
        forall|n: usize| call_requires(roll, (n,)),
    ensures
        exists|k: usize|
            #![trigger call_ensures(roll, (3usize,), k)]
            call_ensures(roll, (3usize,), k) && cols == GRID_COLS_MIN + if k < 2 { k as int } else { 2int },
        GRID_COLS_MIN <= cols <= GRID_COLS_MAX,
{
    sample_inclusive_range(GRID_COLS_MIN, GRID_COLS_MAX, roll)
}

/// A cell's effect leaves the route, the budget and the resolution alone.
proof fn lemma_visit_keeps_route<F>(g: GridView<F>, node: GridNode<F>, step: int, zero: F)
    ensures
        g.visit(node, step, zero).path == g.path,
        g.visit(node, step, zero).cursor == g.cursor,
        g.visit(node, step, zero).steps_remaining == g.steps_remaining,
        g.visit(node, step, zero).resolved == g.resolved,
        g.visit(node, step, zero).cols == g.cols,
        g.visit(node, step, zero).rows == g.rows,
        g.visit(node, step, zero).active == g.active,
        g.visit(node, step, zero).exit_edge == g.exit_edge,
        node is Anchor ==> g.visit(node, step, zero).anchor_floor == Some(g.collected),
        node is Anchor ==> g.visit(node, step, zero).collected == g.collected,
        !(node is Anchor) ==> g.visit(node, step, zero).anchor_floor == g.anchor_floor,
{
}

/// Some entry of a nonempty list is the latest of its most frequent kind.
proof fn lemma_most_frequent_in_prefix<F>(s: Seq<(PhysicalBonus<F>, F)>, n: int) -> (b: int)
    requires
        1 <= n <= s.len(),
    ensures
        0 <= b < n,
        forall|j: int| 0 <= j < n
            ==> count_kind(s, #[trigger] s[j].0.spec_kind()) <= count_kind(s, s[b].0.spec_kind()),
        forall|j: int| b < j < n
            ==> count_kind(s, #[trigger] s[j].0.spec_kind()) < count_kind(s, s[b].0.spec_kind()),
    decreases n,
{
    if n == 1 {
        0
    } else {
        let b = lemma_most_frequent_in_prefix(s, n - 1);
        if count_kind(s, s[n - 1].0.spec_kind()) >= count_kind(s, s[b].0.spec_kind()) {
            n - 1
        } else {
            b
        }
    }
}

/// Laws of the cell a move lands on, numbering the moves of a run from 0 so
/// that the `k`-th landing reads entry `k` of the quality snapshot (or `zero`
/// past its end):
/// - the cursor moves onto the cell, which joins the path, for one step;
/// - the run goes on while steps are left and ends short of the exit when the
///   last one is spent;
/// - Empty collects nothing; a Bonus is collected with that magnitude and
///   becomes the last bonus; Echo collects the last bonus again, if any;
/// - Mimic collects the Mimic pick of the list so far (see
///   [`lemma_mimic_pick`]) with that magnitude, and nothing when nothing was
///   collected;
/// - only an Anchor changes the anchor floor.
pub proof fn lemma_cell_effects<F>(g: GridView<F>, dir: GridDir, anim: F, zero: F)
    requires
        g.reads_cell(dir),
        g.path.len() > 0,
    ensures
        ({
            let n = dir.spec_step(g.cursor);
            let next = (n.0 as u8, n.1 as u8);
            let node = g.grid[n.1][n.0];
            let (adv, h) = g.after_move(dir, anim, zero);
            let k = g.path.len() - 1;
            let mag = if k < g.quality_history.len() { g.quality_history[k] } else { zero };
            let c = g.collected;
            &&& adv
            &&& h.cursor == next
            &&& h.path == g.path.push(next)
            &&& h.steps_remaining == g.steps_remaining - 1
            &&& g.steps_remaining > 1 ==> h.resolved is None
            &&& g.steps_remaining == 1 ==> (h.resolved is Some && h.resolved != Some(GridResolution::Exit))
            &&& node is Empty ==> h.collected == c && h.last_bonus == g.last_bonus
            &&& (node matches GridNode::Bonus(b) ==> h.collected == c.push((b, mag))
                && h.last_bonus == Some((b, mag)))
            &&& node is Echo ==> h.last_bonus == g.last_bonus && h.collected == match g.last_bonus {
                Some(e) => c.push(e),
                None => c,
            }
            &&& node is Mimic && c.len() == 0 ==> h.collected == c
            &&& node is Mimic && c.len() > 0 ==> h.collected == c.push((spec_most_frequent(c)->0, mag))
                && h.last_bonus == Some((spec_most_frequent(c)->0, mag))
            &&& !(node is Anchor) ==> h.anchor_floor == g.anchor_floor
        }),
{
    let n = dir.spec_step(g.cursor);
    let next = (n.0 as u8, n.1 as u8);
    let moved = GridView {
        path: g.path.push(next),
        cursor: next,
        steps_remaining: (g.steps_remaining - 1) as u32,
        ..g
    };
    lemma_visit_keeps_route(moved, g.grid[n.1][n.0], g.path.len() - 1, zero);
}

/// Law: the Mimic pick of a nonempty list is the bonus of an entry whose kind
/// no other kind outnumbers, and the latest such entry: every later entry is
/// of a kind collected strictly fewer times.
pub proof fn lemma_mimic_pick<F>(c: Seq<(PhysicalBonus<F>, F)>) -> (b: int)
    requires
        c.len() > 0,
    ensures
        0 <= b < c.len(),
        spec_most_frequent(c) == Some(c[b].0),
        forall|j: int| 0 <= j < c.len()
            ==> count_kind(c, #[trigger] c[j].0.spec_kind()) <= count_kind(c, c[b].0.spec_kind()),
        forall|j: int| b < j < c.len()
            ==> count_kind(c, #[trigger] c[j].0.spec_kind()) < count_kind(c, c[b].0.spec_kind()),
{
    let b = lemma_most_frequent_in_prefix(c, c.len() as int);
    assert(is_latest_most_frequent(c, b));
    let w = choose|w: int| is_latest_most_frequent(c, w);
    lemma_latest_most_frequent_unique(c, b, w);
    b
}

/// Law: a move that lands on an Anchor cell collects nothing and records as
/// the anchor floor exactly the list collected before the move. Whatever the
/// next move is, if the run then ends anchor-saved, its payout is everything
/// collected before the anchor.
pub proof fn lemma_anchor_floor_is_collected_so_far<F>(
    g: GridView<F>,
    dir: GridDir,
    next_dir: GridDir,
    anim: F,
    zero: F,
)
    requires
        g.reads_cell(dir),
        g.grid[dir.spec_step(g.cursor).1][dir.spec_step(g.cursor).0] is Anchor,
    ensures
        ({
            let (adv, h) = g.after_move(dir, anim, zero);
            let h2 = h.after_move(next_dir, anim, zero).1;
            &&& adv
            &&& h.anchor_floor == Some(g.collected)
            &&& h.collected == g.collected
            &&& h.resolved == Some(GridResolution::AnchorSaved) ==> payout(h, GridResolution::AnchorSaved)
                == g.collected
            &&& h2.resolved == Some(GridResolution::AnchorSaved) ==> payout(h2, GridResolution::AnchorSaved)
                == g.collected
        }),
{
    let n = dir.spec_step(g.cursor);
    let next = (n.0 as u8, n.1 as u8);
    let moved = GridView {
        path: g.path.push(next),
        cursor: next,
        steps_remaining: (g.steps_remaining - 1) as u32,
        ..g
    };
    let step = if g.path.len() >= 1 { g.path.len() - 1 } else { 0 };
    lemma_visit_keeps_route(moved, g.grid[next.1 as int][next.0 as int], step, zero);
    let h = g.after_move(dir, anim, zero).1;
    assert(h.anchor_floor == Some(g.collected));
    assert(h.collected == g.collected);
    let m = next_dir.spec_step(h.cursor);
    if h.active && h.resolved is None && h.in_bounds(m) {
        let nx = (m.0 as u8, m.1 as u8);
        if !(h.path.contains(nx) || h.steps_remaining == 0) {
            let moved2 = GridView {
                path: h.path.push(nx),
                cursor: nx,
                steps_remaining: (h.steps_remaining - 1) as u32,
                ..h
            };
            let step2 = if h.path.len() >= 1 { h.path.len() - 1 } else { 0 };
            lemma_visit_keeps_route(moved2, h.grid[nx.1 as int][nx.0 as int], step2, zero);
        }
    }
}

/// Law: the step budget pays for cells one for one. Over any move, the length
/// of the visited path plus the steps left is unchanged, except on the exit
/// itself, which costs one step without adding a cell. What was collected is
/// never lost by a move: the list keeps its entries and gains at most one.
pub proof fn lemma_grid_budget_and_loot<F>(g: GridView<F>, dir: GridDir, anim: F, zero: F)
    ensures
        ({
            let (adv, h) = g.after_move(dir, anim, zero);
            let exited = g.resolved is None && h.resolved == Some(GridResolution::Exit);
            &&& h.path.len() + h.steps_remaining + (if exited { 1int } else { 0int })
                == g.path.len() + g.steps_remaining
            &&& g.collected.len() <= h.collected.len() <= g.collected.len() + 1
            &&& h.collected.subrange(0, g.collected.len() as int) == g.collected
        }),
{
    let n = dir.spec_step(g.cursor);
    if g.active && g.resolved is None && g.in_bounds(n) {
        let next = (n.0 as u8, n.1 as u8);
        if !(g.path.contains(next) || g.steps_remaining == 0) {
            let moved = GridView {
                path: g.path.push(next),
                cursor: next,
                steps_remaining: (g.steps_remaining - 1) as u32,
                ..g
            };
            let step = if g.path.len() >= 1 { g.path.len() - 1 } else { 0 };
            let node = g.grid[next.1 as int][next.0 as int];
            let v = moved.visit(node, step, zero);
            assert(v.collected.subrange(0, g.collected.len() as int) =~= g.collected);
        }
    }
    let (adv, h) = g.after_move(dir, anim, zero);
    assert(h.collected.subrange(0, g.collected.len() as int) =~= g.collected);
}

/// Law: the anchor floor is always a prefix of the collected list, so an
/// anchor-saved payout is a prefix of what was collected, an exit pays out
/// everything collected and a blowout nothing. Every move keeps the floor a
/// prefix.
pub proof fn lemma_floor_is_prefix_of_collected<F>(g: GridView<F>, dir: GridDir, anim: F, zero: F, res: GridResolution)
    requires
        g.anchor_floor matches Some(f) ==> f.len() <= g.collected.len() && g.collected.subrange(0, f.len() as int) == f,
    ensures
        ({
            let h = g.after_move(dir, anim, zero).1;
            &&& h.anchor_floor matches Some(f) ==> f.len() <= h.collected.len()
                && h.collected.subrange(0, f.len() as int) == f
            &&& payout(g, res).len() <= g.collected.len()
            &&& g.collected.subrange(0, payout(g, res).len() as int) == payout(g, res)
            &&& res == GridResolution::Exit ==> payout(g, res) == g.collected
            &&& res == GridResolution::Blowout ==> payout(g, res).len() == 0
        }),
{
    lemma_grid_budget_and_loot(g, dir, anim, zero);
    let h = g.after_move(dir, anim, zero).1;
    let n = dir.spec_step(g.cursor);
    if g.active && g.resolved is None && g.in_bounds(n) {
        let next = (n.0 as u8, n.1 as u8);
        if !(g.path.contains(next) || g.steps_remaining == 0) {
            let moved = GridView {
                path: g.path.push(next),
                cursor: next,
                steps_remaining: (g.steps_remaining - 1) as u32,
                ..g
            };
            let step = if g.path.len() >= 1 { g.path.len() - 1 } else { 0 };
            lemma_visit_keeps_route(moved, g.grid[next.1 as int][next.0 as int], step, zero);
        }
    }
    if h.anchor_floor is Some {
        let f = h.anchor_floor->0;
        if g.anchor_floor == h.anchor_floor {
            assert(h.collected.subrange(0, f.len() as int) =~= g.collected.subrange(0, f.len() as int));
        } else {
            assert(f == g.collected);
        }
    }
    assert(g.collected.subrange(0, g.collected.len() as int) =~= g.collected);
    assert(g.collected.subrange(0, 0) =~= Seq::<(PhysicalBonus<F>, F)>::empty());
}

/// Laws of a single grid move, for every state and every move:
/// - a resolved or inactive grid ignores moves;
/// - the visited path stays simple (no cell twice), inside the grid, and ends
///   at the cursor;
/// - a move that advances spends exactly one step, any other move spends none;
/// - a run only exits by the matching step off the center cell of the exit
///   edge;
/// - an out-of-bounds move that is not the exit gesture changes nothing;
/// - a dead end is anchor-saved exactly when an anchor floor exists.
pub proof fn lemma_grid_move_laws<F>(g: GridView<F>, dir: GridDir, anim: F, zero: F)
    ensures
        ({
            let (adv, h) = g.after_move(dir, anim, zero);
            &&& (!g.active || g.resolved is Some) ==> !adv && h == g
            &&& g.path_ok() ==> h.path_ok()
            &&& adv ==> h.steps_remaining == g.steps_remaining - 1
            &&& !adv ==> h.steps_remaining == g.steps_remaining
            &&& g.resolved is None && h.resolved == Some(GridResolution::Exit)
                ==> spec_is_exit_step(g.cursor, dir, g.cols, g.rows, g.exit_edge)
            &&& !g.in_bounds(dir.spec_step(g.cursor))
                && !spec_is_exit_step(g.cursor, dir, g.cols, g.rows, g.exit_edge) ==> h == g
            &&& g.resolved is None && h.resolved is Some && h.resolved != Some(GridResolution::Exit)
                ==> (h.resolved == Some(GridResolution::AnchorSaved) <==> h.anchor_floor is Some)
        }),
{
    let n = dir.spec_step(g.cursor);
    if g.active && g.resolved is None && g.in_bounds(n) {
        let next = (n.0 as u8, n.1 as u8);
        if !(g.path.contains(next) || g.steps_remaining == 0) {
            let moved = GridView {
                path: g.path.push(next),
                cursor: next,
                steps_remaining: (g.steps_remaining - 1) as u32,
                ..g
            };
            let step = if g.path.len() >= 1 { g.path.len() - 1 } else { 0 };
            lemma_visit_keeps_route(moved, g.grid[next.1 as int][next.0 as int], step, zero);
            if g.path_ok() {
                let p = moved.path;
                assert forall|i: int, j: int| 0 <= i < j < p.len() implies p[i] != p[j] by {
                    if j == p.len() - 1 {
                        assert(g.path[i] != next) by {
                            if g.path[i] == next {
                                assert(g.path.contains(next));
                            }
                        }
                    }
                }
                assert forall|i: int| 0 <= i < p.len() implies moved.in_bounds(
                    ((#[trigger] p[i]).0 as int, p[i].1 as int),
                ) by {
                    if i < g.path.len() {
                        assert(p[i] == g.path[i]);
                    }
                }
            }
        }
    }
}

} // verus!

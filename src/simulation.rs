//! The tick scheduler's decisions: apply the pending signals in order, stop
//! on quit or on a closed input side, otherwise run one tick of the update
//! rule; and the snapshot handed to rendering.
use vstd::prelude::*;
use rand::seq::SliceRandom;
use crate::emitter::{after_click, after_move, Emitter};
use crate::grid::Grid;
use crate::rule::{tick_result, unmarked};

verus! {

/// An event the simulation consumes.
#[derive(Clone, Copy, Debug, PartialEq, Eq, Structural)]
pub enum Signal {
    /// A pointer press at (row, column).
    Click(usize, usize),
    /// Pointer motion to (row, column).
    Moved(usize, usize),
    /// The terminal was resized to (width, height); the grid keeps its size.
    Resize(usize, usize),
    /// The user asked to stop.
    Quit,
}

#[derive(Clone, Copy, Debug, PartialEq, Eq, Structural)]
pub enum RunState {
    Running,
    Stopped,
}

/// Whether the simulation runs, and the spawn point, after one signal.
/// `Stopped` is terminal: nothing moves it back.
pub open spec fn after_signal(running: bool, t: Option<(usize, usize)>, s: Signal) -> (bool, Option<(usize, usize)>) {
    if !running {
        (false, t)
    } else {
        match s {
            Signal::Click(r, c) => (true, after_click(t, r, c)),
            Signal::Moved(r, c) => (true, after_move(t, r, c)),
            Signal::Resize(_, _) => (true, t),
            Signal::Quit => (false, t),
        }
    }
}

/// [`after_signal`] applied to each signal of `ss` in arrival order.
pub open spec fn after_signals(running: bool, t: Option<(usize, usize)>, ss: Seq<Signal>) -> (bool, Option<(usize, usize)>)
    decreases ss.len(),
{
    if ss.len() == 0 {
        (running, t)
    } else {
        let p = after_signals(running, t, ss.drop_last());
        after_signal(p.0, p.1, ss.last())
    }
}

/// The occupancy of every cell, row by row.
pub open spec fn occupancy_rows(g: Seq<Seq<(bool, bool)>>) -> Seq<Seq<bool>> {
    Seq::new(g.len(), |i: int| Seq::new(g[i].len(), |j: int| g[i][j].0))
}

/// The time left of a frame budget after `elapsed` of it was spent, or
/// `None` when the tick overran it (the next one starts at once).
pub fn frame_delay(budget: u64, elapsed: u64) -> (r: Option<u64>)
    ensures
        elapsed <= budget ==> r == Some((budget - elapsed) as u64),
        elapsed > budget ==> r is None,
{
    budget.checked_sub(elapsed)
}

/// Relies on `SliceRandom::choose` over `[true, false]` with `thread_rng`;
/// `true` stands for the left side. Nothing is known of which one comes.
#[verifier::external_body]
fn draw_side() -> (r: bool) {
    *[true, false].choose(&mut rand::thread_rng()).unwrap_or(&true)
}

/// One independently drawn side for each of `rows` × `cols` cells.
fn draw_sides(rows: usize, cols: usize) -> (v: Vec<Vec<bool>>)
    ensures
        v@.len() == rows,
        forall|i: int| 0 <= i < rows ==> (#[trigger] v@[i])@.len() == cols,
{
    let mut v: Vec<Vec<bool>> = Vec::new();
    let mut r: usize = 0;
    while r < rows
        invariant
            r <= rows,
            v@.len() == r,
            forall|i: int| 0 <= i < r ==> (#[trigger] v@[i])@.len() == cols,
        decreases rows - r,
    {
        let mut row: Vec<bool> = Vec::new();
        let mut c: usize = 0;
        while c < cols
            invariant
                c <= cols,
                row@.len() == c,
            decreases cols - c,
        {
            row.push(draw_side());
            c = c + 1;
        }
        v.push(row);
        r = r + 1;
    }
    v
}

/// The state the simulation activity owns: the grid, the emitter and
/// whether it still runs.
pub struct Simulation {
    pub grid: Grid,
    pub emitter: Emitter,
    pub state: RunState,
}

impl Simulation {
    /// Between ticks the grid is well formed and carries no moved mark.
    pub open spec fn wf(&self) -> bool {
        &&& self.grid.wf()
        &&& unmarked(self.grid@)
    }

    /// A running simulation over an empty grid, with no emitter.
    pub fn new(rows: usize, cols: usize) -> (s: Simulation)
        requires
            rows * cols <= usize::MAX,
        ensures
            s.wf(),
            s.grid@.len() == rows,
            s.grid.width() == cols,
            forall|i: int, j: int| 0 <= i < rows && 0 <= j < cols ==> #[trigger] s.grid@[i][j] == (false, false),
            s.emitter.target is None,
            s.state == RunState::Running,
    {
        let grid = Grid::new(rows, cols);
        Simulation { grid, emitter: Emitter::new(), state: RunState::Running }
    }

    pub fn is_running(&self) -> (r: bool)
        ensures
            r == (self.state == RunState::Running),
    {
        match self.state {
            RunState::Running => true,
            RunState::Stopped => false,
        }
    }

    /// Applies one signal; a stopped simulation ignores every signal.
    pub fn handle_signal(&mut self, s: Signal)
        ensures
            final(self).grid == old(self).grid,
            ({
                let p = after_signal(old(self).state == RunState::Running, old(self).emitter.target, s);
                &&& (final(self).state == RunState::Running) == p.0
                &&& final(self).emitter.target == p.1
            }),
    {
        if !self.is_running() {
            return ;
        }
        match s {
            Signal::Click(r, c) => self.emitter.click(r, c),
            Signal::Moved(r, c) => self.emitter.moved(r, c),
            Signal::Resize(_, _) => {},
            Signal::Quit => self.state = RunState::Stopped,
        }
    }

    /// Applies the signals in arrival order.
    pub fn handle_signals(&mut self, signals: &Vec<Signal>)
        ensures
            final(self).grid == old(self).grid,
            ({
                let p = after_signals(old(self).state == RunState::Running, old(self).emitter.target, signals@);
                &&& (final(self).state == RunState::Running) == p.0
                &&& final(self).emitter.target == p.1
            }),
    {
        let ghost run0 = self.state == RunState::Running;
        let ghost t0 = self.emitter.target;
        let mut i: usize = 0;
        while i < signals.len()
            invariant
                i <= signals@.len(),
                self.grid == old(self).grid,
                ({
                    let p = after_signals(run0, t0, signals@.subrange(0, i as int));
                    &&& (self.state == RunState::Running) == p.0
                    &&& self.emitter.target == p.1
                }),
            decreases signals@.len() - i,
        {
            proof {
                assert(signals@.subrange(0, i + 1).drop_last() =~= signals@.subrange(0, i as int));
            }
            self.handle_signal(signals[i]);
            i = i + 1;
        }
        proof {
            assert(signals@.subrange(0, signals@.len() as int) =~= signals@);
        }
    }

    /// One scheduler step with the sides of ambiguous falls given in `coins`
    /// (by row and column, `true` for left): the pending signals are applied
    /// in order, a closed input side counts as quit, and a simulation still
    /// running then runs one tick. Returns whether it still runs.
    pub fn step_with(&mut self, signals: &Vec<Signal>, disconnected: bool, coins: &Vec<Vec<bool>>) -> (running: bool)
        requires
            old(self).wf(),
        ensures
            final(self).wf(),
            final(self).grid.width() == old(self).grid.width(),
            ({
                let p = after_signals(old(self).state == RunState::Running, old(self).emitter.target, signals@);
                &&& running == (p.0 && !disconnected)
                &&& (final(self).state == RunState::Running) == running
                &&& final(self).emitter.target == p.1
                &&& running ==> final(self).grid@ == tick_result(old(self).grid@, old(self).grid.width(), p.1, coins.deep_view())
                &&& !running ==> final(self).grid@ == old(self).grid@
            }),
    {
        self.handle_signals(signals);
        if disconnected {
            self.state = RunState::Stopped;
        }
        if !self.is_running() {
            return false;
        }
        self.grid.tick_with(self.emitter.target, coins);
        true
    }

    /// One scheduler step with each side drawn at random; what it does is
    /// [`Simulation::step_with`] for some drawing of the sides.
    pub fn step(&mut self, signals: &Vec<Signal>, disconnected: bool) -> (running: bool)
        requires
            old(self).wf(),
        ensures
            final(self).wf(),
            final(self).grid.width() == old(self).grid.width(),
            ({
                let p = after_signals(old(self).state == RunState::Running, old(self).emitter.target, signals@);
                &&& running == (p.0 && !disconnected)
                &&& (final(self).state == RunState::Running) == running
                &&& final(self).emitter.target == p.1
                &&& running ==> exists|coins: Seq<Seq<bool>>| final(self).grid@ == tick_result(old(self).grid@, old(self).grid.width(), p.1, coins)
                &&& !running ==> final(self).grid@ == old(self).grid@
            }),
    {
        let coins = draw_sides(self.grid.rows(), self.grid.columns());
        let r = self.step_with(signals, disconnected, &coins);
        proof {
            if r {
                let cv = coins.deep_view();
                assert(self.grid@ == tick_result(old(self).grid@, old(self).grid.width(), self.emitter.target, cv));
            }
        }
        r
    }

    /// The occupancy of every cell, row by row, for rendering.
    pub fn snapshot(&self) -> (s: Vec<Vec<bool>>)
        requires
            self.wf(),
        ensures
            s.deep_view() == occupancy_rows(self.grid@),
    {
        let rows = self.grid.rows();
        let cols = self.grid.columns();
        let mut out: Vec<Vec<bool>> = Vec::new();
        let mut r: usize = 0;
        while r < rows
            invariant
                self.wf(),
                rows == self.grid@.len(),
                cols == self.grid.width(),
                r <= rows,
                out@.len() == r,
                forall|i: int| 0 <= i < r ==> (#[trigger] out@[i])@ == occupancy_rows(self.grid@)[i],
            decreases rows - r,
        {
            let mut row: Vec<bool> = Vec::new();
            let mut c: usize = 0;
            while c < cols
                invariant
                    self.wf(),
                    rows == self.grid@.len(),
                    cols == self.grid.width(),
                    r < rows,
                    c <= cols,
                    row@.len() == c,
                    forall|j: int| 0 <= j < c ==> #[trigger] row@[j] == self.grid@[r as int][j].0,
                decreases cols - c,
            {
                let occ = match self.grid.get(r, c) {
                    Some(cell) => cell.occupied,
                    None => false,
                };
                row.push(occ);
                c = c + 1;
            }
            proof {
                assert(self.grid@[r as int].len() == cols);
                assert(row@ =~= occupancy_rows(self.grid@)[r as int]);
            }
            out.push(row);
            r = r + 1;
        }
        proof {
            assert forall|i: int| 0 <= i < rows implies #[trigger] out.deep_view()[i] =~= occupancy_rows(self.grid@)[i] by {
                assert(out@[i]@ == occupancy_rows(self.grid@)[i]);
                assert(out.deep_view()[i] =~= out@[i]@);
            }
            assert(out.deep_view() =~= occupancy_rows(self.grid@));
        }
        out
    }
}

/// A stopped simulation stays stopped, whatever signals follow.
pub proof fn lemma_stopped_is_terminal(t: Option<(usize, usize)>, ss: Seq<Signal>)
    ensures
        !after_signals(false, t, ss).0,
    decreases ss.len(),
{
    if ss.len() > 0 {
        lemma_stopped_is_terminal(t, ss.drop_last());
    }
}

/// A quit anywhere among the pending signals stops the simulation, so the
/// step that drains them runs no tick and reports that it no longer runs.
pub proof fn lemma_quit_stops(running: bool, t: Option<(usize, usize)>, ss: Seq<Signal>, k: int)
    requires
        0 <= k < ss.len(),
        ss[k] == Signal::Quit,
    ensures
        !after_signals(running, t, ss).0,
    decreases ss.len(),
{
    if k == ss.len() - 1 {
    } else {
        lemma_quit_stops(running, t, ss.drop_last(), k);
    }
}

} // verus!

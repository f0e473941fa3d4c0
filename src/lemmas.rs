//! What holds of the update rule over whole scans and ticks.
use vstd::prelude::*;
use crate::grid::rectangular;
use crate::rule::{clear_marks, scan_row, scan_rows, step_cell, tick_result, unmarked};

verus! {

/// `h` has the shape of `g`.
pub open spec fn same_shape(g: Seq<Seq<(bool, bool)>>, h: Seq<Seq<(bool, bool)>>) -> bool {
    &&& h.len() == g.len()
    &&& forall|i: int| 0 <= i < g.len() ==> #[trigger] h[i].len() == g[i].len()
}

/// Every cell that holds a particle which moved this tick still holds it in `h`.
pub open spec fn keeps_moved(g: Seq<Seq<(bool, bool)>>, h: Seq<Seq<(bool, bool)>>) -> bool {
    forall|i: int, j: int|
        0 <= i < g.len() && 0 <= j < g[i].len() && g[i][j] == (true, true) ==> #[trigger] h[i][j] == (true, true)
}

/// Every particle in the bottom two rows of `g` is still in place in `h`.
pub open spec fn keeps_floor(g: Seq<Seq<(bool, bool)>>, h: Seq<Seq<(bool, bool)>>) -> bool {
    forall|i: int, j: int|
        0 <= i < g.len() && 0 <= j < g[i].len() && i + 2 >= g.len() && g[i][j].0 ==> (#[trigger] h[i][j]).0
}

/// A cell that already moved this tick is left alone by its visit, and a
/// visit changes no cell but its own and one cell below it, which was empty
/// and ends up occupied and marked: no cell is a movement target twice.
pub proof fn lemma_step_writes(g: Seq<Seq<(bool, bool)>>, r: int, c: int, t: Option<(usize, usize)>, go_left: bool)
    requires
        0 <= r < g.len(),
        0 <= c < g[r].len(),
    ensures
        g[r][c].1 ==> step_cell(g, r, c, t, go_left) == g,
        same_shape(g, step_cell(g, r, c, t, go_left)),
        forall|i: int, j: int|
            0 <= i < g.len() && 0 <= j < g[i].len() && #[trigger] step_cell(g, r, c, t, go_left)[i][j] != g[i][j]
                ==> (i == r && j == c) || (i == r + 1 && !g[i][j].0 && step_cell(g, r, c, t, go_left)[i][j] == (true, true)),
        keeps_moved(g, step_cell(g, r, c, t, go_left)),
        keeps_floor(g, step_cell(g, r, c, t, go_left)),
{
}

/// Visiting the first `n` cells of row `r` keeps the shape, every particle
/// that already moved, and every particle of the bottom two rows.
pub proof fn lemma_scan_row_keeps(g: Seq<Seq<(bool, bool)>>, r: int, n: int, t: Option<(usize, usize)>, coins: Seq<Seq<bool>>)
    requires
        0 <= r < g.len(),
        0 <= n <= g[r].len(),
    ensures
        same_shape(g, scan_row(g, r, n, t, coins)),
        keeps_moved(g, scan_row(g, r, n, t, coins)),
        keeps_floor(g, scan_row(g, r, n, t, coins)),
    decreases n,
{
    if n > 0 {
        lemma_scan_row_keeps(g, r, n - 1, t, coins);
        let h = scan_row(g, r, n - 1, t, coins);
        lemma_step_writes(h, r, n - 1, t, crate::rule::coin(coins, r, n - 1));
    }
}

/// A whole scan keeps the shape, every particle that already moved, and
/// every particle of the bottom two rows.
pub proof fn lemma_scan_keeps(g: Seq<Seq<(bool, bool)>>, m: int, w: nat, t: Option<(usize, usize)>, coins: Seq<Seq<bool>>)
    requires
        0 <= m <= g.len(),
        rectangular(g, w),
    ensures
        same_shape(g, scan_rows(g, m, w, t, coins)),
        keeps_moved(g, scan_rows(g, m, w, t, coins)),
        keeps_floor(g, scan_rows(g, m, w, t, coins)),
    decreases m,
{
    if m > 0 {
        lemma_scan_keeps(g, m - 1, w, t, coins);
        let h = scan_rows(g, m - 1, w, t, coins);
        assert(h[m - 1].len() == w);
        lemma_scan_row_keeps(h, m - 1, w as int, t, coins);
    }
}

/// Once a particle has moved in a scan, it stays where it landed for the rest
/// of that scan: from any point of the scan on, no later visit moves it.
pub proof fn lemma_moved_particle_stays(
    g: Seq<Seq<(bool, bool)>>,
    w: nat,
    t: Option<(usize, usize)>,
    coins: Seq<Seq<bool>>,
    m: int,
    i: int,
    j: int,
)
    requires
        rectangular(g, w),
        0 <= m <= g.len(),
        0 <= i < g.len(),
        0 <= j < w,
        scan_rows(g, m, w, t, coins)[i][j] == (true, true),
    ensures
        scan_rows(g, g.len() as int, w, t, coins)[i][j] == (true, true),
    decreases g.len() - m,
{
    if m < g.len() {
        lemma_scan_keeps(g, m, w, t, coins);
        let h = scan_rows(g, m, w, t, coins);
        assert(h[m].len() == w);
        lemma_scan_row_keeps(h, m, w as int, t, coins);
        lemma_moved_particle_stays(g, w, t, coins, m + 1, i, j);
    }
}

/// A particle in either of the bottom two rows at the start of a tick is in
/// place at its end.
pub proof fn lemma_floor_particles_stay(g: Seq<Seq<(bool, bool)>>, w: nat, t: Option<(usize, usize)>, coins: Seq<Seq<bool>>, i: int, j: int)
    requires
        rectangular(g, w),
        0 <= i < g.len(),
        i + 2 >= g.len(),
        0 <= j < w,
        g[i][j].0,
    ensures
        tick_result(g, w, t, coins)[i][j].0,
{
    lemma_scan_keeps(g, g.len() as int, w, t, coins);
}

/// With no particle and no emitter, a scan of row `r` changes nothing.
proof fn lemma_scan_row_idle(g: Seq<Seq<(bool, bool)>>, r: int, n: int, coins: Seq<Seq<bool>>)
    requires
        0 <= r < g.len(),
        0 <= n <= g[r].len(),
        forall|i: int, j: int| 0 <= i < g.len() && 0 <= j < g[i].len() ==> #[trigger] g[i][j] == (false, false),
    ensures
        scan_row(g, r, n, None, coins) == g,
    decreases n,
{
    if n > 0 {
        lemma_scan_row_idle(g, r, n - 1, coins);
    }
}

proof fn lemma_scan_idle(g: Seq<Seq<(bool, bool)>>, m: int, w: nat, coins: Seq<Seq<bool>>)
    requires
        0 <= m <= g.len(),
        rectangular(g, w),
        forall|i: int, j: int| 0 <= i < g.len() && 0 <= j < g[i].len() ==> #[trigger] g[i][j] == (false, false),
    ensures
        scan_rows(g, m, w, None, coins) == g,
    decreases m,
{
    if m > 0 {
        lemma_scan_idle(g, m - 1, w, coins);
        lemma_scan_row_idle(g, m - 1, w as int, coins);
    }
}

/// A tick over a grid without particles and without an active emitter
/// leaves the grid as it was.
pub proof fn lemma_idle_tick(g: Seq<Seq<(bool, bool)>>, w: nat, coins: Seq<Seq<bool>>)
    requires
        rectangular(g, w),
        forall|i: int, j: int| 0 <= i < g.len() && 0 <= j < g[i].len() ==> #[trigger] g[i][j] == (false, false),
    ensures
        tick_result(g, w, None, coins) == g,
{
    lemma_scan_idle(g, g.len() as int, w, coins);
    assert(clear_marks(g) =~~= g);
}

/// A tick ends with no moved mark left anywhere.
pub proof fn lemma_tick_unmarked(g: Seq<Seq<(bool, bool)>>, w: nat, t: Option<(usize, usize)>, coins: Seq<Seq<bool>>)
    ensures
        unmarked(tick_result(g, w, t, coins)),
{
}

} // verus!

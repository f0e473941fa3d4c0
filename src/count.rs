//! Counting particles: the update rule only moves them, and the emitter adds
//! at most one per tick.
use vstd::prelude::*;
use crate::grid::{put, rectangular};
use crate::rule::{clear_marks, coin, movable, scan_row, scan_rows, shift, step_cell, tick_result, unmarked};
use crate::lemmas::{lemma_step_writes, same_shape};

verus! {

/// The number of occupied cells of one row.
pub open spec fn row_count(s: Seq<(bool, bool)>) -> nat
    decreases s.len(),
{
    if s.len() == 0 {
        0
    } else {
        row_count(s.drop_last()) + if s.last().0 {
            1nat
        } else {
            0nat
        }
    }
}

/// The number of occupied cells of a grid.
pub open spec fn particle_count(g: Seq<Seq<(bool, bool)>>) -> nat
    decreases g.len(),
{
    if g.len() == 0 {
        0
    } else {
        particle_count(g.drop_last()) + row_count(g.last())
    }
}

pub open spec fn occ(v: (bool, bool)) -> int {
    if v.0 {
        1
    } else {
        0
    }
}

proof fn lemma_row_count_update(s: Seq<(bool, bool)>, i: int, v: (bool, bool))
    requires
        0 <= i < s.len(),
    ensures
        row_count(s.update(i, v)) == row_count(s) - occ(s[i]) + occ(v),
    decreases s.len(),
{
    let u = s.update(i, v);
    if i == s.len() - 1 {
        assert(u.drop_last() =~= s.drop_last());
    } else {
        assert(u.drop_last() =~= s.drop_last().update(i, v));
        lemma_row_count_update(s.drop_last(), i, v);
    }
}

proof fn lemma_count_put(g: Seq<Seq<(bool, bool)>>, r: int, c: int, v: (bool, bool))
    requires
        0 <= r < g.len(),
        0 <= c < g[r].len(),
    ensures
        particle_count(put(g, r, c, v)) == particle_count(g) - occ(g[r][c]) + occ(v),
    decreases g.len(),
{
    let u = put(g, r, c, v);
    lemma_row_count_update(g[r], c, v);
    if r == g.len() - 1 {
        assert(u.drop_last() =~= g.drop_last());
    } else {
        assert(u.drop_last() =~= put(g.drop_last(), r, c, v));
        lemma_count_put(g.drop_last(), r, c, v);
    }
}

proof fn lemma_row_count_occupancy(s: Seq<(bool, bool)>, u: Seq<(bool, bool)>)
    requires
        s.len() == u.len(),
        forall|j: int| 0 <= j < s.len() ==> (#[trigger] s[j]).0 == u[j].0,
    ensures
        row_count(s) == row_count(u),
    decreases s.len(),
{
    if s.len() > 0 {
        lemma_row_count_occupancy(s.drop_last(), u.drop_last());
    }
}

/// Clearing the moved marks keeps the number of particles.
pub proof fn lemma_count_clear_marks(g: Seq<Seq<(bool, bool)>>)
    ensures
        particle_count(clear_marks(g)) == particle_count(g),
    decreases g.len(),
{
    if g.len() > 0 {
        assert(clear_marks(g).drop_last() =~= clear_marks(g.drop_last()));
        lemma_count_clear_marks(g.drop_last());
        lemma_row_count_occupancy(g.last(), clear_marks(g).last());
    }
}

/// The visit of `(r, c)` spawns: the cell is empty, unmarked and the target.
pub open spec fn spawns(g: Seq<Seq<(bool, bool)>>, r: int, c: int, t: Option<(usize, usize)>) -> bool {
    !g[r][c].0 && !g[r][c].1 && t == Some((r as usize, c as usize))
}

/// The visit of one cell adds a particle when it spawns one, and otherwise
/// only moves one or does nothing.
pub proof fn lemma_step_count(g: Seq<Seq<(bool, bool)>>, r: int, c: int, t: Option<(usize, usize)>, go_left: bool)
    requires
        0 <= r < g.len(),
        0 <= c < g[r].len(),
    ensures
        particle_count(step_cell(g, r, c, t, go_left)) == particle_count(g) + if spawns(g, r, c, t) {
            1int
        } else {
            0int
        },
{
    let h = step_cell(g, r, c, t, go_left);
    if spawns(g, r, c, t) {
        lemma_count_put(g, r, c, (true, true));
    } else if h != g {
        // a move from (r, c) to (r + 1, c2)
        let c2: int = choose|c2: int| 0 <= c2 < g[r + 1].len() && !g[r + 1][c2].0 && h == shift(g, r, c, c2);
        let g1 = put(g, r, c, (false, true));
        lemma_count_put(g, r, c, (false, true));
        lemma_count_put(g1, r + 1, c2, (true, true));
    }
}

/// A move out of `(r, c)` lands within one column of `c` in the row below,
/// and only a particle that may move makes one.
proof fn lemma_step_target_near(g: Seq<Seq<(bool, bool)>>, r: int, c: int, t: Option<(usize, usize)>, go_left: bool)
    requires
        0 <= r < g.len(),
        0 <= c < g[r].len(),
    ensures
        forall|i: int, j: int|
            0 <= i < g.len() && 0 <= j < g[i].len() && i == r + 1 && #[trigger] step_cell(g, r, c, t, go_left)[i][j] != g[i][j]
                ==> movable(g, r, c) && c - 1 <= j <= c + 1,
{
}

/// The cell `(i, j)` was visited before the visit of `(r, n)`.
pub open spec fn visited(i: int, j: int, r: int, n: int) -> bool {
    i < r || (i == r && j < n)
}

/// The emitter is active and its target lies in the grid.
pub open spec fn aimed_at(g: Seq<Seq<(bool, bool)>>, w: nat, t: Option<(usize, usize)>) -> bool {
    t is Some && (t->0).0 < g.len() && (t->0).1 < w
}

/// The emitter's target has no particle diagonally or directly above it.
pub open spec fn calm_above(g: Seq<Seq<(bool, bool)>>, t: Option<(usize, usize)>) -> bool {
    let er = (t->0).0 as int;
    let ec = (t->0).1 as int;
    forall|j: int| 1 <= er && 0 <= j < g[er - 1].len() && ec - 1 <= j <= ec + 1 ==> !(#[trigger] g[er - 1][j]).0
}

/// The number of particles that the emitter adds over a tick of `g`.
pub open spec fn spawned(g: Seq<Seq<(bool, bool)>>, w: nat, t: Option<(usize, usize)>) -> int {
    if aimed_at(g, w, t) && !g[(t->0).0 as int][(t->0).1 as int].0 {
        1
    } else {
        0
    }
}

/// What holds of the grid `h` reached from `g0` just before the visit of
/// `(r, n)`.
spec fn progress(g0: Seq<Seq<(bool, bool)>>, h: Seq<Seq<(bool, bool)>>, w: nat, t: Option<(usize, usize)>, r: int, n: int) -> bool {
    let er = (t->0).0 as int;
    let ec = (t->0).1 as int;
    &&& same_shape(g0, h)
    &&& forall|i: int, j: int|
        0 <= i < g0.len() && 0 <= j < g0[i].len() && !visited(i, j, r, n) ==> #[trigger] h[i][j] == g0[i][j] || h[i][j] == (true, true)
    &&& particle_count(h) == particle_count(g0) + if aimed_at(g0, w, t) && visited(er, ec, r, n) {
        spawned(g0, w, t)
    } else {
        0
    }
    &&& aimed_at(g0, w, t) && !visited(er, ec, r, n) ==> h[er][ec] == g0[er][ec]
}

spec fn tick_start(g0: Seq<Seq<(bool, bool)>>, w: nat, t: Option<(usize, usize)>) -> bool {
    &&& rectangular(g0, w)
    &&& unmarked(g0)
    &&& g0.len() <= usize::MAX
    &&& w <= usize::MAX
    &&& aimed_at(g0, w, t) ==> calm_above(g0, t)
}

proof fn lemma_progress_step(
    g0: Seq<Seq<(bool, bool)>>,
    h: Seq<Seq<(bool, bool)>>,
    w: nat,
    t: Option<(usize, usize)>,
    r: int,
    n: int,
    go_left: bool,
)
    requires
        tick_start(g0, w, t),
        0 <= r < g0.len(),
        0 <= n < w,
        progress(g0, h, w, t, r, n),
    ensures
        progress(g0, step_cell(h, r, n, t, go_left), w, t, r, n + 1),
{
    let er = (t->0).0 as int;
    let ec = (t->0).1 as int;
    let h2 = step_cell(h, r, n, t, go_left);
    assert(g0[r].len() == w);
    lemma_step_writes(h, r, n, t, go_left);
    lemma_step_count(h, r, n, t, go_left);
    lemma_step_target_near(h, r, n, t, go_left);
    assert(h[r][n] == g0[r][n] || h[r][n] == (true, true));
    if aimed_at(g0, w, t) && r == er && n == ec {
        assert(!g0[r][n].1);
        assert(spawns(h, r, n, t) == !g0[er][ec].0);
    } else {
        assert(!spawns(h, r, n, t));
    }
    if aimed_at(g0, w, t) && !visited(er, ec, r, n + 1) {
        if h2[er][ec] != h[er][ec] {
            assert(er == r + 1);
            assert(movable(h, r, n));
            assert(!g0[er - 1][n].0);
        }
    }
}

proof fn lemma_progress_row(g0: Seq<Seq<(bool, bool)>>, h: Seq<Seq<(bool, bool)>>, w: nat, t: Option<(usize, usize)>, r: int, n: int, coins: Seq<Seq<bool>>)
    requires
        tick_start(g0, w, t),
        0 <= r < g0.len(),
        0 <= n <= w,
        progress(g0, h, w, t, r, 0),
    ensures
        progress(g0, scan_row(h, r, n, t, coins), w, t, r, n),
    decreases n,
{
    if n > 0 {
        lemma_progress_row(g0, h, w, t, r, n - 1, coins);
        lemma_progress_step(g0, scan_row(h, r, n - 1, t, coins), w, t, r, n - 1, coin(coins, r, n - 1));
    }
}

proof fn lemma_progress_rows(g0: Seq<Seq<(bool, bool)>>, w: nat, t: Option<(usize, usize)>, m: int, coins: Seq<Seq<bool>>)
    requires
        tick_start(g0, w, t),
        0 <= m <= g0.len(),
    ensures
        progress(g0, scan_rows(g0, m, w, t, coins), w, t, m, 0),
    decreases m,
{
    if m > 0 {
        lemma_progress_rows(g0, w, t, m - 1, coins);
        let h = scan_rows(g0, m - 1, w, t, coins);
        lemma_progress_row(g0, h, w, t, m - 1, w as int, coins);
        let h2 = scan_row(h, m - 1, w as int, t, coins);
        assert forall|i: int, j: int| 0 <= i < g0.len() && 0 <= j < g0[i].len() implies visited(i, j, m - 1, w as int) == visited(i, j, m, 0) by {
            assert(g0[i].len() == w);
        }
        assert(progress(g0, h2, w, t, m, 0));
    }
}

/// Over one tick the number of particles grows by one exactly when the
/// emitter is active over an empty cell of the grid, and is kept otherwise:
/// the rule only moves particles. This holds where nothing can fall into the
/// emitter's target earlier in the same scan, that is where the three cells
/// above the target hold no particle.
pub proof fn lemma_tick_count(g: Seq<Seq<(bool, bool)>>, w: nat, t: Option<(usize, usize)>, coins: Seq<Seq<bool>>)
    requires
        rectangular(g, w),
        unmarked(g),
        g.len() <= usize::MAX,
        w <= usize::MAX,
        aimed_at(g, w, t) ==> calm_above(g, t),
    ensures
        particle_count(tick_result(g, w, t, coins)) == particle_count(g) + spawned(g, w, t),
{
    assert(progress(g, g, w, t, 0, 0));
    lemma_progress_rows(g, w, t, g.len() as int, coins);
    lemma_count_clear_marks(scan_rows(g, g.len() as int, w, t, coins));
}

} // verus!

//! The per-tick update rule: one row-major scan that spawns, drops and
//! slides particles, followed by the clearing of every moved mark.
use vstd::prelude::*;
use crate::grid::{put, rectangular, Grid};

verus! {

/// Occupancy of the cell at `(r, c)`, or `None` when it lies outside `g`.
pub open spec fn occupancy(g: Seq<Seq<(bool, bool)>>, r: int, c: int) -> Option<bool> {
    if 0 <= r < g.len() && 0 <= c < g[r].len() {
        Some(g[r][c].0)
    } else {
        None
    }
}

/// The particle at `(r, c)` moves to `(r + 1, c2)`: the source is left empty
/// and the target is occupied, both marked as moved.
pub open spec fn shift(g: Seq<Seq<(bool, bool)>>, r: int, c: int, c2: int) -> Seq<Seq<(bool, bool)>> {
    put(put(g, r, c, (false, true)), r + 1, c2, (true, true))
}

/// A particle at `(r, c)` may move: it has not moved this tick and is above
/// the bottom two rows.
pub open spec fn movable(g: Seq<Seq<(bool, bool)>>, r: int, c: int) -> bool {
    g[r][c].0 && !g[r][c].1 && r + 2 < g.len()
}

/// The decision table for the cell at `(r, c)`, first match wins. `go_left`
/// picks the side when both lower diagonals are free.
pub open spec fn step_cell(
    g: Seq<Seq<(bool, bool)>>,
    r: int,
    c: int,
    target: Option<(usize, usize)>,
    go_left: bool,
) -> Seq<Seq<(bool, bool)>> {
    let down = occupancy(g, r + 1, c);
    let left = occupancy(g, r + 1, c - 1);
    let right = occupancy(g, r + 1, c + 1);
    if !g[r][c].0 && !g[r][c].1 && target == Some((r as usize, c as usize)) {
        put(g, r, c, (true, true))
    } else if movable(g, r, c) && down == Some(false) {
        shift(g, r, c, c)
    } else if movable(g, r, c) && down == Some(true) && left == Some(false) && right == Some(false) {
        shift(g, r, c, if go_left { c - 1 } else { c + 1 })
    } else if movable(g, r, c) && down == Some(true) && left == Some(true) && right == Some(false) {
        shift(g, r, c, c + 1)
    } else if movable(g, r, c) && down == Some(true) && left == Some(false) && right == Some(true) {
        shift(g, r, c, c - 1)
    } else {
        g
    }
}

/// The side drawn for the cell at `(r, c)`: `true` for left; a missing entry
/// counts as right.
pub open spec fn coin(coins: Seq<Seq<bool>>, r: int, c: int) -> bool {
    0 <= r < coins.len() && 0 <= c < coins[r].len() && coins[r][c]
}

/// `g` after the first `n` cells of row `r` were visited, left to right.
pub open spec fn scan_row(
    g: Seq<Seq<(bool, bool)>>,
    r: int,
    n: int,
    target: Option<(usize, usize)>,
    coins: Seq<Seq<bool>>,
) -> Seq<Seq<(bool, bool)>>
    decreases n,
{
    if n <= 0 {
        g
    } else {
        step_cell(scan_row(g, r, n - 1, target, coins), r, n - 1, target, coin(coins, r, n - 1))
    }
}

/// `g` after its first `m` rows, of `width` cells each, were visited, top to
/// bottom.
pub open spec fn scan_rows(
    g: Seq<Seq<(bool, bool)>>,
    m: int,
    width: nat,
    target: Option<(usize, usize)>,
    coins: Seq<Seq<bool>>,
) -> Seq<Seq<(bool, bool)>>
    decreases m,
{
    if m <= 0 {
        g
    } else {
        scan_row(scan_rows(g, m - 1, width, target, coins), m - 1, width as int, target, coins)
    }
}

/// Every moved mark cleared, occupancy kept.
pub open spec fn clear_marks(g: Seq<Seq<(bool, bool)>>) -> Seq<Seq<(bool, bool)>> {
    Seq::new(g.len(), |i: int| Seq::new(g[i].len(), |j: int| (g[i][j].0, false)))
}

/// One whole tick of the update rule on a grid of `width` columns.
pub open spec fn tick_result(
    g: Seq<Seq<(bool, bool)>>,
    width: nat,
    target: Option<(usize, usize)>,
    coins: Seq<Seq<bool>>,
) -> Seq<Seq<(bool, bool)>> {
    clear_marks(scan_rows(g, g.len() as int, width, target, coins))
}

/// No mark is set anywhere: the state of a grid between ticks.
pub open spec fn unmarked(g: Seq<Seq<(bool, bool)>>) -> bool {
    forall|i: int, j: int| 0 <= i < g.len() && 0 <= j < g[i].len() ==> !(#[trigger] g[i][j]).1
}

fn occupancy_of(p: Option<(bool, bool)>) -> (r: Option<bool>)
    ensures
        p is None ==> r is None,
        p is Some ==> r == Some((p->0).0),
{
    match p {
        Some(x) => Some(x.0),
        None => None,
    }
}

fn coin_at(coins: &Vec<Vec<bool>>, r: usize, c: usize) -> (b: bool)
    ensures
        b == coin(coins.deep_view(), r as int, c as int),
{
    if r < coins.len() && c < coins[r].len() {
        coins[r][c]
    } else {
        false
    }
}

impl Grid {
    /// Applies the decision table to the cell at `(row, col)`.
    pub fn update_cell(&mut self, row: usize, col: usize, target: Option<(usize, usize)>, go_left: bool)
        requires
            old(self).wf(),
            row < old(self)@.len(),
            col < old(self).width(),
        ensures
            final(self).wf(),
            final(self).width() == old(self).width(),
            final(self)@.len() == old(self)@.len(),
            final(self)@ == step_cell(old(self)@, row as int, col as int, target, go_left),
    {
        let ghost g = self@;
        let rows = self.rows();
        let cur = match self.get_pair(row, col) {
            Some(p) => p,
            None => return ,
        };
        let down = occupancy_of(self.get_pair(row + 1, col));
        let left = if col > 0 {
            occupancy_of(self.get_pair(row + 1, col - 1))
        } else {
            None
        };
        let right = if col < usize::MAX {
            occupancy_of(self.get_pair(row + 1, col + 1))
        } else {
            None
        };
        proof {
            assert(row + 1 < g.len() ==> g[row + 1].len() == self.width());
            assert(down == occupancy(g, row + 1, col as int));
            assert(left == occupancy(g, row + 1, col - 1));
            assert(right == occupancy(g, row + 1, col + 1));
        }
        let can_move = cur.0 && !cur.1 && rows >= 2 && row < rows - 2;
        if !cur.0 && !cur.1 && target == Some((row, col)) {
            self.put_pair(row, col, (true, true));
        } else if can_move && down == Some(false) {
            self.move_particle(row, col, col);
        } else if can_move && down == Some(true) && left == Some(false) && right == Some(false) {
            let c2 = if go_left { col - 1 } else { col + 1 };
            self.move_particle(row, col, c2);
        } else if can_move && down == Some(true) && left == Some(true) && right == Some(false) {
            self.move_particle(row, col, col + 1);
        } else if can_move && down == Some(true) && left == Some(false) && right == Some(true) {
            self.move_particle(row, col, col - 1);
        }
    }

    fn move_particle(&mut self, row: usize, col: usize, col2: usize)
        requires
            old(self).wf(),
            row + 1 < old(self)@.len() <= usize::MAX,
            col < old(self).width(),
            col2 < old(self).width(),
        ensures
            final(self).wf(),
            final(self).width() == old(self).width(),
            final(self)@.len() == old(self)@.len(),
            final(self)@ == shift(old(self)@, row as int, col as int, col2 as int),
    {
        self.put_pair(row, col, (false, true));
        self.put_pair(row + 1, col2, (true, true));
    }

    /// One row-major scan of the decision table over the whole grid.
    pub fn scan(&mut self, target: Option<(usize, usize)>, coins: &Vec<Vec<bool>>)
        requires
            old(self).wf(),
        ensures
            final(self).wf(),
            final(self).width() == old(self).width(),
            final(self)@ == scan_rows(old(self)@, old(self)@.len() as int, old(self).width(), target, coins.deep_view()),
    {
        let ghost g0 = self@;
        let rows = self.rows();
        let cols = self.columns();
        let mut r: usize = 0;
        while r < rows
            invariant
                self.wf(),
                self.width() == cols,
                self@.len() == rows,
                r <= rows,
                self@ == scan_rows(g0, r as int, cols as nat, target, coins.deep_view()),
            decreases rows - r,
        {
            let ghost before = self@;
            let mut c: usize = 0;
            while c < cols
                invariant
                    self.wf(),
                    self.width() == cols,
                    self@.len() == rows,
                    r < rows,
                    c <= cols,
                    self@ == scan_row(before, r as int, c as int, target, coins.deep_view()),
                decreases cols - c,
            {
                let go_left = coin_at(coins, r, c);
                self.update_cell(r, c, target, go_left);
                c = c + 1;
            }
            r = r + 1;
        }
    }

    /// Clears every moved mark and keeps every particle.
    pub fn clear_marks(&mut self)
        requires
            old(self).wf(),
        ensures
            final(self).wf(),
            final(self).width() == old(self).width(),
            final(self)@ == clear_marks(old(self)@),
    {
        let ghost g0 = self@;
        let rows = self.rows();
        let cols = self.columns();
        let mut r: usize = 0;
        while r < rows
            invariant
                self.wf(),
                self.width() == cols,
                self@.len() == rows,
                rectangular(g0, cols as nat),
                g0.len() == rows,
                r <= rows,
                forall|i: int, j: int| 0 <= i < rows && 0 <= j < cols ==> #[trigger] self@[i][j] == if i < r {
                    (g0[i][j].0, false)
                } else {
                    g0[i][j]
                },
            decreases rows - r,
        {
            let mut c: usize = 0;
            while c < cols
                invariant
                    self.wf(),
                    self.width() == cols,
                    self@.len() == rows,
                    rectangular(g0, cols as nat),
                    g0.len() == rows,
                    r < rows,
                    c <= cols,
                    forall|i: int, j: int| 0 <= i < rows && 0 <= j < cols ==> #[trigger] self@[i][j] == if i < r || (i == r && j < c) {
                        (g0[i][j].0, false)
                    } else {
                        g0[i][j]
                    },
                decreases cols - c,
            {
                let p = match self.get_pair(r, c) {
                    Some(p) => p,
                    None => (false, false),
                };
                self.put_pair(r, c, (p.0, false));
                c = c + 1;
            }
            r = r + 1;
        }
        proof {
            assert forall|i: int| 0 <= i < rows implies #[trigger] self@[i] =~= clear_marks(g0)[i] by {
                assert(self@[i].len() == cols);
                assert(g0[i].len() == cols);
            }
            assert(self@ =~= clear_marks(g0));
        }
    }

    /// One tick of the update rule with the sides drawn in `coins`, indexed
    /// by row and column.
    pub fn tick_with(&mut self, target: Option<(usize, usize)>, coins: &Vec<Vec<bool>>)
        requires
            old(self).wf(),
        ensures
            final(self).wf(),
            final(self).width() == old(self).width(),
            final(self)@ == tick_result(old(self)@, old(self).width(), target, coins.deep_view()),
    {
        self.scan(target, coins);
        self.clear_marks();
    }
}

} // verus!

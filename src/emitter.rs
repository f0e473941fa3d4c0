//! The optional spawn point, toggled by clicks and moved by pointer motion.
use vstd::prelude::*;

verus! {

/// The point at which particles are spawned while it is active.
#[derive(Clone, Copy, Debug)]
pub struct Emitter {
    /// `None` while inactive, else the (row, column) of the spawn point.
    pub target: Option<(usize, usize)>,
}

/// The spawn point after a click at `(row, col)`: a pure on/off toggle.
pub open spec fn after_click(t: Option<(usize, usize)>, row: usize, col: usize) -> Option<(usize, usize)> {
    match t {
        None => Some((row, col)),
        Some(_) => None,
    }
}

/// The spawn point after pointer motion to `(row, col)`: only an active one
/// follows.
pub open spec fn after_move(t: Option<(usize, usize)>, row: usize, col: usize) -> Option<(usize, usize)> {
    match t {
        None => None,
        Some(_) => Some((row, col)),
    }
}

impl Emitter {
    /// An inactive emitter.
    pub fn new() -> (e: Emitter)
        ensures
            e.target is None,
    {
        Emitter { target: None }
    }

    pub fn is_active(&self) -> (r: bool)
        ensures
            r == self.target is Some,
    {
        self.target.is_some()
    }

    /// A click switches the emitter on at `(row, col)` when it is inactive,
    /// and off, wherever the click lands, when it is active.
    pub fn click(&mut self, row: usize, col: usize)
        ensures
            final(self).target == after_click(old(self).target, row, col),
    {
        if self.target.is_none() {
            self.target = Some((row, col));
        } else {
            self.target = None;
        }
    }

    /// Pointer motion relocates an active emitter and leaves an inactive one
    /// inactive.
    pub fn moved(&mut self, row: usize, col: usize)
        ensures
            final(self).target == after_move(old(self).target, row, col),
    {
        if self.target.is_some() {
            self.target = Some((row, col));
        }
    }
}

/// A click on an inactive emitter activates it at the clicked coordinate; a
/// second click, wherever it lands, deactivates it; motion never activates an
/// inactive emitter.
pub proof fn lemma_emitter_toggle(r1: usize, c1: usize, r2: usize, c2: usize)
    ensures
        after_click(None, r1, c1) == Some((r1, c1)),
        after_click(after_click(None, r1, c1), r2, c2) is None,
        after_move(None, r2, c2) is None,
{
}

} // verus!

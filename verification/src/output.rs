//! The pixel-output capability the engine draws through.

use vstd::prelude::*;
use crate::machine::pixel_at;

verus! {

/// An output device that can be written to: a grid of cells addressed by
/// non-negative coordinates. A cell that was never written reads as 0.
pub trait EmulatorOutput: Sized {
    /// The cells this output holds: the written cells and their states. An
    /// implementation outside the verified world may leave it unspecified.
    open spec fn pixels(&self) -> Map<(nat, nat), u8> {
        vstd::pervasive::arbitrary()
    }

    /// Write one cell.
    fn set(&mut self, x: usize, y: usize, state: u8)
        ensures
            final(self).pixels() == old(self).pixels().insert((x as nat, y as nat), state),
    ;

    /// Read one cell; a cell that was never written reads as 0.
    fn get(&self, x: usize, y: usize) -> (r: u8)
        ensures
            r == pixel_at(self.pixels(), x as nat, y as nat),
    ;

    /// Unset every cell.
    fn clear(&mut self)
        ensures
            final(self).pixels() == Map::<(nat, nat), u8>::empty(),
    ;

    /// Bulk redraw hint; no effect on the cells.
    fn refresh(&mut self)
        ensures
            final(self).pixels() == old(self).pixels(),
    ;
}

/// The cell states a write journal describes: later writes shadow earlier
/// ones.
spec fn map_of(s: Seq<(usize, usize, u8)>) -> Map<(nat, nat), u8>
    decreases s.len(),
{
    if s.len() == 0 {
        Map::empty()
    } else {
        map_of(s.drop_last()).insert((s.last().0 as nat, s.last().1 as nat), s.last().2)
    }
}

/// A simple output device that keeps track of set coordinates.
pub struct DummyOutput {
    cells: Vec<(usize, usize, u8)>,
}

impl DummyOutput {
    pub fn new() -> (r: DummyOutput)
        ensures
            r.pixels() == Map::<(nat, nat), u8>::empty(),
    {
        DummyOutput { cells: Vec::new() }
    }
}

impl Default for DummyOutput {
    fn default() -> (r: Self)
        ensures
            r.pixels() == Map::<(nat, nat), u8>::empty(),
    {
        Self::new()
    }
}

impl EmulatorOutput for DummyOutput {
    closed spec fn pixels(&self) -> Map<(nat, nat), u8> {
        map_of(self.cells@)
    }

    fn set(&mut self, x: usize, y: usize, state: u8) {
        self.cells.push((x, y, state));
        proof {
            assert(self.cells@.drop_last() =~= old(self).cells@);
        }
    }

    fn get(&self, x: usize, y: usize) -> (r: u8) {
        let mut j = self.cells.len();
        proof {
            assert(self.cells@.subrange(0, self.cells@.len() as int) =~= self.cells@);
        }
        while j > 0
            invariant
                j <= self.cells@.len(),
                pixel_at(map_of(self.cells@), x as nat, y as nat) == pixel_at(
                    map_of(self.cells@.subrange(0, j as int)),
                    x as nat,
                    y as nat,
                ),
            decreases j,
        {
            j = j - 1;
            let (cx, cy, v) = self.cells[j];
            proof {
                assert(self.cells@.subrange(0, j + 1).drop_last() =~= self.cells@.subrange(
                    0,
                    j as int,
                ));
                assert(self.cells@.subrange(0, j + 1).last() == self.cells@[j as int]);
            }
            if cx == x && cy == y {
                return v;
            }
        }
        proof {
            assert(self.cells@.subrange(0, 0) =~= Seq::<(usize, usize, u8)>::empty());
        }
        0
    }

    fn clear(&mut self) {
        self.cells.clear();
    }

    fn refresh(&mut self) {
    }
}

} // verus!

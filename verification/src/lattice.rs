//! The exact geometry of a projection: offsets of cells from the grid's
//! midpoint, counted in half cells.

use vstd::prelude::*;
use crate::shape::Dims;

verus! {

/// Twice the vector from the midpoint of a grid to one of its cells.
///
/// The midpoint of a grid of `W x H x D` cells is `(W/2, H/2, D/2)`, which
/// lies between cells when an axis length is odd. Doubled, the vector to cell
/// `(x, y, z)` is the integer vector `(2x - W, 2y - H, 2z - D)`.
pub struct Offset {
    pub x: int,
    pub y: int,
    pub z: int,
}

impl Offset {
    /// The sum of two offsets, axis by axis.
    pub open spec fn plus(self, other: Offset) -> Offset {
        Offset { x: self.x + other.x, y: self.y + other.y, z: self.z + other.z }
    }
}

/// An offset as it is handed out: each component is a count of half cells.
#[derive(Clone, Copy, Debug, PartialEq, Eq, Structural)]
pub struct LatticePoint {
    pub x: i128,
    pub y: i128,
    pub z: i128,
}

impl View for LatticePoint {
    type V = Offset;

    open spec fn view(&self) -> Offset {
        Offset { x: self.x as int, y: self.y as int, z: self.z as int }
    }
}

impl Dims {
    /// The doubled offset of cell `(x, y, z)` from the grid's midpoint.
    pub open spec fn offset_at(self, x: int, y: int, z: int) -> Offset {
        Offset { x: 2 * x - self.width, y: 2 * y - self.height, z: 2 * z - self.depth }
    }

    /// The doubled offset of the cell at position `i`.
    pub open spec fn offset_of_index(self, i: int) -> Offset {
        self.offset_at(self.x_of(i), self.y_of(i), self.z_of(i))
    }

    /// The doubled offsets of all cells, in the order of a projection.
    pub open spec fn offsets(self) -> Seq<Offset> {
        Seq::new(self.cell_count(), |i: int| self.offset_of_index(i))
    }

    /// The offset of a cell stands at the cell's position.
    pub proof fn lemma_offset_of_cell(self, x: int, y: int, z: int)
        requires
            self.contains(x, y, z),
        ensures
            0 <= self.index_of(x, y, z) < self.offsets().len(),
            self.offsets()[self.index_of(x, y, z)] == self.offset_at(x, y, z),
    {
        self.lemma_index_of(x, y, z);
    }
}

} // verus!

//! Grid shapes: three axis lengths whose product can be counted, and the
//! order of the cells.

use vstd::prelude::*;
use vstd::arithmetic::div_mod::{
    lemma_div_pos_is_pos, lemma_fundamental_div_mod, lemma_fundamental_div_mod_converse,
    lemma_mod_bound, lemma_multiply_divide_lt,
};
use vstd::math::min;

verus! {

/// The axis lengths of a grid, as natural numbers.
pub struct Dims {
    pub width: nat,
    pub height: nat,
    pub depth: nat,
}

impl Dims {
    /// Every axis holds at least one cell.
    pub open spec fn is_valid(self) -> bool {
        self.width >= 1 && self.height >= 1 && self.depth >= 1
    }

    /// The number of cells: `width * height * depth`.
    pub open spec fn cell_count(self) -> nat {
        self.width * self.height * self.depth
    }

    /// The length of the shortest axis.
    pub open spec fn min_dim(self) -> nat {
        min(self.width as int, min(self.height as int, self.depth as int)) as nat
    }

    /// Whether `(x, y, z)` addresses a cell of the grid.
    pub open spec fn contains(self, x: int, y: int, z: int) -> bool {
        0 <= x < self.width && 0 <= y < self.height && 0 <= z < self.depth
    }

    /// The position of cell `(x, y, z)` in the order of a projection: `x`
    /// varies slowest and `z` fastest.
    pub open spec fn index_of(self, x: int, y: int, z: int) -> int {
        (x * self.height + y) * self.depth + z
    }

    /// The `x` coordinate of the cell at position `i`.
    pub open spec fn x_of(self, i: int) -> int {
        (i / (self.depth as int)) / (self.height as int)
    }

    /// The `y` coordinate of the cell at position `i`.
    pub open spec fn y_of(self, i: int) -> int {
        (i / (self.depth as int)) % (self.height as int)
    }

    /// The `z` coordinate of the cell at position `i`.
    pub open spec fn z_of(self, i: int) -> int {
        i % (self.depth as int)
    }

    /// The position of a cell lies below the number of cells, and the cell
    /// is found again from its position.
    pub proof fn lemma_index_of(self, x: int, y: int, z: int)
        requires
            self.contains(x, y, z),
        ensures
            0 <= self.index_of(x, y, z) < self.cell_count(),
            self.x_of(self.index_of(x, y, z)) == x,
            self.y_of(self.index_of(x, y, z)) == y,
            self.z_of(self.index_of(x, y, z)) == z,
    {
        let w = self.width as int;
        let h = self.height as int;
        let d = self.depth as int;
        let row = x * h + y;
        let i = row * d + z;
        assert(0 <= row <= w * h - 1) by (nonlinear_arith)
            requires
                0 <= x <= w - 1,
                0 <= y <= h - 1,
                row == x * h + y,
        ;
        assert(0 <= i <= w * h * d - 1) by (nonlinear_arith)
            requires
                0 <= row <= w * h - 1,
                0 <= z <= d - 1,
                i == row * d + z,
        ;
        lemma_fundamental_div_mod_converse(i, d, row, z);
        lemma_fundamental_div_mod_converse(row, h, x, y);
    }

    /// Every position below the number of cells is that of exactly one cell
    /// of the grid.
    pub proof fn lemma_cell_of(self, i: int)
        requires
            0 <= i < self.cell_count(),
        ensures
            self.contains(self.x_of(i), self.y_of(i), self.z_of(i)),
            self.index_of(self.x_of(i), self.y_of(i), self.z_of(i)) == i,
            forall|x: int, y: int, z: int|
                self.contains(x, y, z) && self.index_of(x, y, z) == i ==> x == self.x_of(i) && y
                    == self.y_of(i) && z == self.z_of(i),
    {
        let w = self.width as int;
        let h = self.height as int;
        let d = self.depth as int;
        assert(w > 0 && h > 0 && d > 0) by (nonlinear_arith)
            requires
                0 <= i < w * h * d,
                w >= 0,
                h >= 0,
                d >= 0,
        ;
        let row = i / d;
        lemma_fundamental_div_mod(i, d);
        lemma_mod_bound(i, d);
        lemma_div_pos_is_pos(i, d);
        assert(i < d * (w * h)) by (nonlinear_arith)
            requires
                i < w * h * d,
        ;
        lemma_multiply_divide_lt(i, d, w * h);
        lemma_fundamental_div_mod(row, h);
        lemma_mod_bound(row, h);
        lemma_div_pos_is_pos(row, h);
        assert(row < h * w) by (nonlinear_arith)
            requires
                row < w * h,
        ;
        lemma_multiply_divide_lt(row, h, w);
        assert(self.index_of(row / h, row % h, i % d) == i) by (nonlinear_arith)
            requires
                i == d * row + (i % d),
                row == h * (row / h) + (row % h),
                self.index_of(row / h, row % h, i % d) == ((row / h) * h + (row % h)) * d + (i
                    % d),
        ;
        assert forall|x: int, y: int, z: int|
            self.contains(x, y, z) && self.index_of(x, y, z) == i implies x == self.x_of(i) && y
                == self.y_of(i) && z == self.z_of(i) by {
            self.lemma_index_of(x, y, z);
        }
    }
}

/// The axis lengths of a grid whose number of cells fits in a `usize`.
///
/// An axis of length zero is representable; such a shape has no cells and
/// cannot be projected.
#[derive(Clone, Copy, Debug)]
pub struct Shape {
    width: usize,
    height: usize,
    depth: usize,
    cells: usize,
}

impl View for Shape {
    type V = Dims;

    closed spec fn view(&self) -> Dims {
        Dims { width: self.width as nat, height: self.height as nat, depth: self.depth as nat }
    }
}

impl Shape {
    #[verifier::type_invariant]
    spec fn addressable(self) -> bool {
        self.cells == self.width * self.height * self.depth
    }

    /// The shape `width x height x depth`, or `None` if that many cells
    /// cannot be counted in a `usize`.
    pub fn new(width: usize, height: usize, depth: usize) -> (shape: Option<Shape>)
        ensures
            shape is Some <==> width * height * depth <= usize::MAX,
            shape matches Some(s) ==> s@ == (Dims {
                width: width as nat,
                height: height as nat,
                depth: depth as nat,
            }),
    {
        if width == 0 || height == 0 || depth == 0 {
            assert(width * height * depth == 0) by (nonlinear_arith)
                requires
                    width == 0 || height == 0 || depth == 0,
            ;
            return Some(Shape { width, height, depth, cells: 0 });
        }
        match width.checked_mul(height) {
            None => {
                assert(width * height * depth > usize::MAX) by (nonlinear_arith)
                    requires
                        width * height > usize::MAX,
                        depth >= 1,
                ;
                None
            },
            Some(layer) => match layer.checked_mul(depth) {
                None => None,
                Some(cells) => Some(Shape { width, height, depth, cells }),
            },
        }
    }

    /// The length of the `x` axis.
    pub fn width(&self) -> (n: usize)
        ensures
            n == self@.width,
    {
        self.width
    }

    /// The length of the `y` axis.
    pub fn height(&self) -> (n: usize)
        ensures
            n == self@.height,
    {
        self.height
    }

    /// The length of the `z` axis.
    pub fn depth(&self) -> (n: usize)
        ensures
            n == self@.depth,
    {
        self.depth
    }

    /// The number of cells.
    pub fn cell_count(&self) -> (n: usize)
        ensures
            n == self@.cell_count(),
    {
        proof {
            use_type_invariant(self);
        }
        self.cells
    }

    /// The length of the shortest axis.
    pub fn min_dim(&self) -> (n: usize)
        ensures
            n == self@.min_dim(),
    {
        if self.width <= self.height && self.width <= self.depth {
            self.width
        } else if self.height <= self.depth {
            self.height
        } else {
            self.depth
        }
    }

    /// Decides whether every axis holds at least one cell.
    pub fn is_valid(&self) -> (ok: bool)
        ensures
            ok == self@.is_valid(),
    {
        self.width >= 1 && self.height >= 1 && self.depth >= 1
    }

    /// The position of cell `(x, y, z)` in a projection of this shape, or
    /// `None` if the grid has no such cell.
    pub fn index_of(&self, x: usize, y: usize, z: usize) -> (index: Option<usize>)
        ensures
            index is Some <==> self@.contains(x as int, y as int, z as int),
            index matches Some(i) ==> i == self@.index_of(x as int, y as int, z as int),
    {
        let width = self.width;
        let height = self.height;
        let depth = self.depth;
        if x < width && y < height && z < depth {
            proof {
                use_type_invariant(self);
                self@.lemma_index_of(x as int, y as int, z as int);
                assert(0 <= x * height <= x * height + y <= (x * height + y) * depth)
                    by (nonlinear_arith)
                    requires
                        depth >= 1,
                ;
            }
            Some((x * height + y) * depth + z)
        } else {
            None
        }
    }

    /// The cell at position `index` in a projection of this shape, or `None`
    /// if the grid has no more than `index` cells.
    pub fn cell_at(&self, index: usize) -> (cell: Option<(usize, usize, usize)>)
        ensures
            cell is Some <==> index < self@.cell_count(),
            cell matches Some((x, y, z)) ==> x == self@.x_of(index as int) && y == self@.y_of(
                index as int,
            ) && z == self@.z_of(index as int),
    {
        proof {
            use_type_invariant(self);
        }
        if index < self.cells {
            proof {
                self@.lemma_cell_of(index as int);
            }
            let height = self.height;
            let depth = self.depth;
            let row = index / depth;
            Some((row / height, row % height, index % depth))
        } else {
            None
        }
    }
}

} // verus!

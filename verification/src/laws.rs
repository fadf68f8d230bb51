//! What holds of every projection: its order, its centre, its spacing and
//! its extent.

use vstd::prelude::*;
use crate::lattice::Offset;
use crate::params::ProjectionParams;
use crate::project::{projection_of, PointCloud};
use crate::shape::Dims;

verus! {

/// The sum of a sequence of offsets, axis by axis.
pub open spec fn offset_sum(s: Seq<Offset>) -> Offset
    decreases s.len(),
{
    if s.len() == 0 {
        Offset { x: 0, y: 0, z: 0 }
    } else {
        offset_sum(s.drop_last()).plus(s.last())
    }
}

/// The sum of the offsets of the first `n` cells.
spec fn prefix_sum(dims: Dims, n: int) -> Offset {
    offset_sum(dims.offsets().take(n))
}

proof fn lemma_prefix_step(dims: Dims, n: int)
    requires
        0 <= n < dims.cell_count(),
    ensures
        prefix_sum(dims, n + 1) == prefix_sum(dims, n).plus(dims.offset_of_index(n)),
{
    let s = dims.offsets().take(n + 1);
    assert(s.drop_last() =~= dims.offsets().take(n));
    assert(s.last() == dims.offsets()[n]);
}

/// The sum over the first `z` cells of the row `(x, y)`.
proof fn lemma_row_sum(dims: Dims, x: int, y: int, z: int)
    requires
        dims.is_valid(),
        0 <= x < dims.width,
        0 <= y < dims.height,
        0 <= z <= dims.depth,
    ensures
        0 <= dims.index_of(x, y, 0) + z <= dims.cell_count(),
        prefix_sum(dims, dims.index_of(x, y, 0) + z) == prefix_sum(
            dims,
            dims.index_of(x, y, 0),
        ).plus(
            Offset {
                x: z * (2 * x - dims.width),
                y: z * (2 * y - dims.height),
                z: z * (z - 1) - z * dims.depth,
            },
        ),
    decreases z,
{
    let w = dims.width as int;
    let h = dims.height as int;
    let d = dims.depth as int;
    let start = dims.index_of(x, y, 0);
    dims.lemma_index_of(x, y, 0);
    if z > 0 {
        let k = z - 1;
        lemma_row_sum(dims, x, y, k);
        dims.lemma_index_of(x, y, k);
        assert(dims.index_of(x, y, k) == start + k);
        lemma_prefix_step(dims, start + k);
        assert(z * (2 * x - w) == k * (2 * x - w) + (2 * x - w)) by (nonlinear_arith)
            requires
                z == k + 1,
        ;
        assert(z * (2 * y - h) == k * (2 * y - h) + (2 * y - h)) by (nonlinear_arith)
            requires
                z == k + 1,
        ;
        assert(z * (z - 1) - z * d == k * (k - 1) - k * d + (2 * k - d)) by (nonlinear_arith)
            requires
                z == k + 1,
        ;
    }
}

/// The sum over the first `y` rows of the slab `x`.
proof fn lemma_slab_sum(dims: Dims, x: int, y: int)
    requires
        dims.is_valid(),
        0 <= x < dims.width,
        0 <= y <= dims.height,
    ensures
        0 <= dims.index_of(x, 0, 0) + y * dims.depth <= dims.cell_count(),
        prefix_sum(dims, dims.index_of(x, 0, 0) + y * dims.depth) == prefix_sum(
            dims,
            dims.index_of(x, 0, 0),
        ).plus(
            Offset {
                x: y * dims.depth * (2 * x - dims.width),
                y: dims.depth * (y * (y - 1) - y * dims.height),
                z: -(y * dims.depth),
            },
        ),
    decreases y,
{
    let w = dims.width as int;
    let h = dims.height as int;
    let d = dims.depth as int;
    let start = dims.index_of(x, 0, 0);
    dims.lemma_index_of(x, 0, 0);
    if y > 0 {
        let k = y - 1;
        lemma_slab_sum(dims, x, k);
        lemma_row_sum(dims, x, k, d);
        assert(dims.index_of(x, k, 0) == start + k * d) by (nonlinear_arith)
            requires
                dims.index_of(x, k, 0) == (x * h + k) * d + 0,
                start == (x * h + 0) * d + 0,
        ;
        assert(start + k * d + d == start + y * d) by (nonlinear_arith)
            requires
                y == k + 1,
        ;
        assert(y * d * (2 * x - w) == k * d * (2 * x - w) + d * (2 * x - w)) by (nonlinear_arith)
            requires
                y == k + 1,
        ;
        assert(d * (y * (y - 1) - y * h) == d * (k * (k - 1) - k * h) + d * (2 * k - h))
            by (nonlinear_arith)
            requires
                y == k + 1,
        ;
        assert(-(y * d) == -(k * d) + (d * (d - 1) - d * d)) by (nonlinear_arith)
            requires
                y == k + 1,
        ;
    } else {
        assert(y * d == 0 && y * d * (2 * x - w) == 0 && d * (y * (y - 1) - y * h) == 0)
            by (nonlinear_arith)
            requires
                y == 0,
        ;
    }
}

/// The sum over the first `x` slabs.
proof fn lemma_slabs_sum(dims: Dims, x: int)
    requires
        dims.is_valid(),
        0 <= x <= dims.width,
    ensures
        0 <= x * dims.height * dims.depth <= dims.cell_count(),
        prefix_sum(dims, x * dims.height * dims.depth) == (Offset {
            x: dims.height * dims.depth * (x * (x - 1) - x * dims.width),
            y: -(x * dims.height * dims.depth),
            z: -(x * dims.height * dims.depth),
        }),
    decreases x,
{
    let w = dims.width as int;
    let h = dims.height as int;
    let d = dims.depth as int;
    if x > 0 {
        let k = x - 1;
        lemma_slabs_sum(dims, k);
        lemma_slab_sum(dims, k, h);
        assert(dims.index_of(k, 0, 0) == k * h * d) by (nonlinear_arith)
            requires
                dims.index_of(k, 0, 0) == (k * h + 0) * d + 0,
        ;
        assert(k * h * d + h * d == x * h * d) by (nonlinear_arith)
            requires
                x == k + 1,
        ;
        assert(h * d * (x * (x - 1) - x * w) == h * d * (k * (k - 1) - k * w) + h * d * (2 * k
            - w)) by (nonlinear_arith)
            requires
                x == k + 1,
        ;
        assert(-(x * h * d) == -(k * h * d) + d * (h * (h - 1) - h * h)) by (nonlinear_arith)
            requires
                x == k + 1,
        ;
        assert(-(x * h * d) == -(k * h * d) + -(h * d)) by (nonlinear_arith)
            requires
                x == k + 1,
        ;
    } else {
        assert(dims.offsets().take(0) =~= Seq::<Offset>::empty());
        assert(0 * h * d == 0) by (nonlinear_arith);
        assert(h * d * (0 * (0 - 1) - 0 * w) == 0) by (nonlinear_arith);
        assert(0 <= w * h * d) by (nonlinear_arith)
            requires
                w >= 0,
                h >= 0,
                d >= 0,
        ;
    }
}

/// Centring: over all cells, the doubled offsets sum to minus the number of
/// cells on every axis.
///
/// Divided by the number of cells, the mean offset is `-1` on every axis: the
/// centre of the cloud lies half a cell below the grid's midpoint, whatever
/// the shape. The midpoint is that between the grid's corners, not that
/// between the centres of its outermost cells.
pub proof fn lemma_centering(dims: Dims, params: ProjectionParams)
    requires
        dims.is_valid(),
        params.is_valid(),
    ensures
        projection_of(dims, params) matches Ok(p) && p.offsets.len() == dims.cell_count()
            && offset_sum(p.offsets) == (Offset {
            x: -(dims.cell_count() as int),
            y: -(dims.cell_count() as int),
            z: -(dims.cell_count() as int),
        }),
{
    let w = dims.width as int;
    let h = dims.height as int;
    let d = dims.depth as int;
    lemma_slabs_sum(dims, w);
    assert(dims.offsets().take(w * h * d) =~= dims.offsets());
    assert(h * d * (w * (w - 1) - w * w) == -(w * h * d)) by (nonlinear_arith);
}

/// Spacing: neighbours along an axis lie two half cells apart on that axis
/// and nowhere else, and that step is `1 / min_dim` of the scale.
///
/// A rendered coordinate is a doubled offset times `scale / divisor`. The
/// distance between neighbours is therefore `step * scale / divisor`, and
/// `step * min_dim == divisor` says that it equals `scale / min_dim`, on the
/// shortest axis as on the others.
pub proof fn lemma_spacing(dims: Dims, params: ProjectionParams, x: int, y: int, z: int)
    requires
        dims.is_valid(),
        params.is_valid(),
        dims.contains(x, y, z),
    ensures
        projection_of(dims, params) matches Ok(p) && {
            let here = p.offsets[dims.index_of(x, y, z)];
            let step: int = 2;
            &&& p.min_dim == dims.min_dim()
            &&& p.min_dim >= 1
            &&& step * p.min_dim == p.divisor()
            &&& x + 1 < dims.width ==> p.offsets[dims.index_of(x + 1, y, z)] == here.plus(
                Offset { x: step, y: 0, z: 0 },
            )
            &&& y + 1 < dims.height ==> p.offsets[dims.index_of(x, y + 1, z)] == here.plus(
                Offset { x: 0, y: step, z: 0 },
            )
            &&& z + 1 < dims.depth ==> p.offsets[dims.index_of(x, y, z + 1)] == here.plus(
                Offset { x: 0, y: 0, z: step },
            )
        },
{
    dims.lemma_offset_of_cell(x, y, z);
    if x + 1 < dims.width {
        dims.lemma_offset_of_cell(x + 1, y, z);
    }
    if y + 1 < dims.height {
        dims.lemma_offset_of_cell(x, y + 1, z);
    }
    if z + 1 < dims.depth {
        dims.lemma_offset_of_cell(x, y, z + 1);
    }
}

/// Extent: along an axis of `n` cells the offsets run from `-n` to `n - 2`,
/// and the shortest axis measures exactly one divisor.
///
/// With its last cell's own step, the shortest axis covers `2 * min_dim` half
/// cells, which is the divisor: rendered, it spans the scale. No axis spans
/// less.
pub proof fn lemma_extent(dims: Dims, params: ProjectionParams, x: int, y: int, z: int)
    requires
        dims.is_valid(),
        params.is_valid(),
        dims.contains(x, y, z),
    ensures
        projection_of(dims, params) matches Ok(p) && {
            let here = p.offsets[dims.index_of(x, y, z)];
            &&& -dims.width <= here.x <= dims.width - 2
            &&& -dims.height <= here.y <= dims.height - 2
            &&& -dims.depth <= here.z <= dims.depth - 2
            &&& p.divisor() <= 2 * dims.width
            &&& p.divisor() <= 2 * dims.height
            &&& p.divisor() <= 2 * dims.depth
            &&& p.divisor() == 2 * dims.width || p.divisor() == 2 * dims.height || p.divisor()
                == 2 * dims.depth
        },
{
    dims.lemma_offset_of_cell(x, y, z);
}

/// Order: a cell that comes first by `x`, then by `y`, then by `z` stands
/// first in the projection.
pub proof fn lemma_order(dims: Dims, x1: int, y1: int, z1: int, x2: int, y2: int, z2: int)
    requires
        dims.contains(x1, y1, z1),
        dims.contains(x2, y2, z2),
        x1 < x2 || (x1 == x2 && y1 < y2) || (x1 == x2 && y1 == y2 && z1 < z2),
    ensures
        dims.index_of(x1, y1, z1) < dims.index_of(x2, y2, z2),
{
    let h = dims.height as int;
    let d = dims.depth as int;
    let row1 = x1 * h + y1;
    let row2 = x2 * h + y2;
    if x1 < x2 {
        assert(row1 < row2) by (nonlinear_arith)
            requires
                x1 < x2,
                0 <= y1 < h,
                0 <= y2,
                row1 == x1 * h + y1,
                row2 == x2 * h + y2,
        ;
    }
    if row1 < row2 {
        assert(row1 * d + z1 < row2 * d + z2) by (nonlinear_arith)
            requires
                row1 < row2,
                0 <= z1 < d,
                0 <= z2,
        ;
    }
}

/// Stability: two clouds projected from the same shape and parameters hold
/// the same points in the same order, and the same scale and radius.
pub proof fn lemma_stable(a: PointCloud, b: PointCloud, dims: Dims, params: ProjectionParams)
    requires
        projection_of(dims, params) matches Ok(p) && a@ == p && b@ == p,
    ensures
        a.points@ == b.points@,
        a.min_dim == b.min_dim,
        a.scale_bits == b.scale_bits,
        a.radius_bits == b.radius_bits,
{
    assert(a.points@.len() == a@.offsets.len());
    assert(b.points@.len() == b@.offsets.len());
    assert forall|i: int| 0 <= i < a.points@.len() implies a.points@[i] == b.points@[i] by {
        assert(a@.offsets[i] == a.points@[i]@);
        assert(b@.offsets[i] == b.points@[i]@);
    }
    assert(a.points@ =~= b.points@);
}

} // verus!

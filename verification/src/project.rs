//! The projection of a grid shape onto a cloud of points.

use vstd::prelude::*;
use crate::lattice::{LatticePoint, Offset};
use crate::params::ProjectionParams;
use crate::shape::{Dims, Shape};

verus! {

/// Why a projection was refused.
#[derive(Clone, Copy, Debug, PartialEq, Eq, Structural)]
pub enum ProjectionError {
    /// An axis of the grid has length zero.
    InvalidDimension,
    /// `scale` or `radius` is not a finite number greater than zero.
    InvalidParameter,
}

/// What a projection is, as mathematics.
///
/// The rendered position of the cell with doubled offset `o` is
/// `(o / 2) * (scale / min_dim)`, where `scale` is the number that
/// `scale_bits` encodes.
pub struct Projection {
    /// The doubled offset of every cell from the grid's midpoint, in the
    /// grid's own order.
    pub offsets: Seq<Offset>,
    /// The length of the grid's shortest axis.
    pub min_dim: nat,
    /// The bit pattern of the scale.
    pub scale_bits: u32,
    /// The bit pattern of the radius.
    pub radius_bits: u32,
}

impl Projection {
    /// The number by which a doubled offset, multiplied by the scale, is
    /// divided to give a rendered coordinate.
    pub open spec fn divisor(self) -> nat {
        2 * self.min_dim
    }
}

/// The result that `project` owes for a shape and parameters.
///
/// A grid with an empty axis is refused before the parameters are looked at.
pub open spec fn projection_of(dims: Dims, params: ProjectionParams) -> Result<
    Projection,
    ProjectionError,
> {
    if !dims.is_valid() {
        Err(ProjectionError::InvalidDimension)
    } else if !params.is_valid() {
        Err(ProjectionError::InvalidParameter)
    } else {
        Ok(
            Projection {
                offsets: dims.offsets(),
                min_dim: dims.min_dim(),
                scale_bits: params.scale_bits,
                radius_bits: params.radius_bits,
            },
        )
    }
}

/// The points of a projected grid.
#[derive(Debug)]
pub struct PointCloud {
    /// One point per cell, `x` varying slowest and `z` fastest.
    pub points: Vec<LatticePoint>,
    /// The length of the grid's shortest axis.
    pub min_dim: usize,
    /// The bit pattern of the scale.
    pub scale_bits: u32,
    /// The bit pattern of the radius, as it was given.
    pub radius_bits: u32,
}

impl View for PointCloud {
    type V = Projection;

    open spec fn view(&self) -> Projection {
        Projection {
            offsets: self.points@.map_values(|p: LatticePoint| p@),
            min_dim: self.min_dim as nat,
            scale_bits: self.scale_bits,
            radius_bits: self.radius_bits,
        }
    }
}

/// Every point so far is the one that its position calls for.
spec fn in_place(points: Seq<LatticePoint>, dims: Dims) -> bool {
    forall|i: int| 0 <= i < points.len() ==> (#[trigger] points[i])@ == dims.offset_of_index(i)
}

/// The point of cell `(x, y, z)` in a grid of the given shape.
pub fn lattice_point(shape: &Shape, x: usize, y: usize, z: usize) -> (point: LatticePoint)
    ensures
        point@ == shape@.offset_at(x as int, y as int, z as int),
{
    LatticePoint {
        x: 2 * (x as i128) - (shape.width() as i128),
        y: 2 * (y as i128) - (shape.height() as i128),
        z: 2 * (z as i128) - (shape.depth() as i128),
    }
}

/// Projects a grid of the given shape: one point per cell, centred on the
/// grid's midpoint.
///
/// Only the shape of a grid takes part; the values in its cells do not.
pub fn project(shape: &Shape, params: &ProjectionParams) -> (result: Result<
    PointCloud,
    ProjectionError,
>)
    ensures
        match (result, projection_of(shape@, *params)) {
            (Ok(cloud), Ok(projection)) => cloud@ == projection,
            (Err(error), Err(owed)) => error == owed,
            _ => false,
        },
        result matches Ok(cloud) ==> cloud.points@.len() == shape@.cell_count(),
{
    if !shape.is_valid() {
        return Err(ProjectionError::InvalidDimension);
    }
    if !params.validate() {
        return Err(ProjectionError::InvalidParameter);
    }
    let ghost dims = shape@;
    let width = shape.width();
    let height = shape.height();
    let depth = shape.depth();
    let mut points: Vec<LatticePoint> = Vec::new();
    let mut x: usize = 0;
    while x < width
        invariant
            dims == shape@,
            dims.is_valid(),
            width == dims.width,
            height == dims.height,
            depth == dims.depth,
            x <= width,
            points@.len() == x * height * depth,
            in_place(points@, dims),
        decreases width - x,
    {
        let mut y: usize = 0;
        while y < height
            invariant
                dims == shape@,
                dims.is_valid(),
                width == dims.width,
                height == dims.height,
                depth == dims.depth,
                x < width,
                y <= height,
                points@.len() == (x * height + y) * depth,
                in_place(points@, dims),
            decreases height - y,
        {
            let mut z: usize = 0;
            while z < depth
                invariant
                    dims == shape@,
                    dims.is_valid(),
                    width == dims.width,
                    height == dims.height,
                    depth == dims.depth,
                    x < width,
                    y < height,
                    z <= depth,
                    points@.len() == (x * height + y) * depth + z,
                    in_place(points@, dims),
                decreases depth - z,
            {
                let point = lattice_point(shape, x, y, z);
                proof {
                    dims.lemma_index_of(x as int, y as int, z as int);
                }
                points.push(point);
                z += 1;
            }
            assert((x * height + y) * depth + depth == (x * height + (y + 1)) * depth)
                by (nonlinear_arith);
            y += 1;
        }
        assert((x * height + height) * depth == (x + 1) * height * depth) by (nonlinear_arith);
        x += 1;
    }
    let cloud = PointCloud {
        points,
        min_dim: shape.min_dim(),
        scale_bits: params.scale_bits,
        radius_bits: params.radius_bits,
    };
    assert(cloud@.offsets =~= dims.offsets());
    Ok(cloud)
}

} // verus!

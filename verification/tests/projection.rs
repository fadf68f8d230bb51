use grid_projector::{
    lattice_point, project, LatticePoint, PointCloud, ProjectionError, ProjectionParams, Shape,
};

fn shape(width: usize, height: usize, depth: usize) -> Shape {
    Shape::new(width, height, depth).expect("the cells can be counted")
}

fn params(scale: f32, radius: f32) -> ProjectionParams {
    ProjectionParams::new(scale.to_bits(), radius.to_bits())
}

fn cloud(width: usize, height: usize, depth: usize, scale: f32, radius: f32) -> PointCloud {
    project(&shape(width, height, depth), &params(scale, radius)).expect("a valid projection")
}

/// The rendered position of a point, as a caller computes it.
fn rendered(cloud: &PointCloud, point: &LatticePoint) -> (f32, f32, f32) {
    let factor = f32::from_bits(cloud.scale_bits) / cloud.min_dim as f32;
    (
        (point.x as f32 / 2.0) * factor,
        (point.y as f32 / 2.0) * factor,
        (point.z as f32 / 2.0) * factor,
    )
}

fn point(x: i128, y: i128, z: i128) -> LatticePoint {
    LatticePoint { x, y, z }
}

#[test]
fn one_point_per_cell() {
    for (w, h, d) in [(1, 1, 1), (2, 2, 2), (3, 4, 5), (7, 1, 2), (1, 9, 1), (30, 30, 30)] {
        let c = cloud(w, h, d, 1.0, 1.0);
        assert_eq!(c.points.len(), w * h * d);
        assert_eq!(c.points.len(), shape(w, h, d).cell_count());
    }
}

#[test]
fn repeated_calls_agree() {
    let first = cloud(3, 4, 5, 2.0, 0.25);
    let second = cloud(3, 4, 5, 2.0, 0.25);
    assert_eq!(first.points, second.points);
    assert_eq!(first.min_dim, second.min_dim);
    assert_eq!(first.scale_bits, second.scale_bits);
    assert_eq!(first.radius_bits, second.radius_bits);
}

#[test]
fn offsets_sum_to_minus_the_cell_count() {
    for (w, h, d) in [(1, 1, 1), (2, 2, 2), (3, 4, 5), (5, 3, 2), (4, 4, 1), (30, 30, 30)] {
        let c = cloud(w, h, d, 1.0, 1.0);
        let n = (w * h * d) as i128;
        let sum_x: i128 = c.points.iter().map(|p| p.x).sum();
        let sum_y: i128 = c.points.iter().map(|p| p.y).sum();
        let sum_z: i128 = c.points.iter().map(|p| p.z).sum();
        assert_eq!((sum_x, sum_y, sum_z), (-n, -n, -n));
    }
}

#[test]
fn mean_lies_half_a_step_below_the_midpoint() {
    // 4 x 2 x 8 cells and a scale of 3: one cell step is 3 / 2 = 1.5 render units.
    let c = cloud(4, 2, 8, 3.0, 1.0);
    let n = c.points.len() as f32;
    let mut sum = (0.0f32, 0.0f32, 0.0f32);
    for p in &c.points {
        let r = rendered(&c, p);
        sum = (sum.0 + r.0, sum.1 + r.1, sum.2 + r.2);
    }
    assert_eq!((sum.0 / n, sum.1 / n, sum.2 / n), (-0.75, -0.75, -0.75));
}

#[test]
fn neighbours_lie_one_scaled_step_apart() {
    let (w, h, d) = (4usize, 2usize, 8usize);
    let c = cloud(w, h, d, 3.0, 1.0);
    assert_eq!(c.min_dim, 2);
    let s = shape(w, h, d);
    let at = |x: usize, y: usize, z: usize| c.points[s.index_of(x, y, z).expect("a cell")];
    for x in 0..w {
        for y in 0..h {
            for z in 0..d {
                let here = at(x, y, z);
                if x + 1 < w {
                    assert_eq!(at(x + 1, y, z), point(here.x + 2, here.y, here.z));
                    assert_eq!(rendered(&c, &at(x + 1, y, z)).0 - rendered(&c, &here).0, 1.5);
                }
                if y + 1 < h {
                    assert_eq!(at(x, y + 1, z), point(here.x, here.y + 2, here.z));
                    assert_eq!(rendered(&c, &at(x, y + 1, z)).1 - rendered(&c, &here).1, 1.5);
                }
                if z + 1 < d {
                    assert_eq!(at(x, y, z + 1), point(here.x, here.y, here.z + 2));
                    assert_eq!(rendered(&c, &at(x, y, z + 1)).2 - rendered(&c, &here).2, 1.5);
                }
            }
        }
    }
}

#[test]
fn single_cell() {
    let c = cloud(1, 1, 1, 1.0, 1.0);
    assert_eq!(c.points, vec![point(-1, -1, -1)]);
    assert_eq!(c.min_dim, 1);
    assert_eq!(rendered(&c, &c.points[0]), (-0.5, -0.5, -0.5));
}

#[test]
fn empty_axis_is_refused() {
    let p = params(1.0, 1.0);
    for (w, h, d) in [(0, 5, 5), (5, 0, 5), (5, 5, 0), (0, 0, 0), (0, 0, 7)] {
        let r = project(&shape(w, h, d), &p);
        assert!(matches!(r, Err(ProjectionError::InvalidDimension)));
    }
}

#[test]
fn zero_scale_is_refused() {
    let r = project(&shape(2, 2, 2), &params(0.0, 1.0));
    assert!(matches!(r, Err(ProjectionError::InvalidParameter)));
}

#[test]
fn unusable_parameters_are_refused() {
    let s = shape(2, 3, 4);
    let bad = [0.0f32, -0.0, -1.0, -f32::MIN_POSITIVE, f32::INFINITY, f32::NEG_INFINITY, f32::NAN];
    for v in bad {
        assert!(matches!(project(&s, &params(v, 1.0)), Err(ProjectionError::InvalidParameter)));
        assert!(matches!(project(&s, &params(1.0, v)), Err(ProjectionError::InvalidParameter)));
        assert!(matches!(project(&s, &params(v, v)), Err(ProjectionError::InvalidParameter)));
    }
}

#[test]
fn small_and_large_parameters_are_accepted() {
    let s = shape(2, 3, 4);
    let good = [f32::from_bits(1), f32::MIN_POSITIVE, 1.0e-30, 0.5, 1.0, 2.7, 1.0e30, f32::MAX];
    for v in good {
        assert!(project(&s, &params(v, 1.0)).is_ok());
        assert!(project(&s, &params(1.0, v)).is_ok());
    }
}

#[test]
fn empty_axis_is_reported_before_parameters() {
    let r = project(&shape(0, 5, 5), &params(0.0, f32::NAN));
    assert!(matches!(r, Err(ProjectionError::InvalidDimension)));
}

#[test]
fn two_by_two_by_two() {
    let c = cloud(2, 2, 2, 1.0, 1.0);
    assert_eq!(c.min_dim, 2);
    assert_eq!(
        c.points,
        vec![
            point(-2, -2, -2),
            point(-2, -2, 0),
            point(-2, 0, -2),
            point(-2, 0, 0),
            point(0, -2, -2),
            point(0, -2, 0),
            point(0, 0, -2),
            point(0, 0, 0),
        ]
    );
    let positions: Vec<(f32, f32, f32)> = c.points.iter().map(|p| rendered(&c, p)).collect();
    assert_eq!(
        positions,
        vec![
            (-0.5, -0.5, -0.5),
            (-0.5, -0.5, 0.0),
            (-0.5, 0.0, -0.5),
            (-0.5, 0.0, 0.0),
            (0.0, -0.5, -0.5),
            (0.0, -0.5, 0.0),
            (0.0, 0.0, -0.5),
            (0.0, 0.0, 0.0),
        ]
    );
}

#[test]
fn cells_come_in_grid_order() {
    let (w, h, d) = (3usize, 4usize, 5usize);
    let s = shape(w, h, d);
    let c = project(&s, &params(1.0, 1.0)).expect("a valid projection");
    let mut next = 0;
    for x in 0..w {
        for y in 0..h {
            for z in 0..d {
                assert_eq!(next, (x * h + y) * d + z);
                assert_eq!(c.points[next], lattice_point(&s, x, y, z));
                next += 1;
            }
        }
    }
    assert_eq!(next, c.points.len());
}

#[test]
fn offsets_are_doubled_distances_from_the_midpoint() {
    let s = shape(3, 4, 5);
    assert_eq!(lattice_point(&s, 0, 0, 0), point(-3, -4, -5));
    assert_eq!(lattice_point(&s, 2, 0, 4), point(1, -4, 3));
    assert_eq!(lattice_point(&s, 1, 2, 2), point(-1, 0, -1));
    assert_eq!(lattice_point(&s, 2, 3, 4), point(1, 2, 3));
}

#[test]
fn parameters_are_handed_through() {
    let c = cloud(2, 3, 4, 2.7, 0.125);
    assert_eq!(f32::from_bits(c.scale_bits), 2.7);
    assert_eq!(f32::from_bits(c.radius_bits), 0.125);
    assert_eq!(c.min_dim, 2);
}

#[test]
fn rendered_positions_match_direct_evaluation() {
    for (w, h, d, scale) in [(3usize, 4usize, 5usize, 2.0f32), (30, 30, 30, 1.0), (5, 2, 9, 0.3)] {
        let c = cloud(w, h, d, scale, 1.0);
        let min_dim = w.min(h).min(d) as f32;
        let factor = scale / min_dim;
        let mut next = 0;
        for x in 0..w {
            for y in 0..h {
                for z in 0..d {
                    let direct = (
                        (x as f32 - w as f32 / 2.0) * factor,
                        (y as f32 - h as f32 / 2.0) * factor,
                        (z as f32 - d as f32 / 2.0) * factor,
                    );
                    assert_eq!(rendered(&c, &c.points[next]), direct);
                    next += 1;
                }
            }
        }
    }
}

#[test]
fn thirty_cubed() {
    let c = cloud(30, 30, 30, 1.0, 1.0);
    assert_eq!(c.points.len(), 27000);
    assert_eq!(c.min_dim, 30);
    assert_eq!(c.points[0], point(-30, -30, -30));
    assert_eq!(c.points[26999], point(28, 28, 28));
    assert_eq!(rendered(&c, &c.points[0]), (-0.5, -0.5, -0.5));
    assert_eq!(rendered(&c, &c.points[15 * 900 + 15 * 30 + 15]), (0.0, 0.0, 0.0));
}

#[test]
fn extreme_offsets_are_exact() {
    let s = Shape::new(usize::MAX, 1, 1).expect("one long column");
    let w = usize::MAX as i128;
    assert_eq!(lattice_point(&s, 0, 0, 0), point(-w, -1, -1));
    assert_eq!(lattice_point(&s, usize::MAX - 1, 0, 0), point(w - 2, -1, -1));
}

#[test]
fn shortest_axis_spans_the_scale() {
    // The shortest axis of 4 x 2 x 8 cells is y; with a scale of 3 a step is 1.5.
    let c = cloud(4, 2, 8, 3.0, 1.0);
    let step = 1.5f32;
    let xs: Vec<f32> = c.points.iter().map(|p| rendered(&c, p).0).collect();
    let ys: Vec<f32> = c.points.iter().map(|p| rendered(&c, p).1).collect();
    let zs: Vec<f32> = c.points.iter().map(|p| rendered(&c, p).2).collect();
    let low = |v: &Vec<f32>| v.iter().cloned().fold(f32::INFINITY, f32::min);
    let high = |v: &Vec<f32>| v.iter().cloned().fold(f32::NEG_INFINITY, f32::max);
    assert_eq!((low(&ys), high(&ys) + step), (-1.5, 1.5));
    assert_eq!((low(&xs), high(&xs) + step), (-3.0, 3.0));
    assert_eq!((low(&zs), high(&zs) + step), (-6.0, 6.0));
    assert_eq!(c.points.iter().map(|p| p.y).min(), Some(-2));
    assert_eq!(c.points.iter().map(|p| p.y).max(), Some(0));
    assert_eq!(c.points.iter().map(|p| p.x).min(), Some(-4));
    assert_eq!(c.points.iter().map(|p| p.x).max(), Some(2));
    assert_eq!(c.points.iter().map(|p| p.z).min(), Some(-8));
    assert_eq!(c.points.iter().map(|p| p.z).max(), Some(6));
}

use grid_projector::{lattice_point, project, ProjectionParams, Shape};
use ndarray::Array3;

fn unit_params() -> ProjectionParams {
    ProjectionParams::new(1.0f32.to_bits(), 1.0f32.to_bits())
}

#[test]
fn projection_follows_the_order_of_an_array() {
    let arr = Array3::<f32>::zeros((3, 4, 5));
    let (width, height, depth) = arr.dim();
    let shape = Shape::new(width, height, depth).expect("sixty cells");
    let cloud = project(&shape, &unit_params()).expect("a valid projection");
    assert_eq!(cloud.points.len(), arr.len());
    for (position, ((x, y, z), _)) in arr.indexed_iter().enumerate() {
        assert_eq!(shape.index_of(x, y, z), Some(position));
        assert_eq!(shape.cell_at(position), Some((x, y, z)));
        assert_eq!(cloud.points[position], lattice_point(&shape, x, y, z));
    }
}

#[test]
fn shortest_axis_of_an_array() {
    let arr = Array3::<f32>::zeros((6, 2, 9));
    let (width, height, depth) = arr.dim();
    let shape = Shape::new(width, height, depth).expect("few cells");
    let cloud = project(&shape, &unit_params()).expect("a valid projection");
    assert_eq!(Some(&cloud.min_dim), arr.shape().iter().min());
    assert_eq!(cloud.min_dim, 2);
}

#[test]
fn cell_values_do_not_matter() {
    let zeros = Array3::<f32>::zeros((2, 3, 4));
    let ones = Array3::<f32>::from_elem((2, 3, 4), 1.0);
    let a = {
        let (w, h, d) = zeros.dim();
        project(&Shape::new(w, h, d).expect("few cells"), &unit_params()).expect("valid")
    };
    let b = {
        let (w, h, d) = ones.dim();
        project(&Shape::new(w, h, d).expect("few cells"), &unit_params()).expect("valid")
    };
    assert_eq!(a.points, b.points);
    assert_eq!(a.min_dim, b.min_dim);
}

#[test]
fn array_without_cells_is_refused() {
    let arr = Array3::<f32>::zeros((0, 5, 5));
    let (width, height, depth) = arr.dim();
    let shape = Shape::new(width, height, depth).expect("no cells");
    assert!(project(&shape, &unit_params()).is_err());
}

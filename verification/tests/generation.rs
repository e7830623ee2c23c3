use simple_primitives::frac::Frac;
use simple_primitives::scalar::Scalar;
use simple_primitives::shapes::{generate_geometry, usize2Shape, GeomError, Shape, ShapeData};

fn fr(num: i64, den: i64) -> Frac {
    Frac { num, den }
}

fn unit_scale() -> Vec<Frac> {
    vec![fr(1, 1), fr(1, 1), fr(1, 1)]
}

fn gen(shape_index: usize, args: Vec<Frac>) -> Result<ShapeData, GeomError> {
    generate_geometry(shape_index, unit_scale(), args)
}

fn eval_frac(f: &Frac) -> f32 {
    f.num as f32 / f.den as f32
}

fn eval_exact(s: &Scalar) -> f32 {
    match s {
        Scalar::Exact { value } => eval_frac(value),
        _ => panic!("expected an exact component"),
    }
}

#[test]
fn shape_index_mapping() {
    assert_eq!(usize2Shape(0), Ok(Shape::Plane));
    assert_eq!(usize2Shape(1), Ok(Shape::Disk));
    assert_eq!(usize2Shape(2), Ok(Shape::Cube));
    assert_eq!(usize2Shape(3), Ok(Shape::Sphere));
    assert_eq!(usize2Shape(4), Ok(Shape::Cylinder));
    assert_eq!(usize2Shape(5), Ok(Shape::Tube));
    assert_eq!(usize2Shape(6), Err(GeomError::InvalidShapeKind));
    assert_eq!(usize2Shape(1000), Err(GeomError::InvalidShapeKind));
}

#[test]
fn buffer_length_matches_triangle_count_for_all_shapes() {
    let cases: Vec<(usize, Vec<Frac>)> = vec![
        (0, vec![fr(3, 1)]),
        (1, vec![fr(7, 1), fr(2, 1)]),
        (2, vec![fr(2, 1)]),
        (3, vec![fr(2, 1)]),
        (4, vec![fr(5, 1), fr(3, 2)]),
        (5, vec![fr(6, 1), fr(1, 2), fr(3, 2)]),
    ];
    for (index, args) in cases {
        let data = gen(index, args).unwrap();
        assert_eq!(data.vertices.len(), data.nr_of_triangles * 9);
    }
}

#[test]
fn plane_triangle_count_and_length() {
    for n in [1usize, 2, 3, 5, 10] {
        let data = gen(0, vec![fr(n as i64, 1)]).unwrap();
        assert_eq!(data.nr_of_triangles, 2 * n * n);
        assert_eq!(data.vertices.len(), 18 * n * n);
    }
}

#[test]
fn cube_triangle_count_and_length() {
    for n in [1usize, 2, 4] {
        let data = gen(2, vec![fr(n as i64, 1)]).unwrap();
        assert_eq!(data.nr_of_triangles, 12 * n * n);
        assert_eq!(data.vertices.len(), 108 * n * n);
    }
}

#[test]
fn sphere_triangle_count_matches_cube() {
    for n in [1usize, 2, 3] {
        let cube = gen(2, vec![fr(n as i64, 1)]).unwrap();
        let sphere = gen(3, vec![fr(n as i64, 1)]).unwrap();
        assert_eq!(sphere.nr_of_triangles, cube.nr_of_triangles);
        assert_eq!(sphere.vertices.len(), cube.vertices.len());
    }
}

#[test]
fn disk_triangle_count() {
    for sides in [1usize, 3, 8, 100] {
        let data = gen(1, vec![fr(sides as i64, 1), fr(2, 1)]).unwrap();
        assert_eq!(data.nr_of_triangles, sides);
        assert_eq!(data.vertices.len(), 9 * sides);
    }
}

#[test]
fn cylinder_and_tube_triangle_counts() {
    for sides in [3usize, 4, 8, 36] {
        let cyl = gen(4, vec![fr(sides as i64, 1), fr(1, 1)]).unwrap();
        assert_eq!(cyl.nr_of_triangles, 4 * sides);
        assert_eq!(cyl.vertices.len(), 36 * sides);
        let tube = gen(5, vec![fr(sides as i64, 1), fr(1, 2), fr(1, 1)]).unwrap();
        assert_eq!(tube.nr_of_triangles, 8 * sides);
        assert_eq!(tube.vertices.len(), 72 * sides);
    }
}

#[test]
fn invalid_shape_kind_is_reported() {
    assert!(matches!(
        gen(6, vec![fr(1, 1)]),
        Err(GeomError::InvalidShapeKind)
    ));
}

#[test]
fn missing_disk_radius_is_insufficient_arguments() {
    assert!(matches!(
        gen(1, vec![fr(4, 1)]),
        Err(GeomError::InsufficientArguments)
    ));
}

#[test]
fn empty_arguments_are_insufficient() {
    for index in 0..6usize {
        assert!(matches!(
            gen(index, vec![]),
            Err(GeomError::InsufficientArguments)
        ));
    }
}

#[test]
fn missing_tube_outer_radius_is_insufficient_arguments() {
    assert!(matches!(
        gen(5, vec![fr(4, 1), fr(1, 2)]),
        Err(GeomError::InsufficientArguments)
    ));
}

#[test]
fn zero_subdivisions_is_invalid_parameter() {
    assert!(matches!(gen(0, vec![fr(0, 1)]), Err(GeomError::InvalidParameter)));
}

#[test]
fn negative_subdivisions_is_invalid_parameter() {
    assert!(matches!(gen(2, vec![fr(-3, 1)]), Err(GeomError::InvalidParameter)));
}

#[test]
fn fractional_count_below_one_is_invalid_parameter() {
    assert!(matches!(gen(0, vec![fr(1, 2)]), Err(GeomError::InvalidParameter)));
}

#[test]
fn nonpositive_radius_is_invalid_parameter() {
    assert!(matches!(
        gen(1, vec![fr(4, 1), fr(0, 1)]),
        Err(GeomError::InvalidParameter)
    ));
    assert!(matches!(
        gen(4, vec![fr(4, 1), fr(-1, 1)]),
        Err(GeomError::InvalidParameter)
    ));
    assert!(matches!(
        gen(5, vec![fr(4, 1), fr(-1, 2), fr(1, 1)]),
        Err(GeomError::InvalidParameter)
    ));
    assert!(matches!(
        gen(5, vec![fr(4, 1), fr(1, 2), fr(0, 1)]),
        Err(GeomError::InvalidParameter)
    ));
}

#[test]
fn extra_arguments_are_ignored() {
    let data = gen(0, vec![fr(2, 1), fr(99, 1), fr(-4, 1)]).unwrap();
    assert_eq!(data.nr_of_triangles, 8);
}

#[test]
fn integer_part_of_count_argument_is_used() {
    // 7/2 subdivisions truncate to 3, as a float-to-integer cast would.
    let data = gen(0, vec![fr(7, 2)]).unwrap();
    assert_eq!(data.nr_of_triangles, 18);
}

#[test]
fn plane_two_subdivisions_first_triangle() {
    let data = gen(0, vec![fr(2, 1)]).unwrap();
    assert_eq!(data.nr_of_triangles, 8);
    let first: Vec<f32> = data.vertices[..9].iter().map(eval_exact).collect();
    assert_eq!(first, vec![-0.5, 0.0, 0.0, -0.5, -0.5, 0.0, 0.0, 0.0, 0.0]);
}

#[test]
fn plane_covers_unit_square_centred_on_origin() {
    let data = gen(0, vec![fr(3, 1)]).unwrap();
    for (k, s) in data.vertices.iter().enumerate() {
        let v = eval_exact(s);
        if k % 3 == 2 {
            assert_eq!(v, 0.0);
        } else {
            assert!((-0.5..=0.5).contains(&v));
        }
    }
}

#[test]
fn cube_half_extent_is_exactly_half() {
    let data = gen(2, vec![fr(2, 1)]).unwrap();
    let mut max_abs: f32 = 0.0;
    for s in &data.vertices {
        let v = eval_exact(s).abs();
        assert!(v <= 0.5);
        if v > max_abs {
            max_abs = v;
        }
    }
    assert_eq!(max_abs, 0.5);
    // Every vertex lies on one of the six bounding planes.
    for vertex in data.vertices.chunks(3) {
        assert!(vertex.iter().any(|s| eval_exact(s).abs() == 0.5));
    }
}

#[test]
fn single_sided_ring_shapes_still_generate() {
    let disk = gen(1, vec![fr(1, 1), fr(1, 1)]).unwrap();
    assert_eq!(disk.nr_of_triangles, 1);
    let cyl = gen(4, vec![fr(1, 1), fr(1, 1)]).unwrap();
    assert_eq!(cyl.nr_of_triangles, 4);
}

#[test]
fn tube_outer_radius_below_inner_is_accepted() {
    // Only positivity of the radii is part of the domain; their order is a
    // convention left to the caller.
    let data = gen(5, vec![fr(3, 1), fr(2, 1), fr(1, 1)]).unwrap();
    assert_eq!(data.nr_of_triangles, 24);
}

#[test]
fn scaling_multiplies_components_per_axis() {
    let unscaled = gen(0, vec![fr(1, 1)]).unwrap();
    let scaled = generate_geometry(0, vec![fr(2, 1), fr(3, 1), fr(5, 1)], vec![fr(1, 1)]).unwrap();
    assert_eq!(unscaled.nr_of_triangles, scaled.nr_of_triangles);
    for (k, (u, s)) in unscaled.vertices.iter().zip(scaled.vertices.iter()).enumerate() {
        let factor = match k % 3 {
            0 => 2.0,
            1 => 3.0,
            _ => 5.0,
        };
        assert_eq!(eval_exact(u) * factor, eval_exact(s));
    }
}

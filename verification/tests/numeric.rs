use simple_primitives::frac::Frac;
use simple_primitives::scalar::Scalar;
use simple_primitives::shapes::{generate_geometry, GeomError, ShapeData};

const TAU: f64 = 2.0 * std::f64::consts::PI;
const TOLERANCE: f64 = 1e-5;

fn fr(num: i64, den: i64) -> Frac {
    Frac { num, den }
}

fn unit_scale() -> Vec<Frac> {
    vec![fr(1, 1), fr(1, 1), fr(1, 1)]
}

fn gen(shape_index: usize, args: Vec<Frac>) -> Result<ShapeData, GeomError> {
    generate_geometry(shape_index, unit_scale(), args)
}

fn eval_frac(f: &Frac) -> f64 {
    f.num as f64 / f.den as f64
}

fn eval_scalar(s: &Scalar) -> f64 {
    match s {
        Scalar::Exact { value } => eval_frac(value),
        Scalar::Cosine { coef, index, sides } => {
            eval_frac(coef) * (TAU * *index as f64 / *sides as f64).cos()
        }
        Scalar::Sine { coef, index, sides } => {
            eval_frac(coef) * (TAU * *index as f64 / *sides as f64).sin()
        }
        Scalar::Normed { value, x, y, z } => {
            let (x, y, z) = (eval_frac(x), eval_frac(y), eval_frac(z));
            eval_frac(value) / (x * x + y * y + z * z).sqrt()
        }
    }
}

fn eval_buffer(data: &ShapeData) -> Vec<f64> {
    data.vertices.iter().map(eval_scalar).collect()
}

#[test]
fn sphere_vertices_have_unit_norm() {
    for n in [1usize, 2, 3] {
        let data = gen(3, vec![fr(n as i64, 1)]).unwrap();
        let buffer = eval_buffer(&data);
        for vertex in buffer.chunks(3) {
            let norm = (vertex[0] * vertex[0] + vertex[1] * vertex[1] + vertex[2] * vertex[2])
                .sqrt();
            assert!((norm - 1.0).abs() < TOLERANCE);
        }
    }
}

#[test]
fn disk_rim_vertices_lie_at_radius() {
    let radius = 5.0 / 2.0;
    let data = gen(1, vec![fr(8, 1), fr(5, 2)]).unwrap();
    let buffer = eval_buffer(&data);
    for (v, vertex) in buffer.chunks(3).enumerate() {
        assert_eq!(vertex[2], 0.0);
        let dist = (vertex[0] * vertex[0] + vertex[1] * vertex[1]).sqrt();
        if v % 3 == 2 {
            // The third vertex of each fan triangle is the centre.
            assert_eq!(dist, 0.0);
        } else {
            assert!((dist - radius).abs() < TOLERANCE);
        }
    }
}

#[test]
fn disk_first_wedge_has_expected_angles() {
    let data = gen(1, vec![fr(4, 1), fr(1, 1)]).unwrap();
    let buffer = eval_buffer(&data);
    // Rim point 0 is (1, 0, 0); rim point 1 of a 4-sided disk is (0, 1, 0).
    assert!((buffer[0] - 1.0).abs() < TOLERANCE);
    assert!(buffer[1].abs() < TOLERANCE);
    assert!(buffer[3].abs() < TOLERANCE);
    assert!((buffer[4] - 1.0).abs() < TOLERANCE);
    assert_eq!(&buffer[6..9], &[0.0, 0.0, 0.0]);
}

#[test]
fn cylinder_wall_and_caps_sit_at_half_height() {
    let data = gen(4, vec![fr(6, 1), fr(2, 1)]).unwrap();
    let buffer = eval_buffer(&data);
    for vertex in buffer.chunks(3) {
        assert_eq!(vertex[1].abs(), 0.5);
        let dist = (vertex[0] * vertex[0] + vertex[2] * vertex[2]).sqrt();
        assert!(dist < 2.0 + TOLERANCE);
    }
}

#[test]
fn tube_radii_stay_between_inner_and_outer() {
    let inner = 0.5;
    let outer = 1.5;
    let data = gen(5, vec![fr(8, 1), fr(1, 2), fr(3, 2)]).unwrap();
    let buffer = eval_buffer(&data);
    for vertex in buffer.chunks(3) {
        assert_eq!(vertex[1].abs(), 0.5);
        let dist = (vertex[0] * vertex[0] + vertex[2] * vertex[2]).sqrt();
        assert!(dist > inner - TOLERANCE);
        assert!(dist < outer + TOLERANCE);
    }
}

#[test]
fn scaling_after_identity_matches_direct_scaling() {
    let scale = vec![fr(5, 2), fr(-1, 2), fr(3, 1)];
    let factors = [2.5, -0.5, 3.0];
    for (index, args) in [
        (0usize, vec![fr(2, 1)]),
        (1, vec![fr(5, 1), fr(3, 2)]),
        (3, vec![fr(1, 1)]),
        (4, vec![fr(7, 1), fr(1, 2)]),
    ] {
        let direct = generate_geometry(index, scale.clone(), args.clone()).unwrap();
        let unscaled = generate_geometry(index, unit_scale(), args).unwrap();
        let direct_buffer = eval_buffer(&direct);
        let external: Vec<f64> = eval_buffer(&unscaled)
            .iter()
            .enumerate()
            .map(|(k, v)| v * factors[k % 3])
            .collect();
        assert_eq!(direct_buffer.len(), external.len());
        for (a, b) in direct_buffer.iter().zip(external.iter()) {
            assert!((a - b).abs() < TOLERANCE);
        }
    }
}

#[test]
fn identity_scale_shortcut_equals_multiplying_by_one() {
    // A scale of one written as 2/2 takes the multiplying path; written as
    // 1/1 it takes the shortcut. Both must denote the same values.
    let short = generate_geometry(0, unit_scale(), vec![fr(2, 1)]).unwrap();
    let long = generate_geometry(0, vec![fr(2, 2), fr(2, 2), fr(2, 2)], vec![fr(2, 1)]).unwrap();
    let a = eval_buffer(&short);
    let b = eval_buffer(&long);
    assert_eq!(a.len(), b.len());
    for (x, y) in a.iter().zip(b.iter()) {
        assert!((x - y).abs() < TOLERANCE);
    }
}

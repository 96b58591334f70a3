use fractal::escape::bind;
use fractal::escape::compute_iterations;
use fractal::escape::Mode;

type Point = (f64, f64);

fn next(z: &Point, c: &Point) -> Point {
    (z.0 * z.0 - z.1 * z.1 + c.0, 2.0 * z.0 * z.1 + c.1)
}

fn modulus_squared(z: &Point) -> f64 {
    z.0 * z.0 + z.1 * z.1
}

fn outside(z: &Point) -> bool {
    !(modulus_squared(z) < 4.0)
}

fn smooth(iterations: usize, end: &Point) -> f64 {
    let modulus = modulus_squared(end).sqrt();
    iterations as f64 - 1.0_f64.max(modulus.log2()).log2()
}

fn evaluate(z0: Point, constant: Point, max_iteration: usize) -> f64 {
    let (iterations, end) = compute_iterations(z0, &constant, max_iteration, next, outside);
    smooth(iterations, &end)
}

#[test]
fn start_outside_takes_no_step() {
    let starts = [(3.0, 3.0), (2.0, 0.0), (0.0, -2.0), (-5.0, 1.0), (1.5, 1.5)];
    let constants = [(0.0, 0.0), (-0.7269, 0.1889), (1.0, 1.0), (-2.0, 0.5)];
    for z0 in starts {
        for c in constants {
            let (iterations, end) = compute_iterations(z0, &c, 500, next, outside);
            assert_eq!(iterations, 0);
            assert_eq!(end, z0);
            assert!(evaluate(z0, c, 500) <= 1.0);
        }
    }
}

#[test]
fn escape_at_three_three_is_slightly_negative() {
    let value = evaluate((3.0, 3.0), (0.0, 0.0), 500);
    let expected = -(18.0_f64.sqrt().log2().log2());
    assert_eq!(value, expected);
    assert!(value < 0.0);
    assert!(value > -1.1);
    assert!((value + 1.0600214361830649).abs() < 1e-12);
}

#[test]
fn escape_on_the_radius_has_no_correction() {
    let (iterations, end) = compute_iterations((2.0, 0.0), &(0.0, 0.0), 10, next, outside);
    assert_eq!(iterations, 0);
    assert_eq!(end, (2.0, 0.0));
    assert_eq!(smooth(iterations, &end), 0.0);
}

#[test]
fn origin_with_zero_constant_never_escapes() {
    for max_iteration in [1usize, 2, 7, 50, 500, 4096] {
        let (iterations, end) =
            compute_iterations((0.0, 0.0), &(0.0, 0.0), max_iteration, next, outside);
        assert_eq!(iterations, max_iteration);
        assert_eq!(end, (0.0, 0.0));
        assert_eq!(evaluate((0.0, 0.0), (0.0, 0.0), max_iteration), max_iteration as f64);
    }
}

#[test]
fn zero_limit_takes_no_step() {
    let (iterations, end) = compute_iterations((0.25, 0.5), &(0.1, 0.1), 0, next, outside);
    assert_eq!(iterations, 0);
    assert_eq!(end, (0.25, 0.5));
}

#[test]
fn orbit_of_one_escapes_after_two_steps() {
    let (iterations, end) = compute_iterations((0.0, 0.0), &(1.0, 0.0), 500, next, outside);
    assert_eq!(iterations, 2);
    assert_eq!(end, (2.0, 0.0));
    assert_eq!(smooth(iterations, &end), 2.0);
}

#[test]
fn orbit_is_cut_at_the_limit() {
    let (iterations, end) = compute_iterations((0.0, 0.0), &(1.0, 0.0), 1, next, outside);
    assert_eq!(iterations, 1);
    assert_eq!(end, (1.0, 0.0));
}

#[test]
fn steps_follow_the_square_plus_constant() {
    let (iterations, end) = compute_iterations((1.0, 1.0), &(0.5, -0.25), 1, next, outside);
    assert_eq!(iterations, 1);
    assert_eq!(end, (0.5, 1.75));
}

#[test]
fn count_grows_with_the_limit() {
    let points = [(0.0, 0.0), (0.3, 0.5), (-0.75, 0.1), (0.26, 0.0), (1.0, 1.0), (-1.2, 0.3)];
    let constant = (-0.7269, 0.1889);
    let limits = [0usize, 1, 2, 3, 5, 8, 13, 50, 200, 500];
    for z0 in points {
        for (at, smaller) in limits.iter().enumerate() {
            let (under_smaller, _) = compute_iterations(z0, &constant, *smaller, next, outside);
            assert!(under_smaller <= *smaller);
            for larger in &limits[at..] {
                let (under_larger, _) = compute_iterations(z0, &constant, *larger, next, outside);
                assert!(under_smaller <= under_larger);
                if under_smaller < *smaller {
                    assert_eq!(under_larger, under_smaller);
                }
            }
        }
    }
}

#[test]
fn value_of_an_inside_point_grows_with_the_limit() {
    let mut last = 0.0;
    for max_iteration in [1usize, 2, 3, 10, 100, 500] {
        let value = evaluate((0.1, 0.1), (0.0, 0.0), max_iteration);
        assert_eq!(value, max_iteration as f64);
        assert!(value > last);
        last = value;
    }
}

#[test]
fn count_is_settled_once_escaped() {
    let constant = (-0.7269, 0.1889);
    let (under_ten, end_ten) = compute_iterations((1.0, 1.0), &constant, 10, next, outside);
    let (under_many, end_many) = compute_iterations((1.0, 1.0), &constant, 500, next, outside);
    assert!(under_ten < 10);
    assert_eq!(under_ten, under_many);
    assert_eq!(end_ten, end_many);
}

#[test]
fn walk_works_on_whole_numbers() {
    let double = |z: &u32, c: &u32| 2 * *z + *c;
    let large = |z: &u32| *z >= 100;
    let (iterations, end) = compute_iterations(1u32, &1u32, 50, double, large);
    assert_eq!(iterations, 6);
    assert_eq!(end, 127);
}

#[test]
fn julia_starts_at_the_point() {
    let (z0, constant) = bind(Mode::Julia, (0.5, -0.5), (-0.7269, 0.1889), (0.0, 0.0));
    assert_eq!(z0, (0.5, -0.5));
    assert_eq!(constant, (-0.7269, 0.1889));
}

#[test]
fn mandelbrot_starts_at_the_origin() {
    let (z0, constant) = bind(Mode::Mandelbrot, (0.5, -0.5), (-0.7269, 0.1889), (0.0, 0.0));
    assert_eq!(z0, (0.0, 0.0));
    assert_eq!(constant, (0.5, -0.5));
}

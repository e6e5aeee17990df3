use lib_simulation::animal::Animal;
use lib_simulation::brain::Brain;
use lib_simulation::eye::Eye;
use lib_simulation::fixed::UNIT;
use lib_simulation::food::Food;
use lib_simulation::geometry::Point;
use lib_simulation::random::random_point;
use lib_simulation::random::random_rotation;
use nalgebra::Point2;
use nalgebra::Rotation2;
use nalgebra::Vector2;
use rand::rngs::StdRng;
use rand::SeedableRng;
use std::f32::consts::PI;

fn float_of(value: i64) -> f32 {
    (value as f64 / UNIT as f64) as f32
}

fn fixed_of(value: f32) -> i64 {
    (f64::from(value) * UNIT as f64).round() as i64
}

fn float_point(point: Point) -> Point2<f32> {
    Point2::new(float_of(point.x), float_of(point.y))
}

fn bearing_of(from: Point, to: Point) -> i64 {
    let vec = float_point(to) - float_point(from);
    fixed_of(Rotation2::rotation_between(&Vector2::y(), &vec).angle())
}

fn heading_of(rotation: i64) -> Point {
    let forward = Rotation2::new(float_of(rotation)) * Vector2::new(0.0, 1.0);
    Point::new(fixed_of(forward.x), fixed_of(forward.y))
}

/// Where a food item falls for an eye that computes in floating point:
/// its cell and its energy, or nothing if it is not seen; and whether it
/// lies so near an edge that rounding may decide.
fn sighting(
    fov_range: f32,
    fov_angle: f32,
    cells: usize,
    position: Point2<f32>,
    rotation: Rotation2<f32>,
    food: Point2<f32>,
) -> (Option<(usize, f32)>, bool) {
    let vec = food - position;
    let dist = vec.norm();
    let angle = Rotation2::rotation_between(&Vector2::y(), &vec).angle() - rotation.angle();
    let angle = nalgebra::wrap(angle, -PI, PI);
    let place = (angle + fov_angle / 2.0) / fov_angle * (cells as f32);
    let doubtful = (dist - fov_range).abs() < 1e-4
        || (place - place.round()).abs() < 1e-3
        || (angle.abs() - PI).abs() < 1e-4;
    if dist >= fov_range || angle < -fov_angle / 2.0 || angle > fov_angle / 2.0 {
        return (None, doubtful);
    }
    let cell = (place as usize).min(cells - 1);
    (Some((cell, (fov_range - dist) / fov_range)), doubtful)
}

#[test]
fn the_bearing_of_what_lies_ahead_is_nothing() {
    let from = Point::new(500_000, 500_000);
    assert_eq!(bearing_of(from, Point::new(500_000, 600_000)), 0);
    assert_eq!(bearing_of(from, from), 0);
}

#[test]
fn a_bearing_is_measured_like_a_heading() {
    let from = Point::new(500_000, 500_000);
    for rotation in [-3_000_000, -1_570_796, -500_000, 0, 250_000, 1_570_796, 3_141_592] {
        let forward = heading_of(rotation);
        let ahead = Point::new(from.x + forward.x / 10, from.y + forward.y / 10);
        let difference = bearing_of(from, ahead) - rotation;
        assert!(difference.abs() < 50, "rotation {rotation}: off by {difference}");
    }
}

#[test]
fn the_eye_sees_what_an_eye_in_floating_point_sees() {
    let mut rng = StdRng::seed_from_u64(17);
    let eye = Eye::default();
    let mut compared = 0;
    for _ in 0..300 {
        let position = random_point(&mut rng);
        let rotation = random_rotation(&mut rng);
        let mut foods = Vec::new();
        let mut bearings = Vec::new();
        let mut expected = vec![0.0_f32; eye.cells()];
        for _ in 0..60 {
            let place = random_point(&mut rng);
            let (seen, doubtful) = sighting(
                float_of(eye.fov_range()),
                float_of(eye.fov_angle()),
                eye.cells(),
                float_point(position),
                Rotation2::new(float_of(rotation)),
                float_point(place),
            );
            if doubtful {
                continue;
            }
            if let Some((cell, energy)) = seen {
                expected[cell] += energy;
                compared += 1;
            }
            bearings.push(bearing_of(position, place));
            foods.push(Food::new(place));
        }
        let cells = eye.process_vision(position, rotation, &foods, &bearings);
        assert_eq!(cells.len(), expected.len());
        for (cell, energy) in cells.into_iter().zip(expected) {
            assert!((float_of(cell) - energy).abs() < 1e-3, "{} against {energy}", float_of(cell));
        }
    }
    assert!(compared > 1_000);
}

#[test]
fn an_animal_moves_as_a_point_moved_in_floating_point() {
    let mut rng = StdRng::seed_from_u64(23);
    for _ in 0..500 {
        let position = random_point(&mut rng);
        let rotation = random_rotation(&mut rng);
        let eye = Eye::default();
        let brain = Brain::from_chromosome(Vec::new(), &eye);
        let mut animal = Animal::born(eye, brain, position, rotation);
        animal.steer(&[fixed_of(0.0015), 0]);
        animal.advance(heading_of(animal.rotation()));

        let mut expected = float_point(position);
        expected += Rotation2::new(float_of(rotation)) * Vector2::new(0.0, float_of(animal.speed()));
        let moved = float_point(animal.position());
        for (got, wanted) in [(moved.x, expected.x), (moved.y, expected.y)] {
            let apart = (got - wanted).abs();
            assert!(apart < 1e-5 || (apart - 1.0).abs() < 1e-5, "{got} against {wanted}");
        }
    }
}

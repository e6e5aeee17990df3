use lib_simulation::animal::Animal;
use lib_simulation::animal::REACH;
use lib_simulation::animal::ROTATION_ACCEL;
use lib_simulation::animal::SPEED_ACCEL;
use lib_simulation::animal::SPEED_MAX;
use lib_simulation::animal::SPEED_MIN;
use lib_simulation::animal::SPEED_START;
use lib_simulation::brain::Brain;
use lib_simulation::brain::LayerTopology;
use lib_simulation::eye::Eye;
use lib_simulation::fixed::FRAC_PI_2;
use lib_simulation::fixed::PI;
use lib_simulation::fixed::UNIT;
use lib_simulation::food::Food;
use lib_simulation::geometry::Point;
use rand::rngs::StdRng;
use rand::SeedableRng;

fn newborn(x: i64, y: i64, rotation: i64) -> Animal {
    let eye = Eye::default();
    let brain = Brain::from_chromosome(vec![1, 2, 3], &eye);
    Animal::born(eye, brain, Point::new(x, y), rotation)
}

#[test]
fn the_limits_of_speed_and_turning() {
    assert_eq!(SPEED_MIN, UNIT / 1000);
    assert_eq!(SPEED_MAX, 5 * UNIT / 1000);
    assert_eq!(SPEED_START, 2 * UNIT / 1000);
    assert_eq!(SPEED_ACCEL, UNIT / 5);
    assert_eq!(ROTATION_ACCEL, FRAC_PI_2);
    assert_eq!(REACH, UNIT / 100);
}

#[test]
fn a_newborn_animal() {
    let animal = newborn(10, 20, 30);
    assert_eq!(animal.position(), Point::new(10, 20));
    assert_eq!(animal.rotation(), 30);
    assert_eq!(animal.speed(), SPEED_START);
    assert_eq!(animal.satiation(), 0);
    assert_eq!(animal.eye().cells(), 9);
    assert_eq!(animal.as_chromosome(), vec![1, 2, 3]);
    assert_eq!(animal.brain().as_chromosome(), vec![1, 2, 3]);
}

#[test]
fn the_layers_of_a_brain_follow_from_the_eye() {
    let eye = Eye::default();
    let layers = Brain::topology(&eye);
    assert_eq!(
        layers,
        [LayerTopology { neurons: 9 }, LayerTopology { neurons: 18 }, LayerTopology { neurons: 2 }]
    );
    let wide = Eye::new(1, 1, 100);
    assert_eq!(
        Brain::topology(&wide),
        [LayerTopology { neurons: 100 }, LayerTopology { neurons: 200 }, LayerTopology { neurons: 2 }]
    );
}

#[test]
fn brains_behind_one_eye_have_the_same_layers() {
    let eye = Eye::default();
    let first = Brain::from_chromosome(vec![1], &eye);
    let second = Brain::from_chromosome(vec![2, 3], &eye);
    assert_eq!(first.layers(), second.layers());
    assert_eq!(first.layers(), Brain::topology(&eye));
    assert_eq!(first.as_chromosome(), vec![1]);
    assert_eq!(second.as_chromosome(), vec![2, 3]);
}

#[test]
fn an_animal_born_at_random_stands_in_the_world() {
    let mut rng = StdRng::seed_from_u64(5);
    for _ in 0..200 {
        let eye = Eye::default();
        let brain = Brain::from_chromosome(vec![7], &eye);
        let animal = Animal::new(eye, brain, &mut rng);
        let p = animal.position();
        assert!(0 <= p.x && p.x < UNIT && 0 <= p.y && p.y < UNIT);
        assert!(-PI < animal.rotation() && animal.rotation() <= PI);
        assert_eq!(animal.speed(), SPEED_START);
        assert_eq!(animal.satiation(), 0);
        assert_eq!(animal.as_chromosome(), vec![7]);
    }
}

#[test]
fn a_random_animal_has_the_default_eye_and_the_given_brain() {
    let mut rng = StdRng::seed_from_u64(5);
    let brain = Brain::from_chromosome(vec![4, 5], &Eye::default());
    let animal = Animal::random(&mut rng, brain);
    assert_eq!(animal.eye().cells(), 9);
    assert_eq!(animal.eye().fov_range(), 250_000);
    assert_eq!(animal.eye().fov_angle(), 3_926_990);
    assert_eq!(animal.as_chromosome(), vec![4, 5]);
    assert_eq!(animal.speed(), SPEED_START);
    assert_eq!(animal.satiation(), 0);
}

#[test]
fn an_animal_from_a_chromosome_has_that_chromosome() {
    let mut rng = StdRng::seed_from_u64(5);
    let animal = Animal::from_chromosome(vec![9, 8, 7], &mut rng);
    assert_eq!(animal.as_chromosome(), vec![9, 8, 7]);
    assert_eq!(animal.eye().cells(), 9);
    assert_eq!(animal.brain().layers(), Brain::topology(&Eye::default()));
    assert_eq!(animal.satiation(), 0);
}

#[test]
fn an_animal_reaches_what_is_no_farther_than_its_reach() {
    let animal = newborn(500_000, 500_000, 0);
    assert!(animal.reaches(&Food::new(Point::new(500_000, 500_000))));
    assert!(animal.reaches(&Food::new(Point::new(500_000, 510_000))));
    assert!(animal.reaches(&Food::new(Point::new(490_000, 500_000))));
    assert!(animal.reaches(&Food::new(Point::new(506_000, 508_000))));
    assert!(!animal.reaches(&Food::new(Point::new(500_000, 510_001))));
    assert!(!animal.reaches(&Food::new(Point::new(506_000, 508_001))));
    assert!(!animal.reaches(&Food::new(Point::new(0, 0))));
}

#[test]
fn the_world_does_not_wrap_for_the_reach() {
    let animal = newborn(0, 0, 0);
    assert!(!animal.reaches(&Food::new(Point::new(999_999, 0))));
    assert!(!animal.reaches(&Food::new(Point::new(0, 999_999))));
}

#[test]
fn feeding_counts_one() {
    let mut animal = newborn(1, 2, 3);
    animal.feed();
    assert_eq!(animal.satiation(), 1);
    animal.feed();
    animal.feed();
    assert_eq!(animal.satiation(), 3);
    assert_eq!(animal.position(), Point::new(1, 2));
    assert_eq!(animal.rotation(), 3);
    assert_eq!(animal.speed(), SPEED_START);
}

#[test]
fn an_answer_of_nothing_changes_nothing() {
    let mut animal = newborn(1, 2, 3);
    animal.steer(&[0, 0]);
    assert_eq!(animal.speed(), SPEED_START);
    assert_eq!(animal.rotation(), 3);
    assert_eq!(animal.position(), Point::new(1, 2));
}

#[test]
fn steering_is_relative() {
    let mut animal = newborn(1, 2, 1000);
    animal.steer(&[500, -300]);
    assert_eq!(animal.speed(), 2_500);
    assert_eq!(animal.rotation(), 700);
    animal.steer(&[-1_000, 300]);
    assert_eq!(animal.speed(), 1_500);
    assert_eq!(animal.rotation(), 1_000);
}

#[test]
fn the_speed_stays_within_its_limits() {
    let mut animal = newborn(1, 2, 0);
    for delta in [i64::MAX, SPEED_ACCEL, 3_001, 3_000] {
        animal.steer(&[delta, 0]);
        assert_eq!(animal.speed(), SPEED_MAX);
    }
    for delta in [i64::MIN, -SPEED_ACCEL, -4_001, -4_000] {
        animal.steer(&[delta, 0]);
        assert_eq!(animal.speed(), SPEED_MIN);
        animal.steer(&[4_000, 0]);
        assert_eq!(animal.speed(), SPEED_MAX);
    }
    animal.steer(&[-3_999, 0]);
    assert_eq!(animal.speed(), SPEED_MIN + 1);
}

#[test]
fn the_turn_is_limited_to_a_quarter_turn() {
    let mut animal = newborn(1, 2, 0);
    animal.steer(&[0, i64::MAX]);
    assert_eq!(animal.rotation(), FRAC_PI_2);
    animal.steer(&[0, FRAC_PI_2 + 1]);
    assert_eq!(animal.rotation(), PI);
    animal.steer(&[0, i64::MIN]);
    assert_eq!(animal.rotation(), FRAC_PI_2);
    animal.steer(&[0, -FRAC_PI_2]);
    assert_eq!(animal.rotation(), 0);
}

#[test]
fn the_heading_wraps_round() {
    let mut animal = newborn(1, 2, PI);
    animal.steer(&[0, 1]);
    assert_eq!(animal.rotation(), -PI + 1);
    animal.steer(&[0, -1]);
    assert_eq!(animal.rotation(), PI);
    let mut other = newborn(1, 2, -PI + 1);
    other.steer(&[0, -FRAC_PI_2]);
    assert_eq!(other.rotation(), FRAC_PI_2 + 1);
}

#[test]
fn what_follows_the_two_answers_is_not_read() {
    let mut animal = newborn(1, 2, 0);
    animal.steer(&[100, 200, 300, 400]);
    assert_eq!(animal.speed(), 2_100);
    assert_eq!(animal.rotation(), 200);
}

#[test]
fn an_animal_moves_by_its_speed_along_its_heading() {
    let mut animal = newborn(500_000, 500_000, 0);
    animal.advance(Point::new(0, UNIT));
    assert_eq!(animal.position(), Point::new(500_000, 502_000));
    animal.advance(Point::new(-UNIT, 0));
    assert_eq!(animal.position(), Point::new(498_000, 502_000));
    animal.advance(Point::new(600_000, -800_000));
    assert_eq!(animal.position(), Point::new(499_200, 500_400));
    assert_eq!(animal.rotation(), 0);
    assert_eq!(animal.speed(), SPEED_START);
}

#[test]
fn a_move_is_rounded_down() {
    let mut animal = newborn(500_000, 500_000, 0);
    animal.advance(Point::new(1, -1));
    assert_eq!(animal.position(), Point::new(500_000, 499_999));
    animal.advance(Point::new(499, -499));
    assert_eq!(animal.position(), Point::new(500_000, 499_998));
    animal.advance(Point::new(500, -500));
    assert_eq!(animal.position(), Point::new(500_001, 499_997));
}

#[test]
fn the_world_wraps_round_at_its_edges() {
    let mut top = newborn(500_000, 999_000, 0);
    top.advance(Point::new(0, UNIT));
    assert_eq!(top.position(), Point::new(500_000, 1_000));
    let mut edge = newborn(500_000, 998_000, 0);
    edge.advance(Point::new(0, UNIT));
    assert_eq!(edge.position(), Point::new(500_000, 0));
    let mut bottom = newborn(1_000, 0, 0);
    bottom.advance(Point::new(-UNIT, -UNIT));
    assert_eq!(bottom.position(), Point::new(999_000, 998_000));
}

#[test]
fn a_move_bears_any_heading() {
    let mut animal = newborn(500_000, 500_000, 0);
    animal.advance(Point::new(i64::MAX, i64::MIN));
    let p = animal.position();
    assert!(0 <= p.x && p.x < UNIT && 0 <= p.y && p.y < UNIT);
    assert_eq!(p, Point::new(209_551, 790_448));
}

#[test]
fn an_animal_sees_with_its_eye_from_where_it_stands() {
    let animal = newborn(500_000, 500_000, FRAC_PI_2);
    let foods = vec![Food::new(Point::new(400_000, 500_000))];
    let vision = animal.see(&foods, &[FRAC_PI_2]);
    let same = animal.eye().process_vision(animal.position(), animal.rotation(), &foods, &[FRAC_PI_2]);
    assert_eq!(vision, same);
    assert_eq!(vision, vec![0, 0, 0, 0, 600_000, 0, 0, 0, 0]);
}

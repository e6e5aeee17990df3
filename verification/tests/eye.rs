use lib_simulation::eye::Eye;
use lib_simulation::eye::CELLS;
use lib_simulation::eye::FOV_ANGLE;
use lib_simulation::eye::FOV_RANGE;
use lib_simulation::fixed::FRAC_PI_2;
use lib_simulation::fixed::PI;
use lib_simulation::fixed::TAU;
use lib_simulation::fixed::UNIT;
use lib_simulation::food::Food;
use lib_simulation::geometry::Point;

const HALF_FOV: i64 = FOV_ANGLE / 2;

fn centre() -> Point {
    Point::new(500_000, 500_000)
}

fn food_at(x: i64, y: i64) -> Food {
    Food::new(Point::new(x, y))
}

fn only_cell(cell: usize, energy: i64) -> Vec<i64> {
    let mut cells = vec![0; CELLS];
    cells[cell] = energy;
    cells
}

#[test]
fn the_default_eye() {
    let eye = Eye::default();
    assert_eq!(eye.fov_range(), 250_000);
    assert_eq!(eye.fov_angle(), 3_926_990);
    assert_eq!(eye.cells(), 9);
    assert_eq!(FOV_RANGE, UNIT / 4);
    assert_eq!(FOV_ANGLE, PI + PI / 4);
    assert_eq!(HALF_FOV * 2, FOV_ANGLE);
}

#[test]
fn an_eye_is_what_it_was_made_of() {
    let eye = Eye::new(7, 11, 13);
    assert_eq!(eye.fov_range(), 7);
    assert_eq!(eye.fov_angle(), 11);
    assert_eq!(eye.cells(), 13);
}

#[test]
fn no_food_gives_an_empty_vision() {
    let eye = Eye::default();
    let cells = eye.process_vision(centre(), 0, &[], &[]);
    assert_eq!(cells, vec![0; 9]);
}

#[test]
fn vision_has_one_entry_for_each_cell() {
    let foods = vec![food_at(500_000, 510_000), food_at(400_000, 500_000)];
    let bearings = vec![0, FRAC_PI_2];
    for cells in 1..20 {
        let eye = Eye::new(FOV_RANGE, FOV_ANGLE, cells);
        let vision = eye.process_vision(centre(), 0, &foods, &bearings);
        assert_eq!(vision.len(), cells);
        assert!(vision.iter().all(|&energy| energy >= 0));
    }
}

#[test]
fn food_straight_ahead_falls_in_the_middle_cell() {
    let eye = Eye::default();
    let foods = vec![food_at(500_000, 600_000)];
    let cells = eye.process_vision(centre(), 0, &foods, &[0]);
    assert_eq!(cells, only_cell(4, 600_000));
}

#[test]
fn food_straight_ahead_of_a_turned_animal_falls_in_the_middle_cell() {
    let eye = Eye::default();
    let foods = vec![food_at(400_000, 500_000)];
    let cells = eye.process_vision(centre(), FRAC_PI_2, &foods, &[FRAC_PI_2]);
    assert_eq!(cells, only_cell(4, 600_000));
}

#[test]
fn the_middle_cell_is_half_the_number_of_cells() {
    let foods = vec![food_at(500_000, 600_000)];
    for cells in 1..12 {
        let eye = Eye::new(FOV_RANGE, FOV_ANGLE, cells);
        let vision = eye.process_vision(centre(), 0, &foods, &[0]);
        for (cell, &energy) in vision.iter().enumerate() {
            if cell == cells / 2 {
                assert_eq!(energy, 600_000);
            } else {
                assert_eq!(energy, 0);
            }
        }
    }
}

#[test]
fn food_at_the_reach_is_not_seen() {
    let eye = Eye::default();
    let foods = vec![food_at(500_000, 750_000)];
    let cells = eye.process_vision(centre(), 0, &foods, &[0]);
    assert_eq!(cells, vec![0; 9]);
}

#[test]
fn food_just_within_the_reach_is_seen_faintly() {
    let eye = Eye::default();
    let foods = vec![food_at(500_000, 749_999)];
    let cells = eye.process_vision(centre(), 0, &foods, &[0]);
    assert_eq!(cells, only_cell(4, 4));
}

#[test]
fn food_beyond_the_reach_is_not_seen() {
    let eye = Eye::default();
    let foods = vec![food_at(0, 0), food_at(999_999, 999_999), food_at(500_000, 750_001)];
    let cells = eye.process_vision(centre(), 0, &foods, &[0, 0, 0]);
    assert_eq!(cells, vec![0; 9]);
}

#[test]
fn food_at_hand_has_the_energy_of_one() {
    let eye = Eye::default();
    let foods = vec![food_at(500_000, 500_000)];
    let cells = eye.process_vision(centre(), 0, &foods, &[0]);
    assert_eq!(cells, only_cell(4, UNIT));
    assert_eq!(cells.iter().filter(|&&energy| energy != 0).count(), 1);
}

#[test]
fn food_at_hand_behind_the_animal_is_not_seen() {
    let eye = Eye::default();
    let foods = vec![food_at(500_000, 500_000)];
    let cells = eye.process_vision(centre(), PI, &foods, &[0]);
    assert_eq!(cells, vec![0; 9]);
}

#[test]
fn energy_falls_linearly_with_the_distance() {
    let eye = Eye::default();
    for (distance, energy) in [(1, 999_996), (50_000, 800_000), (125_000, 500_000), (200_000, 200_000)] {
        let foods = vec![food_at(500_000, 500_000 + distance)];
        let cells = eye.process_vision(centre(), 0, &foods, &[0]);
        assert_eq!(cells, only_cell(4, energy));
    }
}

#[test]
fn the_edges_of_the_field_of_view_are_seen() {
    let eye = Eye::default();
    let foods = vec![food_at(500_000, 600_000)];
    let right = eye.process_vision(centre(), 0, &foods, &[HALF_FOV]);
    assert_eq!(right, only_cell(8, 600_000));
    let left = eye.process_vision(centre(), 0, &foods, &[-HALF_FOV]);
    assert_eq!(left, only_cell(0, 600_000));
}

#[test]
fn what_lies_past_the_edges_is_not_seen() {
    let eye = Eye::default();
    let foods = vec![food_at(500_000, 600_000)];
    for bearing in [HALF_FOV + 1, -HALF_FOV - 1, PI, -PI, PI - 1, -PI + 1] {
        let cells = eye.process_vision(centre(), 0, &foods, &[bearing]);
        assert_eq!(cells, vec![0; 9]);
    }
}

#[test]
fn each_sector_has_its_cell() {
    let eye = Eye::default();
    let foods = vec![food_at(500_000, 600_000)];
    let sightings = [
        (-1_500_000, 1),
        (-1_000_000, 2),
        (-500_000, 3),
        (-218_167, 3),
        (-218_166, 4),
        (-100_000, 4),
        (100_000, 4),
        (218_166, 4),
        (218_167, 5),
        (500_000, 5),
        (654_498, 5),
        (654_499, 6),
        (1_000_000, 6),
        (1_500_000, 7),
    ];
    for (bearing, cell) in sightings {
        let cells = eye.process_vision(centre(), 0, &foods, &[bearing]);
        assert_eq!(cells, only_cell(cell, 600_000));
    }
}

#[test]
fn only_the_angle_off_the_heading_counts() {
    let eye = Eye::default();
    let foods = vec![food_at(500_000, 600_000)];
    let plain = eye.process_vision(centre(), 0, &foods, &[500_000]);
    let turned = eye.process_vision(centre(), 1_000_000, &foods, &[1_500_000]);
    let round = eye.process_vision(centre(), -PI + 1, &foods, &[500_001 - PI + 3 * TAU]);
    assert_eq!(plain, only_cell(5, 600_000));
    assert_eq!(turned, plain);
    assert_eq!(round, plain);
}

#[test]
fn the_angle_is_wrapped_before_it_is_judged() {
    let eye = Eye::default();
    let foods = vec![food_at(500_000, 600_000)];
    let cells = eye.process_vision(centre(), PI, &foods, &[-PI + 1]);
    assert_eq!(cells, only_cell(4, 600_000));
    let extreme = eye.process_vision(centre(), PI, &foods, &[i64::MIN]);
    assert_eq!(extreme.len(), 9);
}

#[test]
fn energies_in_one_cell_add_up() {
    let eye = Eye::default();
    let foods = vec![
        food_at(500_000, 600_000),
        food_at(500_000, 550_000),
        food_at(500_000, 500_000),
        food_at(500_000, 500_000),
    ];
    let cells = eye.process_vision(centre(), 0, &foods, &[0, 100_000, -100_000, 500_000]);
    let mut expected = vec![0; 9];
    expected[4] = 600_000 + 800_000 + 1_000_000;
    expected[5] = 1_000_000;
    assert_eq!(cells, expected);
}

#[test]
fn a_narrow_eye_of_one_cell() {
    let eye = Eye::new(100_000, 2, 1);
    let foods = vec![food_at(500_000, 550_000)];
    assert_eq!(eye.process_vision(centre(), 0, &foods, &[0]), vec![500_000]);
    assert_eq!(eye.process_vision(centre(), 0, &foods, &[1]), vec![500_000]);
    assert_eq!(eye.process_vision(centre(), 0, &foods, &[-1]), vec![500_000]);
    assert_eq!(eye.process_vision(centre(), 0, &foods, &[2]), vec![0]);
}

#[test]
fn an_eye_that_sees_all_round() {
    let eye = Eye::new(100_000, TAU, 4);
    let foods = vec![food_at(500_000, 550_000)];
    let sightings = [(PI, 3), (-PI + 1, 0), (-1, 1), (0, 2), (PI / 2, 3), (-PI / 2, 1)];
    for (bearing, cell) in sightings {
        let cells = eye.process_vision(centre(), 0, &foods, &[bearing]);
        let mut expected = vec![0; 4];
        expected[cell] = 500_000;
        assert_eq!(cells, expected);
    }
}

#[test]
fn an_eye_that_sees_farther_than_the_world_is_wide() {
    let eye = Eye::new(i64::MAX, i64::MAX, 3);
    let foods = vec![food_at(999_999, 999_999)];
    let cells = eye.process_vision(Point::new(0, 0), 0, &foods, &[0]);
    assert_eq!(cells, vec![0, 999_999, 0]);
}

//! The eye: a radial sensor that turns the food around an animal into a
//! histogram of energies, one cell per angular sector of the field of view.

use vstd::prelude::*;
use crate::fixed::angle_difference;
use crate::fixed::wrap_angle_spec;
use crate::fixed::FRAC_PI_4;
use crate::fixed::PI;
use crate::fixed::UNIT;
use crate::food::places_of;
use crate::food::Food;
use crate::geometry::Point;

verus! {

/// How far the default eye sees: a quarter of the world's side.
pub const FOV_RANGE: i64 = 250_000;

/// How wide the default eye sees: five eighths of a turn.
pub const FOV_ANGLE: i64 = PI + FRAC_PI_4;

/// The number of cells of the default eye.
pub const CELLS: usize = 9;

/// An eye: how far it sees, how wide, and in how many cells. It does not
/// change once made.
pub struct Eye {
    fov_range: i64,
    fov_angle: i64,
    cells: usize,
}

/// What an eye is: its reach, the width of its field of view, and the number
/// of cells that the field is divided into.
pub struct EyeView {
    pub fov_range: int,
    pub fov_angle: int,
    pub cells: nat,
}

impl View for Eye {
    type V = EyeView;

    closed spec fn view(&self) -> EyeView {
        EyeView {
            fov_range: self.fov_range as int,
            fov_angle: self.fov_angle as int,
            cells: self.cells as nat,
        }
    }
}

impl EyeView {
    /// The eye that every animal of the simulation is born with.
    pub open spec fn standard() -> Self {
        EyeView { fov_range: FOV_RANGE as int, fov_angle: FOV_ANGLE as int, cells: CELLS as nat }
    }

    /// All three measures are positive.
    pub open spec fn wf(self) -> bool {
        self.fov_range > 0 && self.fov_angle > 0 && self.cells > 0
    }

    /// A food item at distance `dist`, seen at `angle` off the animal's
    /// heading, is within reach and within the field of view. The reach is
    /// exclusive, the edges of the field are inclusive.
    pub open spec fn sees(self, dist: int, angle: int) -> bool {
        dist < self.fov_range && -self.fov_angle <= 2 * angle <= self.fov_angle
    }

    /// The cell that an angle off the heading falls into: the field of view
    /// is cut into `cells` equal sectors, counted from the edge of the least
    /// angle, and the edge of the greatest angle belongs to the last one.
    pub open spec fn cell_of(self, angle: int) -> int {
        let sector = ((2 * angle + self.fov_angle) * self.cells) / (2 * self.fov_angle);
        if sector >= self.cells {
            self.cells - 1
        } else {
            sector
        }
    }

    /// The energy of a food item at distance `dist`: one at distance zero,
    /// falling linearly to nothing at the eye's reach.
    pub open spec fn energy_at(self, dist: int) -> int {
        ((self.fov_range - dist) * UNIT) / self.fov_range
    }

    /// What one food item adds to one cell, for an animal at `position`
    /// heading towards `rotation`, when the item lies in the direction
    /// `bearing`.
    pub open spec fn contribution(
        self,
        position: Point,
        rotation: int,
        food: Point,
        bearing: int,
        cell: int,
    ) -> int {
        let dist = position.distance_spec(food);
        let angle = wrap_angle_spec(bearing - rotation);
        if self.sees(dist, angle) && self.cell_of(angle) == cell {
            self.energy_at(dist)
        } else {
            0
        }
    }

    /// What the first `n` food items add to one cell: `foods` holds their
    /// places and `bearings` the directions in which they lie.
    pub open spec fn cell_energy(
        self,
        position: Point,
        rotation: int,
        foods: Seq<Point>,
        bearings: Seq<i64>,
        cell: int,
        n: nat,
    ) -> int
        decreases n,
    {
        if n == 0 {
            0
        } else {
            self.cell_energy(position, rotation, foods, bearings, cell, (n - 1) as nat)
                + self.contribution(
                position,
                rotation,
                foods[n - 1],
                bearings[n - 1] as int,
                cell,
            )
        }
    }
}

/// The energy of a visible food item lies between nothing and one.
pub proof fn lemma_energy_bounds(eye: EyeView, dist: int)
    requires
        eye.wf(),
        0 <= dist < eye.fov_range,
    ensures
        0 <= eye.energy_at(dist) <= UNIT,
{
    let r = eye.fov_range;
    let n = (r - dist) * UNIT;
    assert(0 <= n <= r * UNIT) by (nonlinear_arith)
        requires
            n == (r - dist) * UNIT,
            0 <= dist < r,
            UNIT == 1_000_000,
    ;
    vstd::arithmetic::div_mod::lemma_div_pos_is_pos(n, r);
    vstd::arithmetic::div_mod::lemma_div_is_ordered(n, r * UNIT, r);
    vstd::arithmetic::div_mod::lemma_div_multiples_vanish(UNIT as int, r);
    assert(r * UNIT == UNIT * r) by (nonlinear_arith);
}

/// A visible angle falls into one of the eye's cells.
pub proof fn lemma_cell_in_range(eye: EyeView, angle: int)
    requires
        eye.wf(),
        -eye.fov_angle <= 2 * angle <= eye.fov_angle,
    ensures
        0 <= eye.cell_of(angle) < eye.cells,
{
    let n = (2 * angle + eye.fov_angle) * eye.cells;
    assert(0 <= n) by (nonlinear_arith)
        requires
            n == (2 * angle + eye.fov_angle) * eye.cells,
            0 <= 2 * angle + eye.fov_angle,
            eye.cells >= 0,
    ;
    vstd::arithmetic::div_mod::lemma_div_pos_is_pos(n, 2 * eye.fov_angle);
}

/// No cell holds less than nothing, nor more than one per food item.
pub proof fn lemma_cell_energy_bounds(
    eye: EyeView,
    position: Point,
    rotation: int,
    foods: Seq<Point>,
    bearings: Seq<i64>,
    cell: int,
    n: nat,
)
    requires
        eye.wf(),
    ensures
        0 <= eye.cell_energy(position, rotation, foods, bearings, cell, n) <= n * UNIT,
    decreases n,
{
    if n > 0 {
        lemma_cell_energy_bounds(eye, position, rotation, foods, bearings, cell, (n - 1) as nat);
        let dist = position.distance_spec(foods[n - 1]);
        crate::geometry::lemma_distance_not_negative(position, foods[n - 1]);
        if dist < eye.fov_range {
            lemma_energy_bounds(eye, dist);
        }
        assert(n * UNIT == (n - 1) * UNIT + UNIT) by (nonlinear_arith);
    }
}

/// A food item exactly at the eye's reach adds nothing to any cell: the reach
/// is exclusive.
pub proof fn lemma_food_at_reach_is_unseen(
    eye: EyeView,
    position: Point,
    rotation: int,
    food: Point,
    bearing: int,
    cell: int,
)
    requires
        eye.wf(),
        position.distance_squared_spec(food) == eye.fov_range * eye.fov_range,
    ensures
        eye.contribution(position, rotation, food, bearing, cell) == 0,
{
    let r = eye.fov_range;
    assert(r * r < (r + 1) * (r + 1)) by (nonlinear_arith)
        requires
            r > 0,
    ;
    crate::fixed::lemma_sqrt_floor_is(r * r, r);
}

/// A food item at the animal's own place, within the field of view, adds an
/// energy of one to exactly one cell and nothing to the others.
pub proof fn lemma_food_at_hand_is_whole(
    eye: EyeView,
    position: Point,
    rotation: int,
    bearing: int,
    cell: int,
)
    requires
        eye.wf(),
        -eye.fov_angle <= 2 * wrap_angle_spec(bearing - rotation) <= eye.fov_angle,
    ensures
        0 <= eye.cell_of(wrap_angle_spec(bearing - rotation)) < eye.cells,
        eye.contribution(position, rotation, position, bearing, cell) == if cell == eye.cell_of(
            wrap_angle_spec(bearing - rotation),
        ) {
            UNIT as int
        } else {
            0
        },
{
    crate::fixed::lemma_sqrt_floor_is(0, 0);
    assert(position.distance_squared_spec(position) == 0) by (nonlinear_arith)
        requires
            position.distance_squared_spec(position) == (position.x - position.x) * (position.x
                - position.x) + (position.y - position.y) * (position.y - position.y),
    ;
    lemma_cell_in_range(eye, wrap_angle_spec(bearing - rotation));
    vstd::arithmetic::div_mod::lemma_div_multiples_vanish(UNIT as int, eye.fov_range);
    assert((eye.fov_range - 0) * UNIT == UNIT * eye.fov_range) by (nonlinear_arith);
}

/// A food item straight ahead falls into the middle cell, whatever the eye.
pub proof fn lemma_food_ahead_is_in_the_middle(
    eye: EyeView,
    position: Point,
    rotation: int,
    food: Point,
    cell: int,
)
    requires
        eye.wf(),
    ensures
        eye.cell_of(0) == eye.cells / 2,
        eye.contribution(position, rotation, food, rotation, cell) == if position.distance_spec(
            food,
        ) < eye.fov_range && cell == eye.cells / 2 {
            eye.energy_at(position.distance_spec(food))
        } else {
            0
        },
{
    crate::fixed::lemma_wrap_angle_keeps(0);
    let a = eye.fov_angle;
    let c = eye.cells as int;
    let q = c / 2;
    let r = c % 2;
    vstd::arithmetic::div_mod::lemma_fundamental_div_mod(c, 2);
    assert((2 * 0 + a) * c == q * (2 * a) + a * r) by (nonlinear_arith)
        requires
            c == 2 * q + r,
    ;
    assert(0 <= a * r < 2 * a) by (nonlinear_arith)
        requires
            0 <= r < 2,
            a > 0,
    ;
    vstd::arithmetic::div_mod::lemma_fundamental_div_mod_converse(
        (2 * 0 + a) * c,
        2 * a,
        q,
        a * r,
    );
}

impl Eye {
    /// All three measures are positive.
    pub open spec fn wf(&self) -> bool {
        self@.wf()
    }

    /// An eye that sees as far as `fov_range`, as wide as `fov_angle`, in
    /// `cells` sectors.
    pub fn new(fov_range: i64, fov_angle: i64, cells: usize) -> (eye: Eye)
        requires
            fov_range > 0,
            fov_angle > 0,
            cells > 0,
        ensures
            eye@ == (EyeView {
                fov_range: fov_range as int,
                fov_angle: fov_angle as int,
                cells: cells as nat,
            }),
            eye.wf(),
    {
        Eye { fov_range, fov_angle, cells }
    }

    pub fn cells(&self) -> (cells: usize)
        ensures
            cells == self@.cells,
    {
        self.cells
    }

    pub fn fov_range(&self) -> (fov_range: i64)
        ensures
            fov_range == self@.fov_range,
    {
        self.fov_range
    }

    pub fn fov_angle(&self) -> (fov_angle: i64)
        ensures
            fov_angle == self@.fov_angle,
    {
        self.fov_angle
    }

    /// The cell that a visible angle falls into.
    fn cell_of(&self, angle: i64) -> (cell: usize)
        requires
            self.wf(),
            -PI < angle <= PI,
            -self@.fov_angle <= 2 * angle <= self@.fov_angle,
        ensures
            cell == self@.cell_of(angle as int),
            cell < self@.cells,
    {
        let span: u128 = (2 * (angle as i128) + self.fov_angle as i128) as u128;
        let width: u128 = 2 * (self.fov_angle as u128);
        assert(span * self.cells <= 0x1_0000_0000_0000_0000 * 0xffff_ffff_ffff_ffff)
            by (nonlinear_arith)
            requires
                0 <= span <= 0x1_0000_0000_0000_0000,
                0 <= self.cells <= 0xffff_ffff_ffff_ffff,
        ;
        let sector: u128 = (span * (self.cells as u128)) / width;
        proof {
            lemma_cell_in_range(self@, angle as int);
        }
        if sector >= self.cells as u128 {
            self.cells - 1
        } else {
            sector as usize
        }
    }

    /// The energy of a food item within reach.
    fn energy_at(&self, dist: i64) -> (energy: i64)
        requires
            self.wf(),
            0 <= dist < self@.fov_range,
        ensures
            energy == self@.energy_at(dist as int),
            0 <= energy <= UNIT,
    {
        let left: i128 = (self.fov_range - dist) as i128;
        assert(left * UNIT <= 0x7fff_ffff_ffff_ffff * 1_000_000) by (nonlinear_arith)
            requires
                0 <= left <= 0x7fff_ffff_ffff_ffff,
                UNIT == 1_000_000,
        ;
        assert(0 <= left * UNIT) by (nonlinear_arith)
            requires
                0 <= left,
                UNIT == 1_000_000,
        ;
        proof {
            lemma_energy_bounds(self@, dist as int);
        }
        ((left * (UNIT as i128)) / (self.fov_range as i128)) as i64
    }

    /// Looks at `foods` from `position`, heading towards `rotation`, and
    /// returns the energy seen in each cell. `bearings` gives, for each food
    /// item in turn, the direction in which it lies from `position`: the
    /// heading under which an animal there would face it. Angles are not
    /// computed here; the eye takes the bearings as they are given and
    /// wraps what lies outside `(-PI, PI]`.
    ///
    /// A food item counts if it is nearer than the eye's reach and no more
    /// than half the field of view off the heading. It adds to the cell of
    /// its sector an energy that falls linearly with its distance. Energies
    /// that fall into one cell add up. The world does not wrap round for
    /// the eye: distances are those of the plane.
    pub fn process_vision(
        &self,
        position: Point,
        rotation: i64,
        foods: &[Food],
        bearings: &[i64],
    ) -> (cells: Vec<i64>)
        requires
            self.wf(),
            position.in_world(),
            forall|i: int| 0 <= i < foods@.len() ==> #[trigger] foods@[i].wf(),
            bearings@.len() == foods@.len(),
            foods@.len() * UNIT <= i64::MAX,
        ensures
            cells@.len() == self@.cells,
            forall|cell: int|
                0 <= cell < self@.cells ==> #[trigger] cells@[cell] == self@.cell_energy(
                    position,
                    rotation as int,
                    places_of(foods@),
                    bearings@,
                    cell,
                    foods@.len(),
                ),
            forall|cell: int| 0 <= cell < self@.cells ==> #[trigger] cells@[cell] >= 0,
            foods@.len() == 0 ==> forall|cell: int|
                0 <= cell < self@.cells ==> #[trigger] cells@[cell] == 0,
    {
        let mut cells: Vec<i64> = Vec::new();
        let mut filled: usize = 0;
        while filled < self.cells
            invariant
                filled <= self.cells,
                cells@.len() == filled,
                forall|cell: int| 0 <= cell < filled ==> #[trigger] cells@[cell] == 0,
            decreases self.cells - filled,
        {
            cells.push(0);
            filled += 1;
        }
        let mut seen: usize = 0;
        while seen < foods.len()
            invariant
                self.wf(),
                position.in_world(),
                forall|i: int| 0 <= i < foods@.len() ==> #[trigger] foods@[i].wf(),
                bearings@.len() == foods@.len(),
                foods@.len() * UNIT <= i64::MAX,
                seen <= foods@.len(),
                cells@.len() == self@.cells,
                forall|cell: int|
                    0 <= cell < self@.cells ==> #[trigger] cells@[cell] == self@.cell_energy(
                        position,
                        rotation as int,
                        places_of(foods@),
                        bearings@,
                        cell,
                        seen as nat,
                    ),
            decreases foods@.len() - seen,
        {
            let food: &Food = &foods[seen];
            let bearing: i64 = bearings[seen];
            assert(foods@[seen as int].wf());
            let dist: i64 = position.distance(&food.position());
            let angle: i64 = angle_difference(bearing, rotation);
            let ghost before = cells@;
            if dist < self.fov_range && -self.fov_angle <= 2 * angle && 2 * angle <= self.fov_angle {
                let cell: usize = self.cell_of(angle);
                let energy: i64 = self.energy_at(dist);
                proof {
                    lemma_cell_energy_bounds(
                        self@,
                        position,
                        rotation as int,
                        places_of(foods@),
                        bearings@,
                        cell as int,
                        seen as nat,
                    );
                    assert(seen * UNIT + UNIT <= foods@.len() * UNIT) by (nonlinear_arith)
                        requires
                            seen < foods@.len(),
                            UNIT == 1_000_000,
                    ;
                }
                let sum: i64 = cells[cell] + energy;
                cells.set(cell, sum);
            }
            assert forall|cell: int| 0 <= cell < self@.cells implies #[trigger] cells@[cell]
                == self@.cell_energy(
                position,
                rotation as int,
                places_of(foods@),
                bearings@,
                cell,
                (seen + 1) as nat,
            ) by {
                assert(before[cell] == self@.cell_energy(
                    position,
                    rotation as int,
                    places_of(foods@),
                    bearings@,
                    cell,
                    seen as nat,
                ));
            }
            seen += 1;
        }
        proof {
            assert forall|cell: int| 0 <= cell < self@.cells implies #[trigger] cells@[cell]
                >= 0 by {
                lemma_cell_energy_bounds(
                    self@,
                    position,
                    rotation as int,
                    places_of(foods@),
                    bearings@,
                    cell,
                    foods@.len(),
                );
            }
        }
        cells
    }
}

impl Default for Eye {
    /// The eye that every animal of the simulation is born with.
    fn default() -> (eye: Eye)
        ensures
            eye@ == EyeView::standard(),
            eye.wf(),
    {
        Eye::new(FOV_RANGE, FOV_ANGLE, CELLS)
    }
}

} // verus!

//! Animals: the agents of the simulation.

use vstd::prelude::*;
use rand::rngs::StdRng;
use crate::brain::topology_spec;
use crate::brain::Brain;
use crate::brain::BrainView;
use crate::brain::Gene;
use crate::eye::Eye;
use crate::eye::EyeView;
use crate::fixed::clamp;
use crate::fixed::clamp_spec;
use crate::fixed::div_floor;
use crate::fixed::wrap;
use crate::fixed::wrap_angle;
use crate::fixed::wrap_angle_spec;
use crate::fixed::wrap_spec;
use crate::fixed::FRAC_PI_2;
use crate::fixed::PI;
use crate::fixed::UNIT;
use crate::food::places_of;
use crate::food::Food;
use crate::geometry::Point;
use crate::random::random_point;
use crate::random::random_rotation;

verus! {

/// The least speed of an animal. Above zero, so that no animal gets stuck.
pub const SPEED_MIN: i64 = 1_000;

/// The greatest speed of an animal.
pub const SPEED_MAX: i64 = 5_000;

/// The speed that an animal is born with.
pub const SPEED_START: i64 = 2_000;

/// By how much a brain can change the speed in one step, either way.
pub const SPEED_ACCEL: i64 = 200_000;

/// By how much a brain can change the heading in one step, either way.
pub const ROTATION_ACCEL: i64 = FRAC_PI_2;

/// How near an animal must be to a food item to eat it.
pub const REACH: i64 = 10_000;

/// An animal. It owns its eye and its brain.
pub struct Animal {
    position: Point,
    rotation: i64,
    speed: i64,
    eye: Eye,
    brain: Brain,
    satiation: usize,
}

/// What an animal is: where it stands, where it heads, how fast it moves,
/// its eye, its brain, and how many food items it has eaten since its birth.
pub struct AnimalView {
    pub position: Point,
    pub rotation: int,
    pub speed: int,
    pub eye: EyeView,
    pub brain: BrainView,
    pub satiation: nat,
}

impl AnimalView {
    /// The animal stands in the world, its heading lies in `(-PI, PI]`, its
    /// speed within the limits, and its brain has the layers that its eye
    /// calls for.
    pub open spec fn wf(self) -> bool {
        &&& self.position.in_world()
        &&& -PI < self.rotation <= PI
        &&& SPEED_MIN <= self.speed <= SPEED_MAX
        &&& self.eye.wf()
        &&& self.brain.layers == topology_spec(self.eye.cells)
    }

    /// The animal as it is born: at `position`, heading towards `rotation`,
    /// at the starting speed, having eaten nothing.
    pub open spec fn born(eye: EyeView, brain: BrainView, position: Point, rotation: int) -> Self {
        AnimalView { position, rotation, speed: SPEED_START as int, eye, brain, satiation: 0 }
    }

    /// The animal is near enough to a food item at `food` to eat it.
    pub open spec fn reaches(self, food: Point) -> bool {
        self.position.distance_squared_spec(food) <= REACH * REACH
    }

    /// The animal after it has eaten one food item.
    pub open spec fn fed(self) -> Self {
        AnimalView { satiation: self.satiation + 1, ..self }
    }

    /// The animal after its brain has asked for a change of speed and a
    /// change of heading. Both are relative and limited: the brain cannot
    /// ask for more than the accelerations, and the speed stays within its
    /// limits whatever was asked.
    pub open spec fn steered(self, speed_delta: int, rotation_delta: int) -> Self {
        let speed_change = clamp_spec(speed_delta, -SPEED_ACCEL, SPEED_ACCEL as int);
        let rotation_change = clamp_spec(rotation_delta, -ROTATION_ACCEL, ROTATION_ACCEL as int);
        AnimalView {
            speed: clamp_spec(self.speed + speed_change, SPEED_MIN as int, SPEED_MAX as int),
            rotation: wrap_angle_spec(self.rotation + rotation_change),
            ..self
        }
    }

    /// The animal after it has moved for one step in the direction of the
    /// vector `heading`, whose length stands for one, on a world that wraps
    /// round at its edges.
    pub open spec fn advanced(self, heading: Point) -> Self {
        AnimalView {
            position: Point {
                x: wrap_spec(
                    self.position.x + (heading.x * self.speed) / (UNIT as int),
                    0,
                    UNIT as int,
                ) as i64,
                y: wrap_spec(
                    self.position.y + (heading.y * self.speed) / (UNIT as int),
                    0,
                    UNIT as int,
                ) as i64,
            },
            ..self
        }
    }
}

/// Whatever a brain answers, the animal that it steers stays well formed:
/// its speed within the limits, its heading within half a turn either way.
pub proof fn lemma_steered_stays_well_formed(
    animal: AnimalView,
    speed_delta: int,
    rotation_delta: int,
)
    requires
        animal.wf(),
    ensures
        animal.steered(speed_delta, rotation_delta).wf(),
        SPEED_MIN <= animal.steered(speed_delta, rotation_delta).speed <= SPEED_MAX,
{
    let rotation_change = clamp_spec(rotation_delta, -ROTATION_ACCEL, ROTATION_ACCEL as int);
    crate::fixed::lemma_wrap_angle_lands(animal.rotation + rotation_change);
}

/// Whatever its heading, an animal that moves stays in the world.
pub proof fn lemma_advanced_stays_in_world(animal: AnimalView, heading: Point)
    requires
        animal.wf(),
    ensures
        animal.advanced(heading).wf(),
        animal.advanced(heading).position.in_world(),
{
    crate::fixed::lemma_wrap_lands(
        animal.position.x + (heading.x * animal.speed) / (UNIT as int),
        0,
        UNIT as int,
    );
    crate::fixed::lemma_wrap_lands(
        animal.position.y + (heading.y * animal.speed) / (UNIT as int),
        0,
        UNIT as int,
    );
}

impl View for Animal {
    type V = AnimalView;

    closed spec fn view(&self) -> AnimalView {
        AnimalView {
            position: self.position,
            rotation: self.rotation as int,
            speed: self.speed as int,
            eye: self.eye@,
            brain: self.brain@,
            satiation: self.satiation as nat,
        }
    }
}

/// How far an animal moves along one axis in one step: its speed times the
/// heading's share of that axis, rounded down.
fn stride(share: i64, speed: i64) -> (r: i64)
    requires
        SPEED_MIN <= speed <= SPEED_MAX,
    ensures
        r == (share * speed) / (UNIT as int),
        -0x0100_0000_0000_0000 <= r <= 0x0100_0000_0000_0000,
{
    assert(-0x8000_0000_0000_0000 * 5_000 <= share * speed <= 0x8000_0000_0000_0000 * 5_000)
        by (nonlinear_arith)
        requires
            -0x8000_0000_0000_0000 <= share <= 0x8000_0000_0000_0000,
            1_000 <= speed <= 5_000,
    ;
    let product: i128 = (share as i128) * (speed as i128);
    let (q, r) = div_floor(product, UNIT as i128);
    proof {
        vstd::arithmetic::div_mod::lemma_fundamental_div_mod(product as int, UNIT as int);
    }
    q as i64
}

impl Animal {
    pub open spec fn wf(&self) -> bool {
        self@.wf()
    }

    /// An animal with the given eye and brain, at a place and with a heading
    /// drawn from `rng`.
    pub fn new(eye: Eye, brain: Brain, rng: &mut StdRng) -> (animal: Animal)
        requires
            eye.wf(),
            brain@.layers == topology_spec(eye@.cells),
        ensures
            animal.wf(),
            animal@ == AnimalView::born(eye@, brain@, animal@.position, animal@.rotation),
    {
        let position = random_point(rng);
        let rotation = random_rotation(rng);
        Animal::born(eye, brain, position, rotation)
    }

    /// An animal with the given eye and brain, at `position`, heading
    /// towards `rotation`.
    pub fn born(eye: Eye, brain: Brain, position: Point, rotation: i64) -> (animal: Animal)
        requires
            eye.wf(),
            brain@.layers == topology_spec(eye@.cells),
            position.in_world(),
            -PI < rotation <= PI,
        ensures
            animal.wf(),
            animal@ == AnimalView::born(eye@, brain@, position, rotation as int),
    {
        Animal { position, rotation, speed: SPEED_START, eye, brain, satiation: 0 }
    }

    /// An animal with the default eye and the given brain, which must have
    /// the layers that this eye calls for, at a place and with a heading
    /// drawn from `rng`.
    pub fn random(rng: &mut StdRng, brain: Brain) -> (animal: Animal)
        requires
            brain@.layers == topology_spec(crate::eye::CELLS as nat),
        ensures
            animal.wf(),
            animal@ == AnimalView::born(
                EyeView::standard(),
                brain@,
                animal@.position,
                animal@.rotation,
            ),
    {
        let eye = Eye::default();
        Animal::new(eye, brain, rng)
    }

    /// An animal with the default eye and a brain of the given genome, at a
    /// place and with a heading drawn from `rng`.
    pub fn from_chromosome(chromosome: Vec<Gene>, rng: &mut StdRng) -> (animal: Animal)
        ensures
            animal.wf(),
            animal@ == AnimalView::born(
                EyeView::standard(),
                (BrainView {
                    layers: topology_spec(crate::eye::CELLS as nat),
                    chromosome: chromosome@,
                }),
                animal@.position,
                animal@.rotation,
            ),
    {
        let eye = Eye::default();
        let brain = Brain::from_chromosome(chromosome, &eye);
        Animal::new(eye, brain, rng)
    }

    /// The genome of this animal: that of its brain.
    pub fn as_chromosome(&self) -> (chromosome: Vec<Gene>)
        ensures
            chromosome@ == self@.brain.chromosome,
    {
        self.brain.as_chromosome()
    }

    pub fn position(&self) -> (position: Point)
        ensures
            position == self@.position,
    {
        self.position
    }

    pub fn rotation(&self) -> (rotation: i64)
        ensures
            rotation == self@.rotation,
    {
        self.rotation
    }

    pub fn speed(&self) -> (speed: i64)
        ensures
            speed == self@.speed,
    {
        self.speed
    }

    pub fn satiation(&self) -> (satiation: usize)
        ensures
            satiation == self@.satiation,
    {
        self.satiation
    }

    pub fn eye(&self) -> (eye: &Eye)
        ensures
            eye@ == self@.eye,
    {
        &self.eye
    }

    pub fn brain(&self) -> (brain: &Brain)
        ensures
            brain@ == self@.brain,
    {
        &self.brain
    }

    /// What the animal sees of `foods`. `bearings` gives, for each food item
    /// in turn, the direction in which it lies from the animal.
    pub fn see(&self, foods: &[Food], bearings: &[i64]) -> (cells: Vec<i64>)
        requires
            self.wf(),
            forall|i: int| 0 <= i < foods@.len() ==> #[trigger] foods@[i].wf(),
            bearings@.len() == foods@.len(),
            foods@.len() * UNIT <= i64::MAX,
        ensures
            cells@.len() == self@.eye.cells,
            forall|cell: int|
                0 <= cell < self@.eye.cells ==> #[trigger] cells@[cell] == self@.eye.cell_energy(
                    self@.position,
                    self@.rotation,
                    places_of(foods@),
                    bearings@,
                    cell,
                    foods@.len(),
                ),
            forall|cell: int| 0 <= cell < self@.eye.cells ==> #[trigger] cells@[cell] >= 0,
    {
        self.eye.process_vision(self.position, self.rotation, foods, bearings)
    }

    /// Whether the animal is near enough to `food` to eat it: no farther
    /// than `REACH`.
    pub fn reaches(&self, food: &Food) -> (near: bool)
        requires
            self.wf(),
            food.wf(),
        ensures
            near == self@.reaches(food@),
    {
        self.position.distance_squared(&food.position()) <= (REACH * REACH) as u64
    }

    /// Counts one food item eaten.
    pub fn feed(&mut self)
        requires
            old(self).wf(),
            old(self)@.satiation < usize::MAX,
        ensures
            final(self)@ == old(self)@.fed(),
            final(self).wf(),
    {
        self.satiation = self.satiation + 1;
    }

    /// Applies what the brain answered: `response[0]` is the change of speed
    /// that it asks for, `response[1]` the change of heading.
    pub fn steer(&mut self, response: &[i64])
        requires
            old(self).wf(),
            response@.len() >= 2,
        ensures
            final(self)@ == old(self)@.steered(response@[0] as int, response@[1] as int),
            final(self).wf(),
    {
        let speed_change: i64 = clamp(response[0], -SPEED_ACCEL, SPEED_ACCEL);
        let rotation_change: i64 = clamp(response[1], -ROTATION_ACCEL, ROTATION_ACCEL);
        self.speed = clamp(self.speed + speed_change, SPEED_MIN, SPEED_MAX);
        self.rotation = wrap_angle(self.rotation + rotation_change);
    }

    /// Moves the animal for one step in the direction of the vector
    /// `heading`, whose length stands for one: the unit vector of the
    /// animal's heading, in millionths.
    pub fn advance(&mut self, heading: Point)
        requires
            old(self).wf(),
        ensures
            final(self)@ == old(self)@.advanced(heading),
            final(self).wf(),
    {
        let dx: i64 = stride(heading.x, self.speed);
        let dy: i64 = stride(heading.y, self.speed);
        let x: i64 = wrap(self.position.x + dx, 0, UNIT);
        let y: i64 = wrap(self.position.y + dy, 0, UNIT);
        self.position = Point { x, y };
    }
}

} // verus!

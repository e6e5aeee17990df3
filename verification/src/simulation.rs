//! The simulation: a world of animals and food, and what one step and one
//! change of generation do to it.
//!
//! A step runs in three phases, in this order: the animals eat the food
//! that they reach, every brain steers its animal, and every animal moves.
//! Two things that a step needs are computed outside this library, between
//! the phases: the answers of the brains to what the animals see, and the
//! unit vectors of the headings. When a step has been counted and the
//! generation has run its length, the optimizer, outside as well, breeds the
//! next population, and `evolve` brings it into the world.

use vstd::prelude::*;
use rand::rngs::StdRng;
use crate::animal::Animal;
use crate::animal::AnimalView;
use crate::world::lemma_collided_outcome;
use crate::world::lemma_collided_reads;
use crate::world::lemma_collided_stays_well_formed;
use crate::world::lemma_collision_bounds;
use crate::world::lemma_foraged_outcome;
use crate::world::lemma_foraged_reads;
use crate::world::lemma_foraged_stays_well_formed;
use crate::world::lemma_reached_count_bound;
use crate::world::lemma_world_advanced_stays_well_formed;
use crate::world::lemma_world_steered_stays_well_formed;
use crate::world::WorldView;
use crate::brain::topology_spec;
use crate::brain::Brain;
use crate::brain::BrainView;
use crate::eye::EyeView;
use crate::eye::CELLS;
use crate::food::places_of;
use crate::food::Food;
use crate::geometry::Point;
use crate::individual::AnimalIndividual;
use crate::individual::IndividualView;
use crate::random::random_point;

verus! {

/// The number of animals of the simulation as it is usually run.
pub const ANIMALS: usize = 40;

/// The number of food items of a world made by `World::random`.
pub const FOODS: usize = 60;

/// The number of steps of one generation.
pub const GENERATION_LENGTH: usize = 2500;

/// A world: the animals and the food of one generation.
pub struct World {
    animals: Vec<Animal>,
    foods: Vec<Food>,
}

/// What each of `animals` is, in order.
pub open spec fn views_of(animals: Seq<Animal>) -> Seq<AnimalView> {
    Seq::new(animals.len(), |i: int| animals[i]@)
}

impl View for World {
    type V = WorldView;

    closed spec fn view(&self) -> WorldView {
        WorldView { animals: views_of(self.animals@), foods: places_of(self.foods@) }
    }
}

impl World {
    pub open spec fn wf(&self) -> bool {
        self@.wf()
    }

    /// The world of the given animals and food.
    pub fn new(animals: Vec<Animal>, foods: Vec<Food>) -> (world: World)
        requires
            (WorldView { animals: views_of(animals@), foods: places_of(foods@) }).wf(),
        ensures
            world@ == (WorldView { animals: views_of(animals@), foods: places_of(foods@) }),
            world.wf(),
    {
        World { animals, foods }
    }

    /// A world of one animal for each of `brains`, in order, and `FOODS`
    /// food items, all at places drawn from `rng`.
    pub fn random(rng: &mut StdRng, brains: Vec<Brain>) -> (world: World)
        requires
            forall|i: int|
                0 <= i < brains@.len() ==> (#[trigger] brains@[i])@.layers == topology_spec(
                    CELLS as nat,
                ),
            forall|i: int, k: int|
                0 <= i < brains@.len() && 0 <= k < brains@.len() ==> (
                #[trigger] brains@[i])@.chromosome.len() == (
                #[trigger] brains@[k])@.chromosome.len(),
        ensures
            world.wf(),
            world@.animals.len() == brains@.len(),
            world@.foods.len() == FOODS,
            forall|i: int|
                0 <= i < brains@.len() ==> #[trigger] world@.animals[i] == AnimalView::born(
                    EyeView::standard(),
                    brains@[i]@,
                    world@.animals[i].position,
                    world@.animals[i].rotation,
                ),
    {
        let ghost given = brains@;
        let mut animals: Vec<Animal> = Vec::new();
        for brain in it: brains
            invariant
                it.seq() == given,
                animals@.len() == it.index(),
                forall|i: int|
                    0 <= i < given.len() ==> (#[trigger] given[i])@.layers == topology_spec(
                        CELLS as nat,
                    ),
                forall|i: int|
                    0 <= i < animals@.len() ==> (#[trigger] animals@[i])@ == AnimalView::born(
                        EyeView::standard(),
                        given[i]@,
                        animals@[i]@.position,
                        animals@[i]@.rotation,
                    ) && animals@[i].wf(),
        {
            let animal = Animal::random(rng, brain);
            animals.push(animal);
        }
        let mut foods: Vec<Food> = Vec::new();
        while foods.len() < FOODS
            invariant
                foods@.len() <= FOODS,
                forall|j: int| 0 <= j < foods@.len() ==> (#[trigger] foods@[j]).wf(),
            decreases FOODS - foods@.len(),
        {
            foods.push(Food::random(rng));
        }
        World { animals, foods }
    }

    pub fn animals(&self) -> (animals: &[Animal])
        ensures
            views_of(animals@) == self@.animals,
    {
        self.animals.as_slice()
    }

    pub fn foods(&self) -> (foods: &[Food])
        ensures
            places_of(foods@) == self@.foods,
    {
        self.foods.as_slice()
    }
}

/// A simulation: a world and the age of its generation.
pub struct Simulation {
    world: World,
    age: usize,
}

/// What a simulation is: its world, and the number of steps counted since
/// the generation began.
pub struct SimulationView {
    pub world: WorldView,
    pub age: nat,
}

impl SimulationView {
    /// The world is well formed, and the generation is at most one step
    /// past its length.
    pub open spec fn wf(self) -> bool {
        self.world.wf() && self.age <= GENERATION_LENGTH + 1
    }

    /// The generation has run its length: the next population is due.
    pub open spec fn due(self) -> bool {
        self.age > GENERATION_LENGTH
    }

    /// This simulation with one more step counted.
    pub open spec fn stepped(self) -> Self {
        SimulationView { age: self.age + 1, ..self }
    }

    /// This simulation after one whole step: its animals have eaten what
    /// they reach, its brains have steered, its animals have moved, in this
    /// order, and the step has been counted. `spots` are the places that
    /// the eaten food moves to, `responses` the answers of the brains to
    /// what the animals see once they have eaten, `headings` the unit
    /// vectors of the headings once the brains have steered.
    pub open spec fn passed(
        self,
        spots: Seq<Point>,
        responses: Seq<Seq<i64>>,
        headings: Seq<Point>,
    ) -> Self {
        SimulationView {
            world: self.world.collided(spots, self.world.animals.len()).0.steered(
                responses,
            ).advanced(headings),
            age: self.age + 1,
        }
    }

    /// This simulation with `steps` more steps counted.
    pub open spec fn after(self, steps: nat) -> Self
        decreases steps,
    {
        if steps == 0 {
            self
        } else {
            self.after((steps - 1) as nat).stepped()
        }
    }
}

impl View for Simulation {
    type V = SimulationView;

    closed spec fn view(&self) -> SimulationView {
        SimulationView { world: self.world@, age: self.age as nat }
    }
}

/// Counting steps adds to the age and leaves the world alone.
pub proof fn lemma_after(simulation: SimulationView, steps: nat)
    ensures
        simulation.after(steps) == (SimulationView {
            age: simulation.age + steps,
            ..simulation
        }),
    decreases steps,
{
    if steps > 0 {
        lemma_after(simulation, (steps - 1) as nat);
    }
}

/// After a whole step every animal and every food item lies in the world,
/// every speed within its limits and every heading within half a turn
/// either way, whatever the brains answered and whatever the headings
/// given; and there are as many animals and food items as before.
pub proof fn lemma_passed_stays_well_formed(
    simulation: SimulationView,
    spots: Seq<Point>,
    responses: Seq<Seq<i64>>,
    headings: Seq<Point>,
)
    requires
        simulation.wf(),
        !simulation.due(),
        forall|k: int| 0 <= k < spots.len() ==> (#[trigger] spots[k]).in_world(),
        simulation.world.collided(spots, simulation.world.animals.len()).1 <= spots.len(),
    ensures
        simulation.passed(spots, responses, headings).wf(),
        simulation.passed(spots, responses, headings).world.animals.len()
            == simulation.world.animals.len(),
        simulation.passed(spots, responses, headings).world.foods.len()
            == simulation.world.foods.len(),
        simulation.passed(spots, responses, headings).age == simulation.age + 1,
{
    let eaten = simulation.world.collided(spots, simulation.world.animals.len()).0;
    lemma_collided_stays_well_formed(simulation.world, spots, simulation.world.animals.len());
    lemma_world_steered_stays_well_formed(eaten, responses);
    lemma_world_advanced_stays_well_formed(eaten.steered(responses), headings);
}

/// A generation ends, and on time: in a simulation whose next population is
/// not yet due, it falls due with the step that brings the age past
/// `GENERATION_LENGTH`, which is at most `GENERATION_LENGTH + 1` steps away,
/// and with no step before that one.
pub proof fn lemma_generation_ends(simulation: SimulationView, steps: nat)
    requires
        simulation.wf(),
        !simulation.due(),
    ensures
        simulation.after(steps).due() <==> steps >= GENERATION_LENGTH + 1 - simulation.age,
        1 <= GENERATION_LENGTH + 1 - simulation.age <= GENERATION_LENGTH + 1,
{
    lemma_after(simulation, steps);
}

impl Simulation {
    pub open spec fn wf(&self) -> bool {
        self@.wf()
    }

    /// A simulation of the given world, at the beginning of a generation.
    pub fn new(world: World) -> (simulation: Simulation)
        requires
            world.wf(),
        ensures
            simulation@ == (SimulationView { world: world@, age: 0 }),
            simulation.wf(),
    {
        Simulation { world, age: 0 }
    }

    /// A simulation of a world made by `World::random`, at the beginning of
    /// a generation.
    pub fn random(rng: &mut StdRng, brains: Vec<Brain>) -> (simulation: Simulation)
        requires
            forall|i: int|
                0 <= i < brains@.len() ==> (#[trigger] brains@[i])@.layers == topology_spec(
                    CELLS as nat,
                ),
            forall|i: int, k: int|
                0 <= i < brains@.len() && 0 <= k < brains@.len() ==> (
                #[trigger] brains@[i])@.chromosome.len() == (
                #[trigger] brains@[k])@.chromosome.len(),
        ensures
            simulation.wf(),
            simulation@.age == 0,
            simulation@.world.animals.len() == brains@.len(),
            simulation@.world.foods.len() == FOODS,
            forall|i: int|
                0 <= i < brains@.len() ==> #[trigger] simulation@.world.animals[i]
                    == AnimalView::born(
                    EyeView::standard(),
                    brains@[i]@,
                    simulation@.world.animals[i].position,
                    simulation@.world.animals[i].rotation,
                ),
    {
        let world = World::random(rng, brains);
        Simulation { world, age: 0 }
    }

    pub fn world(&self) -> (world: &World)
        ensures
            world@ == self@.world,
    {
        &self.world
    }

    pub fn age(&self) -> (age: usize)
        ensures
            age == self@.age,
    {
        self.age
    }

    /// Counts one step, and says whether the generation has run its length.
    /// If it has, the next population is due: `evolve` brings it in and
    /// begins the count anew.
    pub fn step(&mut self) -> (due: bool)
        requires
            old(self).wf(),
            !old(self)@.due(),
        ensures
            final(self)@ == old(self)@.stepped(),
            due == final(self)@.due(),
            final(self).wf(),
    {
        self.age = self.age + 1;
        self.age > GENERATION_LENGTH
    }

    /// The first phase of a step: the animals eat what they reach. Each
    /// animal in turn tries each food item in turn; an item no farther than
    /// `REACH` is eaten, which adds one to the animal's count and moves the
    /// item to a place drawn from `rng`.
    ///
    /// The result, which exists for proofs alone, is the places drawn, in
    /// the order of the draws: with them the outcome is determined.
    pub fn process_collisions(&mut self, rng: &mut StdRng) -> (spots: Ghost<Seq<Point>>)
        requires
            old(self).wf(),
            forall|i: int|
                0 <= i < old(self)@.world.animals.len() ==> (#[trigger] old(
                    self,
                )@.world.animals[i]).satiation + old(self)@.world.foods.len() <= usize::MAX,
        ensures
            old(self)@.world.collided(spots@, old(self)@.world.animals.len()) == (
                final(self)@.world,
                spots@.len(),
            ),
            forall|k: int| 0 <= k < spots@.len() ==> (#[trigger] spots@[k]).in_world(),
            old(self)@.world.collision_bounds(final(self)@.world),
            final(self)@.age == old(self)@.age,
            final(self).wf(),
    {
        let ghost before = self@.world;
        let ghost mut drawn: Seq<Point> = Seq::empty();
        let animals_count: usize = self.world.animals.len();
        let foods_count: usize = self.world.foods.len();
        let mut i: usize = 0;
        while i < animals_count
            invariant
                i <= animals_count,
                animals_count == self.world.animals@.len(),
                animals_count == before.animals.len(),
                foods_count == self.world.foods@.len(),
                foods_count == before.foods.len(),
                before == old(self)@.world,
                before.wf(),
                self.age == old(self).age,
                forall|k: int|
                    0 <= k < animals_count ==> (#[trigger] before.animals[k]).satiation
                        + foods_count <= usize::MAX,
                forall|k: int| 0 <= k < drawn.len() ==> (#[trigger] drawn[k]).in_world(),
                before.collided(drawn, i as nat) == (self@.world, drawn.len()),
            decreases animals_count - i,
        {
            let ghost start = self@.world;
            let ghost base = drawn.len();
            proof {
                lemma_collided_outcome(before, drawn, i as nat);
                lemma_collided_stays_well_formed(before, drawn, i as nat);
            }
            let mut j: usize = 0;
            while j < foods_count
                invariant
                    i < animals_count,
                    j <= foods_count,
                    animals_count == self.world.animals@.len(),
                    animals_count == start.animals.len(),
                    foods_count == self.world.foods@.len(),
                    foods_count == start.foods.len(),
                    before == old(self)@.world,
                    self.age == old(self).age,
                    start.wf(),
                    start.animals[i as int].satiation + foods_count <= usize::MAX,
                    base <= drawn.len(),
                    forall|k: int| 0 <= k < drawn.len() ==> (#[trigger] drawn[k]).in_world(),
                    before.collided(drawn, i as nat) == (start, base),
                    start.foraged(i as int, drawn, base, j as nat) == (self@.world, drawn.len()),
                decreases foods_count - j,
            {
                let ghost met = self@.world;
                proof {
                    lemma_foraged_outcome(start, i as int, drawn, base, j as nat);
                    lemma_foraged_stays_well_formed(start, i as int, drawn, base, j as nat);
                    lemma_reached_count_bound(start.animals[i as int], start.foods, j as nat);
                    assert(met.animals[i as int].wf());
                    assert(met.foods[j as int].in_world());
                }
                if self.world.animals[i].reaches(&self.world.foods[j]) {
                    self.world.animals[i].feed();
                    let spot: Point = random_point(rng);
                    self.world.foods[j].relocate(spot);
                    proof {
                        let longer = drawn.push(spot);
                        lemma_collided_reads(before, drawn, longer, i as nat);
                        lemma_foraged_reads(start, i as int, drawn, longer, base, j as nat);
                        let moved = WorldView {
                            animals: met.animals.update(i as int, met.animals[i as int].fed()),
                            foods: met.foods.update(j as int, spot),
                        };
                        assert(self@.world.animals =~= moved.animals);
                        assert(self@.world.foods =~= moved.foods);
                        drawn = longer;
                    }
                }
                j += 1;
            }
            i += 1;
        }
        proof {
            lemma_collision_bounds(before, drawn);
            lemma_collided_stays_well_formed(before, drawn, animals_count as nat);
        }
        Ghost(drawn)
    }

    /// The population as the optimizer is to see it: one individual for
    /// each animal, in order.
    pub fn population(&self) -> (population: Vec<AnimalIndividual>)
        ensures
            population@.len() == self@.world.animals.len(),
            forall|i: int|
                0 <= i < population@.len() ==> (#[trigger] population@[i])@ == (IndividualView {
                    fitness: self@.world.animals[i].satiation,
                    chromosome: self@.world.animals[i].brain.chromosome,
                }),
    {
        let mut population: Vec<AnimalIndividual> = Vec::new();
        let mut i: usize = 0;
        while i < self.world.animals.len()
            invariant
                i <= self.world.animals@.len(),
                population@.len() == i,
                forall|k: int|
                    0 <= k < i ==> (#[trigger] population@[k])@ == (IndividualView {
                        fitness: self.world.animals@[k]@.satiation,
                        chromosome: self.world.animals@[k]@.brain.chromosome,
                    }),
            decreases self.world.animals@.len() - i,
        {
            population.push(AnimalIndividual::from_animal(&self.world.animals[i]));
            i += 1;
        }
        population
    }

    /// Begins the next generation with the population that the optimizer
    /// has bred from the present one: the age returns to zero, a newborn
    /// animal with the genome of each of `evolved`, in order, takes the
    /// place of the present animals, and every food item moves to a place
    /// drawn from `rng`.
    ///
    /// The optimizer must have kept the size of the population and the
    /// length of the genomes.
    pub fn evolve(&mut self, rng: &mut StdRng, evolved: Vec<AnimalIndividual>)
        requires
            old(self).wf(),
            evolved@.len() == old(self)@.world.animals.len(),
            forall|i: int|
                0 <= i < evolved@.len() ==> (#[trigger] evolved@[i])@.chromosome.len() == old(
                    self,
                )@.world.animals[i].brain.chromosome.len(),
        ensures
            final(self).wf(),
            final(self)@.age == 0,
            final(self)@.world.animals.len() == old(self)@.world.animals.len(),
            final(self)@.world.foods.len() == old(self)@.world.foods.len(),
            forall|i: int|
                0 <= i < evolved@.len() ==> #[trigger] final(self)@.world.animals[i]
                    == AnimalView::born(
                    EyeView::standard(),
                    BrainView {
                        layers: topology_spec(CELLS as nat),
                        chromosome: evolved@[i]@.chromosome,
                    },
                    final(self)@.world.animals[i].position,
                    final(self)@.world.animals[i].rotation,
                ),
    {
        self.age = 0;
        let ghost given = evolved@;
        let mut animals: Vec<Animal> = Vec::new();
        for individual in it: evolved
            invariant
                it.seq() == given,
                animals@.len() == it.index(),
                forall|i: int|
                    0 <= i < animals@.len() ==> (#[trigger] animals@[i])@ == AnimalView::born(
                        EyeView::standard(),
                        BrainView {
                            layers: topology_spec(CELLS as nat),
                            chromosome: given[i]@.chromosome,
                        },
                        animals@[i]@.position,
                        animals@[i]@.rotation,
                    ) && animals@[i].wf(),
        {
            let animal = individual.into_animal(rng);
            animals.push(animal);
        }
        self.world.animals = animals;
        let foods_count: usize = self.world.foods.len();
        proof {
            assert forall|m: int| 0 <= m < foods_count implies (#[trigger] self.world.foods@[m]).wf() by {
                assert(old(self)@.world.foods[m].in_world());
            }
        }
        let mut j: usize = 0;
        while j < foods_count
            invariant
                j <= foods_count,
                foods_count == self.world.foods@.len(),
                foods_count == old(self).world.foods@.len(),
                forall|m: int| 0 <= m < foods_count ==> (#[trigger] self.world.foods@[m]).wf(),
                self.age == 0,
                self.world.animals@.len() == given.len(),
                forall|i: int|
                    0 <= i < given.len() ==> (#[trigger] self.world.animals@[i])@
                        == AnimalView::born(
                        EyeView::standard(),
                        BrainView {
                            layers: topology_spec(CELLS as nat),
                            chromosome: given[i]@.chromosome,
                        },
                        self.world.animals@[i]@.position,
                        self.world.animals@[i]@.rotation,
                    ) && self.world.animals@[i].wf(),
            decreases foods_count - j,
        {
            let spot: Point = random_point(rng);
            self.world.foods[j].relocate(spot);
            j += 1;
        }
        proof {
            let after = self@.world;
            assert forall|a: int, b: int|
                0 <= a < given.len() && 0 <= b < given.len() implies (
            #[trigger] after.animals[a]).brain.chromosome.len() == (
            #[trigger] after.animals[b]).brain.chromosome.len() by {
                assert(after.animals[a] == self.world.animals@[a]@);
                assert(after.animals[b] == self.world.animals@[b]@);
                assert(given[a]@.chromosome.len() == old(
                    self,
                )@.world.animals[a].brain.chromosome.len());
                assert(given[b]@.chromosome.len() == old(
                    self,
                )@.world.animals[b].brain.chromosome.len());
            }
            assert forall|m: int| 0 <= m < foods_count implies (#[trigger] after.foods[m]).in_world() by {
                assert(self.world.foods@[m].wf());
            }
            assert forall|k: int| 0 <= k < given.len() implies (#[trigger] after.animals[k]).wf() by {
                assert(self.world.animals@[k].wf());
            }
        }
    }

    /// The second phase of a step: every brain steers its animal.
    /// `responses[i]` is what the brain of animal `i` answered to what the
    /// animal sees: the change of speed and the change of heading that it
    /// asks for.
    pub fn process_brains(&mut self, responses: &[Vec<i64>])
        requires
            old(self).wf(),
            responses@.len() == old(self)@.world.animals.len(),
            forall|i: int| 0 <= i < responses@.len() ==> (#[trigger] responses@[i])@.len() >= 2,
        ensures
            final(self)@ == (SimulationView {
                world: old(self)@.world.steered(responses.deep_view()),
                ..old(self)@
            }),
            final(self).wf(),
    {
        let count: usize = self.world.animals.len();
        let mut i: usize = 0;
        while i < count
            invariant
                i <= count,
                count == self.world.animals@.len(),
                count == old(self).world.animals@.len(),
                responses@.len() == count,
                forall|k: int| 0 <= k < responses@.len() ==> (#[trigger] responses@[k])@.len() >= 2,
                self.age == old(self).age,
                self.world.foods == old(self).world.foods,
                forall|k: int|
                    0 <= k < i ==> (#[trigger] self.world.animals@[k])@ == old(
                        self,
                    ).world.animals@[k]@.steered(
                        responses@[k]@[0] as int,
                        responses@[k]@[1] as int,
                    ) && self.world.animals@[k].wf(),
                forall|k: int|
                    i <= k < count ==> (#[trigger] self.world.animals@[k]) == old(
                        self,
                    ).world.animals@[k],
                old(self).wf(),
            decreases count - i,
        {
            assert(old(self)@.world.animals[i as int].wf());
            self.world.animals[i].steer(responses[i].as_slice());
            i += 1;
        }
        proof {
            let target = old(self)@.world.steered(responses.deep_view());
            assert(self@.world.animals =~= target.animals) by {
                assert forall|k: int| 0 <= k < count implies self@.world.animals[k]
                    == target.animals[k] by {
                    assert(responses.deep_view()[k] == responses@[k].deep_view());
                    assert(responses@[k].deep_view() =~= responses@[k]@);
                }
            }
            assert forall|a: int, b: int|
                0 <= a < count && 0 <= b < count implies (#[trigger] self@.world.animals[a])
                .brain.chromosome.len() == (#[trigger] self@.world.animals[b])
                .brain.chromosome.len() by {
                assert(old(self)@.world.animals[a].brain == self@.world.animals[a].brain);
                assert(old(self)@.world.animals[b].brain == self@.world.animals[b].brain);
            }
        }
    }

    /// The third phase of a step: every animal moves. `headings[i]` is the
    /// unit vector of the heading of animal `i`, in millionths.
    pub fn process_movements(&mut self, headings: &[Point])
        requires
            old(self).wf(),
            headings@.len() == old(self)@.world.animals.len(),
        ensures
            final(self)@ == (SimulationView {
                world: old(self)@.world.advanced(headings@),
                ..old(self)@
            }),
            final(self).wf(),
    {
        let count: usize = self.world.animals.len();
        let mut i: usize = 0;
        while i < count
            invariant
                i <= count,
                count == self.world.animals@.len(),
                count == old(self).world.animals@.len(),
                headings@.len() == count,
                self.age == old(self).age,
                self.world.foods == old(self).world.foods,
                forall|k: int|
                    0 <= k < i ==> (#[trigger] self.world.animals@[k])@ == old(
                        self,
                    ).world.animals@[k]@.advanced(headings@[k]) && self.world.animals@[k].wf(),
                forall|k: int|
                    i <= k < count ==> (#[trigger] self.world.animals@[k]) == old(
                        self,
                    ).world.animals@[k],
                old(self).wf(),
            decreases count - i,
        {
            assert(old(self)@.world.animals[i as int].wf());
            self.world.animals[i].advance(headings[i]);
            i += 1;
        }
        proof {
            let target = old(self)@.world.advanced(headings@);
            assert(self@.world.animals =~= target.animals);
            assert forall|a: int, b: int|
                0 <= a < count && 0 <= b < count implies (#[trigger] self@.world.animals[a])
                .brain.chromosome.len() == (#[trigger] self@.world.animals[b])
                .brain.chromosome.len() by {
                assert(old(self)@.world.animals[a].brain == self@.world.animals[a].brain);
                assert(old(self)@.world.animals[b].brain == self@.world.animals[b].brain);
            }
        }
    }
}

} // verus!

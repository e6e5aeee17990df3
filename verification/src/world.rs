//! The world as a mathematical object: what it is, and what the phases of
//! a step make of it.

use vstd::prelude::*;
use crate::animal::AnimalView;
use crate::geometry::Point;

verus! {

/// What a world is: its animals and the places of its food, each in order.
pub struct WorldView {
    pub animals: Seq<AnimalView>,
    pub foods: Seq<Point>,
}

/// How many of the first `n` of `foods` the animal reaches.
pub open spec fn reached_count(animal: AnimalView, foods: Seq<Point>, n: nat) -> nat
    decreases n,
{
    if n == 0 {
        0
    } else {
        let before = reached_count(animal, foods, (n - 1) as nat);
        if animal.reaches(foods[n - 1]) {
            before + 1
        } else {
            before
        }
    }
}

impl WorldView {
    /// Every animal is well formed, every food item lies in the world, and
    /// all genomes have one length, so that they can be crossed.
    pub open spec fn wf(self) -> bool {
        &&& forall|i: int| 0 <= i < self.animals.len() ==> (#[trigger] self.animals[i]).wf()
        &&& forall|j: int| 0 <= j < self.foods.len() ==> (#[trigger] self.foods[j]).in_world()
        &&& forall|i: int, k: int|
            0 <= i < self.animals.len() && 0 <= k < self.animals.len() ==> (
            #[trigger] self.animals[i]).brain.chromosome.len() == (
            #[trigger] self.animals[k]).brain.chromosome.len()
    }

    /// No animal is near enough to food item `j` to eat it.
    pub open spec fn spared(self, j: int) -> bool {
        forall|i: int|
            0 <= i < self.animals.len() ==> !(#[trigger] self.animals[i]).reaches(self.foods[j])
    }

    /// No animal is near enough to any food item to eat it.
    pub open spec fn quiet(self) -> bool {
        forall|j: int| 0 <= j < self.foods.len() ==> #[trigger] self.spared(j)
    }

    /// This world once animal `i` has tried the first `n` food items, and
    /// the number of places used up by then, where `used` had been used up
    /// before. The animal eats each item that it reaches, which moves the
    /// item to the next place of `spots` that is not used up.
    pub open spec fn foraged(self, i: int, spots: Seq<Point>, used: nat, n: nat) -> (
        WorldView,
        nat,
    )
        decreases n,
    {
        if n == 0 {
            (self, used)
        } else {
            let (world, taken) = self.foraged(i, spots, used, (n - 1) as nat);
            if world.animals[i].reaches(world.foods[n - 1]) {
                (
                    WorldView {
                        animals: world.animals.update(i, world.animals[i].fed()),
                        foods: world.foods.update(n - 1, spots[taken as int]),
                    },
                    taken + 1,
                )
            } else {
                (world, taken)
            }
        }
    }

    /// This world once the first `m` animals have taken their turns, each
    /// trying every food item in order, and the number of places of `spots`
    /// used up by then.
    pub open spec fn collided(self, spots: Seq<Point>, m: nat) -> (WorldView, nat)
        decreases m,
    {
        if m == 0 {
            (self, 0)
        } else {
            let (world, taken) = self.collided(spots, (m - 1) as nat);
            world.foraged(m - 1, spots, taken, world.foods.len())
        }
    }

    /// What holds of this world and of what it is once its animals have
    /// eaten what they reach, wherever the eaten items moved to: nothing
    /// changes but the counts of the animals and the places of the food; no
    /// count falls, and none rises by more than there are food items; the
    /// animal that comes first eats just what it reaches at the outset; an
    /// item that no animal reaches at the outset stays; and where there is
    /// no such reach at all, nothing changes.
    pub open spec fn collision_bounds(self, after: WorldView) -> bool {
        &&& after.animals.len() == self.animals.len()
        &&& after.foods.len() == self.foods.len()
        &&& forall|i: int|
            0 <= i < self.animals.len() ==> #[trigger] after.animals[i] == (AnimalView {
                satiation: after.animals[i].satiation,
                ..self.animals[i]
            })
        &&& forall|i: int|
            0 <= i < self.animals.len() ==> self.animals[i].satiation <= (
            #[trigger] after.animals[i]).satiation <= self.animals[i].satiation
                + self.foods.len()
        &&& self.animals.len() > 0 ==> after.animals[0].satiation == self.animals[0].satiation
            + reached_count(self.animals[0], self.foods, self.foods.len())
        &&& forall|j: int| 0 <= j < self.foods.len() ==> (#[trigger] after.foods[j]).in_world()
        &&& forall|j: int|
            0 <= j < self.foods.len() && self.spared(j) ==> #[trigger] after.foods[j]
                == self.foods[j]
        &&& self.quiet() ==> after == self
    }

    /// This world once every brain has steered its animal: `responses[i]`
    /// is what the brain of animal `i` answered.
    pub open spec fn steered(self, responses: Seq<Seq<i64>>) -> WorldView {
        WorldView {
            animals: Seq::new(
                self.animals.len(),
                |i: int| self.animals[i].steered(responses[i][0] as int, responses[i][1] as int),
            ),
            ..self
        }
    }

    /// This world once every animal has moved: `headings[i]` is the unit
    /// vector of the heading of animal `i`.
    pub open spec fn advanced(self, headings: Seq<Point>) -> WorldView {
        WorldView {
            animals: Seq::new(self.animals.len(), |i: int| self.animals[i].advanced(headings[i])),
            ..self
        }
    }
}

/// One animal's turn uses up places one by one, and no more than it tries
/// food items.
pub proof fn lemma_foraged_uses(world: WorldView, i: int, spots: Seq<Point>, used: nat, n: nat)
    ensures
        used <= world.foraged(i, spots, used, n).1 <= used + n,
    decreases n,
{
    if n > 0 {
        lemma_foraged_uses(world, i, spots, used, (n - 1) as nat);
    }
}

/// One animal's turn depends on no place but those that it uses up.
pub proof fn lemma_foraged_reads(
    world: WorldView,
    i: int,
    spots: Seq<Point>,
    others: Seq<Point>,
    used: nat,
    n: nat,
)
    requires
        forall|k: int| 0 <= k < world.foraged(i, spots, used, n).1 ==> spots[k] == others[k],
    ensures
        world.foraged(i, spots, used, n) == world.foraged(i, others, used, n),
    decreases n,
{
    if n > 0 {
        lemma_foraged_reads(world, i, spots, others, used, (n - 1) as nat);
    }
}

/// The turns of the animals depend on no place but those that they use up.
pub proof fn lemma_collided_reads(world: WorldView, spots: Seq<Point>, others: Seq<Point>, m: nat)
    requires
        forall|k: int| 0 <= k < world.collided(spots, m).1 ==> spots[k] == others[k],
    ensures
        world.collided(spots, m) == world.collided(others, m),
    decreases m,
{
    if m > 0 {
        let (before, taken) = world.collided(spots, (m - 1) as nat);
        lemma_foraged_uses(before, m - 1, spots, taken, before.foods.len());
        lemma_collided_reads(world, spots, others, (m - 1) as nat);
        lemma_foraged_reads(before, m - 1, spots, others, taken, before.foods.len());
    }
}

/// One animal's turn in closed form: the animal eats just the food items
/// that it reaches where they lay before its turn, each of these moves to
/// the next place not used up, and nothing else changes.
pub proof fn lemma_foraged_outcome(world: WorldView, i: int, spots: Seq<Point>, used: nat, n: nat)
    requires
        0 <= i < world.animals.len(),
        n <= world.foods.len(),
    ensures
        world.foraged(i, spots, used, n).1 == used + reached_count(
            world.animals[i],
            world.foods,
            n,
        ),
        world.foraged(i, spots, used, n).0.animals == world.animals.update(
            i,
            AnimalView {
                satiation: world.animals[i].satiation + reached_count(
                    world.animals[i],
                    world.foods,
                    n,
                ),
                ..world.animals[i]
            },
        ),
        world.foraged(i, spots, used, n).0.foods.len() == world.foods.len(),
        forall|j: int|
            0 <= j < world.foods.len() ==> #[trigger] world.foraged(i, spots, used, n).0.foods[j]
                == if j < n && world.animals[i].reaches(world.foods[j]) {
                spots[(used + reached_count(world.animals[i], world.foods, j as nat)) as int]
            } else {
                world.foods[j]
            },
    decreases n,
{
    let animal = world.animals[i];
    if n == 0 {
        assert(world.animals =~= world.animals.update(
            i,
            AnimalView { satiation: animal.satiation + 0, ..animal },
        ));
    } else {
        lemma_foraged_outcome(world, i, spots, used, (n - 1) as nat);
        let (before, taken) = world.foraged(i, spots, used, (n - 1) as nat);
        let after = world.foraged(i, spots, used, n).0;
        assert(before.foods[n - 1] == world.foods[n - 1]);
        assert(before.animals[i].reaches(before.foods[n - 1]) == animal.reaches(
            world.foods[n - 1],
        ));
        assert(after.animals =~= world.animals.update(
            i,
            AnimalView {
                satiation: animal.satiation + reached_count(animal, world.foods, n),
                ..animal
            },
        ));
        assert forall|j: int| 0 <= j < world.foods.len() implies #[trigger] after.foods[j] == if j
            < n && animal.reaches(world.foods[j]) {
            spots[(used + reached_count(animal, world.foods, j as nat)) as int]
        } else {
            world.foods[j]
        } by {
            assert(before.foods[j] == if j < n - 1 && animal.reaches(world.foods[j]) {
                spots[(used + reached_count(animal, world.foods, j as nat)) as int]
            } else {
                world.foods[j]
            });
        }
    }
}

/// An animal reaches no more food items than there are.
pub proof fn lemma_reached_count_bound(animal: AnimalView, foods: Seq<Point>, n: nat)
    ensures
        reached_count(animal, foods, n) <= n,
    decreases n,
{
    if n > 0 {
        lemma_reached_count_bound(animal, foods, (n - 1) as nat);
    }
}

/// An animal that reaches none of the food items counts none.
pub proof fn lemma_reached_count_of_none(animal: AnimalView, foods: Seq<Point>, n: nat)
    requires
        forall|j: int| 0 <= j < n ==> !animal.reaches(#[trigger] foods[j]),
    ensures
        reached_count(animal, foods, n) == 0,
    decreases n,
{
    if n > 0 {
        lemma_reached_count_of_none(animal, foods, (n - 1) as nat);
    }
}

/// What the turns of the first `m` animals come to, wherever the eaten food
/// moves to: nothing changes but the counts of these animals and the places
/// of the food; no count falls, and none rises by more than there are food
/// items; the animal that comes first eats just what it reaches at the
/// outset; an item that no animal reaches at the outset stays; and where
/// there is no such reach at all, nothing changes and no place is used up.
pub proof fn lemma_collided_outcome(world: WorldView, spots: Seq<Point>, m: nat)
    requires
        m <= world.animals.len(),
    ensures
        world.collided(spots, m).0.animals.len() == world.animals.len(),
        world.collided(spots, m).0.foods.len() == world.foods.len(),
        forall|a: int|
            0 <= a < world.animals.len() ==> #[trigger] world.collided(spots, m).0.animals[a] == (
            AnimalView {
                satiation: world.collided(spots, m).0.animals[a].satiation,
                ..world.animals[a]
            }),
        forall|a: int|
            0 <= a < m ==> world.animals[a].satiation <= (#[trigger] world.collided(
                spots,
                m,
            ).0.animals[a]).satiation <= world.animals[a].satiation + world.foods.len(),
        forall|a: int|
            m <= a < world.animals.len() ==> #[trigger] world.collided(spots, m).0.animals[a]
                == world.animals[a],
        m > 0 ==> world.collided(spots, m).0.animals[0].satiation == world.animals[0].satiation
            + reached_count(world.animals[0], world.foods, world.foods.len()),
        forall|j: int|
            0 <= j < world.foods.len() && world.spared(j) ==> #[trigger] world.collided(
                spots,
                m,
            ).0.foods[j] == world.foods[j],
        world.quiet() ==> world.collided(spots, m) == (world, 0nat),
    decreases m,
{
    if m > 0 {
        let (before, taken) = world.collided(spots, (m - 1) as nat);
        let after = world.collided(spots, m).0;
        let i = m - 1;
        lemma_collided_outcome(world, spots, (m - 1) as nat);
        lemma_foraged_outcome(before, i, spots, taken, before.foods.len());
        lemma_reached_count_bound(before.animals[i], before.foods, before.foods.len());
        assert(before.animals[i] == world.animals[i]);
        assert forall|j: int|
            0 <= j < world.foods.len() && world.spared(j) implies #[trigger] after.foods[j]
            == world.foods[j] by {
            assert(!world.animals[i].reaches(world.foods[j]));
        }
        if world.quiet() {
            assert forall|j: int| 0 <= j < world.foods.len() implies !world.animals[i].reaches(
                #[trigger] world.foods[j],
            ) by {
                assert(world.spared(j));
            }
            lemma_reached_count_of_none(world.animals[i], world.foods, world.foods.len());
            assert(after.animals =~= world.animals);
            assert(after.foods =~= world.foods);
        }
    }
}

/// A world stays well formed through one animal's turn, whatever places in
/// the world its food moves to, and nothing changes in it but that animal's
/// count and the places of the food.
pub proof fn lemma_foraged_stays_well_formed(
    world: WorldView,
    i: int,
    spots: Seq<Point>,
    used: nat,
    n: nat,
)
    requires
        world.wf(),
        0 <= i < world.animals.len(),
        n <= world.foods.len(),
        forall|k: int| 0 <= k < spots.len() ==> (#[trigger] spots[k]).in_world(),
        world.foraged(i, spots, used, n).1 <= spots.len(),
    ensures
        world.foraged(i, spots, used, n).0.wf(),
        world.foraged(i, spots, used, n).0.foods.len() == world.foods.len(),
        world.foraged(i, spots, used, n).0.animals.len() == world.animals.len(),
        forall|a: int|
            0 <= a < world.animals.len() ==> #[trigger] world.foraged(
                i,
                spots,
                used,
                n,
            ).0.animals[a] == (AnimalView {
                satiation: world.foraged(i, spots, used, n).0.animals[a].satiation,
                ..world.animals[a]
            }),
    decreases n,
{
    if n > 0 {
        let (before, taken) = world.foraged(i, spots, used, (n - 1) as nat);
        lemma_foraged_stays_well_formed(world, i, spots, used, (n - 1) as nat);
        let after = world.foraged(i, spots, used, n).0;
        if before.animals[i].reaches(before.foods[n - 1]) {
            assert(spots[taken as int].in_world());
            assert(before.animals[i].wf());
            assert forall|a: int| 0 <= a < after.animals.len() implies (
            #[trigger] after.animals[a]).wf() by {
                assert(before.animals[a].wf());
            }
            assert forall|j: int| 0 <= j < after.foods.len() implies (
            #[trigger] after.foods[j]).in_world() by {
                if j != n - 1 {
                    assert(before.foods[j].in_world());
                }
            }
            assert forall|a: int, b: int|
                0 <= a < after.animals.len() && 0 <= b < after.animals.len() implies (
            #[trigger] after.animals[a]).brain.chromosome.len() == (
            #[trigger] after.animals[b]).brain.chromosome.len() by {
                assert(before.animals[a].brain == after.animals[a].brain);
                assert(before.animals[b].brain == after.animals[b].brain);
            }
        }
    }
}

/// A world stays well formed through the turns of its animals, whatever
/// places in the world its food moves to, and nothing changes in it but the
/// counts of the animals and the places of the food.
pub proof fn lemma_collided_stays_well_formed(world: WorldView, spots: Seq<Point>, m: nat)
    requires
        world.wf(),
        m <= world.animals.len(),
        forall|k: int| 0 <= k < spots.len() ==> (#[trigger] spots[k]).in_world(),
        world.collided(spots, m).1 <= spots.len(),
    ensures
        world.collided(spots, m).0.wf(),
        world.collided(spots, m).0.foods.len() == world.foods.len(),
        world.collided(spots, m).0.animals.len() == world.animals.len(),
        forall|a: int|
            0 <= a < world.animals.len() ==> #[trigger] world.collided(spots, m).0.animals[a] == (
            AnimalView {
                satiation: world.collided(spots, m).0.animals[a].satiation,
                ..world.animals[a]
            }),
    decreases m,
{
    if m > 0 {
        let (before, taken) = world.collided(spots, (m - 1) as nat);
        lemma_foraged_uses(before, m - 1, spots, taken, before.foods.len());
        lemma_collided_stays_well_formed(world, spots, (m - 1) as nat);
        lemma_foraged_stays_well_formed(before, m - 1, spots, taken, before.foods.len());
        let after = world.collided(spots, m).0;
        assert forall|a: int| 0 <= a < world.animals.len() implies #[trigger] after.animals[a] == (
        AnimalView { satiation: after.animals[a].satiation, ..world.animals[a] }) by {
            assert(before.animals[a] == (AnimalView {
                satiation: before.animals[a].satiation,
                ..world.animals[a]
            }));
        }
    }
}

/// Of a well-formed world whose animals have eaten what they reach, with
/// the eaten food moved to places of the world, all of `collision_bounds`
/// holds.
pub proof fn lemma_collision_bounds(world: WorldView, spots: Seq<Point>)
    requires
        world.wf(),
        forall|k: int| 0 <= k < spots.len() ==> (#[trigger] spots[k]).in_world(),
        world.collided(spots, world.animals.len()).1 <= spots.len(),
    ensures
        world.collision_bounds(world.collided(spots, world.animals.len()).0),
{
    lemma_collided_outcome(world, spots, world.animals.len());
    lemma_collided_stays_well_formed(world, spots, world.animals.len());
}

/// A world stays well formed when its brains steer, whatever they answer.
pub proof fn lemma_world_steered_stays_well_formed(world: WorldView, responses: Seq<Seq<i64>>)
    requires
        world.wf(),
    ensures
        world.steered(responses).wf(),
        world.steered(responses).animals.len() == world.animals.len(),
        world.steered(responses).foods == world.foods,
{
    let after = world.steered(responses);
    assert forall|i: int| 0 <= i < after.animals.len() implies (#[trigger] after.animals[i]).wf() by {
        assert(world.animals[i].wf());
        crate::animal::lemma_steered_stays_well_formed(
            world.animals[i],
            responses[i][0] as int,
            responses[i][1] as int,
        );
    }
    assert forall|a: int, b: int|
        0 <= a < after.animals.len() && 0 <= b < after.animals.len() implies (
    #[trigger] after.animals[a]).brain.chromosome.len() == (
    #[trigger] after.animals[b]).brain.chromosome.len() by {
        assert(world.animals[a].brain == after.animals[a].brain);
        assert(world.animals[b].brain == after.animals[b].brain);
    }
}

/// A world stays well formed when its animals move, whatever their
/// headings: no animal leaves the world.
pub proof fn lemma_world_advanced_stays_well_formed(world: WorldView, headings: Seq<Point>)
    requires
        world.wf(),
    ensures
        world.advanced(headings).wf(),
        world.advanced(headings).animals.len() == world.animals.len(),
        world.advanced(headings).foods == world.foods,
{
    let after = world.advanced(headings);
    assert forall|i: int| 0 <= i < after.animals.len() implies (#[trigger] after.animals[i]).wf() by {
        assert(world.animals[i].wf());
        crate::animal::lemma_advanced_stays_in_world(world.animals[i], headings[i]);
    }
    assert forall|a: int, b: int|
        0 <= a < after.animals.len() && 0 <= b < after.animals.len() implies (
    #[trigger] after.animals[a]).brain.chromosome.len() == (
    #[trigger] after.animals[b]).brain.chromosome.len() by {
        assert(world.animals[a].brain == after.animals[a].brain);
        assert(world.animals[b].brain == after.animals[b].brain);
    }
}

} // verus!

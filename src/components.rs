use vstd::prelude::*;

verus! {

/// Whole units of fuel an entity holds.
#[derive(Clone, Copy, Debug, PartialEq, Eq, Structural)]
pub struct Energy(pub u32);

/// Movement multiplier, in thousandths (1000 is the base speed).
#[derive(Clone, Copy, Debug, PartialEq, Eq, Structural)]
pub struct Speed(pub u32);

/// Fuel an entity must hold before it can reproduce, in thousandths of a unit.
#[derive(Clone, Copy, Debug, PartialEq, Eq, Structural)]
pub struct ReproductionEnergy(pub u32);

/// Marker of the food resource.
#[derive(Clone, Copy, Debug, PartialEq, Eq, Structural)]
pub struct FoodPellet;

/// Marker of the foraging population.
#[derive(Clone, Copy, Debug, PartialEq, Eq, Structural)]
pub struct Herbivore;

/// Marker of the hunting population.
#[derive(Clone, Copy, Debug, PartialEq, Eq, Structural)]
pub struct Preditor;

/// Marker of a creature that a critter eater may consume.
#[derive(Clone, Copy, Debug, PartialEq, Eq, Structural)]
pub struct Critter;

/// Marker of an entity that eats food pellets it touches.
#[derive(Clone, Copy, Debug, PartialEq, Eq, Structural)]
pub struct PelletEater;

/// Marker of an entity that eats critters it touches.
#[derive(Clone, Copy, Debug, PartialEq, Eq, Structural)]
pub struct CritterEater;

/// The category tag that decides which rules apply to an entity.
#[derive(Clone, Copy, Debug, PartialEq, Eq, Structural)]
pub enum Category {
    Herbivore(Herbivore),
    Preditor(Preditor),
    FoodPellet(FoodPellet),
}

/// What an entity eats among the entities it touches.
#[derive(Clone, Copy, Debug, PartialEq, Eq, Structural)]
pub enum Eater {
    Pellets(PelletEater),
    Critters(CritterEater),
}

/// A world location in millimetres; `y` is the vertical axis.
#[derive(Clone, Copy, Debug, PartialEq, Eq, Structural)]
pub struct Position {
    pub x: i32,
    pub y: i32,
    pub z: i32,
}

/// The fields attached to one live entity.
#[derive(Clone, Copy, Debug, PartialEq, Eq, Structural)]
pub struct Creature {
    pub category: Category,
    pub critter: Option<Critter>,
    pub eater: Option<Eater>,
    pub energy: Option<Energy>,
    pub speed: Option<Speed>,
    pub reproduction_energy: Option<ReproductionEnergy>,
    pub position: Position,
    /// Whether the category's bundle has been attached and the entity's
    /// visual and physical representation requested.
    pub prepared: bool,
}

/// A freshly tagged entity at `position`, with no other field attached.
pub open spec fn fresh(category: Category, position: Position) -> Creature {
    Creature {
        category,
        critter: None,
        eater: None,
        energy: None,
        speed: None,
        reproduction_energy: None,
        position,
        prepared: false,
    }
}

impl Creature {
    /// A freshly tagged entity at `position`, with no other field attached.
    pub fn tagged(category: Category, position: Position) -> (r: Creature)
        ensures
            r == fresh(category, position),
    {
        Creature {
            category,
            critter: None,
            eater: None,
            energy: None,
            speed: None,
            reproduction_energy: None,
            position,
            prepared: false,
        }
    }
}

} // verus!

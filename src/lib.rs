//! An energy-budgeted population simulation: herbivores forage for food
//! pellets, predators hunt herbivores, and every creature spends energy over
//! time, gains it by eating, and hands part of it to offspring.
//!
//! Entities live in numbered slots of a [`world::World`]; a destroyed entity
//! leaves an empty slot, so identifiers are never reused. Fractional
//! quantities (speed, reproduction threshold) are kept in thousandths, and
//! positions in millimetres.

mod random;

pub mod breeding;
pub mod components;
pub mod controls;
pub mod feeding;
pub mod movement;
pub mod pass;
pub mod schedule;
pub mod seeding;
pub mod tagging;
pub mod world;

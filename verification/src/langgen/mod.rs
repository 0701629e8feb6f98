//! ECS friendly way of sending correct English texts to players.
//!
//! Systems queue sentence fragments with an `OutputQueue`; at the end of a
//! tick `process_queue` turns them into finished lines with the help of an
//! `EntityAdapter`, which knows names, genders and who can see whom.

pub mod output_helper;
pub mod output_queue;
pub mod queue_adapter_impls;
pub mod traits;

pub use traits::{EntityAdapter, EntityFacts, QueueAdapter, Shown, ShownLog};

use vstd::prelude::*;

verus! {

/// Messages between an `OutputBuilder` and `OutputQueue::process_queue`.
#[allow(non_camel_case_types)]
pub enum Fragment<Entity> {
    The(Entity),
    A(Entity),
    The_(Entity),
    A_(Entity),
    My(Entity, Entity),
    My_(Entity, Entity),
    /// Sends is/are.
    Is(Entity),
    /// Sends has/have.
    Has(Entity),
    /// Your/The X's
    Thes(Entity),
    /// Your/The X's, long name.
    Thes_(Entity),
    /// Yours/The X's
    Thess(Entity),
    /// Yours/The X's, long name.
    Thess_(Entity),
    /// Just the name.
    Word(Entity),
    /// Just the long name.
    Word_(Entity),
    Color((u8, u8, u8)),
    VerbRef(Entity, &'static str),
    VerbString(Entity, String),
    TextRef(&'static str),
    Text(String),
    /// Whether to not automatically add a space or not.
    SupressSpace(bool),
    /// Whether to automatically add a dot or not.
    SupressDot(bool),
    /// Capitalize the next word or not.
    Capitalize(bool),
    EndOfLine,
}

/// Encapsulates messages sent via `QueueAdapter`s.
pub struct FragmentEntry<Entity>(pub Fragment<Entity>);

/// Represents the gender & uncountability of an entity.
#[derive(Copy, Clone, Debug, PartialEq, Eq, Structural)]
pub enum Gender {
    Male,
    Female,
    Neuter,
    Plural,
    Uncountable,
}

} // verus!

//! The creatures that live in the maze.

use vstd::prelude::*;
use crate::Message;

pub mod lolibunny;

pub use lolibunny::LoliBunny;

verus! {

/// A creature that moves on its own between two frames.
pub trait Entity<State> {
    /// The next state of the creature, and what it asks of the model.
    fn tick(data: State) -> (State, Option<Message>);
}

} // verus!

//! A creature that stands still.

use vstd::prelude::*;
use crate::enemies::Entity;
use crate::{Message, Point};

verus! {

/// A billboard in the maze.
#[derive(Clone, Copy, Debug, PartialEq, Eq, Structural)]
pub struct LoliBunny {
    pub position: Point,
}

impl Entity<LoliBunny> for LoliBunny {
    fn tick(data: LoliBunny) -> (next: (LoliBunny, Option<Message>))
        ensures
            next.0 == data,
            next.1 is None,
    {
        (data, None)
    }
}

} // verus!

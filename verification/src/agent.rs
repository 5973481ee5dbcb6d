//! The baseline agent, which ignores the board and moves at random.

use vstd::prelude::*;
use crate::rng::gen_below;

verus! {

/// How many actions an agent chooses from: up, down, left, right.
pub const ACTION_COUNT: usize = 4;

/// An agent that picks every action at random.
pub struct RandomAgent;

impl RandomAgent {
    /// The agent; it has nothing to remember.
    pub fn new() -> (agent: Self) {
        RandomAgent
    }

    /// Picks one of the four actions; which one is left to the generator.
    pub fn act(&self) -> (action: usize)
        ensures
            action < ACTION_COUNT,
    {
        let mut rng = rand::thread_rng();
        gen_below(&mut rng, ACTION_COUNT)
    }
}

} // verus!

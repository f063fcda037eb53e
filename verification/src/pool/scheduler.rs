use vstd::prelude::*;

verus! {

/// How a pool is to pick the worker for the next task.
#[derive(Debug, Clone, Copy, PartialEq, Eq, Structural)]
pub enum Strategy {
    /// The workers take turns, in order.
    RoundRobin,
    /// The worker with the fewest pending tasks.
    LoadBased,
}

/// Picks workers for tasks. Whatever the strategy, it hands out the pool's
/// first worker for every task for now.
pub struct Scheduler {
    strategy: Strategy,
    current_worker: usize,
}

impl Scheduler {
    /// The strategy this scheduler was made for.
    pub closed spec fn strategy_of(&self) -> Strategy {
        self.strategy
    }

    /// The index of the worker whose turn it is.
    pub closed spec fn current(&self) -> usize {
        self.current_worker
    }

    /// A scheduler for `strategy`, starting at worker 0.
    pub fn new(strategy: Strategy) -> (s: Self)
        ensures
            s.strategy_of() == strategy,
            s.current() == 0,
    {
        Scheduler { strategy, current_worker: 0 }
    }

    /// The strategy this scheduler was made for.
    pub fn strategy(&self) -> (s: Strategy)
        ensures
            s == self.strategy_of(),
    {
        self.strategy
    }

    /// Picks the worker for the next task, given the number of pending tasks
    /// of each worker of the pool: always worker 0, leaving the scheduler as
    /// it is.
    pub fn schedule(&mut self, loads: &[usize]) -> (w: usize)
        ensures
            w == 0,
            final(self).strategy_of() == old(self).strategy_of(),
            final(self).current() == old(self).current(),
    {
        0
    }
}

} // verus!

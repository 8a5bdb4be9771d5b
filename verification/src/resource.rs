//! Pluggable resource limits: the executor consults a tracker at
//! allocation points and loop back-edges; on denial the run is
//! abandoned with a `ResourceError`, which is distinct from user
//! exceptions and not catchable inside the program.

use vstd::prelude::*;

verus! {

/// Why a run was denied further resources.
#[derive(Clone, Copy, Debug, PartialEq, Eq, Structural)]
pub enum ResourceError {
    /// The tracker denied another heap allocation.
    AllocationLimit,
    /// The tracker denied another execution step.
    StepLimit,
}

/// The embedder's policy for bounding a run.  The executor calls
/// `check_step` at loop back-edges and `check_alloc` before heap
/// allocations it makes on the program's behalf.
pub trait ResourceTracker {
    /// Accounts for one execution step; an error abandons the run.
    fn check_step(&mut self) -> Result<(), ResourceError>;

    /// Accounts for one heap allocation; an error abandons the run.
    fn check_alloc(&mut self) -> Result<(), ResourceError>;
}

/// The tracker that always allows.
pub struct NoLimitTracker;

impl ResourceTracker for NoLimitTracker {
    fn check_step(&mut self) -> (r: Result<(), ResourceError>)
        ensures
            r is Ok,
    {
        Ok(())
    }

    fn check_alloc(&mut self) -> (r: Result<(), ResourceError>)
        ensures
            r is Ok,
    {
        Ok(())
    }
}

/// A tracker with fixed budgets for steps and heap allocations.
pub struct LimitedTracker {
    pub max_steps: u64,
    pub max_heap_allocations: u64,
    pub steps: u64,
    pub allocations: u64,
}

impl LimitedTracker {
    /// A fresh tracker with the given budgets and nothing spent.
    pub fn new(max_steps: u64, max_heap_allocations: u64) -> (t: LimitedTracker)
        ensures
            t.max_steps == max_steps,
            t.max_heap_allocations == max_heap_allocations,
            t.steps == 0,
            t.allocations == 0,
    {
        LimitedTracker { max_steps, max_heap_allocations, steps: 0, allocations: 0 }
    }
}

impl ResourceTracker for LimitedTracker {
    /// Spends one step of the budget; denies once it is exhausted.
    fn check_step(&mut self) -> (r: Result<(), ResourceError>)
        ensures
            old(self).steps < old(self).max_steps ==> r is Ok && *final(self) == (LimitedTracker {
                steps: (old(self).steps + 1) as u64,
                ..*old(self)
            }),
            old(self).steps >= old(self).max_steps ==> r == Err::<(), ResourceError>(
                ResourceError::StepLimit,
            ) && *final(self) == *old(self),
    {
        if self.steps < self.max_steps {
            self.steps = self.steps + 1;
            Ok(())
        } else {
            Err(ResourceError::StepLimit)
        }
    }

    /// Spends one allocation of the budget; denies once it is
    /// exhausted.
    fn check_alloc(&mut self) -> (r: Result<(), ResourceError>)
        ensures
            old(self).allocations < old(self).max_heap_allocations ==> r is Ok && *final(self) == (
            LimitedTracker { allocations: (old(self).allocations + 1) as u64, ..*old(self) }),
            old(self).allocations >= old(self).max_heap_allocations ==> r == Err::<
                (),
                ResourceError,
            >(ResourceError::AllocationLimit) && *final(self) == *old(self),
    {
        if self.allocations < self.max_heap_allocations {
            self.allocations = self.allocations + 1;
            Ok(())
        } else {
            Err(ResourceError::AllocationLimit)
        }
    }
}

} // verus!

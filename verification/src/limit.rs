//! The optional limit on the number of tasks that a worker runs at once,
//! kept by a `tokio` semaphore with one permit per task.
use crate::error::Full;
use tokio::sync::{Semaphore, SemaphorePermit, TryAcquireError};
use vstd::prelude::*;

verus! {

#[verifier::external_type_specification]
#[verifier::external_body]
pub struct ExSemaphore(Semaphore);

#[verifier::external_type_specification]
#[verifier::external_body]
pub struct ExSemaphorePermit<'a>(SemaphorePermit<'a>);

#[verifier::external_type_specification]
#[verifier::external_body]
pub struct ExTryAcquireError(TryAcquireError);

/// The largest limit a semaphore accepts: `Semaphore::MAX_PERMITS`, which is
/// `usize::MAX >> 3`.
pub open spec fn max_task_limit() -> int {
    (usize::MAX / 8) as int
}

/// The number of permits that a semaphore was created with.
pub uninterp spec fn permits_at_creation(s: Semaphore) -> usize;

/// Calls `tokio::sync::Semaphore::new`, which asserts that the number of
/// permits is at most `MAX_PERMITS` (`usize::MAX >> 3`) and creates a
/// semaphore with that initial number of permits. The count it holds later
/// changes behind atomics, so only the initial number is stated.
#[verifier::external_body]
fn semaphore_new(permits: usize) -> (s: Semaphore)
    requires
        permits <= max_task_limit(),
    ensures
        permits_at_creation(s) == permits,
{
    Semaphore::new(permits)
}

/// Calls `tokio::sync::Semaphore::available_permits`. The count changes as
/// permits are taken and dropped, so nothing is stated of it.
#[verifier::external_body]
fn semaphore_available_permits(s: &Semaphore) -> (n: usize) {
    s.available_permits()
}

/// Calls `tokio::sync::Semaphore::try_acquire`, which takes one permit if one
/// is free. Whether it succeeds depends on the permits held elsewhere, so
/// nothing is stated of the outcome.
#[verifier::external_body]
fn semaphore_try_acquire<'a>(s: &'a Semaphore) -> (r: Result<SemaphorePermit<'a>, TryAcquireError>) {
    s.try_acquire()
}

/// What a failed attempt to take a task slot is answered with: a permit is
/// passed on, a refusal becomes `Full`.
pub fn permit_or_full<'a>(attempt: Result<SemaphorePermit<'a>, TryAcquireError>) -> (r: Result<
    SemaphorePermit<'a>,
    Full,
>)
    ensures
        match attempt {
            Ok(p) => r == Ok::<SemaphorePermit<'a>, Full>(p),
            Err(_) => r == Err::<SemaphorePermit<'a>, Full>(Full),
        },
{
    match attempt {
        Ok(p) => Ok(p),
        Err(_) => Err(Full),
    }
}

/// A worker's task limit: either none, or a semaphore with one permit per
/// task that may run at once.
pub struct TaskLimit {
    semaphore: Option<Semaphore>,
}

impl TaskLimit {
    /// Whether this limit bounds the number of tasks at all.
    pub closed spec fn is_bounded(&self) -> bool {
        self.semaphore is Some
    }

    /// The number of tasks this limit allows at once, as it was set; `None`
    /// for no limit.
    pub closed spec fn limit_of(&self) -> Option<usize> {
        match self.semaphore {
            Some(s) => Some(permits_at_creation(s)),
            None => None,
        }
    }

    /// A limit of `limit` tasks at once, or no limit for `None`. A limit above
    /// `usize::MAX >> 3` is refused by the semaphore, so it is excluded here.
    pub fn new(limit: Option<usize>) -> (t: Self)
        requires
            limit matches Some(l) ==> l <= max_task_limit(),
        ensures
            t.is_bounded() <==> limit is Some,
            t.limit_of() == limit,
    {
        match limit {
            Some(l) => TaskLimit { semaphore: Some(semaphore_new(l)) },
            None => TaskLimit { semaphore: None },
        }
    }

    /// The semaphore that keeps the limit, if there is one.
    pub fn semaphore(&self) -> (s: Option<&Semaphore>)
        ensures
            s is Some <==> self.is_bounded(),
            s matches Some(x) ==> self.limit_of() == Some(permits_at_creation(*x)),
    {
        match &self.semaphore {
            Some(s) => Some(s),
            None => None,
        }
    }

    /// The number of further tasks that may start now; `None` when there is no limit.
    pub fn capacity(&self) -> (c: Option<usize>)
        ensures
            c is Some <==> self.is_bounded(),
    {
        match &self.semaphore {
            Some(s) => Some(semaphore_available_permits(s)),
            None => None,
        }
    }

    /// Takes a task slot without waiting. With no limit this always succeeds
    /// and holds no permit; with a limit it holds one permit, or fails with
    /// `Full` when none is free.
    pub fn try_reserve(&self) -> (r: Result<Option<SemaphorePermit<'_>>, Full>)
        ensures
            !self.is_bounded() ==> r == Ok::<Option<SemaphorePermit<'_>>, Full>(None),
            r matches Ok(p) ==> (p is Some <==> self.is_bounded()),
    {
        match &self.semaphore {
            Some(s) => match permit_or_full(semaphore_try_acquire(s)) {
                Ok(p) => Ok(Some(p)),
                Err(e) => Err(e),
            },
            None => Ok(None),
        }
    }
}

} // verus!

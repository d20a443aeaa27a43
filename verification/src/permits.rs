//! The permits that limit how many invocations run at once.

use std::sync::Arc;
use vstd::prelude::*;

verus! {

/// The outside type `tokio::sync::Semaphore`, a stock of permits.
#[verifier::external_type_specification]
#[verifier::external_body]
pub struct ExSemaphore(tokio::sync::Semaphore);

/// The outside type `tokio::sync::OwnedSemaphorePermit`, a permit that goes
/// back when it is dropped.
#[verifier::external_type_specification]
#[verifier::external_body]
pub struct ExOwnedSemaphorePermit(tokio::sync::OwnedSemaphorePermit);

/// The outside type `tokio::sync::TryAcquireError`, why no permit was given.
#[verifier::external_type_specification]
#[verifier::external_body]
pub struct ExTryAcquireError(tokio::sync::TryAcquireError);

/// How many permits a semaphore was made with.
pub uninterp spec fn permits_made(semaphore: tokio::sync::Semaphore) -> nat;

/// The semaphore that a permit came from and goes back to, as
/// `tokio::sync::OwnedSemaphorePermit::semaphore` gives it.
pub uninterp spec fn permit_pool(
    permit: tokio::sync::OwnedSemaphorePermit,
) -> tokio::sync::Semaphore;

/// A stock of permits. Its semaphore is made here and handed to nobody, so
/// only the holder of one of its permits can reach it.
pub struct PermitPool {
    semaphore: Arc<tokio::sync::Semaphore>,
}

/// Calls `tokio::sync::Semaphore::new`, which makes a semaphore with that
/// many permits and panics above `Semaphore::MAX_PERMITS`, an eighth of
/// `usize::MAX`.
#[verifier::external_body]
fn new_semaphore(permits: usize) -> (semaphore: tokio::sync::Semaphore)
    requires
        permits <= usize::MAX / 8,
    ensures
        permits_made(semaphore) == permits,
{
    tokio::sync::Semaphore::new(permits)
}

/// Calls `tokio::sync::Semaphore::try_acquire_owned`. A permit that it gives
/// comes from the pool's semaphore. One that was made without permits gives
/// none: it could only get some from `add_permits`, and without a permit
/// nobody reaches it. Beyond that, whether a permit is left depends on who
/// holds the others just then, so nothing is claimed of it.
#[verifier::external_body]
fn try_acquire_owned(pool: &PermitPool) -> (acquired: Result<
    tokio::sync::OwnedSemaphorePermit,
    tokio::sync::TryAcquireError,
>)
    ensures
        acquired matches Ok(permit) ==> permit_pool(permit) == pool.semaphore(),
        permits_made(pool.semaphore()) == 0 ==> acquired is Err,
{
    pool.semaphore.clone().try_acquire_owned()
}

impl PermitPool {
    /// The semaphore that holds the permits.
    pub closed spec fn semaphore(self) -> tokio::sync::Semaphore {
        *self.semaphore
    }

    /// A pool of so many permits.
    pub fn new(permits: usize) -> (pool: Self)
        requires
            permits <= usize::MAX / 8,
        ensures
            permits_made(pool.semaphore()) == permits,
    {
        PermitPool { semaphore: Arc::new(new_semaphore(permits)) }
    }

    /// Takes a permit, if one is left.
    pub fn try_acquire(&self) -> (acquired: Result<
        tokio::sync::OwnedSemaphorePermit,
        tokio::sync::TryAcquireError,
    >)
        ensures
            acquired matches Ok(permit) ==> permit_pool(permit) == self.semaphore(),
            permits_made(self.semaphore()) == 0 ==> acquired is Err,
    {
        try_acquire_owned(self)
    }
}

impl Clone for PermitPool {
    /// The clone shares the permits.
    fn clone(&self) -> (twin: Self)
        ensures
            twin.semaphore() == self.semaphore(),
    {
        PermitPool { semaphore: self.semaphore.clone() }
    }
}

} // verus!

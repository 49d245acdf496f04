//! The reservation of one upstream usage attempt, held until the upstream
//! request has started, and the bounded retry policy that releases a
//! reservation whose owner went away.

use vstd::prelude::*;

verus! {

/// Owns a rate-attempt reservation until the corresponding upstream request
/// has actually started. While armed, dropping it must release the
/// reservation so that no quota row is left behind.
pub struct UpstreamUsageAttemptReservation<S> {
    key_store: S,
    reservation_id: Option<String>,
}

/// The next move of the detached cleanup of a dropped reservation.
#[derive(Debug, Clone, Copy, PartialEq, Eq, Structural)]
pub enum ReservationCleanupStep {
    /// The reservation was released; the cleanup is over.
    Released,
    /// Wait `delay_ms` milliseconds, then try release attempt `next_attempt`.
    RetryAfter { delay_ms: u64, next_attempt: usize },
    /// Give up and remember the reservation as abandoned.
    Abandon,
}

/// Delays between the cleanup's release attempts, in milliseconds.
pub open spec fn cleanup_retry_delay_ms(attempt: nat) -> u64 {
    if attempt == 0 { 20 } else if attempt == 1 { 50 } else if attempt == 2 { 100 } else { 200 }
}

/// Number of retries the cleanup makes after its first release attempt.
pub const RESERVATION_CLEANUP_RETRIES: usize = 4;

/// The cleanup's move after release attempt `attempt` (counting retries from
/// zero) succeeded or failed: a failure is retried after 20, 50, 100 and
/// 200 ms, and the cleanup gives up after the fourth retry failed.
pub open spec fn cleanup_step(attempt: nat, released: bool) -> ReservationCleanupStep {
    if released {
        ReservationCleanupStep::Released
    } else if attempt < RESERVATION_CLEANUP_RETRIES {
        ReservationCleanupStep::RetryAfter { delay_ms: cleanup_retry_delay_ms(attempt), next_attempt: (attempt + 1) as usize }
    } else {
        ReservationCleanupStep::Abandon
    }
}

impl<S> UpstreamUsageAttemptReservation<S> {
    /// The reservation still to release, if armed.
    pub closed spec fn pending(&self) -> Option<Seq<char>> {
        match self.reservation_id {
            Some(id) => Some(id@),
            None => None,
        }
    }

    /// The store through which the reservation is released.
    pub closed spec fn store(&self) -> S {
        self.key_store
    }

    /// An armed reservation of `reservation_id` in `key_store`.
    pub fn new(key_store: S, reservation_id: String) -> (r: Self)
        ensures
            r.pending() == Some(reservation_id@),
            r.store() == key_store,
    {
        UpstreamUsageAttemptReservation { key_store, reservation_id: Some(reservation_id) }
    }

    /// The store through which the reservation is released.
    pub fn key_store(&self) -> (r: &S)
        ensures
            *r == self.store(),
    {
        &self.key_store
    }

    /// The reservation still to release, if armed.
    pub fn armed_reservation_id(&self) -> (r: Option<&str>)
        ensures
            r matches Some(id) ==> self.pending() == Some(id@),
            r is None ==> self.pending() is None,
    {
        match &self.reservation_id {
            Some(id) => Some(id.as_str()),
            None => None,
        }
    }

    /// Marks the reservation as no longer owned: the request started, or the
    /// reservation was released.
    pub fn disarm(&mut self)
        ensures
            final(self).pending() is None,
            final(self).store() == old(self).store(),
    {
        self.reservation_id = None;
    }

    /// Takes the reservation out for a detached cleanup, leaving this one
    /// disarmed.
    pub fn take_for_cleanup(&mut self) -> (r: Option<String>)
        ensures
            final(self).pending() is None,
            final(self).store() == old(self).store(),
            r matches Some(id) ==> old(self).pending() == Some(id@),
            r is None ==> old(self).pending() is None,
    {
        let taken = match &self.reservation_id {
            Some(id) => Some(id.clone()),
            None => None,
        };
        self.reservation_id = None;
        taken
    }
}

/// The cleanup's move after a release attempt; see `cleanup_step`.
pub fn reservation_cleanup_step(attempt: usize, released: bool) -> (r: ReservationCleanupStep)
    requires
        attempt <= RESERVATION_CLEANUP_RETRIES,
    ensures
        r == cleanup_step(attempt as nat, released),
{
    if released {
        ReservationCleanupStep::Released
    } else if attempt < RESERVATION_CLEANUP_RETRIES {
        let delay_ms: u64 = if attempt == 0 { 20 } else if attempt == 1 { 50 } else if attempt == 2 { 100 } else { 200 };
        ReservationCleanupStep::RetryAfter { delay_ms, next_attempt: attempt + 1 }
    } else {
        ReservationCleanupStep::Abandon
    }
}

/// The cleanup's state after `k` failed release attempts from the start,
/// or `None` once it has given up.
pub open spec fn attempt_after_failures(k: nat) -> Option<nat>
    decreases k,
{
    if k == 0 {
        Some(0)
    } else {
        match attempt_after_failures((k - 1) as nat) {
            Some(a) => match cleanup_step(a, false) {
                ReservationCleanupStep::RetryAfter { next_attempt, .. } => Some(next_attempt as nat),
                _ => None,
            },
            None => None,
        }
    }
}

/// Total time the cleanup waits before release attempt `k`.
pub open spec fn waited_before_attempt(k: nat) -> int
    decreases k,
{
    if k == 0 { 0 } else { waited_before_attempt((k - 1) as nat) + cleanup_retry_delay_ms((k - 1) as nat) }
}

/// A cleanup that keeps failing makes exactly five release attempts, waits
/// 370 ms in all, then gives the reservation up as abandoned.
pub proof fn lemma_cleanup_gives_up_after_five_attempts()
    ensures
        attempt_after_failures(4) == Some(4nat),
        attempt_after_failures(5) is None,
        cleanup_step(4, false) == ReservationCleanupStep::Abandon,
        waited_before_attempt(4) == 370,
{
    reveal_with_fuel(attempt_after_failures, 6);
    reveal_with_fuel(waited_before_attempt, 5);
}

} // verus!

//! Retries with a backoff schedule that several operations share.

use vstd::prelude::*;

verus! {

/// A schedule of waits between retries, in milliseconds.
pub trait Backoff: Sized {
    /// Whether the schedule, as it stands, may give `wait` and then stand as `after`. A
    /// schedule that says nothing more allows every step.
    open spec fn may_step(&self, after: Self, wait: Option<u64>) -> bool {
        true
    }

    /// The wait before the next retry, or `None` once the schedule is exhausted.
    fn next_backoff(&mut self) -> (r: Option<u64>)
        ensures
            old(self).may_step(*final(self), r),
    ;
}

/// How an attempt failed.
#[derive(Debug, Clone, PartialEq, Eq)]
pub enum RetryError<E> {
    /// The attempt may succeed if tried again.
    Transient(E),
    /// Trying again will not help.
    Permanent(E),
}

/// What to do after an attempt.
#[derive(Debug, PartialEq, Eq)]
pub enum RetryStep<T, E> {
    /// Stop with this outcome.
    Done(Result<T, E>),
    /// Try again after waiting this many milliseconds.
    RetryAfter(u64),
}

/// A borrowed backoff schedule, so that the same retry context can be kept across several
/// operations.
pub struct BackoffRef<'b, B: Backoff>(&'b mut B);

impl<'b, B: Backoff> BackoffRef<'b, B> {
    /// The borrowed schedule as it stands now.
    pub closed spec fn schedule(&self) -> B {
        *self.0
    }

    /// The borrow itself.
    pub closed spec fn borrowed(&self) -> &'b mut B {
        self.0
    }

    /// Borrows the schedule.
    pub fn new(backoff: &'b mut B) -> (r: Self)
        ensures
            r.schedule() == *old(backoff),
            *final(r.borrowed()) == *final(backoff),
    {
        BackoffRef(backoff)
    }

    /// What follows an attempt: a success is returned, a permanent failure too; a transient
    /// failure is retried after the schedule's next wait, or returned once the schedule is
    /// exhausted.
    pub fn next_step<T, E>(&mut self, outcome: Result<T, RetryError<E>>) -> (r: RetryStep<T, E>)
        ensures
            outcome matches Ok(v) ==> r == RetryStep::<T, E>::Done(Ok(v)) && final(self).schedule()
                == old(self).schedule(),
            outcome matches Err(RetryError::Permanent(e)) ==> r == RetryStep::<T, E>::Done(Err(e))
                && final(self).schedule() == old(self).schedule(),
            outcome matches Err(RetryError::Transient(e)) ==> match r {
                RetryStep::RetryAfter(wait) => old(self).schedule().may_step(
                    final(self).schedule(),
                    Some(wait),
                ),
                RetryStep::Done(res) => res == Err::<T, E>(e) && old(self).schedule().may_step(
                    final(self).schedule(),
                    None,
                ),
            },
            *final(final(self).borrowed()) == *final(old(self).borrowed()),
    {
        match outcome {
            Ok(v) => RetryStep::Done(Ok(v)),
            Err(RetryError::Permanent(e)) => RetryStep::Done(Err(e)),
            Err(RetryError::Transient(e)) => match self.0.next_backoff() {
                Some(wait) => RetryStep::RetryAfter(wait),
                None => RetryStep::Done(Err(e)),
            },
        }
    }
}

impl<'b, B: Backoff> Backoff for BackoffRef<'b, B> {
    /// A step of the borrowed schedule.
    open spec fn may_step(&self, after: Self, wait: Option<u64>) -> bool {
        self.schedule().may_step(after.schedule(), wait)
    }

    /// The borrowed schedule's next wait; the schedule takes that step.
    fn next_backoff(&mut self) -> (r: Option<u64>)
        ensures
            old(self).schedule().may_step(final(self).schedule(), r),
            *final(final(self).borrowed()) == *final(old(self).borrowed()),
    {
        self.0.next_backoff()
    }
}

/// The borrowed schedule carries on from where the wrapper left it: once the wrapper is done
/// with, the borrow ends on the schedule as the wrapper last held it, which `new` ties to the
/// schedule that was borrowed.
pub proof fn law_schedule_carries_on<'b, B: Backoff>(r: BackoffRef<'b, B>)
    requires
        has_resolved(r),
    ensures
        *final(r.borrowed()) == r.schedule(),
{
}

} // verus!

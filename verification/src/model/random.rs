//! Where the random durations come from.

use vstd::prelude::*;
use std::collections::VecDeque;
use crate::model::{ModelError, Time};

verus! {

/// Why a source handed out no duration.
#[derive(Clone, Copy, Debug, PartialEq, Eq, Structural)]
pub enum SampleError {
    /// The distribution does not exist for the parameters given.
    InvalidParameters,
    /// The draw cannot be placed on the clock: it is not a number, negative,
    /// or beyond the last tick.
    NotATime,
}

/// A source of random durations, in ticks.
///
/// Nothing is promised of what a source returns: each caller in this crate is
/// verified for every answer.
pub trait RandomSource {
    /// A draw from the Rayleigh distribution with scale `sigma`.
    fn rayleigh(&mut self, sigma: Time) -> Result<Time, SampleError>;

    /// A draw from the log-normal distribution whose mean is `mean` and whose
    /// spread is `sigma`.
    fn log_normal(&mut self, mean: Time, sigma: Time) -> Result<Time, SampleError>;

    /// Whether there is a log-normal distribution whose mean is `mean` and
    /// whose spread is `sigma`.
    fn has_log_normal(&self, mean: Time, sigma: Time) -> bool;
}

/// The engine's error for a failed draw.
pub open spec fn draw_error(e: SampleError) -> ModelError {
    match e {
        SampleError::InvalidParameters => ModelError::InvalidDistributionParameters,
        SampleError::NotATime => ModelError::NonTotalOrder,
    }
}

/// Turns the answer of a source into the engine's terms.
pub fn drawn(answer: Result<Time, SampleError>) -> (r: Result<Time, ModelError>)
    ensures
        r == match answer {
            Ok(d) => Ok::<Time, ModelError>(d),
            Err(e) => Err(draw_error(e)),
        },
{
    match answer {
        Ok(d) => Ok(d),
        Err(SampleError::InvalidParameters) => Err(ModelError::InvalidDistributionParameters),
        Err(SampleError::NotATime) => Err(ModelError::NonTotalOrder),
    }
}

/// A source that plays back recorded durations, whatever the distribution
/// asked for, and fails once they are used up. It knows a log-normal
/// distribution for every mean and spread.
#[derive(Clone, Debug)]
pub struct Replay {
    draws: VecDeque<Time>,
}

impl View for Replay {
    type V = Seq<Time>;

    /// The durations not yet handed out, next first.
    closed spec fn view(&self) -> Seq<Time> {
        self.draws@
    }
}

impl Replay {
    /// A source that will hand out `draws` in order.
    pub fn new(draws: Vec<Time>) -> (r: Self)
        ensures
            r@ == draws@,
    {
        let mut queue: VecDeque<Time> = VecDeque::new();
        let mut i: usize = 0;
        while i < draws.len()
            invariant
                i <= draws.len(),
                queue@ == draws@.take(i as int),
            decreases draws.len() - i,
        {
            queue.push_back(draws[i]);
            i += 1;
        }
        Replay { draws: queue }
    }

    /// How many durations are left.
    pub fn remaining(&self) -> (n: usize)
        ensures
            n == self@.len(),
    {
        self.draws.len()
    }

    /// The next recorded duration, which leaves the record.
    pub fn next(&mut self) -> (r: Result<Time, SampleError>)
        ensures
            old(self)@.len() > 0 ==> r == Ok::<Time, SampleError>(old(self)@[0])
                && final(self)@ == old(self)@.drop_first(),
            old(self)@.len() == 0 ==> r == Err::<Time, SampleError>(SampleError::NotATime)
                && final(self)@ == old(self)@,
    {
        match self.draws.pop_front() {
            Some(d) => {
                Ok(d)
            },
            None => Err(SampleError::NotATime),
        }
    }
}

impl RandomSource for Replay {
    fn rayleigh(&mut self, sigma: Time) -> (r: Result<Time, SampleError>)
        ensures
            old(self)@.len() > 0 ==> r == Ok::<Time, SampleError>(old(self)@[0])
                && final(self)@ == old(self)@.drop_first(),
            old(self)@.len() == 0 ==> r == Err::<Time, SampleError>(SampleError::NotATime)
                && final(self)@ == old(self)@,
    {
        self.next()
    }

    fn log_normal(&mut self, mean: Time, sigma: Time) -> (r: Result<Time, SampleError>)
        ensures
            old(self)@.len() > 0 ==> r == Ok::<Time, SampleError>(old(self)@[0])
                && final(self)@ == old(self)@.drop_first(),
            old(self)@.len() == 0 ==> r == Err::<Time, SampleError>(SampleError::NotATime)
                && final(self)@ == old(self)@,
    {
        self.next()
    }

    fn has_log_normal(&self, mean: Time, sigma: Time) -> (known: bool)
        ensures
            known,
    {
        true
    }
}

} // verus!

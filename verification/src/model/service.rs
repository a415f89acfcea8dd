//! The server: a clock that names the time at which its job completes, and
//! the time it has spent on completed jobs.

use vstd::prelude::*;
use crate::model::{ModelError, Time, TICKS_PER_UNIT};
use crate::model::random::{drawn, RandomSource};

verus! {

/// What a server holds.
pub struct ServiceState {
    /// The time at which the job in hand was taken up.
    pub last_event: Time,
    /// The time at which the job in hand completes.
    pub next_event: Time,
    /// The durations of the jobs before the one in hand, added up.
    pub busy_time: Time,
    /// The mean of the log-normal distribution of the service times, in ticks.
    pub mean: Time,
    /// The spread of that distribution.
    pub sigma: Time,
}

impl ServiceState {
    /// Both parameters are positive and the job in hand does not end before
    /// it began.
    pub open spec fn well_formed(self) -> bool {
        self.mean > 0 && self.sigma > 0 && self.last_event <= self.next_event
    }

    /// A server that has not worked yet.
    pub open spec fn fresh(mean: Time, sigma: Time) -> ServiceState {
        ServiceState { last_event: 0, next_event: 0, busy_time: 0, mean, sigma }
    }

    /// The duration of the job in hand.
    pub open spec fn job(self) -> int {
        self.next_event - self.last_event
    }

    /// The time from which a move counts: the one forced from outside, or
    /// else the completion that was next.
    pub open spec fn resumed_at(self, time_override: Option<Time>) -> Time {
        match time_override {
            Some(t) => t,
            None => self.next_event,
        }
    }

    /// Whether taking up a job of `service_time` is refused: the busy time or
    /// the completion would leave the clock.
    pub open spec fn refused(self, time_override: Option<Time>, service_time: Time) -> bool {
        self.busy_time + self.job() > Time::MAX || self.resumed_at(time_override) + service_time
            > Time::MAX
    }

    /// The server after it took up a job of `service_time`: the job that was
    /// in hand counts as done.
    pub open spec fn advanced(self, time_override: Option<Time>, service_time: Time)
        -> ServiceState {
        ServiceState {
            last_event: self.resumed_at(time_override),
            next_event: (self.resumed_at(time_override) + service_time) as Time,
            busy_time: (self.busy_time + self.job()) as Time,
            mean: self.mean,
            sigma: self.sigma,
        }
    }

    /// The server as it is before its first job, with the same distribution.
    pub open spec fn cleared(self) -> ServiceState {
        ServiceState::fresh(self.mean, self.sigma)
    }
}

/// The mean service time, in ticks, of a server that completes `intensity`
/// jobs per unit of time, the intensity in millionths.
pub open spec fn mean_of_intensity(intensity: u64) -> Option<Time> {
    if intensity == 0 {
        None
    } else {
        Some((TICKS_PER_UNIT * TICKS_PER_UNIT / intensity as int) as Time)
    }
}

/// A server with log-normal service times.
#[derive(Clone, Copy, Debug)]
pub struct NormalService {
    last_event: Time,
    next_event: Time,
    busy_time: Time,
    mean: Time,
    sigma: Time,
}

impl View for NormalService {
    type V = ServiceState;

    closed spec fn view(&self) -> ServiceState {
        ServiceState {
            last_event: self.last_event,
            next_event: self.next_event,
            busy_time: self.busy_time,
            mean: self.mean,
            sigma: self.sigma,
        }
    }
}

impl NormalService {
    #[verifier::type_invariant]
    closed spec fn holds(self) -> bool {
        self.mean > 0 && self.sigma > 0 && self.last_event <= self.next_event
    }

    /// A server that has not worked yet, whose service times have the mean
    /// `mean` and the spread `sigma`, where `exists` says whether there is
    /// such a distribution. Neither parameter may be zero.
    pub fn with_distribution(mean: Time, sigma: Time, exists: bool) -> (r: Result<
        Self,
        ModelError,
    >)
        ensures
            r is Ok <==> mean > 0 && sigma > 0 && exists,
            r is Ok ==> r->Ok_0@ == ServiceState::fresh(mean, sigma),
            r is Err ==> r->Err_0 == ModelError::InvalidDistributionParameters,
    {
        if mean == 0 || sigma == 0 || !exists {
            Err(ModelError::InvalidDistributionParameters)
        } else {
            Ok(NormalService { last_event: 0, next_event: 0, busy_time: 0, mean, sigma })
        }
    }

    /// A server that has not worked yet, whose service times have the mean
    /// `mean` and the spread `sigma`. A parameter of zero is refused before
    /// the source is asked; otherwise the source says whether there is such
    /// a distribution, and there is no server where there is none.
    pub fn new<R: RandomSource>(mean: Time, sigma: Time, rng: &R) -> (r: Result<Self, ModelError>)
        ensures
            mean == 0 || sigma == 0 ==> r is Err,
            r is Ok ==> r->Ok_0@ == ServiceState::fresh(mean, sigma),
            r is Err ==> r->Err_0 == ModelError::InvalidDistributionParameters,
    {
        if mean == 0 || sigma == 0 {
            return Err(ModelError::InvalidDistributionParameters);
        }
        Self::with_distribution(mean, sigma, rng.has_log_normal(mean, sigma))
    }

    /// The mean service time for a given intensity.
    pub fn i2p(intensity: u64) -> (mean: Option<Time>)
        ensures
            mean == mean_of_intensity(intensity),
    {
        if intensity == 0 {
            None
        } else {
            Some(1_000_000_000_000 / intensity)
        }
    }

    /// A server that completes `intensity` jobs per unit of time, in
    /// millionths, with the spread `sigma`. An intensity of zero, or one so
    /// high that the mean is under one tick, is refused, and so is a zero
    /// spread, each before the source is asked; otherwise the source says
    /// whether there is such a distribution.
    pub fn from_intensity<R: RandomSource>(intensity: u64, sigma: Time, rng: &R) -> (r: Result<
        Self,
        ModelError,
    >)
        ensures
            intensity == 0 || intensity > TICKS_PER_UNIT * TICKS_PER_UNIT || sigma == 0 ==> r
                is Err,
            r is Ok ==> Some(r->Ok_0@.mean) == mean_of_intensity(intensity) && r->Ok_0@
                == ServiceState::fresh(r->Ok_0@.mean, sigma),
            r is Err ==> r->Err_0 == ModelError::InvalidDistributionParameters,
    {
        match Self::i2p(intensity) {
            Some(mean) => {
                proof {
                    let n = TICKS_PER_UNIT as int * TICKS_PER_UNIT as int;
                    if intensity > n {
                        vstd::arithmetic::div_mod::lemma_basic_div(n, intensity as int);
                    }
                }
                Self::new(mean, sigma, rng)
            },
            None => Err(ModelError::InvalidDistributionParameters),
        }
    }

    /// The time spent on the jobs before the one in hand.
    pub fn was_busy_for(&self) -> (t: Time)
        ensures
            t == self@.busy_time,
    {
        self.busy_time
    }

    /// The time at which the job in hand was taken up.
    pub fn last_event(&self) -> (t: Time)
        ensures
            t == self@.last_event,
    {
        self.last_event
    }

    /// The time at which the job in hand completes.
    pub fn next_event(&self) -> (t: Time)
        ensures
            t == self@.next_event,
            self@.well_formed(),
    {
        proof {
            use_type_invariant(self);
        }
        self.next_event
    }

    /// The mean of the service times.
    pub fn mean(&self) -> (m: Time)
        ensures
            m == self@.mean,
    {
        self.mean
    }

    /// The spread of the service times.
    pub fn sigma(&self) -> (s: Time)
        ensures
            s == self@.sigma,
    {
        self.sigma
    }

    /// The server after it took up a job of `service_time` at the forced
    /// time, or else at the completion of the job in hand; `self` is not
    /// changed.
    pub fn advanced(&self, time_override: Option<Time>, service_time: Time) -> (r: Result<
        Self,
        ModelError,
    >)
        ensures
            r is Ok <==> !self@.refused(time_override, service_time),
            r is Ok ==> r->Ok_0@ == self@.advanced(time_override, service_time),
            r is Err ==> r->Err_0 == ModelError::Overflow,
    {
        proof {
            use_type_invariant(self);
        }
        let job = self.next_event - self.last_event;
        let start = match time_override {
            Some(t) => t,
            None => self.next_event,
        };
        match (self.busy_time.checked_add(job), start.checked_add(service_time)) {
            (Some(busy_time), Some(next_event)) => Ok(
                NormalService {
                    last_event: start,
                    next_event,
                    busy_time,
                    mean: self.mean,
                    sigma: self.sigma,
                },
            ),
            _ => Err(ModelError::Overflow),
        }
    }

    /// Takes up a job of `service_time`. A refused move changes nothing.
    pub fn advance_by(&mut self, time_override: Option<Time>, service_time: Time) -> (r: Result<
        (),
        ModelError,
    >)
        ensures
            r is Ok <==> !old(self)@.refused(time_override, service_time),
            r is Ok ==> final(self)@ == old(self)@.advanced(time_override, service_time),
            r is Err ==> r->Err_0 == ModelError::Overflow && final(self)@ == old(self)@,
    {
        let moved = self.advanced(time_override, service_time)?;
        *self = moved;
        Ok(())
    }

    /// Takes up a job whose duration is drawn from `rng`. A failed draw or a
    /// refused move changes nothing.
    pub fn advance<R: RandomSource>(&mut self, time_override: Option<Time>, rng: &mut R) -> (r:
        Result<(), ModelError>)
        ensures
            match r {
                Ok(_) => final(self)@.last_event == old(self)@.resumed_at(time_override)
                    && final(self)@.next_event >= final(self)@.last_event && final(self)@.busy_time
                    == old(self)@.busy_time + old(self)@.job() && final(self)@.mean == old(
                    self)@.mean && final(self)@.sigma == old(self)@.sigma,
                Err(e) => final(self)@ == old(self)@ && e != ModelError::EmptySystem,
            },
    {
        proof {
            use_type_invariant(&*self);
        }
        let service_time = drawn(rng.log_normal(self.mean, self.sigma))?;
        self.advance_by(time_override, service_time)
    }

    /// Puts the server back to where it was before its first job.
    pub fn reset(&mut self)
        ensures
            final(self)@ == old(self)@.cleared(),
    {
        proof {
            use_type_invariant(&*self);
        }
        *self = NormalService {
            last_event: 0,
            next_event: 0,
            busy_time: 0,
            mean: self.mean,
            sigma: self.sigma,
        };
    }
}

} // verus!

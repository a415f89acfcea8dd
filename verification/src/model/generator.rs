//! The arrival process: a clock that names the time of the next arrival.

use vstd::prelude::*;
use crate::model::{ModelError, Time};
use crate::model::random::{drawn, RandomSource};

verus! {

/// What an arrival process holds.
pub struct ArrivalState {
    /// The time of the arrival before the next one.
    pub last_event: Time,
    /// The time of the next arrival.
    pub next_event: Time,
    /// The scale of the Rayleigh distribution of the gaps, in ticks.
    pub sigma: Time,
}

impl ArrivalState {
    /// The scale is positive and the next arrival lies strictly after the
    /// last one.
    pub open spec fn well_formed(self) -> bool {
        self.sigma > 0 && self.last_event < self.next_event
    }

    /// The time from which a move counts: the one forced from outside, or
    /// else the arrival that was next.
    pub open spec fn resumed_at(self, time_override: Option<Time>) -> Time {
        match time_override {
            Some(t) => t,
            None => self.next_event,
        }
    }

    /// Why a move by `gap` is refused, if it is.
    pub open spec fn refusal(self, time_override: Option<Time>, gap: Time) -> Option<ModelError> {
        if gap == 0 {
            Some(ModelError::NonTotalOrder)
        } else if self.resumed_at(time_override) + gap > Time::MAX {
            Some(ModelError::Overflow)
        } else {
            None
        }
    }

    /// The process after a move by `gap`.
    pub open spec fn advanced(self, time_override: Option<Time>, gap: Time) -> ArrivalState {
        ArrivalState {
            last_event: self.resumed_at(time_override),
            next_event: (self.resumed_at(time_override) + gap) as Time,
            sigma: self.sigma,
        }
    }
}

/// Why no arrival process starts with scale `sigma`, a first arrival at
/// `first` and the second one `gap` later, if none does.
pub open spec fn start_refusal(sigma: Time, first: Time, gap: Time) -> Option<ModelError> {
    if sigma == 0 {
        Some(ModelError::InvalidDistributionParameters)
    } else if gap == 0 {
        Some(ModelError::NonTotalOrder)
    } else if first + gap > Time::MAX {
        Some(ModelError::Overflow)
    } else {
        None
    }
}

/// The scale, in ticks, of an arrival process with `intensity` arrivals per
/// unit of time, the intensity in millionths: the Rayleigh mean is the scale
/// times the square root of pi/2, so the scale is `RAYLEIGH_SCALE / intensity`.
pub open spec fn scale_of_intensity(intensity: u64) -> Option<Time> {
    if intensity == 0 {
        None
    } else {
        Some(RAYLEIGH_SCALE / intensity)
    }
}

/// Ticks per unit, times a million, divided by the square root of pi/2, and
/// rounded down.
pub const RAYLEIGH_SCALE: u64 = 797_884_560_802;

/// An arrival process with Rayleigh gaps.
#[derive(Clone, Copy, Debug)]
pub struct RayleighGenerator {
    last_event: Time,
    next_event: Time,
    sigma: Time,
}

impl View for RayleighGenerator {
    type V = ArrivalState;

    closed spec fn view(&self) -> ArrivalState {
        ArrivalState { last_event: self.last_event, next_event: self.next_event, sigma: self.sigma }
    }
}

impl RayleighGenerator {
    #[verifier::type_invariant]
    closed spec fn holds(self) -> bool {
        self.sigma > 0 && self.last_event < self.next_event
    }

    /// The process with scale `sigma` whose first arrival is at `first` and
    /// whose second follows `gap` later.
    pub fn starting_at(sigma: Time, first: Time, gap: Time) -> (r: Result<Self, ModelError>)
        ensures
            match r {
                Ok(g) => start_refusal(sigma, first, gap).is_none() && g@ == (ArrivalState {
                    last_event: first,
                    next_event: (first + gap) as Time,
                    sigma,
                }) && g@.well_formed(),
                Err(e) => start_refusal(sigma, first, gap) == Some(e),
            },
    {
        if sigma == 0 {
            return Err(ModelError::InvalidDistributionParameters);
        }
        if gap == 0 {
            return Err(ModelError::NonTotalOrder);
        }
        match first.checked_add(gap) {
            Some(next_event) => Ok(RayleighGenerator { last_event: first, next_event, sigma }),
            None => Err(ModelError::Overflow),
        }
    }

    /// A process with scale `sigma`, its first two arrivals drawn from
    /// `rng`. A zero scale is refused before anything is drawn.
    pub fn new<R: RandomSource>(sigma: Time, rng: &mut R) -> (r: Result<Self, ModelError>)
        ensures
            sigma == 0 ==> r == Err::<Self, ModelError>(ModelError::InvalidDistributionParameters),
            match r {
                Ok(g) => g@.well_formed() && g@.sigma == sigma,
                Err(e) => e != ModelError::EmptySystem,
            },
    {
        if sigma == 0 {
            return Err(ModelError::InvalidDistributionParameters);
        }
        let first = drawn(rng.rayleigh(sigma))?;
        let gap = drawn(rng.rayleigh(sigma))?;
        Self::starting_at(sigma, first, gap)
    }

    /// The scale for a given intensity.
    pub fn i2p(intensity: u64) -> (sigma: Option<Time>)
        ensures
            sigma == scale_of_intensity(intensity),
    {
        if intensity == 0 {
            None
        } else {
            Some(RAYLEIGH_SCALE / intensity)
        }
    }

    /// A process with `intensity` arrivals per unit of time, in millionths.
    /// An intensity of zero, or one so high that the scale is under one
    /// tick, is refused before anything is drawn.
    pub fn from_intensity<R: RandomSource>(intensity: u64, rng: &mut R) -> (r: Result<
        Self,
        ModelError,
    >)
        ensures
            intensity == 0 || intensity > RAYLEIGH_SCALE ==> r == Err::<Self, ModelError>(
                ModelError::InvalidDistributionParameters,
            ),
            match r {
                Ok(g) => g@.well_formed() && Some(g@.sigma) == scale_of_intensity(intensity),
                Err(e) => e != ModelError::EmptySystem,
            },
    {
        match Self::i2p(intensity) {
            Some(sigma) => {
                proof {
                    if intensity > RAYLEIGH_SCALE {
                        vstd::arithmetic::div_mod::lemma_basic_div(
                            RAYLEIGH_SCALE as int,
                            intensity as int,
                        );
                    }
                }
                Self::new(sigma, rng)
            },
            None => Err(ModelError::InvalidDistributionParameters),
        }
    }

    /// The time of the arrival before the next one.
    pub fn last_event(&self) -> (t: Time)
        ensures
            t == self@.last_event,
    {
        self.last_event
    }

    /// The time of the next arrival.
    pub fn next_event(&self) -> (t: Time)
        ensures
            t == self@.next_event,
            self@.well_formed(),
    {
        proof {
            use_type_invariant(self);
        }
        self.next_event
    }

    /// The scale of the gaps.
    pub fn sigma(&self) -> (s: Time)
        ensures
            s == self@.sigma,
    {
        self.sigma
    }

    /// The process moved on by `gap`, from the forced time or else from its
    /// next arrival; `self` is not changed.
    pub fn advanced(&self, time_override: Option<Time>, gap: Time) -> (r: Result<Self, ModelError>)
        ensures
            match r {
                Ok(g) => self@.refusal(time_override, gap).is_none() && g@ == self@.advanced(
                    time_override,
                    gap,
                ),
                Err(e) => self@.refusal(time_override, gap) == Some(e),
            },
            r is Ok ==> r->Ok_0@.well_formed(),
    {
        proof {
            use_type_invariant(self);
        }
        if gap == 0 {
            return Err(ModelError::NonTotalOrder);
        }
        let start = match time_override {
            Some(t) => t,
            None => self.next_event,
        };
        match start.checked_add(gap) {
            Some(next_event) => Ok(
                RayleighGenerator { last_event: start, next_event, sigma: self.sigma },
            ),
            None => Err(ModelError::Overflow),
        }
    }

    /// Moves the process on by `gap`. A refused move changes nothing.
    pub fn advance_by(&mut self, time_override: Option<Time>, gap: Time) -> (r: Result<
        (),
        ModelError,
    >)
        ensures
            match r {
                Ok(_) => old(self)@.refusal(time_override, gap).is_none() && final(self)@
                    == old(self)@.advanced(time_override, gap),
                Err(e) => old(self)@.refusal(time_override, gap) == Some(e) && final(self)@
                    == old(self)@,
            },
    {
        let moved = self.advanced(time_override, gap)?;
        *self = moved;
        Ok(())
    }

    /// Moves the process on by a gap drawn from `rng`. A failed draw or a
    /// refused move changes nothing.
    pub fn advance<R: RandomSource>(&mut self, time_override: Option<Time>, rng: &mut R) -> (r:
        Result<(), ModelError>)
        ensures
            match r {
                Ok(_) => final(self)@.last_event == old(self)@.resumed_at(time_override)
                    && final(self)@.well_formed() && final(self)@.sigma == old(self)@.sigma,
                Err(e) => final(self)@ == old(self)@ && e != ModelError::EmptySystem,
            },
    {
        proof {
            use_type_invariant(&*self);
        }
        let gap = drawn(rng.rayleigh(self.sigma))?;
        self.advance_by(time_override, gap)
    }

    /// Starts the process anew at `first`, with the second arrival `gap`
    /// later. A refused start changes nothing.
    pub fn reset_to(&mut self, first: Time, gap: Time) -> (r: Result<(), ModelError>)
        ensures
            match r {
                Ok(_) => start_refusal(old(self)@.sigma, first, gap).is_none() && final(self)@ == (
                ArrivalState {
                    last_event: first,
                    next_event: (first + gap) as Time,
                    sigma: old(self)@.sigma,
                }),
                Err(e) => start_refusal(old(self)@.sigma, first, gap) == Some(e) && final(self)@
                    == old(self)@,
            },
    {
        let fresh = Self::starting_at(self.sigma, first, gap)?;
        *self = fresh;
        Ok(())
    }

    /// Starts the process anew, its first two arrivals drawn from `rng`. A
    /// failed draw or a refused start changes nothing.
    pub fn reset<R: RandomSource>(&mut self, rng: &mut R) -> (r: Result<(), ModelError>)
        ensures
            match r {
                Ok(_) => final(self)@.well_formed() && final(self)@.sigma == old(self)@.sigma,
                Err(e) => final(self)@ == old(self)@ && e != ModelError::EmptySystem,
            },
    {
        let first = drawn(rng.rayleigh(self.sigma))?;
        let gap = drawn(rng.rayleigh(self.sigma))?;
        self.reset_to(first, gap)
    }
}

} // verus!

//! The simulation engine: arrival processes, servers, the order of their
//! events, and the counters of one run.

use vstd::prelude::*;
use std::collections::VecDeque;
use crate::model::generator::RayleighGenerator;
use crate::model::random::{drawn, RandomSource};
use crate::model::schedule::{lemma_servers_in_bound, Entry, Schedule};
use crate::model::service::NormalService;
use crate::model::invariants::{
    lemma_begun_well_formed, lemma_replayed_push, lemma_step_decreases, lemma_step_timely,
    lemma_step_well_formed, lemma_timely_load, lemma_well_formed_counts,
};
use crate::model::state::{
    averaged, not_before, run_of, seeded, sum_load, sum_time, total_busy, Demand, ModelView,
    LOAD_ONE,
};
use crate::model::unit::Unit;

pub mod generator;
pub mod invariants;
pub mod random;
pub mod schedule;
pub mod service;
pub mod state;
pub mod unit;

verus! {

/// A point in time or a duration, in ticks.
pub type Time = u64;

/// Ticks in one unit of time; also the denominator of a rate.
pub const TICKS_PER_UNIT: u64 = 1_000_000;

/// Why a call of the engine failed.
#[derive(Clone, Copy, Debug, PartialEq, Eq, Structural)]
pub enum ModelError {
    /// A run needs an arrival process and a server, and an average needs a
    /// replication.
    EmptySystem,
    /// A distribution parameter is zero, or the source of draws refused it.
    InvalidDistributionParameters,
    /// A draw was no time at all, or an arrival process would not have moved
    /// strictly forward.
    NonTotalOrder,
    /// A time or a counter left the range of its integer type.
    Overflow,
}

/// What a model is made with.
#[derive(Clone, Copy, Debug, PartialEq, Eq, Structural)]
pub struct ModelParams {
    /// The horizon of a run, in ticks.
    pub model_time: Time,
}

/// What a run leaves behind.
#[derive(Clone, Copy, Debug, PartialEq, Eq, Structural)]
pub struct ModelResult {
    /// How many requests arrived.
    pub requests_total: usize,
    /// How many requests were served to the end.
    pub requests_handled: usize,
    /// The time that the requests taken up from the wait queue had spent in
    /// it, added up.
    pub request_queue_time: Time,
    /// The load of the servers, in millionths.
    pub load_avg: u64,
}

/// What a row of runs gave on the average.
#[derive(Clone, Copy, Debug, PartialEq, Eq, Structural)]
pub struct Averages {
    /// The queue time of a run, averaged over the runs and rounded down.
    pub request_queue_time: Time,
    /// The load of a run, in millionths, averaged over the runs and rounded
    /// down.
    pub load_avg: u64,
}

/// The results of a row of runs, added up.
#[derive(Clone, Copy, Debug)]
pub struct Tally {
    runs: usize,
    time_sum: u128,
    load_sum: u128,
}

/// What a tally holds.
pub struct TallyView {
    /// How many results were added.
    pub runs: nat,
    /// Their queue times, added up.
    pub time_sum: nat,
    /// Their loads, added up.
    pub load_sum: nat,
}

impl View for Tally {
    type V = TallyView;

    closed spec fn view(&self) -> TallyView {
        TallyView {
            runs: self.runs as nat,
            time_sum: self.time_sum as nat,
            load_sum: self.load_sum as nat,
        }
    }
}

impl Tally {
    #[verifier::type_invariant]
    closed spec fn holds(self) -> bool {
        self.time_sum <= self.runs * u64::MAX && self.load_sum <= self.runs * u64::MAX
    }

    /// A tally of no runs.
    pub fn new() -> (t: Self)
        ensures
            t@ == (TallyView { runs: 0, time_sum: 0, load_sum: 0 }),
    {
        Tally { runs: 0, time_sum: 0, load_sum: 0 }
    }

    /// How many results were added.
    pub fn runs(&self) -> (n: usize)
        ensures
            n == self@.runs,
    {
        self.runs
    }

    /// Adds the result of one more run. The count of the runs must keep its
    /// place in the machine's word; a refused result changes nothing.
    pub fn add(&mut self, res: ModelResult) -> (r: Result<(), ModelError>)
        ensures
            r is Ok <==> old(self)@.runs < usize::MAX,
            r is Ok ==> final(self)@ == (TallyView {
                runs: old(self)@.runs + 1,
                time_sum: old(self)@.time_sum + res.request_queue_time as nat,
                load_sum: old(self)@.load_sum + res.load_avg as nat,
            }),
            r is Err ==> r->Err_0 == ModelError::Overflow && final(self)@ == old(self)@,
    {
        proof {
            use_type_invariant(&*self);
        }
        if self.runs == usize::MAX {
            return Err(ModelError::Overflow);
        }
        *self = Tally {
            runs: self.runs + 1,
            time_sum: self.time_sum + res.request_queue_time as u128,
            load_sum: self.load_sum + res.load_avg as u128,
        };
        Ok(())
    }

    /// The queue time and the load of a run on the average, each rounded
    /// down. No average is taken over no runs.
    pub fn averages(&self) -> (r: Result<Averages, ModelError>)
        ensures
            r is Ok <==> self@.runs > 0,
            r is Ok ==> r->Ok_0.request_queue_time == self@.time_sum / self@.runs
                && r->Ok_0.load_avg == self@.load_sum / self@.runs,
            r is Err ==> r->Err_0 == ModelError::EmptySystem,
    {
        proof {
            use_type_invariant(self);
        }
        if self.runs == 0 {
            return Err(ModelError::EmptySystem);
        }
        proof {
            let n = self.runs as int;
            assert((n * u64::MAX) / n == u64::MAX) by {
                vstd::arithmetic::div_mod::lemma_div_by_multiple(u64::MAX as int, n);
            }
            vstd::arithmetic::div_mod::lemma_div_is_ordered(self.time_sum as int, n * u64::MAX, n);
            vstd::arithmetic::div_mod::lemma_div_is_ordered(self.load_sum as int, n * u64::MAX, n);
        }
        Ok(
            Averages {
                request_queue_time: (self.time_sum / self.runs as u128) as u64,
                load_avg: (self.load_sum / self.runs as u128) as u64,
            },
        )
    }
}

/// The engine: its units, and the state of the run that is under way.
#[derive(Clone, Debug)]
pub struct Model {
    generators: Vec<RayleighGenerator>,
    services: Vec<NormalService>,
    params: ModelParams,
    schedule: Schedule,
    idle: VecDeque<usize>,
    waiting: VecDeque<Time>,
    requests_total: usize,
    requests_handled: usize,
    request_queue_time: Time,
}

impl View for Model {
    type V = ModelView;

    closed spec fn view(&self) -> ModelView {
        ModelView {
            generators: self.generators@.map_values(|g: RayleighGenerator| g@),
            services: self.services@.map_values(|s: NormalService| s@),
            model_time: self.params.model_time,
            schedule: self.schedule@,
            idle: self.idle@,
            waiting: self.waiting@,
            requests_total: self.requests_total,
            requests_handled: self.requests_handled,
            request_queue_time: self.request_queue_time,
        }
    }
}

impl Model {
    /// A model without units.
    pub fn new(params: ModelParams) -> (m: Self)
        ensures
            m@ == (ModelView {
                generators: Seq::empty(),
                services: Seq::empty(),
                model_time: params.model_time,
                schedule: Seq::empty(),
                idle: Seq::empty(),
                waiting: Seq::empty(),
                requests_total: 0,
                requests_handled: 0,
                request_queue_time: 0,
            }),
    {
        let m = Model {
            generators: Vec::new(),
            services: Vec::new(),
            params,
            schedule: Schedule::new(),
            idle: VecDeque::new(),
            waiting: VecDeque::new(),
            requests_total: 0,
            requests_handled: 0,
            request_queue_time: 0,
        };
        m
    }

    /// Registers a server, behind those that are registered.
    pub fn add_service(&mut self, svc: NormalService)
        ensures
            final(self)@ == (ModelView { services: old(self)@.services.push(svc@), ..old(self)@ }),
    {
        self.services.push(svc);
    }

    /// Registers an arrival process, behind those that are registered.
    pub fn add_generator(&mut self, generator: RayleighGenerator)
        ensures
            final(self)@ == (ModelView {
                generators: old(self)@.generators.push(generator@),
                ..old(self)@
            }),
    {
        self.generators.push(generator);
    }

    /// The horizon of a run.
    pub fn model_time(&self) -> (t: Time)
        ensures
            t == self@.model_time,
    {
        self.params.model_time
    }

    /// How many servers are idle.
    pub fn idle_servers(&self) -> (n: usize)
        ensures
            n == self@.idle.len(),
    {
        self.idle.len()
    }

    /// How many events are in the queue.
    pub fn scheduled(&self) -> (n: usize)
        ensures
            n == self@.schedule.len(),
    {
        self.schedule.len()
    }

    /// How many requests wait for a server.
    pub fn waiting_requests(&self) -> (n: usize)
        ensures
            n == self@.waiting.len(),
    {
        self.waiting.len()
    }

    /// The event that takes place next, if one lies before the horizon.
    pub fn due(&self) -> (e: Option<Entry>)
        ensures
            e == self@.due(),
    {
        match self.schedule.peek() {
            Some(e) => if e.time < self.params.model_time {
                Some(e)
            } else {
                None
            },
            None => None,
        }
    }

    /// The arrival process with number `i`, if there is one.
    pub fn generator(&self, i: usize) -> (g: Option<&RayleighGenerator>)
        ensures
            g is Some <==> i < self@.generators.len(),
            g is Some ==> g->Some_0@ == self@.generators[i as int],
    {
        if i < self.generators.len() {
            Some(&self.generators[i])
        } else {
            None
        }
    }

    /// The server with number `i`, if there is one.
    pub fn service(&self, i: usize) -> (s: Option<&NormalService>)
        ensures
            s is Some <==> i < self@.services.len(),
            s is Some ==> s->Some_0@ == self@.services[i as int],
    {
        if i < self.services.len() {
            Some(&self.services[i])
        } else {
            None
        }
    }

    /// Moves one unit on by a duration drawn from `rng`, from the forced time
    /// or else from its next event, outside any run: the queue of a run that
    /// is under way does not follow. A handle that names no unit of the
    /// model is refused. A failed draw or a refused move changes nothing.
    pub fn advance_unit<R: RandomSource>(
        &mut self,
        unit: Unit,
        time_override: Option<Time>,
        rng: &mut R,
    ) -> (r: Result<(), ModelError>)
        ensures
            !old(self)@.has(unit) <==> r == Err::<(), ModelError>(ModelError::EmptySystem),
            r is Err ==> final(self)@ == old(self)@,
            r is Ok ==> match unit {
                Unit::Gen(g) => {
                    let moved = final(self)@.generators[g as int];
                    &&& final(self)@ == (ModelView {
                        generators: old(self)@.generators.update(g as int, moved),
                        ..old(self)@
                    })
                    &&& moved.last_event == old(self)@.generators[g as int].resumed_at(
                        time_override,
                    )
                    &&& moved.well_formed()
                    &&& moved.sigma == old(self)@.generators[g as int].sigma
                },
                Unit::Svc(s) => {
                    let before = old(self)@.services[s as int];
                    let moved = final(self)@.services[s as int];
                    &&& final(self)@ == (ModelView {
                        services: old(self)@.services.update(s as int, moved),
                        ..old(self)@
                    })
                    &&& moved.last_event == before.resumed_at(time_override)
                    &&& moved.next_event >= moved.last_event
                    &&& moved.busy_time == before.busy_time + before.job()
                    &&& moved.mean == before.mean
                    &&& moved.sigma == before.sigma
                },
            },
    {
        match unit {
            Unit::Gen(g) => {
                if g >= self.generators.len() {
                    return Err(ModelError::EmptySystem);
                }
                let mut generator = self.generators[g];
                generator.advance(time_override, rng)?;
                self.generators[g] = generator;
            },
            Unit::Svc(s) => {
                if s >= self.services.len() {
                    return Err(ModelError::EmptySystem);
                }
                let mut server = self.services[s];
                server.advance(time_override, rng)?;
                self.services[s] = server;
            },
        }
        Ok(())
    }

    /// Puts the model at the start of a run: every arrival process into the
    /// queue, in the order of registration, every server into the idle pool,
    /// the wait queue empty and the counters at zero. The units themselves
    /// stay as they are. A model without an arrival process or without a
    /// server is refused and not changed.
    pub fn begin(&mut self) -> (r: Result<(), ModelError>)
        ensures
            r is Err <==> old(self)@.generators.len() == 0 || old(self)@.services.len() == 0,
            r is Err ==> r == Err::<(), ModelError>(ModelError::EmptySystem) && final(self)@
                == old(self)@,
            r is Ok ==> final(self)@ == old(self)@.begun() && final(self)@.well_formed(),
            r is Ok && old(self)@.rested() ==> final(self)@.timely(),
    {
        if self.generators.len() == 0 || self.services.len() == 0 {
            return Err(ModelError::EmptySystem);
        }
        self.schedule.clear();
        self.idle.clear();
        self.waiting.clear();
        self.requests_total = 0;
        self.requests_handled = 0;
        self.request_queue_time = 0;
        let mut i: usize = 0;
        while i < self.generators.len()
            invariant
                i <= self.generators.len(),
                self.generators == old(self).generators,
                self.services == old(self).services,
                self.params == old(self).params,
                self.schedule@ == seeded(old(self)@.generators, i as nat),
                self.idle@ == Seq::<usize>::empty(),
                self.waiting@ == Seq::<Time>::empty(),
                self.requests_total == 0,
                self.requests_handled == 0,
                self.request_queue_time == 0,
                forall|k: int| 0 <= k < i ==> (#[trigger] old(self)@.generators[k]).well_formed(),
            decreases self.generators.len() - i,
        {
            let time = self.generators[i].next_event();
            self.schedule.push(Entry { time, unit: Unit::Gen(i) });
            i += 1;
        }
        let mut j: usize = 0;
        while j < self.services.len()
            invariant
                j <= self.services.len(),
                self.generators == old(self).generators,
                self.services == old(self).services,
                self.params == old(self).params,
                self.schedule@ == seeded(old(self)@.generators, old(self)@.generators.len()),
                self.idle@ == Seq::new(j as nat, |k: int| k as usize),
                self.waiting@ == Seq::<Time>::empty(),
                self.requests_total == 0,
                self.requests_handled == 0,
                self.request_queue_time == 0,
            decreases self.services.len() - j,
        {
            self.idle.push_back(j);
            j += 1;
        }
        proof {
            lemma_begun_well_formed(old(self)@);
        }
        Ok(())
    }

    /// Lets the next event take place, with `service_time` for the job that
    /// a server takes up in it and `gap` for the arrival process that moves
    /// in it; a duration that the event has no use for is ignored. Returns
    /// whether an event was due. A refused event changes nothing.
    pub fn step_with(&mut self, service_time: Time, gap: Time) -> (r: Result<bool, ModelError>)
        requires
            old(self)@.well_formed(),
        ensures
            match r {
                Ok(moved) => moved == old(self)@.due().is_some() && old(self)@.step_refusal(
                    service_time,
                    gap,
                ).is_none() && final(self)@ == old(self)@.step(service_time, gap),
                Err(e) => old(self)@.step_refusal(service_time, gap) == Some(e) && final(self)@
                    == old(self)@,
            },
            final(self)@.well_formed(),
            old(self)@.timely() ==> final(self)@.timely(),
    {
        let e = match self.schedule.peek() {
            Some(e) => e,
            None => {
                return Ok(false);
            },
        };
        if e.time >= self.params.model_time {
            return Ok(false);
        }
        proof {
            assert(old(self)@.tracks(old(self)@.schedule[0]));
        }
        match e.unit {
            Unit::Gen(g) => {
                if gap == 0 {
                    return Err(ModelError::NonTotalOrder);
                }
                if self.requests_total == usize::MAX {
                    return Err(ModelError::Overflow);
                }
                let generator = match self.generators[g].advanced(None, gap) {
                    Ok(generator) => generator,
                    Err(_) => {
                        return Err(ModelError::Overflow);
                    },
                };
                let arrival = Entry { time: generator.next_event(), unit: e.unit };
                if self.idle.len() > 0 {
                    let s = self.idle[0];
                    proof {
                        assert(old(self)@.idle[0] < old(self)@.services.len());
                    }
                    let server = self.services[s].advanced(Some(e.time), service_time)?;
                    let completion = Entry { time: server.next_event(), unit: Unit::Svc(s) };
                    self.schedule.pop();
                    self.idle.pop_front();
                    self.schedule.push(completion);
                    self.schedule.push(arrival);
                    self.services[s] = server;
                    self.generators[g] = generator;
                    self.requests_total = self.requests_total + 1;
                    proof {
                        assert(self@.generators =~= old(self)@.generators.update(
                            g as int,
                            generator@,
                        ));
                        assert(self@.services =~= old(self)@.services.update(s as int, server@));
                        assert(self@ =~= old(self)@.step(service_time, gap));
                        lemma_step_well_formed(old(self)@, service_time, gap);
                        if old(self)@.timely() {
                            lemma_step_timely(old(self)@, service_time, gap);
                        }
                    }
                } else {
                    self.schedule.pop();
                    self.schedule.push(arrival);
                    self.waiting.push_back(e.time);
                    self.generators[g] = generator;
                    self.requests_total = self.requests_total + 1;
                    proof {
                        assert(self@.generators =~= old(self)@.generators.update(
                            g as int,
                            generator@,
                        ));
                        assert(self@.services =~= old(self)@.services);
                        assert(self@ =~= old(self)@.step(service_time, gap));
                        lemma_step_well_formed(old(self)@, service_time, gap);
                        if old(self)@.timely() {
                            lemma_step_timely(old(self)@, service_time, gap);
                        }
                    }
                }
            },
            Unit::Svc(s) => {
                proof {
                    lemma_well_formed_counts(old(self)@);
                    lemma_servers_in_bound(
                        old(self)@.schedule.drop_first(),
                    );
                }
                if self.waiting.len() > 0 {
                    let arrived = self.waiting[0];
                    proof {
                        assert(not_before(
                            old(self)@.schedule[0],
                            old(self)@.waiting,
                        ));
                    }
                    let waited = e.time - arrived;
                    let request_queue_time = match self.request_queue_time.checked_add(waited) {
                        Some(t) => t,
                        None => {
                            return Err(ModelError::Overflow);
                        },
                    };
                    let server = self.services[s].advanced(None, service_time)?;
                    let completion = Entry { time: server.next_event(), unit: e.unit };
                    self.schedule.pop();
                    self.waiting.pop_front();
                    self.schedule.push(completion);
                    self.services[s] = server;
                    self.requests_handled = self.requests_handled + 1;
                    self.request_queue_time = request_queue_time;
                    proof {
                        assert(self@.generators =~= old(self)@.generators);
                        assert(self@.services =~= old(self)@.services.update(s as int, server@));
                        assert(self@ =~= old(self)@.step(service_time, gap));
                        lemma_step_well_formed(old(self)@, service_time, gap);
                        if old(self)@.timely() {
                            lemma_step_timely(old(self)@, service_time, gap);
                        }
                    }
                } else {
                    self.schedule.pop();
                    self.idle.push_back(s);
                    self.requests_handled = self.requests_handled + 1;
                    proof {
                        assert(self@.generators =~= old(self)@.generators);
                        assert(self@.services =~= old(self)@.services);
                        assert(self@ =~= old(self)@.step(service_time, gap));
                        lemma_step_well_formed(old(self)@, service_time, gap);
                        if old(self)@.timely() {
                            lemma_step_timely(old(self)@, service_time, gap);
                        }
                    }
                }
            },
        }
        Ok(true)
    }

    /// What the next event needs to be drawn.
    pub fn demand(&self) -> (d: Demand)
        requires
            self@.well_formed(),
        ensures
            d == self@.demand(),
    {
        let e = match self.due() {
            Some(e) => e,
            None => {
                return Demand::Nothing;
            },
        };
        proof {
            assert(self@.tracks(self@.schedule[0]));
        }
        match e.unit {
            Unit::Gen(g) => {
                let service = if self.idle.len() > 0 {
                    let s = self.idle[0];
                    proof {
                        assert(self@.idle[0] < self@.services.len());
                    }
                    Some((self.services[s].mean(), self.services[s].sigma()))
                } else {
                    None
                };
                Demand::Arrival { sigma: self.generators[g].sigma(), service }
            },
            Unit::Svc(s) => {
                let service = if self.waiting.len() > 0 {
                    Some((self.services[s].mean(), self.services[s].sigma()))
                } else {
                    None
                };
                Demand::Completion { service }
            },
        }
    }

    /// Lets the next event take place, with the durations that it needs drawn
    /// from `rng`: first the service time, then the gap. Returns whether an
    /// event was due. A failed draw or a refused event changes nothing.
    pub fn step<R: RandomSource>(&mut self, rng: &mut R) -> (r: Result<bool, ModelError>)
        requires
            old(self)@.well_formed(),
        ensures
            final(self)@.well_formed(),
            final(self)@.same_units(old(self)@),
            old(self)@.timely() ==> final(self)@.timely(),
            old(self)@.due() is None ==> r == Ok::<bool, ModelError>(false),
            old(self)@.demand() == (Demand::Completion { service: None }) ==> r == Ok::<
                bool,
                ModelError,
            >(true) && final(self)@ == old(self)@.step(0, 0),
            match r {
                Ok(moved) => moved == old(self)@.due().is_some() && final(self)@.follows(
                    old(self)@,
                ) && (moved ==> final(self)@.nearer_end(old(self)@)),
                Err(e) => final(self)@ == old(self)@ && e != ModelError::EmptySystem,
            },
    {
        let mut service_time: Time = 0;
        let mut gap: Time = 0;
        match self.demand() {
            Demand::Nothing => {
                proof {
                    assert(old(self)@ == old(self)@.step(0, 0));
                }
                return Ok(false);
            },
            Demand::Arrival { sigma, service } => {
                if let Some((mean, spread)) = service {
                    service_time = drawn(rng.log_normal(mean, spread))?;
                }
                gap = drawn(rng.rayleigh(sigma))?;
            },
            Demand::Completion { service } => {
                if let Some((mean, spread)) = service {
                    service_time = drawn(rng.log_normal(mean, spread))?;
                }
            },
        }
        let r = self.step_with(service_time, gap);
        proof {
            if r is Ok {
                lemma_step_decreases(old(self)@, service_time, gap);
            }
        }
        r
    }

    /// The counters of the run and the load of the servers: the busy time of
    /// all of them, in millionths of the time that they had up to the
    /// horizon. With a horizon of zero the load is zero. A model without a
    /// server has no load.
    pub fn result(&self) -> (r: Result<ModelResult, ModelError>)
        ensures
            self@.services.len() == 0 <==> r == Err::<ModelResult, ModelError>(
                ModelError::EmptySystem,
            ),
            self@.services.len() > 0 && self@.load_refused() <==> r == Err::<
                ModelResult,
                ModelError,
            >(ModelError::Overflow),
            r is Ok ==> {
                &&& r->Ok_0.requests_total == self@.requests_total
                &&& r->Ok_0.requests_handled == self@.requests_handled
                &&& r->Ok_0.request_queue_time == self@.request_queue_time
                &&& r->Ok_0.load_avg == self@.load_avg()
            },
            r is Err ==> r->Err_0 == ModelError::EmptySystem || r->Err_0 == ModelError::Overflow,
    {
        let n = self.services.len();
        if n == 0 {
            return Err(ModelError::EmptySystem);
        }
        let mut busy: u128 = 0;
        let mut i: usize = 0;
        while i < n
            invariant
                i <= n,
                n == self.services.len(),
                busy == total_busy(self@.services.take(i as int)),
                busy <= i * u64::MAX,
            decreases n - i,
        {
            let served = self.services[i].was_busy_for();
            proof {
                assert(self@.services.take(i + 1).drop_last() =~= self@.services.take(i as int));
            }
            busy = busy + served as u128;
            i += 1;
        }
        proof {
            assert(self@.services.take(n as int) =~= self@.services);
        }
        let mut load_avg: u64 = 0;
        if self.params.model_time > 0 {
            proof {
                assert(1 <= n * self.params.model_time <= u64::MAX * u64::MAX)
                    by (nonlinear_arith)
                    requires
                        1 <= n <= u64::MAX,
                        1 <= self.params.model_time <= u64::MAX,
                ;
            }
            let time = n as u128 * self.params.model_time as u128;
            let scaled = match busy.checked_mul(1_000_000) {
                Some(scaled) => scaled,
                None => {
                    return Err(ModelError::Overflow);
                },
            };
            let load = scaled / time;
            if load > u64::MAX as u128 {
                return Err(ModelError::Overflow);
            }
            load_avg = load as u64;
        }
        Ok(
            ModelResult {
                requests_total: self.requests_total,
                requests_handled: self.requests_handled,
                request_queue_time: self.request_queue_time,
                load_avg,
            },
        )
    }

    /// Runs the model from the present state of its units to the horizon:
    /// starts a run, lets every event before the horizon take place in the
    /// order of the queue, and gives the counters and the load. The
    /// durations come from `rng`. A model without an arrival process or
    /// without a server is refused and not changed. Where no event lies
    /// before the horizon at the start, nothing is drawn, and the result is
    /// that of the start.
    pub fn start<R: RandomSource>(&mut self, rng: &mut R) -> (r: Result<ModelResult, ModelError>)
        ensures
            old(self)@.generators.len() == 0 || old(self)@.services.len() == 0 <==> r == Err::<
                ModelResult,
                ModelError,
            >(ModelError::EmptySystem),
            final(self)@.same_units(old(self)@),
            r is Ok ==> {
                &&& final(self)@.well_formed()
                &&& final(self)@.due() is None
                &&& !final(self)@.load_refused()
                &&& r->Ok_0 == final(self)@.outcome()
                &&& r->Ok_0.load_avg == final(self)@.load_avg()
                &&& r->Ok_0.requests_handled <= r->Ok_0.requests_total
                &&& old(self)@.rested() ==> final(self)@.timely() && r->Ok_0.load_avg <= LOAD_ONE
                &&& final(self)@.ran_from(old(self)@)
            },
            r == Err::<ModelResult, ModelError>(ModelError::EmptySystem) ==> final(self)@
                == old(self)@,
            old(self)@.generators.len() > 0 && old(self)@.services.len() > 0
                && old(self)@.begun().due() is None ==> {
                &&& final(self)@ == old(self)@.begun()
                &&& r is Ok <==> !old(self)@.begun().load_refused()
                &&& r is Ok ==> r->Ok_0 == old(self)@.begun().outcome()
                &&& r is Err ==> r->Err_0 == ModelError::Overflow
            },
            old(self)@.model_time == 0 && old(self)@.generators.len() > 0
                && old(self)@.services.len() > 0 ==> r == Ok::<ModelResult, ModelError>(
                ModelResult {
                    requests_total: 0,
                    requests_handled: 0,
                    request_queue_time: 0,
                    load_avg: 0,
                },
            ) && final(self)@ == old(self)@.begun(),
    {
        self.begin()?;
        let ghost begun = self@;
        let ghost mut trace: Seq<(Time, Time)> = Seq::empty();
        let mut moved = self.step(rng)?;
        proof {
            if moved {
                let (service_time, gap) = choose|service_time: Time, gap: Time|
                    begun.step_refusal(service_time, gap) is None && self@ == begun.step(
                        service_time,
                        gap,
                    );
                lemma_replayed_push(begun, trace, service_time, gap);
                trace = trace.push((service_time, gap));
            }
        }
        while moved
            invariant
                begun == old(self)@.begun(),
                begun.accepts(trace),
                self@ == begun.replayed(trace),
                self@.well_formed(),
                self@.same_units(old(self)@),
                self@.generators.len() > 0,
                self@.services.len() > 0,
                begun.due() is None ==> !moved && self@ == begun,
                old(self)@.rested() ==> self@.timely(),
                !moved ==> self@.due() is None,
            decreases
                (if moved {
                    1nat
                } else {
                    0nat
                }),
                self@.slack(),
                self@.backlog(),
        {
            let ghost before = self@;
            let ghost past = trace;
            moved = self.step(rng)?;
            proof {
                if moved {
                    let (service_time, gap) = choose|service_time: Time, gap: Time|
                        before.step_refusal(service_time, gap) is None && self@ == before.step(
                            service_time,
                            gap,
                        );
                    lemma_replayed_push(begun, past, service_time, gap);
                    trace = past.push((service_time, gap));
                }
            }
        }
        proof {
            if old(self)@.rested() {
                lemma_timely_load(self@);
            }
        }
        self.result()
    }

    /// Starts every arrival process anew, with arrivals drawn from `rng`, and
    /// puts every server back to where it was before its first job. Which
    /// units there are does not change. A failed draw leaves the units after
    /// it as they were.
    pub fn reset<R: RandomSource>(&mut self, rng: &mut R) -> (r: Result<(), ModelError>)
        ensures
            final(self)@.same_units(old(self)@),
            final(self)@.same_run(old(self)@),
            old(self)@.generators.len() == 0 ==> r is Ok,
            r is Ok ==> {
                &&& final(self)@.generators_well_formed()
                &&& forall|i: int|
                    0 <= i < final(self)@.services.len() ==> #[trigger] final(self)@.services[i]
                        == old(self)@.services[i].cleared()
            },
            r is Err ==> r->Err_0 != ModelError::EmptySystem,
    {
        let mut i: usize = 0;
        while i < self.generators.len()
            invariant
                i <= self.generators.len(),
                self@.same_units(old(self)@),
                self@.same_run(old(self)@),
                self@.services == old(self)@.services,
                forall|k: int| 0 <= k < i ==> (#[trigger] self@.generators[k]).well_formed(),
            decreases self.generators.len() - i,
        {
            let mut generator = self.generators[i];
            let ghost before = self@;
            generator.reset(rng)?;
            self.generators[i] = generator;
            proof {
                assert(self@.generators =~= before.generators.update(i as int, generator@));
                assert forall|k: int| 0 <= k < self@.generators.len() implies (
                #[trigger] self@.generators[k]).sigma == old(self)@.generators[k].sigma by {
                    assert(before.generators[k].sigma == old(self)@.generators[k].sigma);
                }
            }
            i += 1;
        }
        let mut j: usize = 0;
        while j < self.services.len()
            invariant
                j <= self.services.len(),
                self@.same_units(old(self)@),
                self@.same_run(old(self)@),
                self@.generators_well_formed(),
                self@.services.len() == old(self)@.services.len(),
                forall|k: int|
                    0 <= k < j ==> #[trigger] self@.services[k] == old(self)@.services[k].cleared(),
                forall|k: int|
                    j <= k < self@.services.len() ==> #[trigger] self@.services[k]
                        == old(self)@.services[k],
            decreases self.services.len() - j,
        {
            let mut server = self.services[j];
            let ghost before = self@;
            server.reset();
            self.services[j] = server;
            proof {
                assert(self@.services =~= before.services.update(j as int, server@));
                assert forall|k: int| 0 <= k < j + 1 implies #[trigger] self@.services[k] == old(
                    self)@.services[k].cleared() by {
                    if k < j {
                    } else {
                        assert(before.services[k] == old(self)@.services[k]);
                    }
                }
            }
            j += 1;
        }
        Ok(())
    }

    /// Runs the model `iterations` times and averages the queue times and
    /// the loads; the units are started anew after every run. No average is
    /// taken over no runs, and none of a model without an arrival process or
    /// without a server.
    pub fn replicate<R: RandomSource>(&mut self, iterations: usize, rng: &mut R) -> (r: Result<
        Averages,
        ModelError,
    >)
        ensures
            final(self)@.same_units(old(self)@),
            iterations == 0 || old(self)@.generators.len() == 0 || old(self)@.services.len() == 0
                <==> r == Err::<Averages, ModelError>(ModelError::EmptySystem),
            iterations == 0 ==> final(self)@ == old(self)@,
            r is Ok ==> averaged(old(self)@, iterations as nat, r->Ok_0),
            r is Ok && old(self)@.rested() ==> r->Ok_0.load_avg <= LOAD_ONE,
    {
        if iterations == 0 {
            return Err(ModelError::EmptySystem);
        }
        let mut tally = Tally::new();
        let ghost mut results: Seq<ModelResult> = Seq::empty();
        while tally.runs() < iterations
            invariant
                tally@.runs <= iterations,
                results.len() == tally@.runs,
                tally@.time_sum == sum_time(results),
                tally@.load_sum == sum_load(results),
                forall|k: int| 0 <= k < results.len() ==> run_of(old(self)@, #[trigger] results[k]),
                self@.same_units(old(self)@),
                old(self)@.rested() ==> self@.rested() && tally@.load_sum <= tally@.runs * LOAD_ONE,
                tally@.runs > 0 ==> old(self)@.generators.len() > 0 && old(self)@.services.len()
                    > 0,
            decreases iterations - tally@.runs,
        {
            let res = self.start(rng)?;
            self.reset(rng)?;
            tally.add(res)?;
            proof {
                let ghost past = results;
                results = past.push(res);
                assert(results.drop_last() =~= past);
            }
        }
        proof {
            if old(self)@.rested() {
                let n = iterations as int;
                assert((n * LOAD_ONE) / n == LOAD_ONE) by {
                    vstd::arithmetic::div_mod::lemma_div_by_multiple(LOAD_ONE as int, n);
                }
                vstd::arithmetic::div_mod::lemma_div_is_ordered(
                    tally@.load_sum as int,
                    n * LOAD_ONE,
                    n,
                );
            }
        }
        tally.averages()
    }
}

} // verus!

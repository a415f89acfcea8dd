//! The engine as mathematics: what a model holds, which states are sound,
//! and what one event does to a state.

use vstd::prelude::*;
use crate::model::{Averages, ModelError, ModelResult, Time};
use crate::model::generator::ArrivalState;
use crate::model::schedule::{enqueue, servers_in, sorted, units_distinct, Entry};
use crate::model::service::ServiceState;
use crate::model::unit::Unit;

verus! {

/// What a model holds.
#[verifier::ext_equal]
pub struct ModelView {
    /// The arrival processes, in the order in which they were registered.
    pub generators: Seq<ArrivalState>,
    /// The servers, in the order in which they were registered.
    pub services: Seq<ServiceState>,
    /// The horizon: an event at or after it does not take place.
    pub model_time: Time,
    /// The coming events, earliest first.
    pub schedule: Seq<Entry>,
    /// The servers without a job, the one that waits longest first.
    pub idle: Seq<usize>,
    /// The arrival times of the requests that no server has taken up yet,
    /// earliest first.
    pub waiting: Seq<Time>,
    /// How many requests have arrived.
    pub requests_total: usize,
    /// How many requests have been served to the end.
    pub requests_handled: usize,
    /// The time that the requests taken up from the wait queue had spent in
    /// it, added up.
    pub request_queue_time: Time,
}

/// The durations that the next event needs, by the parameters of the
/// distributions that they are drawn from.
#[derive(Clone, Copy, Debug, PartialEq, Eq)]
pub enum Demand {
    /// No event is due.
    Nothing,
    /// An arrival: the gap to the next arrival has the scale `sigma`; if a
    /// server is idle, its service time has `service.0` for its mean and
    /// `service.1` for its spread.
    Arrival { sigma: Time, service: Option<(Time, Time)> },
    /// A completion: if a request waits, the service time of the server has
    /// `service.0` for its mean and `service.1` for its spread.
    Completion { service: Option<(Time, Time)> },
}

/// How far an event at `next_event` lies before the horizon.
pub open spec fn slack_of(next_event: Time, horizon: Time) -> nat {
    if next_event < horizon {
        (horizon - next_event) as nat
    } else {
        0
    }
}

/// The slack of the next arrival of every process, added up.
pub open spec fn total_slack(g: Seq<ArrivalState>, horizon: Time) -> nat
    decreases g.len(),
{
    if g.len() == 0 {
        0
    } else {
        total_slack(g.drop_last(), horizon) + slack_of(g.last().next_event, horizon)
    }
}

/// The busy time of every server, added up.
pub open spec fn total_busy(s: Seq<ServiceState>) -> nat
    decreases s.len(),
{
    if s.len() == 0 {
        0
    } else {
        total_busy(s.drop_last()) + s.last().busy_time as nat
    }
}

/// The queue that holds the next arrival of each of the first `n` processes,
/// put in one after the other.
pub open spec fn seeded(g: Seq<ArrivalState>, n: nat) -> Seq<Entry>
    decreases n,
{
    if n == 0 {
        Seq::empty()
    } else {
        enqueue(
            seeded(g, (n - 1) as nat),
            Entry { time: g[n - 1].next_event, unit: Unit::Gen((n - 1) as usize) },
        )
    }
}

/// The entry names none of the servers in `idle`.
pub open spec fn free_of(e: Entry, idle: Seq<usize>) -> bool {
    forall|j: int| 0 <= j < idle.len() ==> e.unit != Unit::Svc(#[trigger] idle[j])
}

/// None of the requests in `waiting` arrived after the entry's time.
pub open spec fn not_before(e: Entry, waiting: Seq<Time>) -> bool {
    forall|i: int| 0 <= i < waiting.len() ==> #[trigger] waiting[i] <= e.time
}

/// The millionths in one.
pub const LOAD_ONE: u64 = 1_000_000;

/// The queue times of a row of results, added up.
pub open spec fn sum_time(results: Seq<ModelResult>) -> nat
    decreases results.len(),
{
    if results.len() == 0 {
        0
    } else {
        sum_time(results.drop_last()) + results.last().request_queue_time as nat
    }
}

/// The loads of a row of results, added up.
pub open spec fn sum_load(results: Seq<ModelResult>) -> nat
    decreases results.len(),
{
    if results.len() == 0 {
        0
    } else {
        sum_load(results.drop_last()) + results.last().load_avg as nat
    }
}

/// `res` is what a run gave that went from its start to the horizon, of a
/// model with the units of `m`, and with rested servers if `m` has them.
pub open spec fn run_of(m: ModelView, res: ModelResult) -> bool {
    exists|before: ModelView, after: ModelView|
        {
            &&& #[trigger] after.ran_from(before)
            &&& before.same_units(m)
            &&& m.rested() ==> before.rested()
            &&& after.due() is None
            &&& !after.load_refused()
            &&& res == after.outcome()
        }
}

/// `avg` is what `runs` runs of a model with the units of `m` gave on the
/// average, each average rounded down.
pub open spec fn averaged(m: ModelView, runs: nat, avg: Averages) -> bool {
    exists|results: Seq<ModelResult>|
        {
            &&& results.len() == runs
            &&& forall|k: int| 0 <= k < runs ==> run_of(m, #[trigger] results[k])
            &&& avg.request_queue_time == #[trigger] sum_time(results) / runs
            &&& avg.load_avg == sum_load(results) / runs
        }
}

impl ModelView {
    /// The entry names a unit of the model, and its time is that unit's next
    /// event.
    pub open spec fn tracks(self, e: Entry) -> bool {
        match e.unit {
            Unit::Gen(g) => g < self.generators.len() && e.time
                == self.generators[g as int].next_event,
            Unit::Svc(s) => s < self.services.len() && e.time
                == self.services[s as int].next_event,
        }
    }

    /// The model has the unit that the handle names.
    pub open spec fn has(self, unit: Unit) -> bool {
        match unit {
            Unit::Gen(g) => g < self.generators.len(),
            Unit::Svc(s) => s < self.services.len(),
        }
    }

    /// The time of the unit's next event, if the model has the unit.
    pub open spec fn next_event_of(self, unit: Unit) -> Option<Time> {
        match unit {
            Unit::Gen(g) => if g < self.generators.len() {
                Some(self.generators[g as int].next_event)
            } else {
                None
            },
            Unit::Svc(s) => if s < self.services.len() {
                Some(self.services[s as int].next_event)
            } else {
                None
            },
        }
    }

    /// The time of the unit's last event, if the model has the unit.
    pub open spec fn last_event_of(self, unit: Unit) -> Option<Time> {
        match unit {
            Unit::Gen(g) => if g < self.generators.len() {
                Some(self.generators[g as int].last_event)
            } else {
                None
            },
            Unit::Svc(s) => if s < self.services.len() {
                Some(self.services[s as int].last_event)
            } else {
                None
            },
        }
    }

    /// Every arrival process is well formed.
    pub open spec fn generators_well_formed(self) -> bool {
        forall|i: int|
            0 <= i < self.generators.len() ==> (#[trigger] self.generators[i]).well_formed()
    }

    /// The queue is in order, each entry is the next event of a unit of the
    /// model, and no unit is in it twice.
    pub open spec fn schedule_consistent(self) -> bool {
        &&& sorted(self.schedule)
        &&& forall|i: int| 0 <= i < self.schedule.len() ==> self.tracks(#[trigger] self.schedule[i])
        &&& units_distinct(self.schedule)
    }

    /// The idle pool holds servers of the model, none twice, and none that
    /// is in the queue.
    pub open spec fn idle_consistent(self) -> bool {
        &&& forall|j: int|
            0 <= j < self.idle.len() ==> #[trigger] self.idle[j] < self.services.len()
        &&& self.idle.no_duplicates()
        &&& forall|i: int|
            0 <= i < self.schedule.len() ==> free_of(#[trigger] self.schedule[i], self.idle)
    }

    /// Every arrival process is in the queue, and every server is either in
    /// the queue or idle.
    pub open spec fn accounted(self) -> bool {
        &&& self.schedule.len() == self.generators.len() + servers_in(self.schedule)
        &&& self.idle.len() + servers_in(self.schedule) == self.services.len()
    }

    /// Every request that has arrived is done, in service or waiting.
    pub open spec fn conserved(self) -> bool {
        self.requests_total == self.requests_handled + servers_in(self.schedule)
            + self.waiting.len()
    }

    /// No request waits while a server is idle.
    pub open spec fn work_conserving(self) -> bool {
        self.idle.len() == 0 || self.waiting.len() == 0
    }

    /// No request that waits arrived after an event that is still to come.
    pub open spec fn waiting_in_past(self) -> bool {
        forall|i: int|
            0 <= i < self.schedule.len() ==> not_before(#[trigger] self.schedule[i], self.waiting)
    }

    /// The state is one that a run can be in.
    pub open spec fn well_formed(self) -> bool {
        &&& self.generators_well_formed()
        &&& self.schedule_consistent()
        &&& self.idle_consistent()
        &&& self.accounted()
        &&& self.conserved()
        &&& self.work_conserving()
        &&& self.waiting_in_past()
    }

    /// The event that takes place next, if one lies before the horizon.
    pub open spec fn due(self) -> Option<Entry> {
        if self.schedule.len() > 0 && self.schedule[0].time < self.model_time {
            Some(self.schedule[0])
        } else {
            None
        }
    }

    /// What the next event needs to be drawn: for an arrival, the service
    /// time of the first idle server, if there is one, and the gap of the
    /// arrival process; for a completion, the service time of the server, if
    /// a request waits.
    pub open spec fn demand(self) -> Demand {
        match self.due() {
            None => Demand::Nothing,
            Some(e) => match e.unit {
                Unit::Gen(g) => Demand::Arrival {
                    sigma: self.generators[g as int].sigma,
                    service: if self.idle.len() > 0 {
                        let s = self.services[self.idle[0] as int];
                        Some((s.mean, s.sigma))
                    } else {
                        None
                    },
                },
                Unit::Svc(s) => Demand::Completion {
                    service: if self.waiting.len() > 0 {
                        Some((self.services[s as int].mean, self.services[s as int].sigma))
                    } else {
                        None
                    },
                },
            },
        }
    }

    /// The state at the start of a run: every arrival process in the queue,
    /// every server idle, nobody waiting, the counters at zero.
    pub open spec fn begun(self) -> ModelView {
        ModelView {
            schedule: seeded(self.generators, self.generators.len()),
            idle: Seq::new(self.services.len(), |i: int| i as usize),
            waiting: Seq::empty(),
            requests_total: 0,
            requests_handled: 0,
            request_queue_time: 0,
            ..self
        }
    }

    /// Why the arrival `e` of process `g` is refused, if it is: the process
    /// must move strictly forward, and no time or counter may leave its
    /// range.
    pub open spec fn arrival_refusal(self, e: Entry, g: int, service_time: Time, gap: Time)
        -> Option<ModelError> {
        if gap == 0 {
            Some(ModelError::NonTotalOrder)
        } else if self.requests_total + 1 > usize::MAX || self.generators[g].refusal(None, gap)
            is Some || (self.idle.len() > 0 && self.services[self.idle[0] as int].refused(
            Some(e.time),
            service_time,
        )) {
            Some(ModelError::Overflow)
        } else {
            None
        }
    }

    /// The state after the arrival `e` of process `g`: the first idle server,
    /// if there is one, takes the request up at once for `service_time`;
    /// otherwise the request waits. The process names its next arrival, `gap`
    /// later.
    pub open spec fn after_arrival(self, e: Entry, g: int, service_time: Time, gap: Time)
        -> ModelView {
        let rest = self.schedule.drop_first();
        let generator = self.generators[g].advanced(None, gap);
        let arrival = Entry { time: generator.next_event, unit: e.unit };
        if self.idle.len() > 0 {
            let s = self.idle[0];
            let server = self.services[s as int].advanced(Some(e.time), service_time);
            let completion = Entry { time: server.next_event, unit: Unit::Svc(s) };
            ModelView {
                generators: self.generators.update(g, generator),
                services: self.services.update(s as int, server),
                schedule: enqueue(enqueue(rest, completion), arrival),
                idle: self.idle.drop_first(),
                requests_total: (self.requests_total + 1) as usize,
                ..self
            }
        } else {
            ModelView {
                generators: self.generators.update(g, generator),
                schedule: enqueue(rest, arrival),
                waiting: self.waiting.push(e.time),
                requests_total: (self.requests_total + 1) as usize,
                ..self
            }
        }
    }

    /// Whether the completion `e` of server `s` is refused: a time would
    /// leave its range.
    pub open spec fn completion_refused(self, e: Entry, s: int, service_time: Time) -> bool {
        self.waiting.len() > 0 && (self.request_queue_time + (e.time - self.waiting[0])
            > Time::MAX || self.services[s].refused(None, service_time))
    }

    /// The state after the completion `e` of server `s`: the server takes up
    /// the request that waits longest, for `service_time`, or goes idle if
    /// none waits.
    pub open spec fn after_completion(self, e: Entry, s: int, service_time: Time) -> ModelView {
        let rest = self.schedule.drop_first();
        if self.waiting.len() > 0 {
            let server = self.services[s].advanced(None, service_time);
            let completion = Entry { time: server.next_event, unit: e.unit };
            ModelView {
                services: self.services.update(s, server),
                schedule: enqueue(rest, completion),
                waiting: self.waiting.drop_first(),
                requests_handled: (self.requests_handled + 1) as usize,
                request_queue_time: (self.request_queue_time + (e.time - self.waiting[0])) as Time,
                ..self
            }
        } else {
            ModelView {
                schedule: rest,
                idle: self.idle.push(s as usize),
                requests_handled: (self.requests_handled + 1) as usize,
                ..self
            }
        }
    }

    /// Why the next event is refused with these durations, if it is.
    pub open spec fn step_refusal(self, service_time: Time, gap: Time) -> Option<ModelError> {
        match self.due() {
            None => None,
            Some(e) => match e.unit {
                Unit::Gen(g) => self.arrival_refusal(e, g as int, service_time, gap),
                Unit::Svc(s) => if self.completion_refused(e, s as int, service_time) {
                    Some(ModelError::Overflow)
                } else {
                    None
                },
            },
        }
    }

    /// The state after the next event, with `service_time` for the job that
    /// a server takes up in it and `gap` for the arrival process that moves
    /// in it. Nothing changes where no event is due.
    pub open spec fn step(self, service_time: Time, gap: Time) -> ModelView {
        match self.due() {
            None => self,
            Some(e) => match e.unit {
                Unit::Gen(g) => self.after_arrival(e, g as int, service_time, gap),
                Unit::Svc(s) => self.after_completion(e, s as int, service_time),
            },
        }
    }

    /// Whether the load cannot be given: the busy time in millionths leaves
    /// 128 bits, or the load leaves 64.
    pub open spec fn load_refused(self) -> bool {
        self.model_time > 0 && (total_busy(self.services) * LOAD_ONE > u128::MAX
            || self.load_avg() > u64::MAX)
    }

    /// The share of the servers' time up to the horizon that went into
    /// completed jobs, in millionths and rounded down; zero where the horizon
    /// is zero.
    pub open spec fn load_avg(self) -> int {
        if self.model_time == 0 || self.services.len() == 0 {
            0
        } else {
            (total_busy(self.services) * LOAD_ONE) as int / (self.services.len()
                * self.model_time) as int
        }
    }

    /// The counters and the load of the state.
    pub open spec fn outcome(self) -> ModelResult {
        ModelResult {
            requests_total: self.requests_total,
            requests_handled: self.requests_handled,
            request_queue_time: self.request_queue_time,
            load_avg: self.load_avg() as u64,
        }
    }

    /// No server has a job in hand or behind it.
    pub open spec fn rested(self) -> bool {
        forall|s: int|
            0 <= s < self.services.len() ==> #[trigger] self.services[s]
                == self.services[s].cleared()
    }

    /// The servers have kept time: none was busy for longer than up to the
    /// start of its job in hand, no job was taken up at or after the horizon,
    /// and an idle server's last job ended before every event that is still
    /// to come.
    pub open spec fn timely(self) -> bool {
        &&& forall|s: int|
            0 <= s < self.services.len() ==> {
                let x = #[trigger] self.services[s];
                x.busy_time <= x.last_event <= x.next_event && x.last_event <= self.model_time
            }
        &&& forall|j: int, i: int|
            0 <= j < self.idle.len() && 0 <= i < self.schedule.len() ==> self.done_by(
                #[trigger] self.idle[j],
                #[trigger] self.schedule[i],
            )
    }

    /// The job in hand of server `s` ends no later than the entry's event.
    pub open spec fn done_by(self, s: usize, e: Entry) -> bool {
        self.services[s as int].next_event <= e.time
    }

    /// The state comes from `before` by one event that was not refused.
    pub open spec fn follows(self, before: ModelView) -> bool {
        exists|service_time: Time, gap: Time|
            before.step_refusal(service_time, gap) is None && self == before.step(
                service_time,
                gap,
            )
    }

    /// The state is nearer to the end of the run than `before`: the slack is
    /// less, or it is the same and the backlog is shorter.
    pub open spec fn nearer_end(self, before: ModelView) -> bool {
        self.slack() < before.slack() || (self.slack() == before.slack() && self.backlog()
            < before.backlog())
    }

    /// The state comes from the start of a run of `before` by events that
    /// were due and not refused.
    pub open spec fn ran_from(self, before: ModelView) -> bool {
        exists|draws: Seq<(Time, Time)>| #[trigger]
            before.begun().accepts(draws) && self == before.begun().replayed(draws)
    }

    /// The state after the events that these durations stand for, a pair of
    /// a service time and a gap for each, took place one after the other.
    pub open spec fn replayed(self, draws: Seq<(Time, Time)>) -> ModelView
        decreases draws.len(),
    {
        if draws.len() == 0 {
            self
        } else {
            self.replayed(draws.drop_last()).step(draws.last().0, draws.last().1)
        }
    }

    /// Each of these durations met an event that was due, and none of the
    /// events was refused.
    pub open spec fn accepts(self, draws: Seq<(Time, Time)>) -> bool
        decreases draws.len(),
    {
        draws.len() == 0 || {
            let before = self.replayed(draws.drop_last());
            &&& self.accepts(draws.drop_last())
            &&& before.due() is Some
            &&& before.step_refusal(draws.last().0, draws.last().1) is None
        }
    }

    /// The slack of the arrival processes.
    pub open spec fn slack(self) -> nat {
        total_slack(self.generators, self.model_time)
    }

    /// The requests that wait and the entries of the queue, counted
    /// together.
    pub open spec fn backlog(self) -> nat {
        self.waiting.len() + self.schedule.len()
    }

    /// The same run: the same queue, idle pool, wait queue and counters.
    pub open spec fn same_run(self, other: ModelView) -> bool {
        &&& self.schedule == other.schedule
        &&& self.idle == other.idle
        &&& self.waiting == other.waiting
        &&& self.requests_total == other.requests_total
        &&& self.requests_handled == other.requests_handled
        &&& self.request_queue_time == other.request_queue_time
    }

    /// The same units with the same distributions.
    pub open spec fn same_units(self, other: ModelView) -> bool {
        &&& self.model_time == other.model_time
        &&& self.generators.len() == other.generators.len()
        &&& self.services.len() == other.services.len()
        &&& forall|i: int|
            0 <= i < self.generators.len() ==> (#[trigger] self.generators[i]).sigma
                == other.generators[i].sigma
        &&& forall|i: int|
            0 <= i < self.services.len() ==> (#[trigger] self.services[i]).mean
                == other.services[i].mean && self.services[i].sigma == other.services[i].sigma
    }
}

} // verus!

//! What holds of every run: a sound state stays sound, every event brings
//! the end nearer, and servers that have kept time keep it.

use vstd::prelude::*;
use crate::model::generator::ArrivalState;
use crate::model::schedule::{
    enqueue, lemma_enqueue_all, lemma_enqueue_distinct, lemma_enqueue_sorted,
    lemma_servers_in_enqueue, servers_in, sorted, units_distinct, Entry,
};
use crate::model::service::ServiceState;
use crate::model::state::{
    free_of, not_before, seeded, slack_of, total_busy, total_slack, ModelView, LOAD_ONE,
};
use crate::model::unit::Unit;
use crate::model::Time;

verus! {

/// A sound state is sound again after an arrival that an idle server takes
/// up.
pub proof fn lemma_arrival_served(m: ModelView, service_time: Time, gap: Time)
    requires
        m.well_formed(),
        m.due() is Some,
        m.due()->Some_0.unit is Gen,
        m.idle.len() > 0,
        m.step_refusal(service_time, gap) is None,
    ensures
        m.step(service_time, gap).well_formed(),
{
    let e = m.schedule[0];
    let g = e.unit->Gen_0 as int;
    let rest = m.schedule.drop_first();
    let s = m.idle[0];
    let generator = m.generators[g].advanced(None, gap);
    let server = m.services[s as int].advanced(Some(e.time), service_time);
    let completion = Entry { time: server.next_event, unit: Unit::Svc(s) };
    let arrival = Entry { time: generator.next_event, unit: e.unit };
    let q1 = enqueue(rest, completion);
    let n = m.step(service_time, gap);

    lemma_enqueue_sorted(rest, completion);
    lemma_enqueue_sorted(q1, arrival);

    let tracked_by = |x: Entry| n.tracks(x);
    lemma_enqueue_all(rest, completion, tracked_by);
    lemma_enqueue_all(q1, arrival, tracked_by);

    lemma_enqueue_distinct(rest, completion);
    let not_arrival = |x: Entry| x.unit != arrival.unit;
    lemma_enqueue_all(rest, completion, not_arrival);
    lemma_enqueue_distinct(q1, arrival);

    let free = |x: Entry| free_of(x, n.idle);
    lemma_enqueue_all(rest, completion, free);
    lemma_enqueue_all(q1, arrival, free);

    lemma_servers_in_enqueue(rest, completion);
    lemma_servers_in_enqueue(q1, arrival);
}

/// A sound state is sound again after an arrival that has to wait.
pub proof fn lemma_arrival_waits(m: ModelView, service_time: Time, gap: Time)
    requires
        m.well_formed(),
        m.due() is Some,
        m.due()->Some_0.unit is Gen,
        m.idle.len() == 0,
        m.step_refusal(service_time, gap) is None,
    ensures
        m.step(service_time, gap).well_formed(),
{
    let e = m.schedule[0];
    let g = e.unit->Gen_0 as int;
    let rest = m.schedule.drop_first();
    let generator = m.generators[g].advanced(None, gap);
    let arrival = Entry { time: generator.next_event, unit: e.unit };
    let n = m.step(service_time, gap);

    lemma_enqueue_sorted(rest, arrival);
    let tracked_by = |x: Entry| n.tracks(x);
    lemma_enqueue_all(rest, arrival, tracked_by);
    lemma_enqueue_distinct(rest, arrival);
    lemma_servers_in_enqueue(rest, arrival);

    let after = |x: Entry| not_before(x, n.waiting);
    lemma_enqueue_all(rest, arrival, after);
}

/// A sound state is sound again after a completion that is followed by the
/// next job.
pub proof fn lemma_completion_resumes(m: ModelView, service_time: Time, gap: Time)
    requires
        m.well_formed(),
        m.due() is Some,
        m.due()->Some_0.unit is Svc,
        m.waiting.len() > 0,
        m.step_refusal(service_time, gap) is None,
    ensures
        m.step(service_time, gap).well_formed(),
{
    let e = m.schedule[0];
    let s = e.unit->Svc_0 as int;
    let rest = m.schedule.drop_first();
    let server = m.services[s].advanced(None, service_time);
    let completion = Entry { time: server.next_event, unit: e.unit };
    let n = m.step(service_time, gap);

    lemma_enqueue_sorted(rest, completion);
    let tracked_by = |x: Entry| n.tracks(x);
    lemma_enqueue_all(rest, completion, tracked_by);
    lemma_enqueue_distinct(rest, completion);
    lemma_servers_in_enqueue(rest, completion);

    let after = |x: Entry| not_before(x, n.waiting);
    lemma_enqueue_all(rest, completion, after);
}

/// Whatever the durations, an event that is not refused takes a sound state
/// to a sound state: no unit is lost or doubled, every request stays
/// accounted for, and no request waits beside an idle server.
pub proof fn lemma_step_well_formed(m: ModelView, service_time: Time, gap: Time)
    requires
        m.well_formed(),
        m.step_refusal(service_time, gap) is None,
    ensures
        m.step(service_time, gap).well_formed(),
{
    match m.due() {
        None => {},
        Some(e) => match e.unit {
            Unit::Gen(_) => {
                if m.idle.len() > 0 {
                    lemma_arrival_served(m, service_time, gap);
                } else {
                    lemma_arrival_waits(m, service_time, gap);
                }
            },
            Unit::Svc(_) => {
                if m.waiting.len() > 0 {
                    lemma_completion_resumes(m, service_time, gap);
                }
            },
        },
    }
}

/// In a sound state the servers in the queue and the idle ones are together
/// all the servers, and the requests served never outnumber the arrivals.
pub proof fn lemma_well_formed_counts(m: ModelView)
    requires
        m.well_formed(),
    ensures
        m.idle.len() + servers_in(m.schedule) == m.services.len(),
        m.requests_handled <= m.requests_total,
        m.requests_total - m.requests_handled == servers_in(m.schedule) + m.waiting.len(),
{
}

/// What a changed next arrival of one process does to the slack.
pub proof fn lemma_slack_update(g: Seq<ArrivalState>, i: int, x: ArrivalState, horizon: Time)
    requires
        0 <= i < g.len(),
    ensures
        total_slack(g.update(i, x), horizon) + slack_of(g[i].next_event, horizon) == total_slack(
            g,
            horizon,
        ) + slack_of(x.next_event, horizon),
    decreases g.len(),
{
    let u = g.update(i, x);
    if i == g.len() - 1 {
        assert(u.drop_last() =~= g.drop_last());
    } else {
        assert(u.drop_last() =~= g.drop_last().update(i, x));
        lemma_slack_update(g.drop_last(), i, x, horizon);
    }
}

/// Every event brings the end of the run nearer: an arrival takes from the
/// slack of its process, and a completion leaves the slack alone and
/// shortens the backlog.
pub proof fn lemma_step_decreases(m: ModelView, service_time: Time, gap: Time)
    requires
        m.well_formed(),
        m.due() is Some,
        m.step_refusal(service_time, gap) is None,
    ensures
        m.step(service_time, gap).slack() < m.slack() || (m.step(service_time, gap).slack()
            == m.slack() && m.step(service_time, gap).backlog() < m.backlog()),
{
    let e = m.schedule[0];
    let rest = m.schedule.drop_first();
    match e.unit {
        Unit::Gen(g) => {
            let generator = m.generators[g as int].advanced(None, gap);
            lemma_slack_update(m.generators, g as int, generator, m.model_time);
        },
        Unit::Svc(s) => {
            if m.waiting.len() > 0 {
                let server = m.services[s as int].advanced(None, service_time);
                lemma_servers_in_enqueue(
                    rest,
                    Entry { time: server.next_event, unit: e.unit },
                );
            }
        },
    }
}

/// What the queue holds after the first `n` arrival processes were put in.
pub proof fn lemma_seeded(g: Seq<ArrivalState>, n: nat)
    requires
        n <= g.len() <= usize::MAX,
    ensures
        seeded(g, n).len() == n,
        sorted(seeded(g, n)),
        units_distinct(seeded(g, n)),
        servers_in(seeded(g, n)) == 0,
        forall|i: int|
            0 <= i < seeded(g, n).len() ==> {
                let x = #[trigger] seeded(g, n)[i];
                &&& x.unit is Gen
                &&& x.unit->Gen_0 < n
                &&& x.time == g[x.unit->Gen_0 as int].next_event
            },
    decreases n,
{
    if n > 0 {
        let before = seeded(g, (n - 1) as nat);
        let e = Entry { time: g[n - 1].next_event, unit: Unit::Gen((n - 1) as usize) };
        lemma_seeded(g, (n - 1) as nat);
        lemma_enqueue_sorted(before, e);
        lemma_enqueue_distinct(before, e);
        lemma_servers_in_enqueue(before, e);
        let placed = |x: Entry|
            x.unit is Gen && x.unit->Gen_0 < n && x.time == g[x.unit->Gen_0 as int].next_event;
        lemma_enqueue_all(before, e, placed);
    }
}

/// A run starts in a sound state.
pub proof fn lemma_begun_well_formed(m: ModelView)
    requires
        m.generators_well_formed(),
        m.generators.len() <= usize::MAX,
        m.services.len() <= usize::MAX,
    ensures
        m.begun().well_formed(),
        m.begun().same_units(m),
{
    lemma_seeded(m.generators, m.generators.len());
}

/// Servers that have kept time keep it through every event that is not
/// refused.
pub proof fn lemma_step_timely(m: ModelView, service_time: Time, gap: Time)
    requires
        m.well_formed(),
        m.timely(),
        m.step_refusal(service_time, gap) is None,
    ensures
        m.step(service_time, gap).timely(),
{
    let n = m.step(service_time, gap);
    if m.due() is Some {
        let e = m.schedule[0];
        let rest = m.schedule.drop_first();
        match e.unit {
            Unit::Gen(g) => {
                let generator = m.generators[g as int].advanced(None, gap);
                let arrival = Entry { time: generator.next_event, unit: e.unit };
                if m.idle.len() > 0 {
                    let s = m.idle[0];
                    let server = m.services[s as int].advanced(Some(e.time), service_time);
                    let completion = Entry { time: server.next_event, unit: Unit::Svc(s) };
                    let q1 = enqueue(rest, completion);
                    let late = |x: Entry|
                        forall|j: int| 0 <= j < n.idle.len() ==> n.done_by(#[trigger] n.idle[j], x);
                    lemma_enqueue_all(rest, completion, late);
                    lemma_enqueue_all(q1, arrival, late);
                }
            },
            Unit::Svc(s) => {
            },
        }
    }
}

/// Servers that have kept time were busy for no more than the time up to
/// the horizon, each of them.
pub proof fn lemma_timely_busy(services: Seq<ServiceState>, horizon: Time)
    requires
        forall|s: int|
            0 <= s < services.len() ==> (#[trigger] services[s]).busy_time <= horizon,
    ensures
        total_busy(services) <= services.len() * horizon,
    decreases services.len(),
{
    if services.len() > 0 {
        let front = services.drop_last();
        lemma_timely_busy(front, horizon);
        assert(services.len() * horizon == front.len() * horizon + horizon) by (nonlinear_arith)
            requires
                services.len() == front.len() + 1,
        ;
    }
}

/// Where the servers have kept time, the load is at most one; and it can be
/// given, as long as there are not more than 2^44 servers.
pub proof fn lemma_timely_load(m: ModelView)
    requires
        m.timely(),
    ensures
        0 <= m.load_avg() <= LOAD_ONE,
        m.services.len() <= 0x1000_0000_0000 ==> !m.load_refused(),
{
    lemma_timely_busy(m.services, m.model_time);
    if m.model_time > 0 && m.services.len() > 0 {
        let busy = total_busy(m.services) as int;
        let time = (m.services.len() * m.model_time) as int;
        assert(time > 0) by (nonlinear_arith)
            requires
                time == m.services.len() * m.model_time,
                m.services.len() > 0,
                m.model_time > 0,
        ;
        vstd::arithmetic::div_mod::lemma_div_is_ordered(busy * LOAD_ONE, time * LOAD_ONE, time);
        vstd::arithmetic::div_mod::lemma_div_by_multiple(LOAD_ONE as int, time);
        if m.services.len() <= 0x1000_0000_0000 {
            assert(time * LOAD_ONE <= 0x1000_0000_0000 * 0xFFFF_FFFF_FFFF_FFFF * 1_000_000)
                by (nonlinear_arith)
                requires
                    time == m.services.len() * m.model_time,
                    m.services.len() <= 0x1000_0000_0000,
                    m.model_time <= 0xFFFF_FFFF_FFFF_FFFF,
            ;
        }
    }
}

/// One more event at the end of a row of events.
pub proof fn lemma_replayed_push(
    m: ModelView,
    draws: Seq<(Time, Time)>,
    service_time: Time,
    gap: Time,
)
    ensures
        m.replayed(draws.push((service_time, gap))) == m.replayed(draws).step(service_time, gap),
        m.accepts(draws.push((service_time, gap))) == (m.accepts(draws) && m.replayed(
            draws,
        ).due() is Some && m.replayed(draws).step_refusal(service_time, gap) is None),
{
    let longer = draws.push((service_time, gap));
    assert(longer.drop_last() =~= draws);
}

} // verus!

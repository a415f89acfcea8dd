//! The handle by which the engine names a unit wherever it schedules one.

use vstd::prelude::*;
use crate::model::random::RandomSource;
use crate::model::state::ModelView;
use crate::model::{Model, ModelError, Time};

verus! {

/// An arrival process or a server of a model, by its place in the order in
/// which the units of its kind were registered.
#[derive(Clone, Copy, Debug, PartialEq, Eq, Structural)]
pub enum Unit {
    /// The arrival process with this number.
    Gen(usize),
    /// The server with this number.
    Svc(usize),
}

impl Unit {
    /// The time of the unit's last event, if `model` has the unit.
    pub fn last_event(&self, model: &Model) -> (t: Option<Time>)
        ensures
            t == model@.last_event_of(*self),
    {
        match *self {
            Unit::Gen(g) => match model.generator(g) {
                Some(generator) => Some(generator.last_event()),
                None => None,
            },
            Unit::Svc(s) => match model.service(s) {
                Some(server) => Some(server.last_event()),
                None => None,
            },
        }
    }

    /// The time of the unit's next event, if `model` has the unit.
    pub fn next_event(&self, model: &Model) -> (t: Option<Time>)
        ensures
            t == model@.next_event_of(*self),
    {
        match *self {
            Unit::Gen(g) => match model.generator(g) {
                Some(generator) => Some(generator.next_event()),
                None => None,
            },
            Unit::Svc(s) => match model.service(s) {
                Some(server) => Some(server.next_event()),
                None => None,
            },
        }
    }

    /// Moves the unit on by a duration drawn from `rng`, from the forced time
    /// or else from its next event, outside any run. A handle that names no
    /// unit of `model` is refused; a failed draw or a refused move changes
    /// nothing.
    pub fn advance<R: RandomSource>(
        &self,
        model: &mut Model,
        time_override: Option<Time>,
        rng: &mut R,
    ) -> (r: Result<(), ModelError>)
        ensures
            !old(model)@.has(*self) <==> r == Err::<(), ModelError>(ModelError::EmptySystem),
            r is Err ==> final(model)@ == old(model)@,
            r is Ok ==> match *self {
                Unit::Gen(g) => {
                    let moved = final(model)@.generators[g as int];
                    &&& final(model)@ == (ModelView {
                        generators: old(model)@.generators.update(g as int, moved),
                        ..old(model)@
                    })
                    &&& moved.last_event == old(model)@.generators[g as int].resumed_at(
                        time_override,
                    )
                    &&& moved.well_formed()
                    &&& moved.sigma == old(model)@.generators[g as int].sigma
                },
                Unit::Svc(s) => {
                    let before = old(model)@.services[s as int];
                    let moved = final(model)@.services[s as int];
                    &&& final(model)@ == (ModelView {
                        services: old(model)@.services.update(s as int, moved),
                        ..old(model)@
                    })
                    &&& moved.last_event == before.resumed_at(time_override)
                    &&& moved.next_event >= moved.last_event
                    &&& moved.busy_time == before.busy_time + before.job()
                    &&& moved.mean == before.mean
                    &&& moved.sigma == before.sigma
                },
            },
    {
        model.advance_unit(*self, time_override, rng)
    }
}

} // verus!

//! Bookkeeping of a satellite tracking engine: the latest propagated state of
//! every tracked object, and for every ground observer the objects that stand
//! above the local horizon.
//!
//! The numbers themselves are computed by the caller, in floating point: a
//! propagator turns the orbital elements of an object into a fix, and a frame
//! transform turns a fix into what an observer sees of the object. The engine
//! asks for both once per tick and keeps the books: which object has which
//! state, which state is stale, who sees what. It carries every number as
//! the bit pattern of a binary64 value and computes with none of them.

use vstd::prelude::*;

pub mod constellation;
pub mod engine;
pub mod epoch;
pub mod identity;
pub mod observer;
pub mod observers;
pub mod oracle;
pub mod output;
pub mod scalar;
pub mod state;

pub use constellation::{Constellation, Satellite};
pub use engine::{Engine, EngineView, StateType};
pub use epoch::{day_number, epoch, Epoch};
pub use identity::{Identity, Sgp4Data};
pub use observer::{Observer, ObserverView, RangedConstellation, RangedSatellite};
pub use observers::Observers;
pub use oracle::Oracle;
pub use output::write_vec;
pub use scalar::Scalar;
pub use state::{flatten, Cartesian, Fix, Geodetic, Horizontal, Sighting, State};

verus! {

/// An engine that tracks the given element sets and has one observer, at the
/// given latitude, longitude and altitude. An element set from which the
/// propagator derives no constants is left out; the others are tracked in the
/// order of the batch, each under the identity that its element set carries,
/// with the oracle that holds it and its constants, and with a zero fix.
pub fn init(elements_group: Vec<sgp4::Elements>, observer: (Scalar, Scalar, Scalar)) -> (engine:
    Engine<Oracle>)
    ensures
        engine.wf(),
        engine@.satellites == constellation::enrolled(oracle::candidates_of(elements_group@)),
        engine@.satellites.len() <= elements_group@.len(),
        engine@.observers == seq![
            ObserverView::spec_fresh(Geodetic::spec_from_state(State(observer.0, observer.1, observer.2))),
        ],
{
    let candidates = oracle::try_build_all(elements_group);
    let mut states: Vec<State> = Vec::new();
    states.push(State(observer.0, observer.1, observer.2));
    proof {
        constellation::lemma_enrolled_len(candidates@);
    }
    let engine = Engine::from_data(candidates, states);
    proof {
        assert(engine@.observers =~= seq![
            ObserverView::spec_fresh(
                Geodetic::spec_from_state(State(observer.0, observer.1, observer.2)),
            ),
        ]);
    }
    engine
}

/// Leaves the engine with one observer, at the given latitude, longitude and
/// altitude. Where the engine had an observer, the first one moves there and
/// keeps its visible set; the others are dropped.
pub fn update_observer_state<C>(engine: &mut Engine<C>, observer: (Scalar, Scalar, Scalar))
    requires
        old(engine).wf(),
    ensures
        final(engine).wf(),
        final(engine)@.satellites == old(engine)@.satellites,
        final(engine)@.observers == observers::resized(
            old(engine)@.observers,
            seq![State(observer.0, observer.1, observer.2)],
        ),
{
    let mut states: Vec<State> = Vec::new();
    states.push(State(observer.0, observer.1, observer.2));
    proof {
        assert(states@ =~= seq![State(observer.0, observer.1, observer.2)]);
    }
    engine.update_observer_states(states);
}

/// Whether `after` is the engine one tick after `before`: the objects were
/// propagated with `propagator`, which answered `outcomes`, and then every
/// observer looked at every object, in the state that the propagation left,
/// with `look`, which answered `sightings`, and rescanned at the second
/// `now`.
pub open spec fn ticked<
    C,
    P: Fn(&Sgp4Data<C>) -> Option<Fix>,
    L: Fn(&Geodetic, &Fix) -> Sighting,
>(
    before: EngineView<C>,
    after: EngineView<C>,
    propagator: P,
    outcomes: Seq<Option<Fix>>,
    look: L,
    sightings: Seq<Seq<Sighting>>,
    now: i64,
) -> bool {
    &&& constellation::propagated_with(propagator, before.satellites, after.satellites, outcomes)
    &&& observers::all_recomputed_with(
        look,
        before.observers,
        after.satellites,
        after.observers,
        sightings,
        now,
    )
}

/// One tick at the second `now`: propagates every object with `propagator`,
/// then lets every observer look at every object with `look` and rescan. An
/// object for which the propagator fails keeps the state it had, and is
/// looked at in that state.
pub fn update<C, P: Fn(&Sgp4Data<C>) -> Option<Fix>, L: Fn(&Geodetic, &Fix) -> Sighting>(
    engine: &mut Engine<C>,
    propagator: P,
    look: L,
    now: i64,
)
    requires
        old(engine).wf(),
        constellation::may_ask(propagator, old(engine)@.satellites),
        forall|place: Geodetic, fix: Fix| call_requires(look, (&place, &fix)),
    ensures
        final(engine).wf(),
        exists|outcomes: Seq<Option<Fix>>, sightings: Seq<Seq<Sighting>>| #[trigger]
            ticked(old(engine)@, final(engine)@, propagator, outcomes, look, sightings, now),
{
    engine.propagate_with(propagator);
    let ghost between = engine@;
    let ghost outcomes = choose|outcomes: Seq<Option<Fix>>| #[trigger]
        constellation::propagated_with(
            propagator,
            old(engine)@.satellites,
            between.satellites,
            outcomes,
        );
    engine.update_observers_satellites_with(look, now);
    proof {
        let sightings = choose|sightings: Seq<Seq<Sighting>>| #[trigger]
            observers::all_recomputed_with(
                look,
                between.observers,
                between.satellites,
                engine@.observers,
                sightings,
                now,
            );
        assert(ticked(old(engine)@, engine@, propagator, outcomes, look, sightings, now));
    }
}

/// The geodetic position of every object, by handle, as latitude, longitude,
/// altitude.
pub fn get_constellation_geodetic_positions<C>(engine: &Engine<C>) -> (r: Vec<State>)
    requires
        engine.wf(),
    ensures
        r@ == engine@.spec_states(StateType::PositionGeodetic),
{
    engine.get_states(StateType::PositionGeodetic)
}

/// What the first observer sees: for every visible object, by increasing
/// handle, its azimuth, elevation and range, and beside it its velocity in
/// the observer's east-north-up frame.
pub fn get_observer_constellations<C>(engine: &Engine<C>) -> (r: (Vec<State>, Vec<State>))
    requires
        engine.wf(),
        engine@.observers.len() > 0,
    ensures
        r.0@ == engine@.spec_states(StateType::PositionAER(0)),
        r.1@ == engine@.spec_states(StateType::VelocityENU(0)),
{
    (engine.get_states(StateType::PositionAER(0)), engine.get_states(StateType::VelocityENU(0)))
}

} // verus!

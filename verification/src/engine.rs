//! The engine: one constellation and a resizable collection of observers,
//! driven by two transitions per tick. `propagate` records the outcome of
//! propagating every object; `update_observers_satellites` lets every
//! observer rescan the constellation as the last `propagate` left it.

use vstd::prelude::*;
use crate::constellation::{
    enrolled, may_ask, outcome_at, propagated, propagated_with, Constellation, Satellite,
};
use crate::identity::{Identity, Sgp4Data};
use crate::observer::{listing, ObserverView, RangedSatellite};
use crate::observers::{
    all_keyed_by_handle, all_recomputed, all_recomputed_with, may_look, resized, rows, Observers,
};
use crate::state::{Fix, Geodetic, Sighting, State};

verus! {

/// Which states to read from the engine: the geodetic position of every
/// object, or, for the observer with the given index, the azimuth, elevation
/// and range, or the east-north-up velocity, of every object it sees.
pub enum StateType {
    PositionGeodetic,
    PositionAER(usize),
    VelocityENU(usize),
}

/// The engine as it is modelled: the tracked objects by handle and the
/// observers by index.
pub struct EngineView<C> {
    pub satellites: Seq<Satellite<C>>,
    pub observers: Seq<ObserverView>,
}

impl<C> EngineView<C> {
    /// Whether the engine holds the states that `state_type` names: the
    /// geodetic positions always, those of an observer where the observer
    /// is there.
    pub open spec fn spec_has_states(self, state_type: StateType) -> bool {
        match state_type {
            StateType::PositionGeodetic => true,
            StateType::PositionAER(o) => o < self.observers.len(),
            StateType::VelocityENU(o) => o < self.observers.len(),
        }
    }

    /// The states that `state_type` names. Geodetic positions come by
    /// handle, one per object; what an observer sees comes by increasing
    /// handle, one state per visible object.
    pub open spec fn spec_states(self, state_type: StateType) -> Seq<State> {
        match state_type {
            StateType::PositionGeodetic => self.satellites.map_values(
                |s: Satellite<C>| s.fix.position_geodetic.spec_to_state(),
            ),
            StateType::PositionAER(o) => listing(
                self.observers[o as int].satellites_in_range,
                self.satellites.len(),
            ).map_values(|r: RangedSatellite| r.position.spec_to_state()),
            StateType::VelocityENU(o) => listing(
                self.observers[o as int].satellites_in_range,
                self.satellites.len(),
            ).map_values(|r: RangedSatellite| r.velocity.spec_to_state()),
        }
    }
}

/// One constellation and the observers that watch it.
pub struct Engine<C> {
    constellation: Constellation<C>,
    observers: Observers,
}

impl<C> View for Engine<C> {
    type V = EngineView<C>;

    closed spec fn view(&self) -> EngineView<C> {
        EngineView { satellites: self.constellation@, observers: self.observers@ }
    }
}

impl<C> Engine<C> {
    /// The constellation is well formed, and every visible set of every
    /// observer is keyed by the handles of objects of the constellation.
    pub closed spec fn wf(&self) -> bool {
        &&& self.constellation.wf()
        &&& all_keyed_by_handle(self.observers@, self.constellation@.len())
    }

    /// Every visible set only holds objects of the constellation, each under
    /// its own handle.
    pub proof fn lemma_visible_sets_are_keyed_by_handle(&self)
        requires
            self.wf(),
        ensures
            all_keyed_by_handle(self@.observers, self@.satellites.len()),
    {
    }

    /// Builds an engine from a batch of candidates, each the identity of an
    /// element set with the propagation constants derived from it, if any,
    /// and the places of the observers as latitude, longitude, altitude.
    /// Candidates without constants are left out; no object has a fix yet
    /// and no observer has looked yet.
    pub fn from_data(elements_vec: Vec<(Identity, Option<C>)>, observers_states: Vec<State>) -> (r:
        Engine<C>)
        ensures
            r.wf(),
            r@.satellites == enrolled(elements_vec@),
            r@.observers == resized(Seq::<ObserverView>::empty(), observers_states@),
    {
        let constellation = Constellation::from_elements(elements_vec);
        let constellation_len = constellation.len();
        Engine {
            constellation,
            observers: Observers::from_states(observers_states, constellation_len),
        }
    }

    /// Sets the places of the observers anew and makes their collection as
    /// long as `observer_states`. An observer that stays keeps its index,
    /// its visible set and the second of its last rescan; a new observer
    /// starts with an empty visible set; observers past the new length are
    /// dropped with their visible sets. The constellation is not touched.
    pub fn update_observer_states(&mut self, observer_states: Vec<State>)
        requires
            old(self).wf(),
        ensures
            final(self).wf(),
            final(self)@.satellites == old(self)@.satellites,
            final(self)@.observers == resized(old(self)@.observers, observer_states@),
    {
        let constellation_len = self.constellation.len();
        self.observers.update_states(observer_states, constellation_len);
    }

    /// One propagation tick. `outcomes` holds, by handle, what propagating
    /// each object yielded. A fix replaces the state the object had; an
    /// object whose propagation failed, or for which the batch holds no
    /// outcome, keeps exactly the state it had before the tick. The
    /// observers are not touched.
    pub fn propagate(&mut self, outcomes: &Vec<Option<Fix>>)
        requires
            old(self).wf(),
        ensures
            final(self).wf(),
            final(self)@.satellites == propagated(old(self)@.satellites, outcomes@),
            final(self)@.observers == old(self)@.observers,
            forall|i: int|
                0 <= i < old(self)@.satellites.len() && outcome_at(outcomes@, i) is None ==> final(self)@.satellites[i]
                    == old(self)@.satellites[i],
    {
        self.constellation.propagate(outcomes);
    }

    /// Lets every observer rescan the constellation at the second `now`.
    /// `sightings` holds one row per observer and, in each row, by handle,
    /// how that observer sees each object in the state that the last
    /// `propagate` left. After the call an object is in an observer's
    /// visible set exactly if the up component of its sighting is strictly
    /// greater than zero. The constellation is not touched.
    pub fn update_observers_satellites(&mut self, sightings: &Vec<Vec<Sighting>>, now: i64)
        requires
            old(self).wf(),
        ensures
            final(self).wf(),
            final(self)@.satellites == old(self)@.satellites,
            final(self)@.observers == all_recomputed(
                old(self)@.observers,
                old(self)@.satellites,
                rows(sightings@),
                now,
            ),
    {
        self.observers.recompute(&self.constellation, sightings, now);
    }

    /// One propagation tick, driven from here: asks `propagator` about every
    /// object, in the order of the handles, and records what it answers as
    /// `propagate` does. An object for which the propagator fails keeps
    /// exactly the state it had before the tick. The observers are not
    /// touched.
    pub fn propagate_with<F: Fn(&Sgp4Data<C>) -> Option<Fix>>(&mut self, propagator: F)
        requires
            old(self).wf(),
            may_ask(propagator, old(self)@.satellites),
        ensures
            final(self).wf(),
            final(self)@.observers == old(self)@.observers,
            exists|outcomes: Seq<Option<Fix>>| #[trigger]
                propagated_with(
                    propagator,
                    old(self)@.satellites,
                    final(self)@.satellites,
                    outcomes,
                ),
    {
        let ghost before = self@;
        self.constellation.propagate_with(propagator);
        proof {
            let outcomes = choose|outcomes: Seq<Option<Fix>>| #[trigger]
                propagated_with(propagator, before.satellites, self.constellation@, outcomes);
            assert(propagated_with(propagator, before.satellites, self@.satellites, outcomes));
        }
    }

    /// Lets every observer rescan the constellation at the second `now`,
    /// driven from here: every observer looks at every object with `look`,
    /// which is given the place of the observer and the fix that the last
    /// propagation tick left of the object. After the call an object is in
    /// an observer's visible set exactly if the up component of what `look`
    /// answered is strictly greater than zero. The constellation is not
    /// touched.
    pub fn update_observers_satellites_with<F: Fn(&Geodetic, &Fix) -> Sighting>(
        &mut self,
        look: F,
        now: i64,
    )
        requires
            old(self).wf(),
            may_look(look, old(self)@.observers, old(self)@.satellites),
        ensures
            final(self).wf(),
            final(self)@.satellites == old(self)@.satellites,
            exists|sightings: Seq<Seq<Sighting>>| #[trigger]
                all_recomputed_with(
                    look,
                    old(self)@.observers,
                    old(self)@.satellites,
                    final(self)@.observers,
                    sightings,
                    now,
                ),
    {
        let ghost before = self@;
        self.observers.recompute_with(&self.constellation, look, now);
        proof {
            let sightings = choose|sightings: Seq<Seq<Sighting>>| #[trigger]
                all_recomputed_with(
                    look,
                    before.observers,
                    before.satellites,
                    self.observers@,
                    sightings,
                    now,
                );
            assert(all_recomputed_with(
                look,
                before.observers,
                before.satellites,
                self@.observers,
                sightings,
                now,
            ));
        }
    }

    /// The constellation.
    pub fn get_constellation(&self) -> (r: &Constellation<C>)
        requires
            self.wf(),
        ensures
            r.wf(),
            r@ == self@.satellites,
    {
        &self.constellation
    }

    /// The observers.
    pub fn get_observers(&self) -> (r: &Observers)
        ensures
            r@ == self@.observers,
    {
        &self.observers
    }

    /// The catalog number of every object, by handle.
    pub fn get_norad_ids(&self) -> (r: Vec<u64>)
        requires
            self.wf(),
        ensures
            r@ == self@.satellites.map_values(|s: Satellite<C>| s.data.0.norad_id),
    {
        self.constellation.get_norad_ids()
    }

    /// The second at which every object was last propagated, by handle; zero
    /// for an object that has no fix yet.
    pub fn get_timestamps(&self) -> (r: &Vec<i64>)
        requires
            self.wf(),
        ensures
            r@ == self@.satellites.map_values(|s: Satellite<C>| s.fix.time),
    {
        self.constellation.get_timestamps()
    }

    /// The states that `state_type` names, as untagged triples.
    pub fn get_states(&self, state_type: StateType) -> (r: Vec<State>)
        requires
            self.wf(),
            self@.spec_has_states(state_type),
        ensures
            r@ == self@.spec_states(state_type),
    {
        let mut states: Vec<State> = Vec::new();
        match state_type {
            StateType::PositionGeodetic => {
                let positions = self.constellation.get_positions_geodetic();
                let mut i: usize = 0;
                while i < positions.len()
                    invariant
                        i <= positions@.len(),
                        states@.len() == i,
                        forall|k: int|
                            0 <= k < i ==> states@[k] == positions@[k].spec_to_state(),
                    decreases positions@.len() - i,
                {
                    states.push(positions[i].to_state());
                    i += 1;
                }
                proof {
                    assert(states@ =~= self@.spec_states(state_type));
                }
            },
            StateType::PositionAER(o) => {
                let entries = self.observers.get(o).get_ranged_satellites().list(
                    self.constellation.len(),
                );
                let mut i: usize = 0;
                while i < entries.len()
                    invariant
                        i <= entries@.len(),
                        states@.len() == i,
                        forall|k: int|
                            0 <= k < i ==> states@[k] == entries@[k].position.spec_to_state(),
                    decreases entries@.len() - i,
                {
                    states.push(entries[i].position.to_state());
                    i += 1;
                }
                proof {
                    assert(states@ =~= self@.spec_states(state_type));
                }
            },
            StateType::VelocityENU(o) => {
                let entries = self.observers.get(o).get_ranged_satellites().list(
                    self.constellation.len(),
                );
                let mut i: usize = 0;
                while i < entries.len()
                    invariant
                        i <= entries@.len(),
                        states@.len() == i,
                        forall|k: int|
                            0 <= k < i ==> states@[k] == entries@[k].velocity.spec_to_state(),
                    decreases entries@.len() - i,
                {
                    states.push(entries[i].velocity.to_state());
                    i += 1;
                }
                proof {
                    assert(states@ =~= self@.spec_states(state_type));
                }
            },
        }
        states
    }
}

} // verus!

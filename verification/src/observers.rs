//! The observers of an engine: a resizable collection in which an observer
//! keeps its index, its place and its visible set for as long as the
//! collection is not shrunk below it.

use vstd::prelude::*;
use crate::constellation::{Constellation, Satellite};
use crate::observer::{keyed_by_handle, Observer, ObserverView, RangedSatellite};
use crate::state::{Fix, Geodetic, Sighting, State};

verus! {

/// The observers after their places were set anew from `states`: as many
/// observers as there are states. An observer that was there keeps its
/// visible set and the second of its last rescan and moves to its new place;
/// an observer that was not starts at its place without having looked.
pub open spec fn resized(observers: Seq<ObserverView>, states: Seq<State>) -> Seq<ObserverView> {
    Seq::new(
        states.len(),
        |i: int|
            if i < observers.len() {
                observers[i].spec_moved(Geodetic::spec_from_state(states[i]))
            } else {
                ObserverView::spec_fresh(Geodetic::spec_from_state(states[i]))
            },
    )
}

/// Resizing keeps the visible set of every observer that stays, and gives
/// every observer that it adds an empty one.
pub proof fn lemma_resize_keeps_visible_sets(
    observers: Seq<ObserverView>,
    states: Seq<State>,
    o: int,
)
    requires
        0 <= o < states.len(),
    ensures
        resized(observers, states).len() == states.len(),
        o < observers.len() ==> resized(observers, states)[o].satellites_in_range
            == observers[o].satellites_in_range,
        o >= observers.len() ==> resized(observers, states)[o].satellites_in_range
            == Map::<usize, RangedSatellite>::empty(),
{
}

/// The visible sets of all the observers are keyed by handle, with every
/// handle below `len`.
pub open spec fn all_keyed_by_handle(observers: Seq<ObserverView>, len: nat) -> bool {
    forall|o: int|
        0 <= o < observers.len() ==> keyed_by_handle(
            (#[trigger] observers[o]).satellites_in_range,
            len,
        )
}

/// The rows of a batch of sightings, one row per observer.
pub open spec fn rows(sightings: Seq<Vec<Sighting>>) -> Seq<Seq<Sighting>> {
    sightings.map_values(|row: Vec<Sighting>| row@)
}

/// The sightings of the observer with index `o`, where the batch holds any:
/// a batch that is too short holds none for the observers past its end.
pub open spec fn sightings_of(sightings: Seq<Seq<Sighting>>, o: int) -> Option<Seq<Sighting>> {
    if 0 <= o < sightings.len() {
        Some(sightings[o])
    } else {
        None
    }
}

/// Whether `row` is what an observer at `place` sees of the objects when it
/// looks at each of them with `look`: one sighting per object, by handle.
pub open spec fn row_seen<C, F: Fn(&Geodetic, &Fix) -> Sighting>(
    look: F,
    place: Geodetic,
    satellites: Seq<Satellite<C>>,
    row: Seq<Sighting>,
) -> bool {
    &&& row.len() == satellites.len()
    &&& forall|i: int|
        0 <= i < row.len() ==> call_ensures(look, (&place, &satellites[i].fix), #[trigger] row[i])
}

/// Whether `sightings` is what the observers see of the objects when each of
/// them looks with `look`: one row per observer.
pub open spec fn all_seen<C, F: Fn(&Geodetic, &Fix) -> Sighting>(
    look: F,
    observers: Seq<ObserverView>,
    satellites: Seq<Satellite<C>>,
    sightings: Seq<Seq<Sighting>>,
) -> bool {
    &&& sightings.len() == observers.len()
    &&& forall|o: int|
        0 <= o < sightings.len() ==> row_seen(
            look,
            observers[o].position,
            satellites,
            #[trigger] sightings[o],
        )
}

/// Whether every observer may look at every object with `look`.
pub open spec fn may_look<C, F: Fn(&Geodetic, &Fix) -> Sighting>(
    look: F,
    observers: Seq<ObserverView>,
    satellites: Seq<Satellite<C>>,
) -> bool {
    forall|o: int, i: int|
        0 <= o < observers.len() && 0 <= i < satellites.len() ==> call_requires(
            look,
            (&(#[trigger] observers[o]).position, &(#[trigger] satellites[i]).fix),
        )
}

/// The observers after every one of them rescanned the constellation at the
/// second `now`. An observer for which the batch holds no sightings is left
/// as it was.
pub open spec fn all_recomputed<C>(
    observers: Seq<ObserverView>,
    satellites: Seq<Satellite<C>>,
    sightings: Seq<Seq<Sighting>>,
    now: i64,
) -> Seq<ObserverView> {
    Seq::new(
        observers.len(),
        |o: int|
            match sightings_of(sightings, o) {
                Some(row) => observers[o].spec_recompute(satellites, row, now),
                None => observers[o],
            },
    )
}

/// Whether `after` are the observers `before` after every one of them looked
/// at every object with `look`, which answered `sightings`, and rescanned at
/// the second `now`.
pub open spec fn all_recomputed_with<C, F: Fn(&Geodetic, &Fix) -> Sighting>(
    look: F,
    before: Seq<ObserverView>,
    satellites: Seq<Satellite<C>>,
    after: Seq<ObserverView>,
    sightings: Seq<Seq<Sighting>>,
    now: i64,
) -> bool {
    &&& all_seen(look, before, satellites, sightings)
    &&& after == all_recomputed(before, satellites, sightings, now)
}

/// A resizable collection of observers. The index of an observer stays the
/// same as long as the collection is not shrunk below it.
pub struct Observers {
    observers: Vec<Observer>,
}

impl View for Observers {
    type V = Seq<ObserverView>;

    closed spec fn view(&self) -> Seq<ObserverView> {
        self.observers@.map_values(|o: Observer| o@)
    }
}

impl Observers {
    /// One observer per state, each at the place that its state gives as
    /// latitude, longitude, altitude, none having looked yet, with room for
    /// `constellation_len` visible objects each.
    pub fn from_states(observers_states: Vec<State>, constellation_len: usize) -> (r: Observers)
        ensures
            r@ == resized(Seq::<ObserverView>::empty(), observers_states@),
            all_keyed_by_handle(r@, constellation_len as nat),
    {
        let mut observers: Vec<Observer> = Vec::new();
        let mut i: usize = 0;
        while i < observers_states.len()
            invariant
                i <= observers_states@.len(),
                observers@.len() == i,
                forall|k: int|
                    0 <= k < i ==> (#[trigger] observers@[k])@ == ObserverView::spec_fresh(
                        Geodetic::spec_from_state(observers_states@[k]),
                    ),
            decreases observers_states@.len() - i,
        {
            let state = observers_states[i];
            observers.push(Observer::from_coords(state.0, state.1, state.2, constellation_len));
            i += 1;
        }
        let r = Observers { observers };
        proof {
            assert(r@ =~= resized(Seq::<ObserverView>::empty(), observers_states@));
        }
        r
    }

    /// The number of observers.
    pub fn len(&self) -> (n: usize)
        ensures
            n == self@.len(),
    {
        self.observers.len()
    }

    /// The observer with index `o`.
    pub fn get(&self, o: usize) -> (r: &Observer)
        requires
            o < self@.len(),
        ensures
            r@ == self@[o as int],
    {
        &self.observers[o]
    }

    /// Sets the places of the observers anew, one state per observer, and
    /// makes the collection as long as `observer_states`. Observers that
    /// stay keep their index, their visible set and the second of their last
    /// rescan. Growing adds observers that have not looked yet, with room
    /// for `constellation_len` visible objects each; shrinking drops the
    /// observers at the end together with their visible sets.
    pub fn update_states(&mut self, observer_states: Vec<State>, constellation_len: usize)
        ensures
            final(self)@ == resized(old(self)@, observer_states@),
            all_keyed_by_handle(old(self)@, constellation_len as nat) ==> all_keyed_by_handle(
                final(self)@,
                constellation_len as nat,
            ),
    {
        let current_len = self.observers.len();
        let new_len = observer_states.len();
        let kept = if new_len < current_len {
            new_len
        } else {
            current_len
        };
        let mut i: usize = 0;
        while i < kept
            invariant
                i <= kept,
                kept <= current_len,
                kept <= new_len,
                new_len == observer_states@.len(),
                self.observers@.len() == current_len,
                current_len == old(self)@.len(),
                forall|k: int|
                    0 <= k < i ==> (#[trigger] self.observers@[k])@ == old(self)@[k].spec_moved(
                        Geodetic::spec_from_state(observer_states@[k]),
                    ),
                forall|k: int|
                    i <= k < current_len ==> (#[trigger] self.observers@[k])@ == old(self)@[k],
            decreases kept - i,
        {
            let state = observer_states[i];
            let observer = &mut self.observers[i];
            observer.update_observer(state.0, state.1, state.2);
            i += 1;
        }
        if new_len < current_len {
            self.observers.truncate(new_len);
        } else {
            let mut j: usize = current_len;
            while j < new_len
                invariant
                    current_len <= j <= new_len,
                    new_len == observer_states@.len(),
                    self.observers@.len() == j,
                    current_len == old(self)@.len(),
                    forall|k: int|
                        0 <= k < current_len ==> (#[trigger] self.observers@[k])@
                            == old(self)@[k].spec_moved(
                            Geodetic::spec_from_state(observer_states@[k]),
                        ),
                    forall|k: int|
                        current_len <= k < j ==> (#[trigger] self.observers@[k])@
                            == ObserverView::spec_fresh(
                            Geodetic::spec_from_state(observer_states@[k]),
                        ),
                decreases new_len - j,
            {
                let state = observer_states[j];
                self.observers.push(
                    Observer::from_coords(state.0, state.1, state.2, constellation_len),
                );
                j += 1;
            }
        }
        proof {
            assert(self@ =~= resized(old(self)@, observer_states@));
        }
    }

    /// Lets every observer rescan the constellation at the second `now`.
    /// `sightings` holds one row per observer, and each row holds, by handle,
    /// how that observer sees each object. An observer for which the batch
    /// holds no row is left as it was; rows past the last observer are
    /// ignored.
    pub fn recompute<C>(
        &mut self,
        constellation: &Constellation<C>,
        sightings: &Vec<Vec<Sighting>>,
        now: i64,
    )
        requires
            constellation.wf(),
        ensures
            final(self)@ == all_recomputed(old(self)@, constellation@, rows(sightings@), now),
            all_keyed_by_handle(old(self)@, constellation@.len()) ==> all_keyed_by_handle(
                final(self)@,
                constellation@.len(),
            ),
    {
        let n = if sightings.len() < self.observers.len() {
            sightings.len()
        } else {
            self.observers.len()
        };
        proof {
            assert forall|k: int| 0 <= k < self.observers@.len() implies keyed_by_handle(
                old(self)@[k].satellites_in_range,
                constellation@.len(),
            ) == keyed_by_handle(
                (#[trigger] self.observers@[k])@.satellites_in_range,
                constellation@.len(),
            ) by {}
        }
        let mut o: usize = 0;
        while o < n
            invariant
                constellation.wf(),
                o <= n,
                n <= sightings@.len(),
                n <= self.observers@.len(),
                self.observers@.len() == old(self)@.len(),
                forall|k: int|
                    0 <= k < o ==> (#[trigger] self.observers@[k])@ == old(self)@[k].spec_recompute(
                        constellation@,
                        sightings@[k]@,
                        now,
                    ),
                forall|k: int|
                    o <= k < self.observers@.len() ==> (#[trigger] self.observers@[k])@
                        == old(self)@[k],
                all_keyed_by_handle(old(self)@, constellation@.len()) ==> forall|k: int|
                    0 <= k < self.observers@.len() ==> keyed_by_handle(
                        (#[trigger] self.observers@[k])@.satellites_in_range,
                        constellation@.len(),
                    ),
            decreases n - o,
        {
            let observer = &mut self.observers[o];
            observer.recompute(constellation, &sightings[o], now);
            o += 1;
        }
        proof {
            assert(self@ =~= all_recomputed(old(self)@, constellation@, rows(sightings@), now));
        }
    }

    /// Lets every observer rescan the constellation at the second `now`,
    /// driven from here: every observer looks at every object with `look`,
    /// which is given the place of the observer and the latest fix of the
    /// object, and the visible sets are recomputed from what it answers as
    /// `recompute` does.
    pub fn recompute_with<C, F: Fn(&Geodetic, &Fix) -> Sighting>(
        &mut self,
        constellation: &Constellation<C>,
        look: F,
        now: i64,
    )
        requires
            constellation.wf(),
            may_look(look, old(self)@, constellation@),
        ensures
            exists|sightings: Seq<Seq<Sighting>>| #[trigger]
                all_recomputed_with(
                    look,
                    old(self)@,
                    constellation@,
                    final(self)@,
                    sightings,
                    now,
                ),
            all_keyed_by_handle(old(self)@, constellation@.len()) ==> all_keyed_by_handle(
                final(self)@,
                constellation@.len(),
            ),
    {
        let mut sightings: Vec<Vec<Sighting>> = Vec::new();
        let mut o: usize = 0;
        while o < self.observers.len()
            invariant
                constellation.wf(),
                *self == *old(self),
                may_look(look, self@, constellation@),
                o <= self.observers@.len(),
                sightings@.len() == o,
                forall|k: int|
                    0 <= k < o ==> row_seen(
                        look,
                        self@[k].position,
                        constellation@,
                        (#[trigger] sightings@[k])@,
                    ),
            decreases self.observers@.len() - o,
        {
            let place = self.observers[o].get_position();
            assert(place == self@[o as int].position);
            let mut row: Vec<Sighting> = Vec::new();
            let mut i: usize = 0;
            while i < constellation.len()
                invariant
                    constellation.wf(),
                    may_look(look, self@, constellation@),
                    o < self@.len(),
                    place == self@[o as int].position,
                    i <= constellation@.len(),
                    row@.len() == i,
                    forall|k: int|
                        0 <= k < i ==> call_ensures(
                            look,
                            (&place, &constellation@[k].fix),
                            #[trigger] row@[k],
                        ),
                decreases constellation@.len() - i,
            {
                let fix = constellation.get_fix(i);
                assert(call_requires(look, (&self@[o as int].position, &constellation@[i as int].fix)));
                row.push(look(&place, &fix));
                i += 1;
            }
            sightings.push(row);
            o += 1;
        }
        proof {
            assert(all_seen(look, old(self)@, constellation@, rows(sightings@)));
        }
        self.recompute(constellation, &sightings, now);
        proof {
            assert(all_recomputed_with(
                look,
                old(self)@,
                constellation@,
                self@,
                rows(sightings@),
                now,
            ));
        }
    }
}

} // verus!

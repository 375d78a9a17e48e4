//! Ground observers and, for each of them, the objects that stand above the
//! local horizon.
//!
//! The set of visible objects is a cache over the constellation: a full
//! rescan rebuilds it from the sightings of one tick. It is keyed by object
//! handle, so an object enters it, is refreshed in it and leaves it without
//! the other entries being touched.

use std::collections::HashMap;
use vstd::prelude::*;
use crate::constellation::{Constellation, Satellite};
use crate::scalar::Scalar;
use crate::state::{Cartesian, Geodetic, Horizontal, Sighting};

verus! {

broadcast use vstd::std_specs::hash::group_hash_axioms;

/// An object above an observer's horizon: where the observer sees it, how it
/// moves in the observer's east-north-up frame, the second of the fix that
/// this was derived from, and the handle of the object.
#[derive(Clone, Copy, Debug, PartialEq, Eq, Structural)]
pub struct RangedSatellite {
    pub position: Horizontal,
    pub velocity: Cartesian,
    pub time: i64,
    pub linked_data_idx: usize,
}

impl RangedSatellite {
    /// The entry that a sighting of the object with handle `handle` is kept
    /// as, where `time` is the second of the object's latest fix.
    pub open spec fn spec_of_sighting(handle: usize, time: i64, sighting: Sighting) -> RangedSatellite {
        RangedSatellite {
            position: sighting.position_aer,
            velocity: sighting.velocity_enu,
            time,
            linked_data_idx: handle,
        }
    }

    pub fn of_sighting(handle: usize, time: i64, sighting: &Sighting) -> (r: RangedSatellite)
        ensures
            r == RangedSatellite::spec_of_sighting(handle, time, *sighting),
    {
        RangedSatellite {
            position: sighting.position_aer,
            velocity: sighting.velocity_enu,
            time,
            linked_data_idx: handle,
        }
    }

    pub fn get_position(&self) -> (r: &Horizontal)
        ensures
            *r == self.position,
    {
        &self.position
    }

    pub fn get_velocity(&self) -> (r: &Cartesian)
        ensures
            *r == self.velocity,
    {
        &self.velocity
    }
}

/// The objects above one observer's horizon, keyed by handle.
pub struct RangedConstellation {
    satellites: HashMap<usize, RangedSatellite>,
}

impl View for RangedConstellation {
    type V = Map<usize, RangedSatellite>;

    closed spec fn view(&self) -> Map<usize, RangedSatellite> {
        self.satellites@
    }
}

/// Every entry of the map is keyed by the handle it carries, and every
/// handle is below `len`.
pub open spec fn keyed_by_handle(satellites: Map<usize, RangedSatellite>, len: nat) -> bool {
    forall|k: usize| #[trigger]
        satellites.contains_key(k) ==> k < len && satellites[k].linked_data_idx == k
}

/// The entries of the map with a handle below `len`, by increasing handle.
pub open spec fn listing(satellites: Map<usize, RangedSatellite>, len: nat) -> Seq<
    RangedSatellite,
> {
    Seq::new(len, |i: int| i).filter_map(
        |i: int|
            if satellites.contains_key(i as usize) {
                Some(satellites[i as usize])
            } else {
                None
            },
    )
}

/// Calls `HashMap::try_reserve`, which makes room for `additional` more
/// entries where the allocator grants it, and gives up where it does not.
///
/// Believed, not proved: whether or not room was made, the map holds what
/// it held.
#[verifier::external_body]
fn reserve_room(satellites: &mut HashMap<usize, RangedSatellite>, additional: usize)
    ensures
        final(satellites)@ == old(satellites)@,
{
    let _ = satellites.try_reserve(additional);
}

impl RangedConstellation {
    /// An empty set. `len` is a hint of how many objects it will hold: room
    /// is made for that many where memory allows.
    pub fn new(len: usize) -> (r: RangedConstellation)
        ensures
            r@ == Map::<usize, RangedSatellite>::empty(),
    {
        let mut satellites: HashMap<usize, RangedSatellite> = HashMap::new();
        reserve_room(&mut satellites, len);
        RangedConstellation { satellites }
    }

    /// Enters the object into the set, or replaces the entry it had.
    pub fn upsert(&mut self, sat: RangedSatellite)
        ensures
            final(self)@ == old(self)@.insert(sat.linked_data_idx, sat),
    {
        self.satellites.insert(sat.linked_data_idx, sat);
    }

    /// Removes the object with handle `id` from the set. Removing an object
    /// that is not in the set changes nothing.
    pub fn delete(&mut self, id: usize)
        ensures
            final(self)@ == old(self)@.remove(id),
            !old(self)@.contains_key(id) ==> final(self)@ == old(self)@,
    {
        self.satellites.remove(&id);
        proof {
            if !old(self)@.contains_key(id) {
                assert(old(self)@.remove(id) =~= old(self)@);
            }
        }
    }

    /// Whether the object with handle `id` is in the set.
    pub fn contains(&self, id: usize) -> (r: bool)
        ensures
            r == self@.contains_key(id),
    {
        self.satellites.contains_key(&id)
    }

    /// The entry of the object with handle `id`, if it is in the set.
    pub fn get(&self, id: usize) -> (r: Option<RangedSatellite>)
        ensures
            r == (if self@.contains_key(id) {
                Some(self@[id])
            } else {
                None
            }),
    {
        match self.satellites.get(&id) {
            Some(sat) => Some(*sat),
            None => None,
        }
    }

    /// The number of objects in the set.
    pub fn len(&self) -> (n: usize)
        ensures
            n == self@.len(),
    {
        self.satellites.len()
    }

    /// The entries with a handle below `len`, by increasing handle.
    pub fn list(&self, len: usize) -> (r: Vec<RangedSatellite>)
        ensures
            r@ == listing(self@, len as nat),
    {
        let ghost handles = Seq::new(len as nat, |i: int| i);
        let ghost pick = |i: int|
            if self@.contains_key(i as usize) {
                Some(self@[i as usize])
            } else {
                None
            };
        let mut entries: Vec<RangedSatellite> = Vec::new();
        let mut i: usize = 0;
        while i < len
            invariant
                i <= len,
                handles == Seq::new(len as nat, |i: int| i),
                pick == (|i: int|
                    if self@.contains_key(i as usize) {
                        Some(self@[i as usize])
                    } else {
                        None
                    }),
                entries@ == handles.take(i as int).filter_map(pick),
            decreases len - i,
        {
            proof {
                handles.lemma_filter_map_take_succ(pick, i as int);
            }
            match self.get(i) {
                Some(sat) => {
                    entries.push(sat);
                },
                None => {},
            }
            i += 1;
        }
        proof {
            assert(handles.take(len as int) =~= handles);
        }
        entries
    }
}

/// An observer as the engine models it: where it stands, the second at which
/// its visible set was last recomputed, and the visible set.
pub struct ObserverView {
    pub position: Geodetic,
    pub time: i64,
    pub satellites_in_range: Map<usize, RangedSatellite>,
}

impl ObserverView {
    /// An observer at `position` that has not looked yet.
    pub open spec fn spec_fresh(position: Geodetic) -> ObserverView {
        ObserverView { position, time: 0, satellites_in_range: Map::empty() }
    }

    /// The observer moved to `position`. Its visible set stays as it is
    /// until the next rescan.
    pub open spec fn spec_moved(self, position: Geodetic) -> ObserverView {
        ObserverView { position, ..self }
    }

    pub open spec fn spec_upsert(self, sat: RangedSatellite) -> ObserverView {
        ObserverView {
            satellites_in_range: self.satellites_in_range.insert(sat.linked_data_idx, sat),
            ..self
        }
    }

    pub open spec fn spec_delete(self, id: usize) -> ObserverView {
        ObserverView { satellites_in_range: self.satellites_in_range.remove(id), ..self }
    }

    /// The visible set after the objects with a handle below `upto` were
    /// rescanned: such an object is in the set exactly if its sighting is
    /// above the horizon, and then with the entry of that sighting. The
    /// other entries are those of `self`.
    pub open spec fn spec_rescanned<C>(
        self,
        satellites: Seq<Satellite<C>>,
        sightings: Seq<Sighting>,
        upto: int,
    ) -> Map<usize, RangedSatellite> {
        Map::new(
            |k: usize|
                if k < upto {
                    sightings[k as int].spec_is_visible()
                } else {
                    self.satellites_in_range.contains_key(k)
                },
            |k: usize|
                if k < upto {
                    RangedSatellite::spec_of_sighting(
                        k,
                        satellites[k as int].fix.time,
                        sightings[k as int],
                    )
                } else {
                    self.satellites_in_range[k]
                },
        )
    }

    /// The number of objects that one rescan covers: those that are tracked
    /// and for which the batch holds a sighting.
    pub open spec fn spec_covered<C>(satellites: Seq<Satellite<C>>, sightings: Seq<Sighting>) -> int {
        if sightings.len() < satellites.len() {
            sightings.len() as int
        } else {
            satellites.len() as int
        }
    }

    /// The observer after a rescan at the second `now`.
    pub open spec fn spec_recompute<C>(
        self,
        satellites: Seq<Satellite<C>>,
        sightings: Seq<Sighting>,
        now: i64,
    ) -> ObserverView {
        ObserverView {
            position: self.position,
            time: now,
            satellites_in_range: self.spec_rescanned(
                satellites,
                sightings,
                ObserverView::spec_covered(satellites, sightings),
            ),
        }
    }
}

/// Removing an object from the visible set twice leaves the set as the first
/// removal left it, and removing an object that is not in the set leaves the
/// observer unchanged.
pub proof fn lemma_delete_is_idempotent(observer: ObserverView, id: usize)
    ensures
        observer.spec_delete(id).spec_delete(id) == observer.spec_delete(id),
        !observer.satellites_in_range.contains_key(id) ==> observer.spec_delete(id) == observer,
{
    assert(observer.satellites_in_range.remove(id).remove(id) =~= observer.satellites_in_range.remove(
        id,
    ));
    if !observer.satellites_in_range.contains_key(id) {
        assert(observer.satellites_in_range.remove(id) =~= observer.satellites_in_range);
    }
}

/// An object whose sighting has an up component of exactly zero, of either
/// sign, is not in the visible set after a rescan that covers it.
pub proof fn lemma_horizon_is_excluded<C>(
    observer: ObserverView,
    satellites: Seq<Satellite<C>>,
    sightings: Seq<Sighting>,
    now: i64,
    handle: usize,
)
    requires
        handle < ObserverView::spec_covered(satellites, sightings),
        sightings[handle as int].position_enu.z.spec_is_zero(),
    ensures
        !observer.spec_recompute(satellites, sightings, now).satellites_in_range.contains_key(
            handle,
        ),
{
}

/// A rescan that follows a rescan of the same sightings at the same second
/// changes nothing.
pub proof fn lemma_recompute_is_idempotent<C>(
    observer: ObserverView,
    satellites: Seq<Satellite<C>>,
    sightings: Seq<Sighting>,
    now: i64,
)
    ensures
        observer.spec_recompute(satellites, sightings, now).spec_recompute(
            satellites,
            sightings,
            now,
        ) == observer.spec_recompute(satellites, sightings, now),
{
    let once = observer.spec_recompute(satellites, sightings, now);
    let twice = once.spec_recompute(satellites, sightings, now);
    assert(twice.satellites_in_range =~= once.satellites_in_range);
}

/// The visible set is a cache: after a rescan that covers every object, it
/// holds what the sightings say and nothing of what it held before.
pub proof fn lemma_full_rescan_forgets<C>(
    one: ObserverView,
    other: ObserverView,
    satellites: Seq<Satellite<C>>,
    sightings: Seq<Sighting>,
    now: i64,
)
    requires
        keyed_by_handle(one.satellites_in_range, satellites.len()),
        keyed_by_handle(other.satellites_in_range, satellites.len()),
        sightings.len() >= satellites.len(),
    ensures
        one.spec_recompute(satellites, sightings, now).satellites_in_range
            == other.spec_recompute(satellites, sightings, now).satellites_in_range,
{
    assert(one.spec_recompute(satellites, sightings, now).satellites_in_range
        =~= other.spec_recompute(satellites, sightings, now).satellites_in_range);
}

/// A ground observer.
pub struct Observer {
    position: Geodetic,
    time: i64,
    satellites_in_range: RangedConstellation,
}

impl View for Observer {
    type V = ObserverView;

    closed spec fn view(&self) -> ObserverView {
        ObserverView {
            position: self.position,
            time: self.time,
            satellites_in_range: self.satellites_in_range@,
        }
    }
}

impl Observer {
    /// An observer at the given place that has not looked yet, with room
    /// for `max_sats` visible objects.
    pub fn from_coords(lat_deg: Scalar, lon_deg: Scalar, alt_km: Scalar, max_sats: usize) -> (r:
        Observer)
        ensures
            r@ == ObserverView::spec_fresh((Geodetic { lat_deg, lon_deg, alt_km })),
    {
        Observer {
            position: Geodetic { lat_deg, lon_deg, alt_km },
            time: 0,
            satellites_in_range: RangedConstellation::new(max_sats),
        }
    }

    /// An observer at the given place that has not looked yet.
    pub fn new(lat: Scalar, lng: Scalar, alt: Scalar) -> (r: Observer)
        ensures
            r@ == ObserverView::spec_fresh((Geodetic { lat_deg: lat, lon_deg: lng, alt_km: alt })),
    {
        Observer::from_coords(lat, lng, alt, 0)
    }

    /// Where the observer stands.
    pub fn get_position(&self) -> (r: Geodetic)
        ensures
            r == self@.position,
    {
        self.position
    }

    /// The second at which the visible set was last recomputed; zero before
    /// the first rescan.
    pub fn get_timestamp_s(&self) -> (r: i64)
        ensures
            r == self@.time,
    {
        self.time
    }

    /// The objects above the horizon as of the last rescan.
    pub fn get_ranged_satellites(&self) -> (r: &RangedConstellation)
        ensures
            r@ == self@.satellites_in_range,
    {
        &self.satellites_in_range
    }

    /// Enters the object into the visible set, or refreshes its entry.
    pub fn upsert_ranged_satellite(&mut self, sat: RangedSatellite)
        ensures
            final(self)@ == old(self)@.spec_upsert(sat),
    {
        self.satellites_in_range.upsert(sat);
    }

    /// Removes the object with handle `id` from the visible set. Removing
    /// an object that is not in the set changes nothing.
    pub fn delete_ranged_satellite(&mut self, id: usize)
        ensures
            final(self)@ == old(self)@.spec_delete(id),
            !old(self)@.satellites_in_range.contains_key(id) ==> final(self)@ == old(self)@,
    {
        self.satellites_in_range.delete(id);
    }

    /// Moves the observer. The visible set is not cleared: the next rescan
    /// evicts what the new place no longer sees.
    pub fn update_observer(&mut self, lat_deg: Scalar, lon_deg: Scalar, alt_km: Scalar)
        ensures
            final(self)@ == old(self)@.spec_moved((Geodetic { lat_deg, lon_deg, alt_km })),
    {
        self.position.lat_deg = lat_deg;
        self.position.lon_deg = lon_deg;
        self.position.alt_km = alt_km;
    }

    /// Sets the second of the last rescan.
    pub fn update_timestamp(&mut self, timestamp: i64)
        ensures
            final(self)@ == (ObserverView { time: timestamp, ..old(self)@ }),
    {
        self.time = timestamp;
    }

    /// Rescans the constellation at the second `now`. `sightings` holds, by
    /// handle, how the observer sees each object. An object whose up
    /// component is strictly greater than zero is entered into the visible
    /// set with the azimuth, elevation and range of its sighting and the
    /// second of its latest fix; any other object, one exactly on the horizon
    /// included, is removed from the set if it was there. An object for which
    /// the batch holds no sighting keeps the entry it had, and sightings past
    /// the last handle are ignored.
    pub fn recompute<C>(
        &mut self,
        constellation: &Constellation<C>,
        sightings: &Vec<Sighting>,
        now: i64,
    )
        requires
            constellation.wf(),
        ensures
            final(self)@ == old(self)@.spec_recompute(constellation@, sightings@, now),
            forall|k: usize|
                k < ObserverView::spec_covered(constellation@, sightings@) ==> (
                #[trigger] final(self)@.satellites_in_range.contains_key(k)
                    <==> sightings@[k as int].position_enu.z.spec_is_positive()),
            keyed_by_handle(old(self)@.satellites_in_range, constellation@.len()) ==> keyed_by_handle(
                final(self)@.satellites_in_range,
                constellation@.len(),
            ),
    {
        let n = if sightings.len() < constellation.len() {
            sightings.len()
        } else {
            constellation.len()
        };
        let mut i: usize = 0;
        while i < n
            invariant
                constellation.wf(),
                i <= n,
                n == ObserverView::spec_covered(constellation@, sightings@),
                self@.position == old(self)@.position,
                self@.time == old(self)@.time,
                self@.satellites_in_range == old(self)@.spec_rescanned(
                    constellation@,
                    sightings@,
                    i as int,
                ),
            decreases n - i,
        {
            let sighting = &sightings[i];
            if sighting.is_visible() {
                let time = constellation.get_fix(i).time;
                self.upsert_ranged_satellite(RangedSatellite::of_sighting(i, time, sighting));
            } else {
                self.delete_ranged_satellite(i);
            }
            proof {
                assert(self@.satellites_in_range =~= old(self)@.spec_rescanned(
                    constellation@,
                    sightings@,
                    i + 1,
                ));
            }
            i += 1;
        }
        self.time = now;
    }
}

} // verus!

//! The store of propagated state: one slot per tracked object.

use vstd::prelude::*;
use crate::identity::{Identity, Sgp4Data};
use crate::state::{Cartesian, Fix, Geodetic};

verus! {

/// One tracked object as the store models it: what identifies and propagates
/// the object, and the latest fix that was recorded for it.
pub struct Satellite<C> {
    pub data: Sgp4Data<C>,
    pub fix: Fix,
}

impl<C> Satellite<C> {
    /// The object that a candidate is enrolled as: with a zero fix, where
    /// propagation constants could be derived from its element set, and not
    /// at all where none could.
    pub open spec fn spec_enroll(candidate: (Identity, Option<C>)) -> Option<Satellite<C>> {
        match candidate.1 {
            Some(constants) => Some(
                Satellite { data: Sgp4Data(candidate.0, constants), fix: Fix::spec_zero() },
            ),
            None => None,
        }
    }

    /// The object after one propagation: with the new fix where propagation
    /// succeeded, unchanged where it failed.
    pub open spec fn spec_record(self, outcome: Option<Fix>) -> Satellite<C> {
        match outcome {
            Some(fix) => Satellite { data: self.data, fix },
            None => self,
        }
    }
}

/// The objects that a batch of candidates is enrolled as: those with
/// propagation constants, in the order of the batch.
pub open spec fn enrolled<C>(candidates: Seq<(Identity, Option<C>)>) -> Seq<Satellite<C>> {
    candidates.filter_map(|c: (Identity, Option<C>)| Satellite::spec_enroll(c))
}

/// A batch is enrolled as no more objects than it has candidates.
pub proof fn lemma_enrolled_len<C>(candidates: Seq<(Identity, Option<C>)>)
    ensures
        enrolled(candidates).len() <= candidates.len(),
    decreases candidates.len(),
{
    if candidates.len() > 0 {
        lemma_enrolled_len(candidates.drop_last());
    }
}

/// The outcome of propagating the object with handle `i`, where the batch
/// holds one: a batch that is too short holds none for the objects past its
/// end.
pub open spec fn outcome_at(outcomes: Seq<Option<Fix>>, i: int) -> Option<Fix> {
    if 0 <= i < outcomes.len() {
        outcomes[i]
    } else {
        None
    }
}

/// The objects after one propagation tick: each object takes the fix that
/// its propagation yielded, and keeps the fix it had where propagation
/// yielded none.
pub open spec fn propagated<C>(satellites: Seq<Satellite<C>>, outcomes: Seq<Option<Fix>>) -> Seq<
    Satellite<C>,
> {
    Seq::new(satellites.len(), |i: int| satellites[i].spec_record(outcome_at(outcomes, i)))
}

/// Whether `propagator` may be asked about every one of the objects.
pub open spec fn may_ask<C, F: Fn(&Sgp4Data<C>) -> Option<Fix>>(
    propagator: F,
    satellites: Seq<Satellite<C>>,
) -> bool {
    forall|i: int|
        0 <= i < satellites.len() ==> call_requires(propagator, (&(#[trigger] satellites[i]).data,))
}

/// Whether `outcomes` is what `propagator` answers when it is asked about
/// each of the objects: one outcome per object, by handle.
pub open spec fn asked<C, F: Fn(&Sgp4Data<C>) -> Option<Fix>>(
    propagator: F,
    satellites: Seq<Satellite<C>>,
    outcomes: Seq<Option<Fix>>,
) -> bool {
    &&& outcomes.len() == satellites.len()
    &&& forall|i: int|
        0 <= i < outcomes.len() ==> call_ensures(
            propagator,
            (&satellites[i].data,),
            #[trigger] outcomes[i],
        )
}

/// Whether `after` are the objects `before` after a propagation tick in which
/// `propagator` was asked about each of them and answered `outcomes`.
pub open spec fn propagated_with<C, F: Fn(&Sgp4Data<C>) -> Option<Fix>>(
    propagator: F,
    before: Seq<Satellite<C>>,
    after: Seq<Satellite<C>>,
    outcomes: Seq<Option<Fix>>,
) -> bool {
    &&& asked(propagator, before, outcomes)
    &&& after == propagated(before, outcomes)
}

/// A propagation tick neither adds nor removes an object, and leaves every
/// object under its handle with what identifies and propagates it.
pub proof fn lemma_propagation_keeps_handles<C>(
    satellites: Seq<Satellite<C>>,
    outcomes: Seq<Option<Fix>>,
)
    ensures
        propagated(satellites, outcomes).len() == satellites.len(),
        forall|i: int|
            0 <= i < satellites.len() ==> (#[trigger] propagated(satellites, outcomes)[i]).data
                == satellites[i].data,
{
}

/// An object whose propagation failed, or for which the batch holds no
/// outcome, has after the tick exactly the state it had before.
pub proof fn lemma_failed_propagation_keeps_state<C>(
    satellites: Seq<Satellite<C>>,
    outcomes: Seq<Option<Fix>>,
    i: int,
)
    requires
        0 <= i < satellites.len(),
        outcome_at(outcomes, i) is None,
    ensures
        propagated(satellites, outcomes)[i] == satellites[i],
{
}

/// The latest propagated state of every tracked object, held in parallel
/// arrays. The index of an object is its handle, and stays the same as long
/// as the store lives.
pub struct Constellation<C> {
    sgp4_data: Vec<Sgp4Data<C>>,
    positions_geodetic: Vec<Geodetic>,
    positions_eci: Vec<Cartesian>,
    velocities_eci: Vec<Cartesian>,
    times: Vec<i64>,
}

impl<C> View for Constellation<C> {
    type V = Seq<Satellite<C>>;

    /// The tracked objects, by handle.
    closed spec fn view(&self) -> Seq<Satellite<C>> {
        Seq::new(
            self.sgp4_data@.len(),
            |i: int|
                Satellite {
                    data: self.sgp4_data@[i],
                    fix: Fix {
                        position_eci: self.positions_eci@[i],
                        velocity_eci: self.velocities_eci@[i],
                        position_geodetic: self.positions_geodetic@[i],
                        time: self.times@[i],
                    },
                },
        )
    }
}

impl<C> Constellation<C> {
    /// The parallel arrays all have one slot per object.
    pub closed spec fn wf(&self) -> bool {
        &&& self.positions_geodetic@.len() == self.sgp4_data@.len()
        &&& self.positions_eci@.len() == self.sgp4_data@.len()
        &&& self.velocities_eci@.len() == self.sgp4_data@.len()
        &&& self.times@.len() == self.sgp4_data@.len()
    }

    /// Builds the store from a batch of candidates: the identity of each
    /// element set with the propagation constants that were derived from it,
    /// if any. A candidate without constants is left out and never occupies
    /// a slot; the others keep the order of the batch and start from a zero
    /// fix.
    pub fn from_elements(elements_vec: Vec<(Identity, Option<C>)>) -> (c: Constellation<C>)
        ensures
            c.wf(),
            c@ == enrolled(elements_vec@),
    {
        let ghost all = elements_vec@;
        let mut sgp4_data: Vec<Sgp4Data<C>> = Vec::new();
        let mut positions_geodetic: Vec<Geodetic> = Vec::new();
        let mut positions_eci: Vec<Cartesian> = Vec::new();
        let mut velocities_eci: Vec<Cartesian> = Vec::new();
        let mut times: Vec<i64> = Vec::new();
        for candidate in it: elements_vec
            invariant
                it.seq() == all,
                positions_geodetic@.len() == sgp4_data@.len(),
                positions_eci@.len() == sgp4_data@.len(),
                velocities_eci@.len() == sgp4_data@.len(),
                times@.len() == sgp4_data@.len(),
                enrolled(all.take(it.index() as int)).len() == sgp4_data@.len(),
                forall|k: int|
                    0 <= k < sgp4_data@.len() ==> #[trigger] enrolled(all.take(it.index() as int))[k]
                        == (Satellite {
                        data: sgp4_data@[k],
                        fix: Fix {
                            position_eci: positions_eci@[k],
                            velocity_eci: velocities_eci@[k],
                            position_geodetic: positions_geodetic@[k],
                            time: times@[k],
                        },
                    }),
        {
            proof {
                all.lemma_filter_map_take_succ(
                    |c: (Identity, Option<C>)| Satellite::spec_enroll(c),
                    it.index() as int,
                );
            }
            let (identity, constants) = candidate;
            match Sgp4Data::from_elements(identity, constants) {
                Some(data) => {
                    sgp4_data.push(data);
                    positions_geodetic.push(Geodetic::zero());
                    positions_eci.push(Cartesian::zero());
                    velocities_eci.push(Cartesian::zero());
                    times.push(0);
                },
                None => {},
            }
        }
        let c = Constellation { sgp4_data, positions_geodetic, positions_eci, velocities_eci, times };
        proof {
            assert(all.take(all.len() as int) =~= all);
            assert(c@ =~= enrolled(all));
        }
        c
    }

    /// The number of tracked objects.
    pub fn len(&self) -> (n: usize)
        requires
            self.wf(),
        ensures
            n == self@.len(),
    {
        self.sgp4_data.len()
    }

    /// Records the outcome of propagating the object with handle `i`. A fix
    /// replaces the one the object had; a failed propagation leaves the
    /// object as it was.
    pub fn record(&mut self, i: usize, outcome: Option<Fix>)
        requires
            old(self).wf(),
            i < old(self)@.len(),
        ensures
            final(self).wf(),
            final(self)@ == old(self)@.update(i as int, old(self)@[i as int].spec_record(outcome)),
            outcome is None ==> final(self)@ == old(self)@,
    {
        match outcome {
            Some(fix) => {
                self.positions_eci.set(i, fix.position_eci);
                self.velocities_eci.set(i, fix.velocity_eci);
                self.positions_geodetic.set(i, fix.position_geodetic);
                self.times.set(i, fix.time);
            },
            None => {},
        }
        proof {
            assert(self@ =~= old(self)@.update(i as int, old(self)@[i as int].spec_record(outcome)));
            if outcome is None {
                assert(self@ =~= old(self)@);
            }
        }
    }

    /// One propagation tick: records, for every object, the outcome of
    /// propagating it. `outcomes` holds one outcome per handle. An object
    /// whose propagation failed, or for which the batch holds no outcome,
    /// keeps exactly the state it had before the tick; outcomes past the last
    /// handle are ignored.
    pub fn propagate(&mut self, outcomes: &Vec<Option<Fix>>)
        requires
            old(self).wf(),
        ensures
            final(self).wf(),
            final(self)@ == propagated(old(self)@, outcomes@),
            forall|i: int|
                0 <= i < old(self)@.len() && outcome_at(outcomes@, i) is None ==> final(self)@[i]
                    == old(self)@[i],
    {
        let n = if outcomes.len() < self.len() {
            outcomes.len()
        } else {
            self.len()
        };
        let mut i: usize = 0;
        while i < n
            invariant
                self.wf(),
                i <= n,
                n <= outcomes@.len(),
                n <= old(self)@.len(),
                self@.len() == old(self)@.len(),
                forall|k: int|
                    0 <= k < i ==> self@[k] == old(self)@[k].spec_record(outcome_at(outcomes@, k)),
                forall|k: int| i <= k < self@.len() ==> self@[k] == old(self)@[k],
            decreases n - i,
        {
            self.record(i, outcomes[i]);
            i += 1;
        }
        proof {
            assert(self@ =~= propagated(old(self)@, outcomes@));
        }
    }

    /// One propagation tick, driven from here: asks `propagator` about every
    /// object, in the order of the handles, and records what it answers as
    /// `propagate` does. An object for which the propagator fails keeps
    /// exactly the state it had before the tick.
    pub fn propagate_with<F: Fn(&Sgp4Data<C>) -> Option<Fix>>(&mut self, propagator: F)
        requires
            old(self).wf(),
            may_ask(propagator, old(self)@),
        ensures
            final(self).wf(),
            exists|outcomes: Seq<Option<Fix>>| #[trigger]
                propagated_with(propagator, old(self)@, final(self)@, outcomes),
    {
        let mut outcomes: Vec<Option<Fix>> = Vec::new();
        let mut i: usize = 0;
        while i < self.sgp4_data.len()
            invariant
                self.wf(),
                *self == *old(self),
                may_ask(propagator, self@),
                i <= self@.len(),
                outcomes@.len() == i,
                forall|k: int|
                    0 <= k < i ==> call_ensures(
                        propagator,
                        (&self@[k].data,),
                        #[trigger] outcomes@[k],
                    ),
            decreases self@.len() - i,
        {
            assert(self@[i as int].data == self.sgp4_data@[i as int]);
            outcomes.push(propagator(&self.sgp4_data[i]));
            i += 1;
        }
        proof {
            assert(asked(propagator, old(self)@, outcomes@));
        }
        self.propagate(&outcomes);
        proof {
            assert(propagated_with(propagator, old(self)@, self@, outcomes@));
        }
    }

    /// What identifies and propagates the object with handle `i`.
    pub fn get_sgp4_data(&self, i: usize) -> (r: &Sgp4Data<C>)
        requires
            self.wf(),
            i < self@.len(),
        ensures
            *r == self@[i as int].data,
    {
        &self.sgp4_data[i]
    }

    /// The latest fix of the object with handle `i`.
    pub fn get_fix(&self, i: usize) -> (r: Fix)
        requires
            self.wf(),
            i < self@.len(),
        ensures
            r == self@[i as int].fix,
    {
        Fix {
            position_eci: self.positions_eci[i],
            velocity_eci: self.velocities_eci[i],
            position_geodetic: self.positions_geodetic[i],
            time: self.times[i],
        }
    }

    /// The position of every object over the ellipsoid, by handle.
    pub fn get_positions_geodetic(&self) -> (r: &Vec<Geodetic>)
        requires
            self.wf(),
        ensures
            r@ == self@.map_values(|s: Satellite<C>| s.fix.position_geodetic),
    {
        proof {
            assert(self.positions_geodetic@ =~= self@.map_values(
                |s: Satellite<C>| s.fix.position_geodetic,
            ));
        }
        &self.positions_geodetic
    }

    /// The inertial position of every object, by handle.
    pub fn get_positions_eci(&self) -> (r: &Vec<Cartesian>)
        requires
            self.wf(),
        ensures
            r@ == self@.map_values(|s: Satellite<C>| s.fix.position_eci),
    {
        proof {
            assert(self.positions_eci@ =~= self@.map_values(|s: Satellite<C>| s.fix.position_eci));
        }
        &self.positions_eci
    }

    /// The inertial velocity of every object, by handle.
    pub fn get_velocities_eci(&self) -> (r: &Vec<Cartesian>)
        requires
            self.wf(),
        ensures
            r@ == self@.map_values(|s: Satellite<C>| s.fix.velocity_eci),
    {
        proof {
            assert(self.velocities_eci@ =~= self@.map_values(|s: Satellite<C>| s.fix.velocity_eci));
        }
        &self.velocities_eci
    }

    /// The second at which every object was last propagated, by handle.
    pub fn get_timestamps(&self) -> (r: &Vec<i64>)
        requires
            self.wf(),
        ensures
            r@ == self@.map_values(|s: Satellite<C>| s.fix.time),
    {
        proof {
            assert(self.times@ =~= self@.map_values(|s: Satellite<C>| s.fix.time));
        }
        &self.times
    }

    /// The catalog number of every object, by handle.
    pub fn get_norad_ids(&self) -> (r: Vec<u64>)
        requires
            self.wf(),
        ensures
            r@ == self@.map_values(|s: Satellite<C>| s.data.0.norad_id),
    {
        let mut ids: Vec<u64> = Vec::new();
        let mut i: usize = 0;
        while i < self.sgp4_data.len()
            invariant
                i <= self.sgp4_data@.len(),
                ids@.len() == i,
                forall|k: int| 0 <= k < i ==> ids@[k] == self.sgp4_data@[k].0.norad_id,
            decreases self.sgp4_data@.len() - i,
        {
            ids.push(self.sgp4_data[i].get_norad_id());
            i += 1;
        }
        proof {
            assert(ids@ =~= self@.map_values(|s: Satellite<C>| s.data.0.norad_id));
        }
        ids
    }
}

} // verus!

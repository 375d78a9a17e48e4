//! The SGP4 propagator as far as the engine deals with it: an element set
//! either yields propagation constants or it does not, and only an element
//! set that does is tracked.

use vstd::prelude::*;
use crate::constellation::{enrolled, Satellite};
use crate::identity::Identity;
use crate::state::Fix;

verus! {

/// An element set of the `sgp4` crate. The engine carries it and never looks
/// inside.
#[verifier::external_type_specification]
#[verifier::external_body]
pub struct ExSgp4Elements(sgp4::Elements);

/// The propagation constants of the `sgp4` crate. The engine carries them
/// and never looks inside.
#[verifier::external_type_specification]
#[verifier::external_body]
pub struct ExSgp4Constants(sgp4::Constants);

/// What propagates one object: its element set and the constants derived
/// from it.
pub struct Oracle {
    pub elements: sgp4::Elements,
    pub constants: sgp4::Constants,
}

/// The identity that an element set of the `sgp4` crate carries: its catalog
/// number, its name and its international designator.
pub uninterp spec fn catalog_identity(elements: sgp4::Elements) -> Identity;

/// The constants that `sgp4::Constants::from_elements` derives from an
/// element set, or `None` where it derives none.
pub uninterp spec fn derived_constants(elements: sgp4::Elements) -> Option<sgp4::Constants>;

/// Reads the catalog number, the name and the international designator off an
/// element set of the `sgp4` crate.
///
/// Believed, not proved: what is read is `catalog_identity` of the element
/// set, the same for the same element set every time. The three fields are
/// plain data of the element set, and reading them consults nothing else.
#[verifier::external_body]
fn identity_of(elements: &sgp4::Elements) -> (r: Identity)
    ensures
        r == catalog_identity(*elements),
{
    Identity {
        norad_id: elements.norad_id,
        object_name: elements.object_name.clone(),
        international_designator: elements.international_designator.clone(),
    }
}

/// Calls `sgp4::Constants::from_elements` and keeps the constants where it
/// returns any.
///
/// Believed, not proved: the result is `derived_constants` of the element
/// set, the same for the same element set every time. The propagator reads
/// nothing but its argument: it fails on three tests of the element set (its
/// mean motion, the mean motion that it derives from it, its eccentricity),
/// and otherwise computes the constants from the elements.
#[verifier::external_body]
fn constants_of(elements: &sgp4::Elements) -> (r: Option<sgp4::Constants>)
    ensures
        r == derived_constants(*elements),
{
    match sgp4::Constants::from_elements(elements) {
        Ok(constants) => Some(constants),
        Err(_) => None,
    }
}

impl Oracle {
    /// The oracle of an element set, given the constants that the propagator
    /// derived from it, if any.
    pub open spec fn spec_from_constants(
        elements: sgp4::Elements,
        constants: Option<sgp4::Constants>,
    ) -> Option<Oracle> {
        match constants {
            Some(constants) => Some(Oracle { elements, constants }),
            None => None,
        }
    }

    /// Pairs an element set with the constants that the propagator derived
    /// from it. Without constants there is no oracle.
    pub fn from_constants(elements: sgp4::Elements, constants: Option<sgp4::Constants>) -> (r:
        Option<Oracle>)
        ensures
            r == Oracle::spec_from_constants(elements, constants),
    {
        match constants {
            Some(constants) => Some(Oracle { elements, constants }),
            None => None,
        }
    }

    /// The oracle of an element set: the element set with the constants
    /// that the propagator derives from it, or nothing where it derives none.
    pub open spec fn spec_try_build(elements: sgp4::Elements) -> Option<Oracle> {
        Oracle::spec_from_constants(elements, derived_constants(elements))
    }

    /// Asks the propagator for the constants of an element set. An element
    /// set from which the propagator derives none yields no oracle; any
    /// other yields the oracle that holds it and its constants.
    pub fn try_build(elements: sgp4::Elements) -> (r: Option<Oracle>)
        ensures
            r == Oracle::spec_try_build(elements),
            r matches Some(oracle) ==> oracle.elements == elements,
    {
        let constants = constants_of(&elements);
        Oracle::from_constants(elements, constants)
    }
}

/// The candidate that an element set is: its identity and, where the
/// propagator derives constants from it, its oracle.
pub open spec fn candidate_of(elements: sgp4::Elements) -> (Identity, Option<Oracle>) {
    (catalog_identity(elements), Oracle::spec_try_build(elements))
}

/// Whether a tracked object stands for an element set: it carries the
/// identity of the element set and has a zero fix, and its oracle holds the
/// element set and the constants that the propagator derives from it.
pub open spec fn tracks(satellite: Satellite<Oracle>, elements: sgp4::Elements) -> bool {
    &&& satellite.data.0 == catalog_identity(elements)
    &&& satellite.data.1.elements == elements
    &&& derived_constants(elements) == Some(satellite.data.1.constants)
    &&& satellite.fix == Fix::spec_zero()
}

/// The candidates that a batch of element sets is, in the order of the
/// batch.
pub open spec fn candidates_of(elements_group: Seq<sgp4::Elements>) -> Seq<
    (Identity, Option<Oracle>),
> {
    elements_group.map_values(|elements: sgp4::Elements| candidate_of(elements))
}

/// Every object that a batch of element sets is enrolled as stands for one
/// element set of the batch: it carries the identity of that element set,
/// and its oracle holds that element set and the constants that the
/// propagator derives from it.
pub proof fn lemma_tracked_stand_for_element_sets(elements_group: Seq<sgp4::Elements>, handle: int)
    requires
        0 <= handle < enrolled(candidates_of(elements_group)).len(),
    ensures
        exists|i: int|
            0 <= i < elements_group.len() && tracks(
                enrolled(candidates_of(elements_group))[handle],
                #[trigger] elements_group[i],
            ),
{
    let candidates = candidates_of(elements_group);
    let satellite = enrolled(candidates)[handle];
    let enroll = |c: (Identity, Option<Oracle>)| Satellite::spec_enroll(c);
    assert(enrolled(candidates).contains(satellite));
    candidates.lemma_filter_map_contains(enroll, satellite);
    let candidate = choose|c: (Identity, Option<Oracle>)| #[trigger]
        candidates.contains(c) && enroll(c) == Some(satellite);
    let i = choose|i: int| 0 <= i < candidates.len() && candidates[i] == candidate;
    assert(candidate == candidate_of(elements_group[i]));
    assert(tracks(satellite, elements_group[i]));
}

/// Asks the propagator about every element set of a batch: the result holds,
/// in the order of the batch, the identity of each element set and, where the
/// propagator derives constants from it, its oracle.
pub fn try_build_all(elements_group: Vec<sgp4::Elements>) -> (r: Vec<(Identity, Option<Oracle>)>)
    ensures
        r@ == candidates_of(elements_group@),
{
    let ghost all = elements_group@;
    let mut candidates: Vec<(Identity, Option<Oracle>)> = Vec::new();
    for elements in it: elements_group
        invariant
            it.seq() == all,
            candidates@.len() == it.index(),
            forall|i: int|
                0 <= i < candidates@.len() ==> #[trigger] candidates@[i] == candidate_of(all[i]),
    {
        let identity = identity_of(&elements);
        candidates.push((identity, Oracle::try_build(elements)));
    }
    proof {
        assert(candidates@ =~= candidates_of(all));
    }
    candidates
}

} // verus!

//! The identity of a tracked object, and the pairing of that identity with
//! the propagation constants derived from the object's orbital elements.

use vstd::prelude::*;

verus! {

/// What identifies a tracked object: its catalog number and, where the
/// catalog gives them, its name and its international designator.
#[derive(Clone, Debug)]
pub struct Identity {
    pub norad_id: u64,
    pub object_name: Option<String>,
    pub international_designator: Option<String>,
}

impl Identity {
    /// The name of the object, or `"NAME"` where the catalog gives none.
    pub open spec fn spec_name(&self) -> Seq<char> {
        match self.object_name {
            Some(name) => name@,
            None => "NAME"@,
        }
    }

    /// The international designator of the object, or `"DESIGNATOR"` where
    /// the catalog gives none.
    pub open spec fn spec_international_designator(&self) -> Seq<char> {
        match self.international_designator {
            Some(designator) => designator@,
            None => "DESIGNATOR"@,
        }
    }

    pub fn new(
        norad_id: u64,
        object_name: Option<String>,
        international_designator: Option<String>,
    ) -> (r: Identity)
        ensures
            r.norad_id == norad_id,
            r.object_name == object_name,
            r.international_designator == international_designator,
    {
        Identity { norad_id, object_name, international_designator }
    }

    pub fn get_norad_id(&self) -> (r: u64)
        ensures
            r == self.norad_id,
    {
        self.norad_id
    }

    pub fn get_name(&self) -> (r: &str)
        ensures
            r@ == self.spec_name(),
    {
        match &self.object_name {
            Some(name) => name.as_str(),
            None => "NAME",
        }
    }

    pub fn get_international_designator(&self) -> (r: &str)
        ensures
            r@ == self.spec_international_designator(),
    {
        match &self.international_designator {
            Some(designator) => designator.as_str(),
            None => "DESIGNATOR",
        }
    }
}

/// The identity of an object together with the propagation constants that
/// were derived from its element set. The constants are whatever the
/// propagator works with; the engine keeps them beside the object and never
/// looks inside.
pub struct Sgp4Data<C>(pub Identity, pub C);

impl<C> Sgp4Data<C> {
    /// The pairing of an identity with the constants of its element set,
    /// where constants could be derived.
    pub open spec fn spec_from_elements(identity: Identity, constants: Option<C>) -> Option<
        Sgp4Data<C>,
    > {
        match constants {
            Some(c) => Some(Sgp4Data(identity, c)),
            None => None,
        }
    }

    /// The name of the object, or `"UNKNOWN"` where the catalog gives none.
    pub open spec fn spec_name(&self) -> Seq<char> {
        match self.0.object_name {
            Some(name) => name@,
            None => "UNKNOWN"@,
        }
    }

    /// The international designator of the object, or `"UNKNOWN"` where the
    /// catalog gives none.
    pub open spec fn spec_object_id(&self) -> Seq<char> {
        match self.0.international_designator {
            Some(designator) => designator@,
            None => "UNKNOWN"@,
        }
    }

    /// Pairs an identity with the constants derived from its element set.
    /// An element set from which no constants could be derived yields
    /// nothing.
    pub fn from_elements(identity: Identity, constants: Option<C>) -> (r: Option<Sgp4Data<C>>)
        ensures
            r == Sgp4Data::spec_from_elements(identity, constants),
    {
        match constants {
            Some(c) => Some(Sgp4Data(identity, c)),
            None => None,
        }
    }

    pub fn get_name(&self) -> (r: &str)
        ensures
            r@ == self.spec_name(),
    {
        match &self.0.object_name {
            Some(name) => name.as_str(),
            None => "UNKNOWN",
        }
    }

    pub fn get_object_id(&self) -> (r: &str)
        ensures
            r@ == self.spec_object_id(),
    {
        match &self.0.international_designator {
            Some(designator) => designator.as_str(),
            None => "UNKNOWN",
        }
    }

    pub fn get_norad_id(&self) -> (r: u64)
        ensures
            r == self.0.norad_id,
    {
        self.0.norad_id
    }

    pub fn get_constants(&self) -> (r: &C)
        ensures
            *r == self.1,
    {
        &self.1
    }
}

} // verus!

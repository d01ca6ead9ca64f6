//! The mapping accumulator: fed one mapping record per chunk event in
//! discovery order, drained once into the records of a map — or into
//! nothing, when no record ever carried an original location.
use vstd::prelude::*;

use crate::types::Mapping;

verus! {

/// A fresh accumulator is created per fresh traversal and never reused.
pub struct MappingsEncoder {
    mappings: Vec<Mapping>,
    has_original: bool,
}

impl MappingsEncoder {
    pub closed spec fn mappings_spec(&self) -> Seq<Mapping> {
        self.mappings@
    }

    pub closed spec fn has_original_spec(&self) -> bool {
        self.has_original
    }

    pub fn create_encoder() -> (r: Self)
        ensures
            r.mappings_spec() == Seq::<Mapping>::empty(),
            !r.has_original_spec(),
    {
        MappingsEncoder { mappings: Vec::new(), has_original: false }
    }

    pub fn encode(&mut self, mapping: &Mapping)
        ensures
            final(self).mappings_spec() == old(self).mappings_spec().push(*mapping),
            final(self).has_original_spec() == (old(self).has_original_spec()
                || mapping.original is Some),
    {
        self.mappings.push(*mapping);
        if self.has_original {
        } else {
            match mapping.original {
                Some(_) => {
                    self.has_original = true;
                },
                None => {},
            }
        }
    }

    /// Finalizes the accumulator: the records, if any carried an original
    /// location; nothing otherwise.
    pub fn drain(self) -> (r: Option<Vec<Mapping>>)
        ensures
            match r {
                Some(v) => self.has_original_spec() && v@ == self.mappings_spec(),
                None => !self.has_original_spec(),
            },
    {
        if self.has_original {
            Some(self.mappings)
        } else {
            None
        }
    }
}

} // verus!

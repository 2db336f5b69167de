//! Colimit cocones: enumerations and sum types.

use vstd::prelude::*;
use crate::graph::ObjectId;

verus! {

/// An injection of one variant into the cocone.
#[derive(Debug)]
pub struct Injection {
    pub name: String,
    /// The variant's payload object; the apex itself for a payload-free variant.
    pub source: ObjectId,
}

/// A colimit cocone: a choice between named variants.
#[derive(Debug)]
pub struct ColimitCocone {
    pub name: String,
    pub apex: ObjectId,
    pub injections: Vec<Injection>,
}

impl ColimitCocone {
    /// A cocone with no variants yet.
    pub fn new(name: &str, apex: ObjectId) -> (c: Self)
        ensures
            c.name@ == name@,
            c.apex == apex,
            c.injections@.len() == 0,
    {
        ColimitCocone { name: String::from_str(name), apex, injections: Vec::new() }
    }

    /// Append a variant whose payload is `source`.
    pub fn add_variant(&mut self, name: &str, source: ObjectId)
        ensures
            final(self).injections@.len() == old(self).injections@.len() + 1,
            final(self).injections@.drop_last() == old(self).injections@,
            final(self).injections@.last().name@ == name@,
            final(self).injections@.last().source == source,
            final(self).name == old(self).name,
            final(self).apex == old(self).apex,
    {
        self.injections.push(Injection { name: String::from_str(name), source });
        proof {
            assert(self.injections@.drop_last() =~= old(self).injections@);
        }
    }

    /// An enumeration: one payload-free variant per name, in order, each
    /// injected from the apex itself.
    pub fn enumeration(name: &str, apex: ObjectId, variants: Vec<String>) -> (c: Self)
        ensures
            c.name@ == name@,
            c.apex == apex,
            c.injections@.len() == variants@.len(),
            forall|k: int|
                0 <= k < variants@.len() ==> {
                    &&& (#[trigger] c.injections@[k]).name@ == variants@[k]@
                    &&& c.injections@[k].source == apex
                },
    {
        let mut cocone = ColimitCocone::new(name, apex);
        let mut i: usize = 0;
        while i < variants.len()
            invariant
                0 <= i <= variants@.len(),
                cocone.name@ == name@,
                cocone.apex == apex,
                cocone.injections@.len() == i,
                forall|k: int|
                    0 <= k < i ==> {
                        &&& (#[trigger] cocone.injections@[k]).name@ == variants@[k]@
                        &&& cocone.injections@[k].source == apex
                    },
            decreases variants.len() - i,
        {
            cocone.injections.push(Injection { name: variants[i].clone(), source: apex });
            i += 1;
        }
        cocone
    }

    /// The names of the variants, in order.
    pub fn variant_names(&self) -> (r: Vec<&str>)
        ensures
            r@.len() == self.injections@.len(),
            forall|k: int| 0 <= k < r@.len() ==> (#[trigger] r@[k])@ == self.injections@[k].name@,
    {
        let mut r: Vec<&str> = Vec::new();
        let mut i: usize = 0;
        while i < self.injections.len()
            invariant
                0 <= i <= self.injections@.len(),
                r@.len() == i,
                forall|k: int| 0 <= k < i ==> (#[trigger] r@[k])@ == self.injections@[k].name@,
            decreases self.injections.len() - i,
        {
            r.push(self.injections[i].name.as_str());
            i += 1;
        }
        r
    }
}

} // verus!

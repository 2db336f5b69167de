//! Limit cones: aggregates and value objects.

use vstd::prelude::*;
use crate::graph::{MorphismId, ObjectId};

verus! {

/// A projection from the apex of a limit cone to one component.
#[derive(Debug, Clone, Copy)]
pub struct Projection {
    pub morphism: MorphismId,
    pub target: ObjectId,
}

/// A limit cone. For an aggregate the apex is the root entity and the
/// projections reach its members; for a value object the apex is the value
/// object and the projections reach its components.
#[derive(Debug)]
pub struct LimitCone {
    pub name: String,
    pub apex: ObjectId,
    pub projections: Vec<Projection>,
    pub is_aggregate: bool,
    /// The root entity, for aggregates.
    pub root: Option<ObjectId>,
}

impl LimitCone {
    /// An aggregate cone with no projections yet.
    pub fn aggregate(name: &str, apex: ObjectId, root: ObjectId) -> (l: Self)
        ensures
            l.name@ == name@,
            l.apex == apex,
            l.projections@.len() == 0,
            l.is_aggregate,
            l.root == Some(root),
    {
        LimitCone {
            name: String::from_str(name),
            apex,
            projections: Vec::new(),
            is_aggregate: true,
            root: Some(root),
        }
    }

    /// A value-object cone with no projections yet.
    pub fn value_object(name: &str, apex: ObjectId) -> (l: Self)
        ensures
            l.name@ == name@,
            l.apex == apex,
            l.projections@.len() == 0,
            !l.is_aggregate,
            l.root is None,
    {
        LimitCone {
            name: String::from_str(name),
            apex,
            projections: Vec::new(),
            is_aggregate: false,
            root: None,
        }
    }

    /// Append a projection.
    pub fn add_projection(&mut self, morphism: MorphismId, target: ObjectId)
        ensures
            final(self).projections@ == old(self).projections@.push(
                Projection { morphism, target },
            ),
            final(self).name == old(self).name,
            final(self).apex == old(self).apex,
            final(self).is_aggregate == old(self).is_aggregate,
            final(self).root == old(self).root,
    {
        self.projections.push(Projection { morphism, target });
    }

    /// The targets of the projections, in order.
    pub fn component_objects(&self) -> (r: Vec<ObjectId>)
        ensures
            r@ == self.projections@.map_values(|p: Projection| p.target),
    {
        let mut r: Vec<ObjectId> = Vec::new();
        let mut i: usize = 0;
        while i < self.projections.len()
            invariant
                0 <= i <= self.projections@.len(),
                r@ == self.projections@.subrange(0, i as int).map_values(|p: Projection| p.target),
            decreases self.projections.len() - i,
        {
            r.push(self.projections[i].target);
            i += 1;
            proof {
                assert(r@ =~= self.projections@.subrange(0, i as int).map_values(
                    |p: Projection| p.target,
                ));
            }
        }
        proof {
            assert(self.projections@.subrange(0, i as int) =~= self.projections@);
        }
        r
    }
}

} // verus!

//! Bounded contexts: the domain-driven-design layer over a sketch. Objects are
//! classified as entities, value objects, aggregate roots and enumerations, and
//! invariants are recorded as equalizers.

use vstd::prelude::*;
use crate::colimit::ColimitCocone;
use crate::equation::PathEquation;
use crate::graph::{Graph, MorphismId, ObjectId};
use crate::limit::LimitCone;
use crate::sketch::Sketch;
use crate::text::{concat3, decimal, object_id_text};

verus! {

/// An invariant expressed as an equalizer: the sub-object of `source` on which
/// the morphisms `f` and `g` agree, with its inclusion morphism.
#[derive(Debug)]
pub struct Invariant {
    pub name: String,
    pub equalizer: ObjectId,
    pub inclusion: MorphismId,
    pub morphism_f: MorphismId,
    pub morphism_g: MorphismId,
    pub description: Option<String>,
}

/// The content of a bounded context.
pub struct BoundedContextView {
    pub sketch: Sketch,
    pub entities: Seq<ObjectId>,
    /// Each entity with its identity morphism, in order of registration.
    pub entity_identities: Seq<(ObjectId, MorphismId)>,
    pub value_objects: Seq<ObjectId>,
    pub aggregate_roots: Seq<ObjectId>,
    pub invariants: Seq<Invariant>,
}

/// A bounded context over one sketch.
#[derive(Debug)]
pub struct BoundedContext {
    sketch: Sketch,
    entities: Vec<ObjectId>,
    entity_identities: Vec<(ObjectId, MorphismId)>,
    value_objects: Vec<ObjectId>,
    aggregate_roots: Vec<ObjectId>,
    invariants: Vec<Invariant>,
}

impl View for BoundedContext {
    type V = BoundedContextView;

    closed spec fn view(&self) -> BoundedContextView {
        BoundedContextView {
            sketch: self.sketch,
            entities: self.entities@,
            entity_identities: self.entity_identities@,
            value_objects: self.value_objects@,
            aggregate_roots: self.aggregate_roots@,
            invariants: self.invariants@,
        }
    }
}

/// The identity morphism registered first for `entity`, if any.
pub open spec fn identity_of(pairs: Seq<(ObjectId, MorphismId)>, entity: ObjectId) -> Option<
    MorphismId,
> {
    if exists|i: int| 0 <= i < pairs.len() && (#[trigger] pairs[i]).0 == entity {
        let i = choose|i: int|
            0 <= i < pairs.len() && (#[trigger] pairs[i]).0 == entity && forall|j: int|
                0 <= j < i ==> (#[trigger] pairs[j]).0 != entity;
        Some(pairs[i].1)
    } else {
        None
    }
}

/// `l` is the structural definition of the value object `vo`.
pub open spec fn defines_value_object(l: LimitCone, vo: ObjectId) -> bool {
    !l.is_aggregate && l.apex == vo
}

/// `l` is the aggregate rooted at `root`.
pub open spec fn defines_aggregate(l: LimitCone, root: ObjectId) -> bool {
    l.is_aggregate && l.root == Some(root)
}

impl BoundedContext {
    /// An empty context named `name`.
    pub fn new(name: &str) -> (c: Self)
        ensures
            c@.sketch.name@ == name@,
            c@.sketch.graph@.objects.len() == 0,
            c@.sketch.graph@.morphisms.len() == 0,
            c@.sketch.graph@.wf(),
            c@.sketch.equations@.len() == 0,
            c@.sketch.limits@.len() == 0,
            c@.sketch.colimits@.len() == 0,
            c@.entities.len() == 0,
            c@.entity_identities.len() == 0,
            c@.value_objects.len() == 0,
            c@.aggregate_roots.len() == 0,
            c@.invariants.len() == 0,
    {
        BoundedContext {
            sketch: Sketch::new(name),
            entities: Vec::new(),
            entity_identities: Vec::new(),
            value_objects: Vec::new(),
            aggregate_roots: Vec::new(),
            invariants: Vec::new(),
        }
    }

    /// The context's name, which is its sketch's name.
    pub fn name(&self) -> (r: &str)
        ensures
            r@ == self@.sketch.name@,
    {
        self.sketch.name.as_str()
    }

    /// The underlying sketch.
    pub fn sketch(&self) -> (r: &Sketch)
        ensures
            *r == self@.sketch,
    {
        &self.sketch
    }

    /// The underlying sketch, for changes that bypass the classification.
    pub fn sketch_mut(&mut self) -> (r: &mut Sketch)
        ensures
            *r == old(self)@.sketch,
            final(self)@ == (BoundedContextView { sketch: *final(r), ..old(self)@ }),
    {
        &mut self.sketch
    }

    /// The underlying graph.
    pub fn graph(&self) -> (r: &Graph)
        ensures
            *r == self@.sketch.graph,
    {
        &self.sketch.graph
    }

    /// Add an entity: a new object together with its identity morphism.
    pub fn add_entity(&mut self, name: &str) -> (id: ObjectId)
        requires
            old(self)@.sketch.graph@.objects.len() < u32::MAX,
            old(self)@.sketch.graph@.morphisms.len() < u32::MAX,
        ensures
            id.0 == old(self)@.sketch.graph@.objects.len(),
            final(self)@.sketch.graph@.objects.len() == old(self)@.sketch.graph@.objects.len() + 1,
            final(self)@.sketch.graph@.objects.drop_last() == old(self)@.sketch.graph@.objects,
            final(self)@.sketch.graph@.objects.last().name@ == name@,
            final(self)@.sketch.graph@.morphisms.len() == old(self)@.sketch.graph@.morphisms.len()
                + 1,
            final(self)@.sketch.graph@.morphisms.drop_last() == old(self)@.sketch.graph@.morphisms,
            final(self)@.sketch.graph@.morphisms.last().name@ == "id_"@ + name@,
            final(self)@.sketch.graph@.morphisms.last().source == id,
            final(self)@.sketch.graph@.morphisms.last().target == id,
            final(self)@.sketch.graph@.morphisms.last().is_identity,
            old(self)@.sketch.graph@.wf() ==> final(self)@.sketch.graph@.wf(),
            final(self)@.entities == old(self)@.entities.push(id),
            final(self)@.entity_identities == old(self)@.entity_identities.push(
                (id, MorphismId(old(self)@.sketch.graph@.morphisms.len() as u32)),
            ),
            final(self)@.sketch.name == old(self)@.sketch.name,
            final(self)@.sketch.equations == old(self)@.sketch.equations,
            final(self)@.sketch.limits == old(self)@.sketch.limits,
            final(self)@.sketch.colimits == old(self)@.sketch.colimits,
            final(self)@.value_objects == old(self)@.value_objects,
            final(self)@.aggregate_roots == old(self)@.aggregate_roots,
            final(self)@.invariants == old(self)@.invariants,
    {
        let id = self.sketch.add_object(name);
        let identity = self.sketch.graph.add_identity_morphism(id);
        self.entities.push(id);
        self.entity_identities.push((id, identity));
        id
    }

    /// The identity morphism registered for `entity`, if any.
    pub fn get_entity_identity(&self, entity: ObjectId) -> (r: Option<MorphismId>)
        ensures
            r == identity_of(self@.entity_identities, entity),
    {
        let mut i: usize = 0;
        while i < self.entity_identities.len()
            invariant
                0 <= i <= self.entity_identities@.len(),
                forall|j: int| 0 <= j < i ==> (#[trigger] self.entity_identities@[j]).0 != entity,
            decreases self.entity_identities.len() - i,
        {
            let (e, m) = self.entity_identities[i];
            if e == entity {
                proof {
                    let pairs = self@.entity_identities;
                    let k = choose|k: int|
                        0 <= k < pairs.len() && (#[trigger] pairs[k]).0 == entity && forall|j: int|
                            0 <= j < k ==> (#[trigger] pairs[j]).0 != entity;
                    assert(k == i) by {
                        if k < i {
                            assert(pairs[k].0 != entity);
                        }
                        if k > i {
                            assert(pairs[i as int].0 == entity);
                        }
                    }
                }
                return Some(m);
            }
            i += 1;
        }
        None
    }

    /// Add a value object: a new object with an empty value-object cone as its
    /// structural definition.
    pub fn add_value_object(&mut self, name: &str) -> (id: ObjectId)
        requires
            old(self)@.sketch.graph@.objects.len() < u32::MAX,
            old(self)@.sketch.graph@.morphisms.len() <= u32::MAX,
        ensures
            id.0 == old(self)@.sketch.graph@.objects.len(),
            final(self)@.sketch.graph@.objects.len() == old(self)@.sketch.graph@.objects.len() + 1,
            final(self)@.sketch.graph@.objects.drop_last() == old(self)@.sketch.graph@.objects,
            final(self)@.sketch.graph@.objects.last().name@ == name@,
            final(self)@.sketch.graph@.morphisms == old(self)@.sketch.graph@.morphisms,
            old(self)@.sketch.graph@.wf() ==> final(self)@.sketch.graph@.wf(),
            final(self)@.sketch.limits@.len() == old(self)@.sketch.limits@.len() + 1,
            final(self)@.sketch.limits@.drop_last() == old(self)@.sketch.limits@,
            final(self)@.sketch.limits@.last().name@ == name@,
            final(self)@.sketch.limits@.last().apex == id,
            final(self)@.sketch.limits@.last().projections@.len() == 0,
            !final(self)@.sketch.limits@.last().is_aggregate,
            final(self)@.sketch.limits@.last().root is None,
            final(self)@.value_objects == old(self)@.value_objects.push(id),
            final(self)@.sketch.name == old(self)@.sketch.name,
            final(self)@.sketch.equations == old(self)@.sketch.equations,
            final(self)@.sketch.colimits == old(self)@.sketch.colimits,
            final(self)@.entities == old(self)@.entities,
            final(self)@.entity_identities == old(self)@.entity_identities,
            final(self)@.aggregate_roots == old(self)@.aggregate_roots,
            final(self)@.invariants == old(self)@.invariants,
    {
        let id = self.add_value_object_with_components(name, &[]);
        proof {
            assert(self@.sketch.graph@.morphisms =~= old(self)@.sketch.graph@.morphisms);
        }
        id
    }

    /// Add a value object with one projection morphism `proj_i` to each
    /// component, in order.
    pub fn add_value_object_with_components(&mut self, name: &str, component_types: &[ObjectId])
        -> (id: ObjectId)
        requires
            old(self)@.sketch.graph@.objects.len() < u32::MAX,
            old(self)@.sketch.graph@.morphisms.len() + component_types@.len() <= u32::MAX,
        ensures
            id.0 == old(self)@.sketch.graph@.objects.len(),
            final(self)@.sketch.graph@.objects.len() == old(self)@.sketch.graph@.objects.len() + 1,
            final(self)@.sketch.graph@.objects.drop_last() == old(self)@.sketch.graph@.objects,
            final(self)@.sketch.graph@.objects.last().name@ == name@,
            final(self)@.sketch.graph@.morphisms.len() == old(self)@.sketch.graph@.morphisms.len()
                + component_types@.len(),
            final(self)@.sketch.graph@.morphisms.subrange(
                0,
                old(self)@.sketch.graph@.morphisms.len() as int,
            ) == old(self)@.sketch.graph@.morphisms,
            forall|k: int|
                0 <= k < component_types@.len() ==> {
                    let m = #[trigger] final(self)@.sketch.graph@.morphisms[old(
                        self,
                    )@.sketch.graph@.morphisms.len() + k];
                    &&& m.source == id
                    &&& m.target == component_types@[k]
                    &&& m.name@ == "proj_"@ + crate::text::decimal_of(k as nat)
                    &&& !m.is_identity
                },
            old(self)@.sketch.graph@.wf() ==> final(self)@.sketch.graph@.wf(),
            final(self)@.sketch.limits@.len() == old(self)@.sketch.limits@.len() + 1,
            final(self)@.sketch.limits@.drop_last() == old(self)@.sketch.limits@,
            final(self)@.sketch.limits@.last().name@ == name@,
            final(self)@.sketch.limits@.last().apex == id,
            !final(self)@.sketch.limits@.last().is_aggregate,
            final(self)@.sketch.limits@.last().root is None,
            final(self)@.sketch.limits@.last().projections@.len() == component_types@.len(),
            forall|k: int|
                0 <= k < component_types@.len() ==> {
                    let p = #[trigger] final(self)@.sketch.limits@.last().projections@[k];
                    &&& p.target == component_types@[k]
                    &&& p.morphism.0 == old(self)@.sketch.graph@.morphisms.len() + k
                },
            final(self)@.value_objects == old(self)@.value_objects.push(id),
            final(self)@.sketch.name == old(self)@.sketch.name,
            final(self)@.sketch.equations == old(self)@.sketch.equations,
            final(self)@.sketch.colimits == old(self)@.sketch.colimits,
            final(self)@.entities == old(self)@.entities,
            final(self)@.entity_identities == old(self)@.entity_identities,
            final(self)@.aggregate_roots == old(self)@.aggregate_roots,
            final(self)@.invariants == old(self)@.invariants,
    {
        let id = self.sketch.add_object(name);
        let mut limit = LimitCone::value_object(name, id);
        let ghost base = self.sketch.graph@.morphisms;
        let mut i: usize = 0;
        while i < component_types.len()
            invariant
                0 <= i <= component_types@.len(),
                base == old(self)@.sketch.graph@.morphisms,
                base.len() + component_types@.len() <= u32::MAX,
                self.sketch.graph@.morphisms.len() == base.len() + i,
                self.sketch.graph@.morphisms.subrange(0, base.len() as int) == base,
                self.sketch.graph@.objects.len() == old(self)@.sketch.graph@.objects.len() + 1,
                self.sketch.graph@.objects.drop_last() == old(self)@.sketch.graph@.objects,
                self.sketch.graph@.objects.last().name@ == name@,
                id.0 == old(self)@.sketch.graph@.objects.len(),
                old(self)@.sketch.graph@.wf() ==> self.sketch.graph@.wf(),
                forall|k: int|
                    0 <= k < i ==> {
                        let m = #[trigger] self.sketch.graph@.morphisms[base.len() + k];
                        &&& m.source == id
                        &&& m.target == component_types@[k]
                        &&& m.name@ == "proj_"@ + crate::text::decimal_of(k as nat)
                        &&& !m.is_identity
                    },
                limit.name@ == name@,
                limit.apex == id,
                !limit.is_aggregate,
                limit.root is None,
                limit.projections@.len() == i,
                forall|k: int|
                    0 <= k < i ==> {
                        let p = #[trigger] limit.projections@[k];
                        &&& p.target == component_types@[k]
                        &&& p.morphism.0 == base.len() + k
                    },
                self.sketch.name == old(self)@.sketch.name,
                self.sketch.equations == old(self)@.sketch.equations,
                self.sketch.limits == old(self)@.sketch.limits,
                self.sketch.colimits == old(self)@.sketch.colimits,
                self.entities == old(self).entities,
                self.entity_identities == old(self).entity_identities,
                self.value_objects == old(self).value_objects,
                self.aggregate_roots == old(self).aggregate_roots,
                self.invariants == old(self).invariants,
            decreases component_types.len() - i,
        {
            let component = component_types[i];
            let proj_name = String::from_str("proj_").concat(decimal(i as u64).as_str());
            let ghost before = self.sketch.graph@.morphisms;
            let morphism = self.sketch.graph.add_morphism(proj_name.as_str(), id, component);
            proof {
                let after = self.sketch.graph@.morphisms;
                assert(after.subrange(0, base.len() as int) =~= before.subrange(
                    0,
                    base.len() as int,
                ));
                assert forall|k: int| 0 <= k < i implies #[trigger] after[base.len() + k] == before[base.len()
                    + k] by {
                    assert(after.drop_last()[base.len() + k] == after[base.len() + k]);
                }
            }
            limit.add_projection(morphism, component);
            i += 1;
        }
        self.sketch.add_limit(limit);
        self.value_objects.push(id);
        proof {
            assert(self@.sketch.limits@.drop_last() =~= old(self)@.sketch.limits@);
        }
        id
    }

    /// The first value-object cone whose apex is `value_object`.
    pub fn get_value_object_limit(&self, value_object: ObjectId) -> (r: Option<&LimitCone>)
        ensures
            r is None <==> forall|i: int|
                0 <= i < self@.sketch.limits@.len() ==> !defines_value_object(
                    #[trigger] self@.sketch.limits@[i],
                    value_object,
                ),
            r matches Some(l) ==> exists|i: int|
                {
                    &&& 0 <= i < self@.sketch.limits@.len()
                    &&& #[trigger] self@.sketch.limits@[i] == *l
                    &&& defines_value_object(*l, value_object)
                    &&& forall|j: int|
                        0 <= j < i ==> !defines_value_object(
                            #[trigger] self@.sketch.limits@[j],
                            value_object,
                        )
                },
    {
        let limits = &self.sketch.limits;
        let mut i: usize = 0;
        while i < limits.len()
            invariant
                0 <= i <= limits@.len(),
                limits@ == self@.sketch.limits@,
                forall|j: int|
                    0 <= j < i ==> !defines_value_object(#[trigger] limits@[j], value_object),
            decreases limits.len() - i,
        {
            if !limits[i].is_aggregate && limits[i].apex == value_object {
                return Some(&limits[i]);
            }
            i += 1;
        }
        None
    }

    /// Whether `id` was registered as an entity.
    pub fn is_entity(&self, id: ObjectId) -> (r: bool)
        ensures
            r == self@.entities.contains(id),
    {
        contains_id(&self.entities, id)
    }

    /// Whether `id` was registered as a value object.
    pub fn is_value_object(&self, id: ObjectId) -> (r: bool)
        ensures
            r == self@.value_objects.contains(id),
    {
        contains_id(&self.value_objects, id)
    }

    /// Define an aggregate rooted at `root`, with no members yet. The root is
    /// recorded again on every call.
    pub fn define_aggregate(&mut self, name: &str, root: ObjectId) -> (r: &mut LimitCone)
        ensures
            r.name@ == name@,
            r.apex == root,
            r.is_aggregate,
            r.root == Some(root),
            r.projections@.len() == 0,
            final(self)@.aggregate_roots == old(self)@.aggregate_roots.push(root),
            final(self)@.sketch.limits@ == old(self)@.sketch.limits@.push(*final(r)),
            final(self)@.sketch.graph == old(self)@.sketch.graph,
            final(self)@.sketch.name == old(self)@.sketch.name,
            final(self)@.sketch.equations == old(self)@.sketch.equations,
            final(self)@.sketch.colimits == old(self)@.sketch.colimits,
            final(self)@.entities == old(self)@.entities,
            final(self)@.entity_identities == old(self)@.entity_identities,
            final(self)@.value_objects == old(self)@.value_objects,
            final(self)@.invariants == old(self)@.invariants,
    {
        self.aggregate_roots.push(root);
        let limit = LimitCone::aggregate(name, root, root);
        self.sketch.limits.push(limit);
        let last = self.sketch.limits.len() - 1;
        &mut self.sketch.limits[last]
    }

    /// Define an aggregate rooted at `root` with one projection morphism per
    /// member, from the root to the member, named after the aggregate and the
    /// member.
    pub fn define_aggregate_with_members(&mut self, name: &str, root: ObjectId, members: &[ObjectId])
        -> (r: &mut LimitCone)
        requires
            old(self)@.sketch.graph@.morphisms.len() + members@.len() <= u32::MAX,
        ensures
            r.name@ == name@,
            r.apex == root,
            r.is_aggregate,
            r.root == Some(root),
            r.projections@.len() == members@.len(),
            forall|k: int|
                0 <= k < members@.len() ==> {
                    let p = #[trigger] r.projections@[k];
                    &&& p.target == members@[k]
                    &&& p.morphism.0 == old(self)@.sketch.graph@.morphisms.len() + k
                },
            final(self)@.sketch.graph@.morphisms.len() == old(self)@.sketch.graph@.morphisms.len()
                + members@.len(),
            final(self)@.sketch.graph@.morphisms.subrange(
                0,
                old(self)@.sketch.graph@.morphisms.len() as int,
            ) == old(self)@.sketch.graph@.morphisms,
            forall|k: int|
                0 <= k < members@.len() ==> {
                    let m = #[trigger] final(self)@.sketch.graph@.morphisms[old(
                        self,
                    )@.sketch.graph@.morphisms.len() + k];
                    &&& m.source == root
                    &&& m.target == members@[k]
                    &&& !m.is_identity
                },
            final(self)@.sketch.graph@.objects == old(self)@.sketch.graph@.objects,
            old(self)@.sketch.graph@.wf() ==> final(self)@.sketch.graph@.wf(),
            final(self)@.aggregate_roots == old(self)@.aggregate_roots.push(root),
            final(self)@.sketch.limits@ == old(self)@.sketch.limits@.push(*final(r)),
            final(self)@.sketch.name == old(self)@.sketch.name,
            final(self)@.sketch.equations == old(self)@.sketch.equations,
            final(self)@.sketch.colimits == old(self)@.sketch.colimits,
            final(self)@.entities == old(self)@.entities,
            final(self)@.entity_identities == old(self)@.entity_identities,
            final(self)@.value_objects == old(self)@.value_objects,
            final(self)@.invariants == old(self)@.invariants,
    {
        self.aggregate_roots.push(root);
        let mut limit = LimitCone::aggregate(name, root, root);
        let ghost base = self.sketch.graph@.morphisms;
        let mut i: usize = 0;
        while i < members.len()
            invariant
                0 <= i <= members@.len(),
                base == old(self)@.sketch.graph@.morphisms,
                base.len() + members@.len() <= u32::MAX,
                self.sketch.graph@.morphisms.len() == base.len() + i,
                self.sketch.graph@.morphisms.subrange(0, base.len() as int) == base,
                self.sketch.graph@.objects == old(self)@.sketch.graph@.objects,
                old(self)@.sketch.graph@.wf() ==> self.sketch.graph@.wf(),
                forall|k: int|
                    0 <= k < i ==> {
                        let m = #[trigger] self.sketch.graph@.morphisms[base.len() + k];
                        &&& m.source == root
                        &&& m.target == members@[k]
                        &&& !m.is_identity
                    },
                limit.name@ == name@,
                limit.apex == root,
                limit.is_aggregate,
                limit.root == Some(root),
                limit.projections@.len() == i,
                forall|k: int|
                    0 <= k < i ==> {
                        let p = #[trigger] limit.projections@[k];
                        &&& p.target == members@[k]
                        &&& p.morphism.0 == base.len() + k
                    },
                self.sketch.name == old(self)@.sketch.name,
                self.sketch.equations == old(self)@.sketch.equations,
                self.sketch.limits == old(self)@.sketch.limits,
                self.sketch.colimits == old(self)@.sketch.colimits,
                self.entities == old(self).entities,
                self.entity_identities == old(self).entity_identities,
                self.value_objects == old(self).value_objects,
                self.aggregate_roots@ == old(self).aggregate_roots@.push(root),
                self.invariants == old(self).invariants,
            decreases members.len() - i,
        {
            let member = members[i];
            let member_name = match self.sketch.graph.get_object(member) {
                Some(o) => o.name.clone(),
                None => object_id_text(member),
            };
            let proj_name = concat3(name, "_", member_name.as_str());
            let ghost before = self.sketch.graph@.morphisms;
            let morphism = self.sketch.graph.add_morphism(proj_name.as_str(), root, member);
            proof {
                let after = self.sketch.graph@.morphisms;
                assert(after.subrange(0, base.len() as int) =~= before.subrange(
                    0,
                    base.len() as int,
                ));
                assert forall|k: int| 0 <= k < i implies #[trigger] after[base.len() + k] == before[base.len()
                    + k] by {
                    assert(after.drop_last()[base.len() + k] == after[base.len() + k]);
                }
            }
            limit.add_projection(morphism, member);
            i += 1;
        }
        self.sketch.limits.push(limit);
        let last = self.sketch.limits.len() - 1;
        &mut self.sketch.limits[last]
    }

    /// The first aggregate cone rooted at `root`.
    pub fn get_aggregate(&self, root: ObjectId) -> (r: Option<&LimitCone>)
        ensures
            r is None <==> forall|i: int|
                0 <= i < self@.sketch.limits@.len() ==> !defines_aggregate(
                    #[trigger] self@.sketch.limits@[i],
                    root,
                ),
            r matches Some(l) ==> exists|i: int|
                {
                    &&& 0 <= i < self@.sketch.limits@.len()
                    &&& #[trigger] self@.sketch.limits@[i] == *l
                    &&& defines_aggregate(*l, root)
                    &&& forall|j: int|
                        0 <= j < i ==> !defines_aggregate(#[trigger] self@.sketch.limits@[j], root)
                },
    {
        let limits = &self.sketch.limits;
        let mut i: usize = 0;
        while i < limits.len()
            invariant
                0 <= i <= limits@.len(),
                limits@ == self@.sketch.limits@,
                forall|j: int| 0 <= j < i ==> !defines_aggregate(#[trigger] limits@[j], root),
            decreases limits.len() - i,
        {
            if limits[i].is_aggregate && limits[i].root == Some(root) {
                return Some(&limits[i]);
            }
            i += 1;
        }
        None
    }

    /// Whether `id` was recorded as an aggregate root.
    pub fn is_aggregate_root(&self, id: ObjectId) -> (r: bool)
        ensures
            r == self@.aggregate_roots.contains(id),
    {
        contains_id(&self.aggregate_roots, id)
    }

    /// Add an enumeration: a new object and a cocone with one payload-free
    /// variant per name.
    pub fn add_enum(&mut self, name: &str, variants: Vec<String>) -> (id: ObjectId)
        requires
            old(self)@.sketch.graph@.objects.len() < u32::MAX,
        ensures
            id.0 == old(self)@.sketch.graph@.objects.len(),
            final(self)@.sketch.graph@.objects.len() == old(self)@.sketch.graph@.objects.len() + 1,
            final(self)@.sketch.graph@.objects.drop_last() == old(self)@.sketch.graph@.objects,
            final(self)@.sketch.graph@.objects.last().name@ == name@,
            final(self)@.sketch.graph@.morphisms == old(self)@.sketch.graph@.morphisms,
            old(self)@.sketch.graph@.wf() ==> final(self)@.sketch.graph@.wf(),
            final(self)@.sketch.colimits@.len() == old(self)@.sketch.colimits@.len() + 1,
            final(self)@.sketch.colimits@.drop_last() == old(self)@.sketch.colimits@,
            final(self)@.sketch.colimits@.last().name@ == name@,
            final(self)@.sketch.colimits@.last().apex == id,
            final(self)@.sketch.colimits@.last().injections@.len() == variants@.len(),
            forall|k: int|
                0 <= k < variants@.len() ==> {
                    &&& (#[trigger] final(self)@.sketch.colimits@.last().injections@[k]).name@
                        == variants@[k]@
                    &&& final(self)@.sketch.colimits@.last().injections@[k].source == id
                },
            final(self)@.sketch.name == old(self)@.sketch.name,
            final(self)@.sketch.equations == old(self)@.sketch.equations,
            final(self)@.sketch.limits == old(self)@.sketch.limits,
            final(self)@.entities == old(self)@.entities,
            final(self)@.entity_identities == old(self)@.entity_identities,
            final(self)@.value_objects == old(self)@.value_objects,
            final(self)@.aggregate_roots == old(self)@.aggregate_roots,
            final(self)@.invariants == old(self)@.invariants,
    {
        let id = self.sketch.add_object(name);
        let colimit = ColimitCocone::enumeration(name, id, variants);
        self.sketch.add_colimit(colimit);
        proof {
            assert(self@.sketch.colimits@.drop_last() =~= old(self)@.sketch.colimits@);
        }
        id
    }

    /// Add a sum type: a new object and a cocone with one variant per pair,
    /// injected from the pair's payload object.
    pub fn add_sum_type(&mut self, name: &str, variants: Vec<(String, ObjectId)>) -> (id: ObjectId)
        requires
            old(self)@.sketch.graph@.objects.len() < u32::MAX,
        ensures
            id.0 == old(self)@.sketch.graph@.objects.len(),
            final(self)@.sketch.graph@.objects.len() == old(self)@.sketch.graph@.objects.len() + 1,
            final(self)@.sketch.graph@.objects.drop_last() == old(self)@.sketch.graph@.objects,
            final(self)@.sketch.graph@.objects.last().name@ == name@,
            final(self)@.sketch.graph@.morphisms == old(self)@.sketch.graph@.morphisms,
            old(self)@.sketch.graph@.wf() ==> final(self)@.sketch.graph@.wf(),
            final(self)@.sketch.colimits@.len() == old(self)@.sketch.colimits@.len() + 1,
            final(self)@.sketch.colimits@.drop_last() == old(self)@.sketch.colimits@,
            final(self)@.sketch.colimits@.last().name@ == name@,
            final(self)@.sketch.colimits@.last().apex == id,
            final(self)@.sketch.colimits@.last().injections@.len() == variants@.len(),
            forall|k: int|
                0 <= k < variants@.len() ==> {
                    &&& (#[trigger] final(self)@.sketch.colimits@.last().injections@[k]).name@
                        == variants@[k].0@
                    &&& final(self)@.sketch.colimits@.last().injections@[k].source
                        == variants@[k].1
                },
            final(self)@.sketch.name == old(self)@.sketch.name,
            final(self)@.sketch.equations == old(self)@.sketch.equations,
            final(self)@.sketch.limits == old(self)@.sketch.limits,
            final(self)@.entities == old(self)@.entities,
            final(self)@.entity_identities == old(self)@.entity_identities,
            final(self)@.value_objects == old(self)@.value_objects,
            final(self)@.aggregate_roots == old(self)@.aggregate_roots,
            final(self)@.invariants == old(self)@.invariants,
    {
        let id = self.sketch.add_object(name);
        let mut colimit = ColimitCocone::new(name, id);
        let mut i: usize = 0;
        while i < variants.len()
            invariant
                0 <= i <= variants@.len(),
                colimit.name@ == name@,
                colimit.apex == id,
                colimit.injections@.len() == i,
                forall|k: int|
                    0 <= k < i ==> {
                        &&& (#[trigger] colimit.injections@[k]).name@ == variants@[k].0@
                        &&& colimit.injections@[k].source == variants@[k].1
                    },
            decreases variants.len() - i,
        {
            let ghost before = colimit.injections@;
            let (variant_name, variant_type) = &variants[i];
            colimit.add_variant(variant_name.as_str(), *variant_type);
            proof {
                assert forall|k: int| 0 <= k < i + 1 implies {
                    &&& (#[trigger] colimit.injections@[k]).name@ == variants@[k].0@
                    &&& colimit.injections@[k].source == variants@[k].1
                } by {
                    if k < i {
                        assert(colimit.injections@.drop_last()[k] == colimit.injections@[k]);
                        assert(before[k] == colimit.injections@[k]);
                    }
                }
                assert(colimit.injections@[i as int] == colimit.injections@.last());
                assert(colimit.injections@.last().name@ == variants@[i as int].0@);
                assert(colimit.injections@.last().source == variants@[i as int].1);
            }
            i += 1;
        }
        self.sketch.add_colimit(colimit);
        proof {
            assert(self@.sketch.colimits@.drop_last() =~= old(self)@.sketch.colimits@);
        }
        id
    }

    /// The first cocone whose apex is `enum_id`.
    pub fn get_enum_colimit(&self, enum_id: ObjectId) -> (r: Option<&ColimitCocone>)
        ensures
            r is None <==> forall|i: int|
                0 <= i < self@.sketch.colimits@.len() ==> (#[trigger] self@.sketch.colimits@[i]).apex
                    != enum_id,
            r matches Some(c) ==> exists|i: int|
                {
                    &&& 0 <= i < self@.sketch.colimits@.len()
                    &&& #[trigger] self@.sketch.colimits@[i] == *c
                    &&& c.apex == enum_id
                    &&& forall|j: int|
                        0 <= j < i ==> (#[trigger] self@.sketch.colimits@[j]).apex != enum_id
                },
    {
        let colimits = &self.sketch.colimits;
        let mut i: usize = 0;
        while i < colimits.len()
            invariant
                0 <= i <= colimits@.len(),
                colimits@ == self@.sketch.colimits@,
                forall|j: int| 0 <= j < i ==> (#[trigger] colimits@[j]).apex != enum_id,
            decreases colimits.len() - i,
        {
            if colimits[i].apex == enum_id {
                return Some(&colimits[i]);
            }
            i += 1;
        }
        None
    }

    /// Record a path equation under `name`, replacing the equation's own name.
    pub fn add_path_equation(&mut self, name: &str, equation: PathEquation)
        ensures
            final(self)@.sketch.equations@.len() == old(self)@.sketch.equations@.len() + 1,
            final(self)@.sketch.equations@.drop_last() == old(self)@.sketch.equations@,
            final(self)@.sketch.equations@.last().name@ == name@,
            final(self)@.sketch.equations@.last().lhs == equation.lhs,
            final(self)@.sketch.equations@.last().rhs == equation.rhs,
            final(self)@.sketch.graph == old(self)@.sketch.graph,
            final(self)@.sketch.name == old(self)@.sketch.name,
            final(self)@.sketch.limits == old(self)@.sketch.limits,
            final(self)@.sketch.colimits == old(self)@.sketch.colimits,
            final(self)@.entities == old(self)@.entities,
            final(self)@.entity_identities == old(self)@.entity_identities,
            final(self)@.value_objects == old(self)@.value_objects,
            final(self)@.aggregate_roots == old(self)@.aggregate_roots,
            final(self)@.invariants == old(self)@.invariants,
    {
        let mut eq = equation;
        eq.name = String::from_str(name);
        self.sketch.add_equation(eq);
        proof {
            assert(self@.sketch.equations@.drop_last() =~= old(self)@.sketch.equations@);
        }
    }

    /// Record an invariant as an equalizer of `f` and `g` on `source`: a new
    /// object `Eq_<name>` and an inclusion morphism `incl_<name>` from it to
    /// `source`. That `f` and `g` share a target is not checked here.
    pub fn add_equalizer_invariant(
        &mut self,
        name: &str,
        source: ObjectId,
        f: MorphismId,
        g: MorphismId,
        description: Option<String>,
    ) -> (equalizer: ObjectId)
        requires
            old(self)@.sketch.graph@.objects.len() < u32::MAX,
            old(self)@.sketch.graph@.morphisms.len() < u32::MAX,
        ensures
            equalizer.0 == old(self)@.sketch.graph@.objects.len(),
            final(self)@.sketch.graph@.objects.len() == old(self)@.sketch.graph@.objects.len() + 1,
            final(self)@.sketch.graph@.objects.drop_last() == old(self)@.sketch.graph@.objects,
            final(self)@.sketch.graph@.objects.last().name@ == "Eq_"@ + name@,
            final(self)@.sketch.graph@.morphisms.len() == old(self)@.sketch.graph@.morphisms.len()
                + 1,
            final(self)@.sketch.graph@.morphisms.drop_last() == old(self)@.sketch.graph@.morphisms,
            final(self)@.sketch.graph@.morphisms.last().name@ == "incl_"@ + name@,
            final(self)@.sketch.graph@.morphisms.last().source == equalizer,
            final(self)@.sketch.graph@.morphisms.last().target == source,
            !final(self)@.sketch.graph@.morphisms.last().is_identity,
            old(self)@.sketch.graph@.wf() ==> final(self)@.sketch.graph@.wf(),
            final(self)@.invariants.len() == old(self)@.invariants.len() + 1,
            final(self)@.invariants.drop_last() == old(self)@.invariants,
            final(self)@.invariants.last().name@ == name@,
            final(self)@.invariants.last().equalizer == equalizer,
            final(self)@.invariants.last().inclusion.0 == old(self)@.sketch.graph@.morphisms.len(),
            final(self)@.invariants.last().morphism_f == f,
            final(self)@.invariants.last().morphism_g == g,
            final(self)@.invariants.last().description == description,
            final(self)@.sketch.name == old(self)@.sketch.name,
            final(self)@.sketch.equations == old(self)@.sketch.equations,
            final(self)@.sketch.limits == old(self)@.sketch.limits,
            final(self)@.sketch.colimits == old(self)@.sketch.colimits,
            final(self)@.entities == old(self)@.entities,
            final(self)@.entity_identities == old(self)@.entity_identities,
            final(self)@.value_objects == old(self)@.value_objects,
            final(self)@.aggregate_roots == old(self)@.aggregate_roots,
    {
        let eq_name = String::from_str("Eq_").concat(name);
        let equalizer = self.sketch.add_object(eq_name.as_str());
        let incl_name = String::from_str("incl_").concat(name);
        let inclusion = self.sketch.graph.add_morphism(incl_name.as_str(), equalizer, source);
        let recorded = Invariant {
            name: String::from_str(name),
            equalizer,
            inclusion,
            morphism_f: f,
            morphism_g: g,
            description,
        };
        self.invariants.push(recorded);
        proof {
            assert(self@.invariants.drop_last() =~= old(self)@.invariants);
        }
        equalizer
    }

    /// The recorded invariants, in order.
    pub fn invariants(&self) -> (r: &[Invariant])
        ensures
            r@ == self@.invariants,
    {
        self.invariants.as_slice()
    }

    /// Older name of `add_path_equation`.
    pub fn add_invariant(&mut self, name: &str, equation: PathEquation)
        ensures
            final(self)@.sketch.equations@.len() == old(self)@.sketch.equations@.len() + 1,
            final(self)@.sketch.equations@.drop_last() == old(self)@.sketch.equations@,
            final(self)@.sketch.equations@.last().name@ == name@,
            final(self)@.sketch.equations@.last().lhs == equation.lhs,
            final(self)@.sketch.equations@.last().rhs == equation.rhs,
            final(self)@.sketch.graph == old(self)@.sketch.graph,
            final(self)@.sketch.name == old(self)@.sketch.name,
            final(self)@.sketch.limits == old(self)@.sketch.limits,
            final(self)@.sketch.colimits == old(self)@.sketch.colimits,
            final(self)@.entities == old(self)@.entities,
            final(self)@.entity_identities == old(self)@.entity_identities,
            final(self)@.value_objects == old(self)@.value_objects,
            final(self)@.aggregate_roots == old(self)@.aggregate_roots,
            final(self)@.invariants == old(self)@.invariants,
    {
        self.add_path_equation(name, equation);
    }

    /// The entities, in order of registration.
    pub fn entities(&self) -> (r: &[ObjectId])
        ensures
            r@ == self@.entities,
    {
        self.entities.as_slice()
    }

    /// The value objects, in order of registration.
    pub fn value_objects(&self) -> (r: &[ObjectId])
        ensures
            r@ == self@.value_objects,
    {
        self.value_objects.as_slice()
    }

    /// The aggregate roots, in order of definition, repeats included.
    pub fn aggregate_roots(&self) -> (r: &[ObjectId])
        ensures
            r@ == self@.aggregate_roots,
    {
        self.aggregate_roots.as_slice()
    }
}

fn contains_id(ids: &Vec<ObjectId>, id: ObjectId) -> (r: bool)
    ensures
        r == ids@.contains(id),
{
    let mut i: usize = 0;
    while i < ids.len()
        invariant
            0 <= i <= ids@.len(),
            forall|j: int| 0 <= j < i ==> ids@[j] != id,
        decreases ids.len() - i,
    {
        if ids[i] == id {
            proof {
                assert(ids@[i as int] == id);
            }
            return true;
        }
        i += 1;
    }
    false
}

} // verus!

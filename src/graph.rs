//! Directed multigraph of named objects and morphisms.
//!
//! Identifiers are dense: the object with id `n` is the `n`-th object that was
//! added, and likewise for morphisms. Nothing is ever removed, so an id is
//! never reused within one graph.

use vstd::prelude::*;

verus! {

/// Identifier of an object within one graph.
#[derive(Debug, Clone, Copy, PartialEq, Eq, Hash, Structural)]
pub struct ObjectId(pub u32);

/// Identifier of a morphism within one graph.
#[derive(Debug, Clone, Copy, PartialEq, Eq, Hash, Structural)]
pub struct MorphismId(pub u32);

/// An object (node) of the graph, representing a domain concept.
#[derive(Debug)]
pub struct Object {
    pub id: ObjectId,
    pub name: String,
    pub description: Option<String>,
}

/// A morphism (edge) of the graph, representing a relationship.
#[derive(Debug)]
pub struct Morphism {
    pub id: MorphismId,
    pub name: String,
    pub source: ObjectId,
    pub target: ObjectId,
    pub description: Option<String>,
    /// Set for the identity morphism of an object; then `source == target`.
    pub is_identity: bool,
}

/// The mathematical content of a graph: its objects and morphisms in order of
/// insertion.
pub struct GraphView {
    pub objects: Seq<Object>,
    pub morphisms: Seq<Morphism>,
}

impl GraphView {
    /// Ids are positions, and identity morphisms are loops.
    pub open spec fn wf(self) -> bool {
        &&& forall|i: int| 0 <= i < self.objects.len() ==> #[trigger] self.objects[i].id.0 == i
        &&& forall|j: int|
            0 <= j < self.morphisms.len() ==> #[trigger] self.morphisms[j].id.0 == j
        &&& forall|j: int|
            0 <= j < self.morphisms.len() && #[trigger] self.morphisms[j].is_identity
                ==> self.morphisms[j].source == self.morphisms[j].target
    }

    pub open spec fn has_object(self, id: ObjectId) -> bool {
        id.0 < self.objects.len()
    }

    pub open spec fn has_morphism(self, id: MorphismId) -> bool {
        id.0 < self.morphisms.len()
    }

    pub open spec fn object(self, id: ObjectId) -> Object
        recommends
            self.has_object(id),
    {
        self.objects[id.0 as int]
    }

    pub open spec fn morphism(self, id: MorphismId) -> Morphism
        recommends
            self.has_morphism(id),
    {
        self.morphisms[id.0 as int]
    }

    /// Some object carries this name.
    pub open spec fn has_object_named(self, name: Seq<char>) -> bool {
        exists|i: int| 0 <= i < self.objects.len() && #[trigger] self.objects[i].name@ == name
    }

    /// Some morphism carries this name.
    pub open spec fn has_morphism_named(self, name: Seq<char>) -> bool {
        exists|i: int| 0 <= i < self.morphisms.len() && #[trigger] self.morphisms[i].name@ == name
    }
}

/// The ids, in order, of the morphisms of `ms` that leave `source`.
pub open spec fn outgoing_ids(ms: Seq<Morphism>, source: ObjectId) -> Seq<MorphismId>
    decreases ms.len(),
{
    if ms.len() == 0 {
        Seq::empty()
    } else {
        let rest = outgoing_ids(ms.drop_last(), source);
        if ms.last().source == source {
            rest.push(ms.last().id)
        } else {
            rest
        }
    }
}

/// The ids, in order, of the morphisms of `ms` that arrive at `target`.
pub open spec fn incoming_ids(ms: Seq<Morphism>, target: ObjectId) -> Seq<MorphismId>
    decreases ms.len(),
{
    if ms.len() == 0 {
        Seq::empty()
    } else {
        let rest = incoming_ids(ms.drop_last(), target);
        if ms.last().target == target {
            rest.push(ms.last().id)
        } else {
            rest
        }
    }
}

/// A directed multigraph; an append-only arena of objects and morphisms.
#[derive(Debug)]
pub struct Graph {
    objects: Vec<Object>,
    morphisms: Vec<Morphism>,
}

impl View for Graph {
    type V = GraphView;

    closed spec fn view(&self) -> GraphView {
        GraphView { objects: self.objects@, morphisms: self.morphisms@ }
    }
}

impl Graph {
    /// Create an empty graph.
    pub fn new() -> (g: Self)
        ensures
            g@.objects.len() == 0,
            g@.morphisms.len() == 0,
            g@.wf(),
    {
        Graph { objects: Vec::new(), morphisms: Vec::new() }
    }

    /// Add an object; its id is the number of objects added before it.
    pub fn add_object(&mut self, name: &str) -> (id: ObjectId)
        requires
            old(self)@.objects.len() < u32::MAX,
        ensures
            id.0 == old(self)@.objects.len(),
            old(self)@.wf() ==> forall|i: int|
                0 <= i < old(self)@.objects.len() ==> #[trigger] old(self)@.objects[i].id.0 < id.0,
            final(self)@.objects.len() == old(self)@.objects.len() + 1,
            final(self)@.objects.drop_last() == old(self)@.objects,
            final(self)@.objects.last().id == id,
            final(self)@.objects.last().name@ == name@,
            final(self)@.objects.last().description is None,
            final(self)@.morphisms == old(self)@.morphisms,
            old(self)@.wf() ==> final(self)@.wf(),
    {
        let id = ObjectId(self.objects.len() as u32);
        let object = Object { id, name: String::from_str(name), description: None };
        self.objects.push(object);
        proof {
            assert(self@.objects.drop_last() =~= old(self)@.objects);
        }
        id
    }

    fn push_morphism(&mut self, name: &str, source: ObjectId, target: ObjectId, is_identity: bool)
        -> (id: MorphismId)
        requires
            old(self)@.morphisms.len() < u32::MAX,
            is_identity ==> source == target,
        ensures
            id.0 == old(self)@.morphisms.len(),
            final(self)@.morphisms.len() == old(self)@.morphisms.len() + 1,
            final(self)@.morphisms.drop_last() == old(self)@.morphisms,
            final(self)@.morphisms.last().id == id,
            final(self)@.morphisms.last().name@ == name@,
            final(self)@.morphisms.last().source == source,
            final(self)@.morphisms.last().target == target,
            final(self)@.morphisms.last().description is None,
            final(self)@.morphisms.last().is_identity == is_identity,
            final(self)@.objects == old(self)@.objects,
            old(self)@.wf() ==> final(self)@.wf(),
    {
        let id = MorphismId(self.morphisms.len() as u32);
        let morphism = Morphism {
            id,
            name: String::from_str(name),
            source,
            target,
            description: None,
            is_identity,
        };
        self.morphisms.push(morphism);
        proof {
            assert(self@.morphisms.drop_last() =~= old(self)@.morphisms);
        }
        id
    }

    /// Add a morphism from `source` to `target`. The endpoints are not checked:
    /// the validator reports dangling ones.
    pub fn add_morphism(&mut self, name: &str, source: ObjectId, target: ObjectId) -> (id:
        MorphismId)
        requires
            old(self)@.morphisms.len() < u32::MAX,
        ensures
            id.0 == old(self)@.morphisms.len(),
            old(self)@.wf() ==> forall|j: int|
                0 <= j < old(self)@.morphisms.len() ==> #[trigger] old(self)@.morphisms[j].id.0 < id.0,
            final(self)@.morphisms.len() == old(self)@.morphisms.len() + 1,
            final(self)@.morphisms.drop_last() == old(self)@.morphisms,
            final(self)@.morphisms.last().id == id,
            final(self)@.morphisms.last().name@ == name@,
            final(self)@.morphisms.last().source == source,
            final(self)@.morphisms.last().target == target,
            final(self)@.morphisms.last().description is None,
            !final(self)@.morphisms.last().is_identity,
            final(self)@.objects == old(self)@.objects,
            old(self)@.wf() ==> final(self)@.wf(),
    {
        self.push_morphism(name, source, target, false)
    }

    /// Add the identity morphism of `object`, named `id_` followed by the
    /// object's name (or `id_` alone when the object does not exist).
    pub fn add_identity_morphism(&mut self, object: ObjectId) -> (id: MorphismId)
        requires
            old(self)@.morphisms.len() < u32::MAX,
        ensures
            id.0 == old(self)@.morphisms.len(),
            old(self)@.wf() ==> forall|j: int|
                0 <= j < old(self)@.morphisms.len() ==> #[trigger] old(self)@.morphisms[j].id.0 < id.0,
            final(self)@.morphisms.len() == old(self)@.morphisms.len() + 1,
            final(self)@.morphisms.drop_last() == old(self)@.morphisms,
            final(self)@.morphisms.last().id == id,
            final(self)@.morphisms.last().name@ == "id_"@ + (if old(self)@.has_object(object) {
                old(self)@.object(object).name@
            } else {
                Seq::<char>::empty()
            }),
            final(self)@.morphisms.last().source == object,
            final(self)@.morphisms.last().target == object,
            final(self)@.morphisms.last().description is None,
            final(self)@.morphisms.last().is_identity,
            final(self)@.objects == old(self)@.objects,
            old(self)@.wf() ==> final(self)@.wf(),
    {
        let prefix = String::from_str("id_");
        let name = if (object.0 as usize) < self.objects.len() {
            prefix.concat(self.objects[object.0 as usize].name.as_str())
        } else {
            proof {
                assert(prefix@ + Seq::<char>::empty() =~= prefix@);
            }
            prefix
        };
        self.push_morphism(name.as_str(), object, object, true)
    }

    /// The object with this id, if any.
    pub fn get_object(&self, id: ObjectId) -> (r: Option<&Object>)
        ensures
            r == (if self@.has_object(id) {
                Some(&self@.object(id))
            } else {
                None
            }),
    {
        if (id.0 as usize) < self.objects.len() {
            Some(&self.objects[id.0 as usize])
        } else {
            None
        }
    }

    /// The morphism with this id, if any.
    pub fn get_morphism(&self, id: MorphismId) -> (r: Option<&Morphism>)
        ensures
            r == (if self@.has_morphism(id) {
                Some(&self@.morphism(id))
            } else {
                None
            }),
    {
        if (id.0 as usize) < self.morphisms.len() {
            Some(&self.morphisms[id.0 as usize])
        } else {
            None
        }
    }

    /// All objects, in order of insertion.
    pub fn objects(&self) -> (r: &[Object])
        ensures
            r@ == self@.objects,
    {
        self.objects.as_slice()
    }

    /// All morphisms, in order of insertion.
    pub fn morphisms(&self) -> (r: &[Morphism])
        ensures
            r@ == self@.morphisms,
    {
        self.morphisms.as_slice()
    }

    /// The first object, in order of insertion, that carries `name`.
    pub fn find_object_by_name(&self, name: &str) -> (r: Option<&Object>)
        ensures
            r is None <==> !self@.has_object_named(name@),
            r matches Some(o) ==> exists|i: int|
                {
                    &&& 0 <= i < self@.objects.len()
                    &&& #[trigger] self@.objects[i] == *o
                    &&& o.name@ == name@
                    &&& forall|j: int| 0 <= j < i ==> #[trigger] self@.objects[j].name@ != name@
                },
    {
        let wanted = String::from_str(name);
        let mut i: usize = 0;
        while i < self.objects.len()
            invariant
                wanted@ == name@,
                0 <= i <= self.objects@.len(),
                self@.objects == self.objects@,
                forall|j: int| 0 <= j < i ==> #[trigger] self@.objects[j].name@ != name@,
            decreases self.objects.len() - i,
        {
            if self.objects[i].name == wanted {
                return Some(&self.objects[i]);
            }
            i += 1;
        }
        None
    }

    /// The first morphism, in order of insertion, that carries `name`.
    pub fn find_morphism_by_name(&self, name: &str) -> (r: Option<&Morphism>)
        ensures
            r is None <==> !self@.has_morphism_named(name@),
            r matches Some(m) ==> exists|i: int|
                {
                    &&& 0 <= i < self@.morphisms.len()
                    &&& #[trigger] self@.morphisms[i] == *m
                    &&& m.name@ == name@
                    &&& forall|j: int| 0 <= j < i ==> #[trigger] self@.morphisms[j].name@ != name@
                },
    {
        let wanted = String::from_str(name);
        let mut i: usize = 0;
        while i < self.morphisms.len()
            invariant
                wanted@ == name@,
                0 <= i <= self.morphisms@.len(),
                self@.morphisms == self.morphisms@,
                forall|j: int| 0 <= j < i ==> #[trigger] self@.morphisms[j].name@ != name@,
            decreases self.morphisms.len() - i,
        {
            if self.morphisms[i].name == wanted {
                return Some(&self.morphisms[i]);
            }
            i += 1;
        }
        None
    }

    /// The ids of the morphisms that leave `source`, in order of insertion.
    pub fn outgoing_morphisms(&self, source: ObjectId) -> (r: Vec<MorphismId>)
        ensures
            r@ == outgoing_ids(self@.morphisms, source),
    {
        let mut r: Vec<MorphismId> = Vec::new();
        let mut i: usize = 0;
        while i < self.morphisms.len()
            invariant
                0 <= i <= self.morphisms@.len(),
                self@.morphisms == self.morphisms@,
                r@ == outgoing_ids(self@.morphisms.subrange(0, i as int), source),
            decreases self.morphisms.len() - i,
        {
            proof {
                assert(self@.morphisms.subrange(0, i + 1).drop_last() =~= self@.morphisms.subrange(
                    0,
                    i as int,
                ));
            }
            if self.morphisms[i].source == source {
                r.push(self.morphisms[i].id);
            }
            i += 1;
        }
        proof {
            assert(self@.morphisms.subrange(0, i as int) =~= self@.morphisms);
        }
        r
    }

    /// The ids of the morphisms that arrive at `target`, in order of insertion.
    pub fn incoming_morphisms(&self, target: ObjectId) -> (r: Vec<MorphismId>)
        ensures
            r@ == incoming_ids(self@.morphisms, target),
    {
        let mut r: Vec<MorphismId> = Vec::new();
        let mut i: usize = 0;
        while i < self.morphisms.len()
            invariant
                0 <= i <= self.morphisms@.len(),
                self@.morphisms == self.morphisms@,
                r@ == incoming_ids(self@.morphisms.subrange(0, i as int), target),
            decreases self.morphisms.len() - i,
        {
            proof {
                assert(self@.morphisms.subrange(0, i + 1).drop_last() =~= self@.morphisms.subrange(
                    0,
                    i as int,
                ));
            }
            if self.morphisms[i].target == target {
                r.push(self.morphisms[i].id);
            }
            i += 1;
        }
        proof {
            assert(self@.morphisms.subrange(0, i as int) =~= self@.morphisms);
        }
        r
    }
}

} // verus!

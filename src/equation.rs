//! Paths through a graph and equations between them (business rules).

use vstd::prelude::*;
use crate::graph::{MorphismId, ObjectId};

verus! {

/// A path through the graph: a source, a sequence of morphisms to follow, and
/// the object where the path claims to end.
#[derive(Debug, Clone)]
pub struct Path {
    pub source: ObjectId,
    pub morphisms: Vec<MorphismId>,
    pub target: ObjectId,
}

impl Path {
    /// A path from `source` to `target` along `morphisms`.
    pub fn new(source: ObjectId, target: ObjectId, morphisms: Vec<MorphismId>) -> (p: Self)
        ensures
            p.source == source,
            p.target == target,
            p.morphisms@ == morphisms@,
    {
        Path { source, morphisms, target }
    }

    /// The identity path on `object`: no morphisms, and it ends where it starts.
    pub fn identity(object: ObjectId) -> (p: Self)
        ensures
            p.source == object,
            p.target == object,
            p.morphisms@.len() == 0,
    {
        Path { source: object, morphisms: Vec::new(), target: object }
    }

    /// No morphisms, and the same source and target.
    pub open spec fn spec_is_identity(&self) -> bool {
        self.morphisms@.len() == 0 && self.source == self.target
    }

    /// Whether this is an identity path.
    #[verifier::when_used_as_spec(spec_is_identity)]
    pub fn is_identity(&self) -> (r: bool)
        ensures
            r == self.spec_is_identity(),
    {
        self.morphisms.len() == 0 && self.source == self.target
    }

    /// The number of morphisms.
    pub fn len(&self) -> (r: usize)
        ensures
            r == self.morphisms@.len(),
    {
        self.morphisms.len()
    }

    /// Whether the path has no morphisms.
    pub fn is_empty(&self) -> (r: bool)
        ensures
            r == (self.morphisms@.len() == 0),
    {
        self.morphisms.len() == 0
    }
}

/// An equation asserting that two paths denote the same business value.
#[derive(Debug, Clone)]
pub struct PathEquation {
    pub name: String,
    pub lhs: Path,
    pub rhs: Path,
}

impl PathEquation {
    /// An equation named `name` between `lhs` and `rhs`.
    pub fn new(name: &str, lhs: Path, rhs: Path) -> (e: Self)
        ensures
            e.name@ == name@,
            e.lhs == lhs,
            e.rhs == rhs,
    {
        PathEquation { name: String::from_str(name), lhs, rhs }
    }

    /// Both sides share their source and their target.
    pub open spec fn spec_is_well_formed(&self) -> bool {
        self.lhs.source == self.rhs.source && self.lhs.target == self.rhs.target
    }

    /// Whether both sides share their source and their target.
    pub fn is_well_formed(&self) -> (r: bool)
        ensures
            r == self.spec_is_well_formed(),
    {
        self.lhs.source == self.rhs.source && self.lhs.target == self.rhs.target
    }
}

} // verus!

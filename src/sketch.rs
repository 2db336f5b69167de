//! A sketch: one graph together with path equations, limits and colimits.

use vstd::prelude::*;
use crate::colimit::ColimitCocone;
use crate::equation::PathEquation;
use crate::graph::{Graph, MorphismId, ObjectId};
use crate::limit::LimitCone;

verus! {

/// The categorical specification of one model. The containers only grow, and
/// nothing is checked or deduplicated on the way in: that is the validator's
/// job.
#[derive(Debug)]
pub struct Sketch {
    pub name: String,
    pub graph: Graph,
    pub equations: Vec<PathEquation>,
    pub limits: Vec<LimitCone>,
    pub colimits: Vec<ColimitCocone>,
}

impl Sketch {
    /// An empty sketch.
    pub fn new(name: &str) -> (s: Self)
        ensures
            s.name@ == name@,
            s.graph@.objects.len() == 0,
            s.graph@.morphisms.len() == 0,
            s.graph@.wf(),
            s.equations@.len() == 0,
            s.limits@.len() == 0,
            s.colimits@.len() == 0,
    {
        Sketch {
            name: String::from_str(name),
            graph: Graph::new(),
            equations: Vec::new(),
            limits: Vec::new(),
            colimits: Vec::new(),
        }
    }

    /// Add an object to the graph.
    pub fn add_object(&mut self, name: &str) -> (id: ObjectId)
        requires
            old(self).graph@.objects.len() < u32::MAX,
        ensures
            id.0 == old(self).graph@.objects.len(),
            final(self).graph@.objects.len() == old(self).graph@.objects.len() + 1,
            final(self).graph@.objects.drop_last() == old(self).graph@.objects,
            final(self).graph@.objects.last().id == id,
            final(self).graph@.objects.last().name@ == name@,
            final(self).graph@.objects.last().description is None,
            final(self).graph@.morphisms == old(self).graph@.morphisms,
            old(self).graph@.wf() ==> final(self).graph@.wf(),
            final(self).name == old(self).name,
            final(self).equations == old(self).equations,
            final(self).limits == old(self).limits,
            final(self).colimits == old(self).colimits,
    {
        self.graph.add_object(name)
    }

    /// Add a morphism to the graph.
    pub fn add_morphism(&mut self, name: &str, source: ObjectId, target: ObjectId) -> (id:
        MorphismId)
        requires
            old(self).graph@.morphisms.len() < u32::MAX,
        ensures
            id.0 == old(self).graph@.morphisms.len(),
            final(self).graph@.morphisms.len() == old(self).graph@.morphisms.len() + 1,
            final(self).graph@.morphisms.drop_last() == old(self).graph@.morphisms,
            final(self).graph@.morphisms.last().id == id,
            final(self).graph@.morphisms.last().name@ == name@,
            final(self).graph@.morphisms.last().source == source,
            final(self).graph@.morphisms.last().target == target,
            final(self).graph@.morphisms.last().description is None,
            !final(self).graph@.morphisms.last().is_identity,
            final(self).graph@.objects == old(self).graph@.objects,
            old(self).graph@.wf() ==> final(self).graph@.wf(),
            final(self).name == old(self).name,
            final(self).equations == old(self).equations,
            final(self).limits == old(self).limits,
            final(self).colimits == old(self).colimits,
    {
        self.graph.add_morphism(name, source, target)
    }

    /// Append a path equation.
    pub fn add_equation(&mut self, equation: PathEquation)
        ensures
            final(self).equations@ == old(self).equations@.push(equation),
            final(self).name == old(self).name,
            final(self).graph == old(self).graph,
            final(self).limits == old(self).limits,
            final(self).colimits == old(self).colimits,
    {
        self.equations.push(equation);
    }

    /// Append a limit cone.
    pub fn add_limit(&mut self, limit: LimitCone)
        ensures
            final(self).limits@ == old(self).limits@.push(limit),
            final(self).name == old(self).name,
            final(self).graph == old(self).graph,
            final(self).equations == old(self).equations,
            final(self).colimits == old(self).colimits,
    {
        self.limits.push(limit);
    }

    /// Append a colimit cocone.
    pub fn add_colimit(&mut self, colimit: ColimitCocone)
        ensures
            final(self).colimits@ == old(self).colimits@.push(colimit),
            final(self).name == old(self).name,
            final(self).graph == old(self).graph,
            final(self).equations == old(self).equations,
            final(self).limits == old(self).limits,
    {
        self.colimits.push(colimit);
    }
}

} // verus!

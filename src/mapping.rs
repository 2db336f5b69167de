//! Context maps between bounded contexts, and the check that a map's
//! morphism mappings behave as a functor on the two underlying graphs.

use vstd::prelude::*;
use crate::graph::{Graph, GraphView, MorphismId, ObjectId};
use crate::text::{morphism_id_seq, morphism_id_text, object_id_seq, object_id_text};

verus! {

/// The strategic relationship between two bounded contexts.
#[derive(Debug, Clone, Copy, PartialEq, Eq, Structural)]
pub enum RelationshipPattern {
    Partnership,
    CustomerSupplier,
    Conformist,
    AntiCorruptionLayer,
    SeparateWays,
    PublishedLanguage,
    OpenHostService,
    SharedKernel,
}

/// A source object mapped to a target object.
#[derive(Debug, Clone)]
pub struct ObjectMapping {
    pub source: ObjectId,
    pub target: ObjectId,
    pub description: Option<String>,
}

/// A source morphism mapped to a target morphism.
#[derive(Debug, Clone)]
pub struct MorphismMapping {
    pub source: MorphismId,
    pub target: MorphismId,
    pub description: Option<String>,
}

/// A map from one bounded context to another, by ids.
#[derive(Debug)]
pub struct ContextMap {
    pub name: String,
    pub source_context: String,
    pub target_context: String,
    pub pattern: RelationshipPattern,
    pub object_mappings: Vec<ObjectMapping>,
    pub morphism_mappings: Vec<MorphismMapping>,
}

/// The target of the first mapping of `source`, if any; later mappings of the
/// same source are shadowed.
pub open spec fn object_image(ms: Seq<ObjectMapping>, source: ObjectId) -> Option<ObjectId> {
    if exists|i: int| 0 <= i < ms.len() && (#[trigger] ms[i]).source == source {
        let i = choose|i: int|
            0 <= i < ms.len() && (#[trigger] ms[i]).source == source && forall|j: int|
                0 <= j < i ==> (#[trigger] ms[j]).source != source;
        Some(ms[i].target)
    } else {
        None
    }
}

/// The target of the first mapping of `source`, if any.
pub open spec fn morphism_image(ms: Seq<MorphismMapping>, source: MorphismId) -> Option<
    MorphismId,
> {
    if exists|i: int| 0 <= i < ms.len() && (#[trigger] ms[i]).source == source {
        let i = choose|i: int|
            0 <= i < ms.len() && (#[trigger] ms[i]).source == source && forall|j: int|
                0 <= j < i ==> (#[trigger] ms[j]).source != source;
        Some(ms[i].target)
    } else {
        None
    }
}

pub open spec fn is_upstream_pattern(p: RelationshipPattern) -> bool {
    p == RelationshipPattern::CustomerSupplier || p == RelationshipPattern::Conformist || p
        == RelationshipPattern::AntiCorruptionLayer || p == RelationshipPattern::OpenHostService
}

pub open spec fn is_symmetric_pattern(p: RelationshipPattern) -> bool {
    p == RelationshipPattern::Partnership || p == RelationshipPattern::SharedKernel
}

/// How information flows under each pattern.
pub open spec fn directionality_of(p: RelationshipPattern) -> Seq<char> {
    match p {
        RelationshipPattern::Partnership => "bidirectional"@,
        RelationshipPattern::CustomerSupplier => "upstream → downstream"@,
        RelationshipPattern::Conformist => "upstream → downstream"@,
        RelationshipPattern::AntiCorruptionLayer => "upstream → downstream (translated)"@,
        RelationshipPattern::SeparateWays => "none"@,
        RelationshipPattern::PublishedLanguage => "upstream → downstream (via shared language)"@,
        RelationshipPattern::OpenHostService => "upstream → downstream (via services)"@,
        RelationshipPattern::SharedKernel => "bidirectional (shared)"@,
    }
}

impl ContextMap {
    /// A map with no mappings yet.
    pub fn new(name: &str, source: &str, target: &str, pattern: RelationshipPattern) -> (m: Self)
        ensures
            m.name@ == name@,
            m.source_context@ == source@,
            m.target_context@ == target@,
            m.pattern == pattern,
            m.object_mappings@.len() == 0,
            m.morphism_mappings@.len() == 0,
    {
        ContextMap {
            name: String::from_str(name),
            source_context: String::from_str(source),
            target_context: String::from_str(target),
            pattern,
            object_mappings: Vec::new(),
            morphism_mappings: Vec::new(),
        }
    }

    /// Append an object mapping.
    pub fn map_object(&mut self, source: ObjectId, target: ObjectId)
        ensures
            final(self).object_mappings@ == old(self).object_mappings@.push(
                ObjectMapping { source, target, description: None },
            ),
            final(self).morphism_mappings == old(self).morphism_mappings,
            final(self).name == old(self).name,
            final(self).source_context == old(self).source_context,
            final(self).target_context == old(self).target_context,
            final(self).pattern == old(self).pattern,
    {
        self.object_mappings.push(ObjectMapping { source, target, description: None });
    }

    /// Append an object mapping with a description.
    pub fn map_object_with_description(&mut self, source: ObjectId, target: ObjectId, description: &str)
        ensures
            final(self).object_mappings@.len() == old(self).object_mappings@.len() + 1,
            final(self).object_mappings@.drop_last() == old(self).object_mappings@,
            final(self).object_mappings@.last().source == source,
            final(self).object_mappings@.last().target == target,
            final(self).object_mappings@.last().description matches Some(d) && d@ == description@,
            final(self).morphism_mappings == old(self).morphism_mappings,
            final(self).name == old(self).name,
            final(self).source_context == old(self).source_context,
            final(self).target_context == old(self).target_context,
            final(self).pattern == old(self).pattern,
    {
        self.object_mappings.push(
            ObjectMapping { source, target, description: Some(String::from_str(description)) },
        );
        proof {
            assert(self.object_mappings@.drop_last() =~= old(self).object_mappings@);
        }
    }

    /// The source context is upstream: customer-supplier, conformist,
    /// anti-corruption layer and open host service.
    pub fn source_is_upstream(&self) -> (r: bool)
        ensures
            r == is_upstream_pattern(self.pattern),
    {
        match self.pattern {
            RelationshipPattern::CustomerSupplier | RelationshipPattern::Conformist
            | RelationshipPattern::AntiCorruptionLayer | RelationshipPattern::OpenHostService => true,
            _ => false,
        }
    }

    /// Both sides are equals: partnership and shared kernel.
    pub fn is_symmetric(&self) -> (r: bool)
        ensures
            r == is_symmetric_pattern(self.pattern),
    {
        match self.pattern {
            RelationshipPattern::Partnership | RelationshipPattern::SharedKernel => true,
            _ => false,
        }
    }

    /// Append a morphism mapping.
    pub fn map_morphism(&mut self, source: MorphismId, target: MorphismId)
        ensures
            final(self).morphism_mappings@ == old(self).morphism_mappings@.push(
                MorphismMapping { source, target, description: None },
            ),
            final(self).object_mappings == old(self).object_mappings,
            final(self).name == old(self).name,
            final(self).source_context == old(self).source_context,
            final(self).target_context == old(self).target_context,
            final(self).pattern == old(self).pattern,
    {
        self.morphism_mappings.push(MorphismMapping { source, target, description: None });
    }

    /// Append a morphism mapping with a description.
    pub fn map_morphism_with_description(
        &mut self,
        source: MorphismId,
        target: MorphismId,
        description: &str,
    )
        ensures
            final(self).morphism_mappings@.len() == old(self).morphism_mappings@.len() + 1,
            final(self).morphism_mappings@.drop_last() == old(self).morphism_mappings@,
            final(self).morphism_mappings@.last().source == source,
            final(self).morphism_mappings@.last().target == target,
            final(self).morphism_mappings@.last().description matches Some(d) && d@ == description@,
            final(self).object_mappings == old(self).object_mappings,
            final(self).name == old(self).name,
            final(self).source_context == old(self).source_context,
            final(self).target_context == old(self).target_context,
            final(self).pattern == old(self).pattern,
    {
        self.morphism_mappings.push(
            MorphismMapping { source, target, description: Some(String::from_str(description)) },
        );
        proof {
            assert(self.morphism_mappings@.drop_last() =~= old(self).morphism_mappings@);
        }
    }

    /// The image of `source` under the first mapping of it.
    pub fn get_object_mapping(&self, source: ObjectId) -> (r: Option<ObjectId>)
        ensures
            r == object_image(self.object_mappings@, source),
    {
        let ms = &self.object_mappings;
        let mut i: usize = 0;
        while i < ms.len()
            invariant
                0 <= i <= ms@.len(),
                ms@ == self.object_mappings@,
                forall|j: int| 0 <= j < i ==> (#[trigger] ms@[j]).source != source,
            decreases ms.len() - i,
        {
            if ms[i].source == source {
                proof {
                    let k = choose|k: int|
                        0 <= k < ms@.len() && (#[trigger] ms@[k]).source == source && forall|j: int|
                            0 <= j < k ==> (#[trigger] ms@[j]).source != source;
                    assert(k == i) by {
                        if k < i {
                            assert(ms@[k].source != source);
                        }
                        if k > i {
                            assert(ms@[i as int].source == source);
                        }
                    }
                }
                return Some(ms[i].target);
            }
            i += 1;
        }
        None
    }

    /// The image of `source` under the first mapping of it.
    pub fn get_morphism_mapping(&self, source: MorphismId) -> (r: Option<MorphismId>)
        ensures
            r == morphism_image(self.morphism_mappings@, source),
    {
        let ms = &self.morphism_mappings;
        let mut i: usize = 0;
        while i < ms.len()
            invariant
                0 <= i <= ms@.len(),
                ms@ == self.morphism_mappings@,
                forall|j: int| 0 <= j < i ==> (#[trigger] ms@[j]).source != source,
            decreases ms.len() - i,
        {
            if ms[i].source == source {
                proof {
                    let k = choose|k: int|
                        0 <= k < ms@.len() && (#[trigger] ms@[k]).source == source && forall|j: int|
                            0 <= j < k ==> (#[trigger] ms@[j]).source != source;
                    assert(k == i) by {
                        if k < i {
                            assert(ms@[k].source != source);
                        }
                        if k > i {
                            assert(ms@[i as int].source == source);
                        }
                    }
                }
                return Some(ms[i].target);
            }
            i += 1;
        }
        None
    }

    /// Only the anti-corruption layer translates.
    pub fn requires_translation(&self) -> (r: bool)
        ensures
            r == (self.pattern == RelationshipPattern::AntiCorruptionLayer),
    {
        match self.pattern {
            RelationshipPattern::AntiCorruptionLayer => true,
            _ => false,
        }
    }

    /// Every pattern but separate ways integrates the two contexts.
    pub fn has_integration(&self) -> (r: bool)
        ensures
            r == (self.pattern != RelationshipPattern::SeparateWays),
    {
        match self.pattern {
            RelationshipPattern::SeparateWays => false,
            _ => true,
        }
    }

    /// How information flows under the map's pattern.
    pub fn directionality(&self) -> (r: &'static str)
        ensures
            r@ == directionality_of(self.pattern),
    {
        match self.pattern {
            RelationshipPattern::Partnership => "bidirectional",
            RelationshipPattern::CustomerSupplier => "upstream → downstream",
            RelationshipPattern::Conformist => "upstream → downstream",
            RelationshipPattern::AntiCorruptionLayer => "upstream → downstream (translated)",
            RelationshipPattern::SeparateWays => "none",
            RelationshipPattern::PublishedLanguage => "upstream → downstream (via shared language)",
            RelationshipPattern::OpenHostService => "upstream → downstream (via services)",
            RelationshipPattern::SharedKernel => "bidirectional (shared)",
        }
    }
}

/// A way in which a morphism mapping fails to be a functor.
#[derive(Debug, Clone, Copy, PartialEq, Eq, Structural)]
pub enum FunctorError {
    /// The mapped morphism's source object has no image.
    UnmappedSource { morphism: MorphismId, source_object: ObjectId },
    /// The mapped morphism's target object has no image.
    UnmappedTarget { morphism: MorphismId, target_object: ObjectId },
    /// The image morphism does not start at the image of the source object.
    InconsistentSource {
        source_morphism: MorphismId,
        expected_target_source: ObjectId,
        actual_target_source: ObjectId,
    },
    /// The image morphism does not end at the image of the target object.
    InconsistentTarget {
        source_morphism: MorphismId,
        expected_target_target: ObjectId,
        actual_target_target: ObjectId,
    },
    /// An identity morphism is mapped to a morphism that is not one.
    IdentityNotPreserved { source_identity: MorphismId, target_morphism: MorphismId },
}

/// The human-readable description of a functor error.
pub open spec fn functor_error_text(e: FunctorError) -> Seq<char> {
    match e {
        FunctorError::UnmappedSource { morphism, source_object } => "Morphism "@ + morphism_id_seq(
            morphism,
        ) + " has source object "@ + object_id_seq(source_object) + " which is not mapped"@,
        FunctorError::UnmappedTarget { morphism, target_object } => "Morphism "@ + morphism_id_seq(
            morphism,
        ) + " has target object "@ + object_id_seq(target_object) + " which is not mapped"@,
        FunctorError::InconsistentSource {
            source_morphism,
            expected_target_source,
            actual_target_source,
        } => "Mapped morphism for "@ + morphism_id_seq(source_morphism) + " has source "@
            + object_id_seq(actual_target_source) + " but expected "@ + object_id_seq(
            expected_target_source,
        ),
        FunctorError::InconsistentTarget {
            source_morphism,
            expected_target_target,
            actual_target_target,
        } => "Mapped morphism for "@ + morphism_id_seq(source_morphism) + " has target "@
            + object_id_seq(actual_target_target) + " but expected "@ + object_id_seq(
            expected_target_target,
        ),
        FunctorError::IdentityNotPreserved { source_identity, target_morphism } =>
            "Identity morphism "@ + morphism_id_seq(source_identity) + " is mapped to non-identity "@
            + morphism_id_seq(target_morphism),
    }
}

impl FunctorError {
    /// A description of the error for people.
    pub fn message(&self) -> (r: String)
        ensures
            r@ == functor_error_text(*self),
    {
        match *self {
            FunctorError::UnmappedSource { morphism, source_object } => String::from_str(
                "Morphism ",
            ).concat(morphism_id_text(morphism).as_str()).concat(" has source object ").concat(
                object_id_text(source_object).as_str(),
            ).concat(" which is not mapped"),
            FunctorError::UnmappedTarget { morphism, target_object } => String::from_str(
                "Morphism ",
            ).concat(morphism_id_text(morphism).as_str()).concat(" has target object ").concat(
                object_id_text(target_object).as_str(),
            ).concat(" which is not mapped"),
            FunctorError::InconsistentSource {
                source_morphism,
                expected_target_source,
                actual_target_source,
            } => String::from_str("Mapped morphism for ").concat(
                morphism_id_text(source_morphism).as_str(),
            ).concat(" has source ").concat(object_id_text(actual_target_source).as_str()).concat(
                " but expected ",
            ).concat(object_id_text(expected_target_source).as_str()),
            FunctorError::InconsistentTarget {
                source_morphism,
                expected_target_target,
                actual_target_target,
            } => String::from_str("Mapped morphism for ").concat(
                morphism_id_text(source_morphism).as_str(),
            ).concat(" has target ").concat(object_id_text(actual_target_target).as_str()).concat(
                " but expected ",
            ).concat(object_id_text(expected_target_target).as_str()),
            FunctorError::IdentityNotPreserved { source_identity, target_morphism } =>
                String::from_str("Identity morphism ").concat(
                morphism_id_text(source_identity).as_str(),
            ).concat(" is mapped to non-identity ").concat(
                morphism_id_text(target_morphism).as_str(),
            ),
        }
    }
}

/// The outcome of a functor check.
#[derive(Debug, Clone)]
pub struct FunctorCheckResult {
    pub is_valid: bool,
    pub errors: Vec<FunctorError>,
}

impl FunctorCheckResult {
    /// A valid outcome.
    pub fn valid() -> (r: Self)
        ensures
            r.is_valid,
            r.errors@.len() == 0,
    {
        FunctorCheckResult { is_valid: true, errors: Vec::new() }
    }

    /// An invalid outcome with these errors.
    pub fn invalid(errors: Vec<FunctorError>) -> (r: Self)
        ensures
            !r.is_valid,
            r.errors@ == errors@,
    {
        FunctorCheckResult { is_valid: false, errors }
    }
}

/// One error when `b` holds, none otherwise.
pub open spec fn when_error(b: bool, e: FunctorError) -> Seq<FunctorError> {
    if b {
        seq![e]
    } else {
        Seq::empty()
    }
}

/// The errors of one morphism mapping, in the order they are reported. A
/// mapping whose source or target morphism does not exist is skipped.
pub open spec fn mapping_errors(
    objects: Seq<ObjectMapping>,
    mm: MorphismMapping,
    source: GraphView,
    target: GraphView,
) -> Seq<FunctorError> {
    if !source.has_morphism(mm.source) || !target.has_morphism(mm.target) {
        Seq::empty()
    } else {
        let f = source.morphism(mm.source);
        let ff = target.morphism(mm.target);
        let image_a = object_image(objects, f.source);
        let image_b = object_image(objects, f.target);
        when_error(
            image_a is None,
            FunctorError::UnmappedSource { morphism: mm.source, source_object: f.source },
        ) + when_error(
            image_b is None,
            FunctorError::UnmappedTarget { morphism: mm.source, target_object: f.target },
        ) + when_error(
            image_a is Some && ff.source != image_a->0,
            FunctorError::InconsistentSource {
                source_morphism: mm.source,
                expected_target_source: image_a->0,
                actual_target_source: ff.source,
            },
        ) + when_error(
            image_b is Some && ff.target != image_b->0,
            FunctorError::InconsistentTarget {
                source_morphism: mm.source,
                expected_target_target: image_b->0,
                actual_target_target: ff.target,
            },
        ) + when_error(
            f.is_identity && !ff.is_identity,
            FunctorError::IdentityNotPreserved {
                source_identity: mm.source,
                target_morphism: mm.target,
            },
        )
    }
}

/// The errors of each morphism mapping in turn.
pub open spec fn functor_errors(
    objects: Seq<ObjectMapping>,
    mms: Seq<MorphismMapping>,
    source: GraphView,
    target: GraphView,
) -> Seq<FunctorError>
    decreases mms.len(),
{
    if mms.len() == 0 {
        Seq::empty()
    } else {
        functor_errors(objects, mms.drop_last(), source, target) + mapping_errors(
            objects,
            mms.last(),
            source,
            target,
        )
    }
}

fn check_mapping(
    context_map: &ContextMap,
    mapping: &MorphismMapping,
    source_graph: &Graph,
    target_graph: &Graph,
) -> (r: Vec<FunctorError>)
    ensures
        r@ == mapping_errors(
            context_map.object_mappings@,
            *mapping,
            source_graph@,
            target_graph@,
        ),
{
    let ghost objects = context_map.object_mappings@;
    let mut errors: Vec<FunctorError> = Vec::new();
    let found_source = source_graph.get_morphism(mapping.source);
    let found_target = target_graph.get_morphism(mapping.target);
    if let (Some(f), Some(ff)) = (found_source, found_target) {
        let image_a = context_map.get_object_mapping(f.source);
        let image_b = context_map.get_object_mapping(f.target);
        let ghost e0 = errors@;
        if image_a.is_none() {
            errors.push(
                FunctorError::UnmappedSource { morphism: mapping.source, source_object: f.source },
            );
        }
        let ghost e1 = errors@;
        if image_b.is_none() {
            errors.push(
                FunctorError::UnmappedTarget { morphism: mapping.source, target_object: f.target },
            );
        }
        let ghost e2 = errors@;
        if let Some(expected) = image_a {
            if ff.source != expected {
                errors.push(
                    FunctorError::InconsistentSource {
                        source_morphism: mapping.source,
                        expected_target_source: expected,
                        actual_target_source: ff.source,
                    },
                );
            }
        }
        let ghost e3 = errors@;
        if let Some(expected) = image_b {
            if ff.target != expected {
                errors.push(
                    FunctorError::InconsistentTarget {
                        source_morphism: mapping.source,
                        expected_target_target: expected,
                        actual_target_target: ff.target,
                    },
                );
            }
        }
        let ghost e4 = errors@;
        if f.is_identity && !ff.is_identity {
            errors.push(
                FunctorError::IdentityNotPreserved {
                    source_identity: mapping.source,
                    target_morphism: mapping.target,
                },
            );
        }
        proof {
            let ia = object_image(objects, f.source);
            let ib = object_image(objects, f.target);
            assert(e1 =~= e0 + when_error(
                ia is None,
                FunctorError::UnmappedSource { morphism: mapping.source, source_object: f.source },
            ));
            assert(e2 =~= e1 + when_error(
                ib is None,
                FunctorError::UnmappedTarget { morphism: mapping.source, target_object: f.target },
            ));
            assert(e3 =~= e2 + when_error(
                ia is Some && ff.source != ia->0,
                FunctorError::InconsistentSource {
                    source_morphism: mapping.source,
                    expected_target_source: ia->0,
                    actual_target_source: ff.source,
                },
            ));
            assert(e4 =~= e3 + when_error(
                ib is Some && ff.target != ib->0,
                FunctorError::InconsistentTarget {
                    source_morphism: mapping.source,
                    expected_target_target: ib->0,
                    actual_target_target: ff.target,
                },
            ));
            assert(errors@ =~= mapping_errors(objects, *mapping, source_graph@, target_graph@));
        }
    } else {
        proof {
            assert(errors@ =~= mapping_errors(objects, *mapping, source_graph@, target_graph@));
        }
    }
    errors
}

/// A map without morphism mappings is a functor between any two graphs: the
/// check reports nothing, so its outcome is valid.
pub proof fn lemma_no_mappings_is_valid(objects: Seq<ObjectMapping>, source: GraphView, target: GraphView)
    ensures
        functor_errors(objects, Seq::empty(), source, target).len() == 0,
{
}

/// When `f: A -> B` is mapped to `Ff: FC -> FB`, `A` to `FA` and `B` to `FB`,
/// and `FC` is not `FA`, the check reports that `Ff` starts at the wrong
/// object.
pub proof fn lemma_wrong_source_is_reported(
    source: GraphView,
    target: GraphView,
    f: MorphismId,
    ff: MorphismId,
    fa: ObjectId,
    fb: ObjectId,
    objects: Seq<ObjectMapping>,
    morphisms: Seq<MorphismMapping>,
)
    requires
        source.has_morphism(f),
        target.has_morphism(ff),
        target.morphism(ff).source != fa,
        target.morphism(ff).target == fb,
        objects.len() == 2,
        objects[0].source == source.morphism(f).source,
        objects[0].target == fa,
        objects[1].source == source.morphism(f).target,
        objects[1].target == fb,
        morphisms.len() == 1,
        morphisms[0].source == f,
        morphisms[0].target == ff,
    ensures
        functor_errors(objects, morphisms, source, target).contains(
            FunctorError::InconsistentSource {
                source_morphism: f,
                expected_target_source: fa,
                actual_target_source: target.morphism(ff).source,
            },
        ),
{
    let a = source.morphism(f).source;
    let b = source.morphism(f).target;
    assert(objects[0].source == a);
    let ia = object_image(objects, a);
    assert(ia == Some(fa)) by {
        let i = choose|i: int|
            0 <= i < objects.len() && (#[trigger] objects[i]).source == a && forall|j: int|
                0 <= j < i ==> (#[trigger] objects[j]).source != a;
        assert(i == 0);
    }
    assert(object_image(objects, b) is Some) by {
        assert(objects[1].source == b);
    }
    assert(morphisms.drop_last() =~= Seq::<MorphismMapping>::empty());
    assert(morphisms.last() == morphisms[0]);
    let errs = functor_errors(objects, morphisms, source, target);
    let e = FunctorError::InconsistentSource {
        source_morphism: f,
        expected_target_source: fa,
        actual_target_source: target.morphism(ff).source,
    };
    let ms = mapping_errors(objects, morphisms[0], source, target);
    assert(functor_errors(objects, morphisms.drop_last(), source, target) =~= Seq::<
        FunctorError,
    >::empty());
    assert(errs == functor_errors(objects, morphisms.drop_last(), source, target) + ms);
    assert(errs =~= ms);
    assert(ms.contains(e)) by {
        let first = when_error(
            ia is None,
            FunctorError::UnmappedSource { morphism: f, source_object: a },
        ) + when_error(
            object_image(objects, b) is None,
            FunctorError::UnmappedTarget { morphism: f, target_object: b },
        );
        assert(first.len() == 0);
        assert(ms[0] == e);
    }
}

/// Check that the map acts as a functor on the mapped morphisms: the
/// endpoints of each mapped morphism are mapped, the image morphism joins
/// their images, and identities go to identities. Composition is not checked,
/// since composite morphisms are never materialised.
pub fn check_functorial_consistency(
    context_map: &ContextMap,
    source_graph: &Graph,
    target_graph: &Graph,
) -> (r: FunctorCheckResult)
    ensures
        r.errors@ == functor_errors(
            context_map.object_mappings@,
            context_map.morphism_mappings@,
            source_graph@,
            target_graph@,
        ),
        r.is_valid == (r.errors@.len() == 0),
{
    let ghost objects = context_map.object_mappings@;
    let mms = &context_map.morphism_mappings;
    let mut errors: Vec<FunctorError> = Vec::new();
    let mut i: usize = 0;
    while i < mms.len()
        invariant
            0 <= i <= mms@.len(),
            mms == &context_map.morphism_mappings,
            objects == context_map.object_mappings@,
            errors@ == functor_errors(
                objects,
                mms@.subrange(0, i as int),
                source_graph@,
                target_graph@,
            ),
        decreases mms.len() - i,
    {
        proof {
            assert(mms@.subrange(0, i + 1).drop_last() =~= mms@.subrange(0, i as int));
        }
        let mut found = check_mapping(context_map, &mms[i], source_graph, target_graph);
        errors.append(&mut found);
        i += 1;
    }
    proof {
        assert(mms@.subrange(0, i as int) =~= mms@);
    }
    if errors.len() == 0 {
        FunctorCheckResult::valid()
    } else {
        FunctorCheckResult::invalid(errors)
    }
}

/// An object mapping by names, as written in a model's source.
#[derive(Debug, Clone)]
pub struct NamedObjectMapping {
    pub source: String,
    pub target: String,
    pub description: Option<String>,
}

/// A morphism mapping by names, as written in a model's source.
#[derive(Debug, Clone)]
pub struct NamedMorphismMapping {
    pub source: String,
    pub target: String,
    pub description: Option<String>,
}

/// A context map whose contexts, objects and morphisms are referred to by
/// name; the validator resolves the names.
#[derive(Debug)]
pub struct NamedContextMap {
    name: String,
    source_context: String,
    target_context: String,
    pattern: RelationshipPattern,
    object_mappings: Vec<NamedObjectMapping>,
    morphism_mappings: Vec<NamedMorphismMapping>,
}

/// The content of a named context map.
pub struct NamedContextMapView {
    pub name: Seq<char>,
    pub source_context: Seq<char>,
    pub target_context: Seq<char>,
    pub pattern: RelationshipPattern,
    pub object_mappings: Seq<NamedObjectMapping>,
    pub morphism_mappings: Seq<NamedMorphismMapping>,
}

impl View for NamedContextMap {
    type V = NamedContextMapView;

    closed spec fn view(&self) -> NamedContextMapView {
        NamedContextMapView {
            name: self.name@,
            source_context: self.source_context@,
            target_context: self.target_context@,
            pattern: self.pattern,
            object_mappings: self.object_mappings@,
            morphism_mappings: self.morphism_mappings@,
        }
    }
}

impl NamedContextMap {
    /// A named map with no mappings yet.
    pub fn new(name: &str, source: &str, target: &str, pattern: RelationshipPattern) -> (m: Self)
        ensures
            m@.name == name@,
            m@.source_context == source@,
            m@.target_context == target@,
            m@.pattern == pattern,
            m@.object_mappings.len() == 0,
            m@.morphism_mappings.len() == 0,
    {
        NamedContextMap {
            name: String::from_str(name),
            source_context: String::from_str(source),
            target_context: String::from_str(target),
            pattern,
            object_mappings: Vec::new(),
            morphism_mappings: Vec::new(),
        }
    }

    pub fn name(&self) -> (r: &str)
        ensures
            r@ == self@.name,
    {
        self.name.as_str()
    }

    pub fn source_context(&self) -> (r: &str)
        ensures
            r@ == self@.source_context,
    {
        self.source_context.as_str()
    }

    pub fn target_context(&self) -> (r: &str)
        ensures
            r@ == self@.target_context,
    {
        self.target_context.as_str()
    }

    pub fn pattern(&self) -> (r: RelationshipPattern)
        ensures
            r == self@.pattern,
    {
        self.pattern
    }

    /// The object mappings, in order.
    pub fn object_mappings(&self) -> (r: &[NamedObjectMapping])
        ensures
            r@ == self@.object_mappings,
    {
        self.object_mappings.as_slice()
    }

    /// The morphism mappings, in order.
    pub fn morphism_mappings(&self) -> (r: &[NamedMorphismMapping])
        ensures
            r@ == self@.morphism_mappings,
    {
        self.morphism_mappings.as_slice()
    }

    /// Append an object mapping.
    pub fn add_object_mapping(&mut self, mapping: NamedObjectMapping)
        ensures
            final(self)@ == (NamedContextMapView {
                object_mappings: old(self)@.object_mappings.push(mapping),
                ..old(self)@
            }),
    {
        self.object_mappings.push(mapping);
    }

    /// Append a morphism mapping.
    pub fn add_morphism_mapping(&mut self, mapping: NamedMorphismMapping)
        ensures
            final(self)@ == (NamedContextMapView {
                morphism_mappings: old(self)@.morphism_mappings.push(mapping),
                ..old(self)@
            }),
    {
        self.morphism_mappings.push(mapping);
    }
}

} // verus!

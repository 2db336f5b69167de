//! Category-theoretic domain models: graphs of objects and morphisms, sketches
//! with path equations, limits and colimits, bounded contexts over them,
//! context maps between contexts, and a validator that reports every issue.

pub mod colimit;
pub mod context;
pub mod diagnostics;
pub mod equation;
pub mod graph;
pub mod limit;
pub mod mapping;
pub mod sketch;
pub mod text;
pub mod validation;

pub use colimit::{ColimitCocone, Injection};
pub use context::{BoundedContext, BoundedContextView, Invariant};
pub use diagnostics::{
    available_options, closest_within, did_you_mean, group_errors, suggest_similar,
    suggest_similar_with_threshold, DiagnosticRenderer, GroupedErrors, LocatedError, SourceSpan,
};
pub use equation::{Path, PathEquation};
pub use graph::{Graph, GraphView, Morphism, MorphismId, Object, ObjectId};
pub use limit::{LimitCone, Projection};
pub use mapping::{
    check_functorial_consistency, ContextMap, FunctorCheckResult, FunctorError, MorphismMapping,
    NamedContextMap, NamedMorphismMapping, NamedObjectMapping, ObjectMapping, RelationshipPattern,
};
pub use sketch::Sketch;
pub use validation::{
    object_exists, validate_context, validate_context_map, validate_equation, validate_equations,
    validate_model, validate_path, validate_sketch, Severity, SourceLocation, ValidationError,
    ValidationResult,
};

//! Validation of sketches, paths, equations, bounded contexts, context maps and
//! whole models. Every validator is pure and reports every issue it finds,
//! never stopping at the first one.

use vstd::prelude::*;
use crate::context::{BoundedContext, BoundedContextView, defines_value_object, identity_of};
use crate::colimit::Injection;
use crate::equation::{Path, PathEquation};
use crate::limit::{LimitCone, Projection};
use crate::mapping::{NamedContextMap, NamedContextMapView, NamedMorphismMapping, NamedObjectMapping};
use crate::graph::{Graph, GraphView, MorphismId, ObjectId};
use crate::sketch::Sketch;
use crate::text::{concat3, concat5, morphism_id_text, object_id_text};

verus! {

/// Where in a source file an issue was found.
#[derive(Debug, Clone)]
pub struct SourceLocation {
    pub file: Option<String>,
    pub line: Option<u32>,
    pub column: Option<u32>,
}

impl SourceLocation {
    /// A location in `file` at `line` and `column`.
    pub fn new(file: &str, line: u32, column: u32) -> (l: Self)
        ensures
            l.file matches Some(f) && f@ == file@,
            l.line == Some(line),
            l.column == Some(column),
    {
        SourceLocation { file: Some(String::from_str(file)), line: Some(line), column: Some(column) }
    }

    /// The unknown location.
    pub fn unknown() -> (l: Self)
        ensures
            l.file is None,
            l.line is None,
            l.column is None,
    {
        SourceLocation { file: None, line: None, column: None }
    }
}

impl Default for SourceLocation {
    fn default() -> (l: Self)
        ensures
            l.file is None,
            l.line is None,
            l.column is None,
    {
        SourceLocation::unknown()
    }
}

/// How serious an issue is. Only errors make a result fail.
#[derive(Debug, Clone, Copy, PartialEq, Eq, Structural)]
pub enum Severity {
    Error,
    Warning,
    Hint,
}

/// One issue: a stable code such as `E0100`, a message, and its severity.
#[derive(Debug, Clone)]
pub struct ValidationError {
    pub code: String,
    pub message: String,
    pub severity: Severity,
    pub location: SourceLocation,
    /// Advisory text only.
    pub suggestion: Option<String>,
}

/// What the contracts track of an issue: its code and its severity.
pub type IssueKind = (Seq<char>, Severity);

pub open spec fn kind_of(e: ValidationError) -> IssueKind {
    (e.code@, e.severity)
}

pub open spec fn kinds(issues: Seq<ValidationError>) -> Seq<IssueKind> {
    issues.map_values(|e: ValidationError| kind_of(e))
}

/// An error with this code.
pub open spec fn err(code: Seq<char>) -> IssueKind {
    (code, Severity::Error)
}

/// A warning with this code.
pub open spec fn warn(code: Seq<char>) -> IssueKind {
    (code, Severity::Warning)
}

impl ValidationError {
    /// An error with `code` and `message`, no location and no suggestion.
    pub fn error(code: &str, message: &str) -> (e: Self)
        ensures
            e.code@ == code@,
            e.message@ == message@,
            e.severity == Severity::Error,
            e.location.file is None && e.location.line is None && e.location.column is None,
            e.suggestion is None,
    {
        ValidationError {
            code: String::from_str(code),
            message: String::from_str(message),
            severity: Severity::Error,
            location: SourceLocation::unknown(),
            suggestion: None,
        }
    }

    /// A warning with `code` and `message`, no location and no suggestion.
    pub fn warning(code: &str, message: &str) -> (e: Self)
        ensures
            e.code@ == code@,
            e.message@ == message@,
            e.severity == Severity::Warning,
            e.location.file is None && e.location.line is None && e.location.column is None,
            e.suggestion is None,
    {
        ValidationError {
            code: String::from_str(code),
            message: String::from_str(message),
            severity: Severity::Warning,
            location: SourceLocation::unknown(),
            suggestion: None,
        }
    }

    /// The same issue, at `location`.
    pub fn with_location(self, location: SourceLocation) -> (e: Self)
        ensures
            e.code == self.code,
            e.message == self.message,
            e.severity == self.severity,
            e.location == location,
            e.suggestion == self.suggestion,
    {
        ValidationError { location, ..self }
    }

    /// The same issue, with `suggestion` attached.
    pub fn with_suggestion(self, suggestion: &str) -> (e: Self)
        ensures
            e.code == self.code,
            e.message == self.message,
            e.severity == self.severity,
            e.location == self.location,
            e.suggestion matches Some(s) && s@ == suggestion@,
    {
        ValidationError { suggestion: Some(String::from_str(suggestion)), ..self }
    }
}

/// The number of errors among `issues`.
pub open spec fn count_errors(issues: Seq<IssueKind>) -> nat
    decreases issues.len(),
{
    if issues.len() == 0 {
        0
    } else {
        count_errors(issues.drop_last()) + if issues.last().1 == Severity::Error {
            1nat
        } else {
            0nat
        }
    }
}

/// The number of warnings among `issues`.
pub open spec fn count_warnings(issues: Seq<IssueKind>) -> nat
    decreases issues.len(),
{
    if issues.len() == 0 {
        0
    } else {
        count_warnings(issues.drop_last()) + if issues.last().1 == Severity::Warning {
            1nat
        } else {
            0nat
        }
    }
}

/// The issues of `issues` with this severity, in order.
pub open spec fn select(issues: Seq<ValidationError>, severity: Severity) -> Seq<ValidationError>
    decreases issues.len(),
{
    if issues.len() == 0 {
        Seq::empty()
    } else {
        let rest = select(issues.drop_last(), severity);
        if issues.last().severity == severity {
            rest.push(issues.last())
        } else {
            rest
        }
    }
}

/// Every issue found, in the order found.
#[derive(Debug, Clone)]
pub struct ValidationResult {
    pub issues: Vec<ValidationError>,
}

impl ValidationResult {
    /// A result with no issues.
    pub fn new() -> (r: Self)
        ensures
            r.issues@.len() == 0,
    {
        ValidationResult { issues: Vec::new() }
    }

    /// Record one more issue.
    pub fn add(&mut self, error: ValidationError)
        ensures
            final(self).issues@ == old(self).issues@.push(error),
            kinds(final(self).issues@) == kinds(old(self).issues@).push(kind_of(error)),
    {
        self.issues.push(error);
        proof {
            assert(kinds(self.issues@) =~= kinds(old(self).issues@).push(kind_of(error)));
        }
    }

    /// Record every issue of `other`, in order, after the present ones.
    pub fn absorb(&mut self, other: ValidationResult)
        ensures
            final(self).issues@ == old(self).issues@ + other.issues@,
            kinds(final(self).issues@) == kinds(old(self).issues@) + kinds(other.issues@),
    {
        let ghost added = other.issues@;
        let mut other = other;
        self.issues.append(&mut other.issues);
        proof {
            assert(kinds(self.issues@) =~= kinds(old(self).issues@) + kinds(added));
        }
    }

    /// No issue is an error.
    pub fn is_ok(&self) -> (r: bool)
        ensures
            r == (count_errors(kinds(self.issues@)) == 0),
    {
        self.error_count() == 0
    }

    /// At least one issue, of any severity.
    pub fn has_issues(&self) -> (r: bool)
        ensures
            r == (self.issues@.len() > 0),
    {
        self.issues.len() > 0
    }

    /// The errors, in order.
    pub fn errors(&self) -> (r: Vec<&ValidationError>)
        ensures
            r@.map_values(|e: &ValidationError| *e) == select(self.issues@, Severity::Error),
    {
        self.with_severity(Severity::Error)
    }

    /// The warnings, in order.
    pub fn warnings(&self) -> (r: Vec<&ValidationError>)
        ensures
            r@.map_values(|e: &ValidationError| *e) == select(self.issues@, Severity::Warning),
    {
        self.with_severity(Severity::Warning)
    }

    fn with_severity(&self, severity: Severity) -> (r: Vec<&ValidationError>)
        ensures
            r@.map_values(|e: &ValidationError| *e) == select(self.issues@, severity),
    {
        let mut r: Vec<&ValidationError> = Vec::new();
        let mut i: usize = 0;
        while i < self.issues.len()
            invariant
                0 <= i <= self.issues@.len(),
                r@.map_values(|e: &ValidationError| *e) == select(
                    self.issues@.subrange(0, i as int),
                    severity,
                ),
            decreases self.issues.len() - i,
        {
            proof {
                assert(self.issues@.subrange(0, i + 1).drop_last() =~= self.issues@.subrange(
                    0,
                    i as int,
                ));
            }
            if self.issues[i].severity == severity {
                let ghost before = r@;
                r.push(&self.issues[i]);
                proof {
                    assert(r@.map_values(|e: &ValidationError| *e) =~= before.map_values(
                        |e: &ValidationError| *e,
                    ).push(self.issues@[i as int]));
                }
            }
            i += 1;
        }
        proof {
            assert(self.issues@.subrange(0, i as int) =~= self.issues@);
        }
        r
    }

    /// The number of errors.
    pub fn error_count(&self) -> (r: usize)
        ensures
            r == count_errors(kinds(self.issues@)),
    {
        let mut n: usize = 0;
        let mut i: usize = 0;
        while i < self.issues.len()
            invariant
                0 <= i <= self.issues@.len(),
                n == count_errors(kinds(self.issues@.subrange(0, i as int))),
                n <= i,
            decreases self.issues.len() - i,
        {
            proof {
                assert(kinds(self.issues@.subrange(0, i + 1)).drop_last() =~= kinds(
                    self.issues@.subrange(0, i as int),
                ));
            }
            if self.issues[i].severity == Severity::Error {
                n += 1;
            }
            i += 1;
        }
        proof {
            assert(self.issues@.subrange(0, i as int) =~= self.issues@);
        }
        n
    }

    /// The number of warnings.
    pub fn warning_count(&self) -> (r: usize)
        ensures
            r == count_warnings(kinds(self.issues@)),
    {
        let mut n: usize = 0;
        let mut i: usize = 0;
        while i < self.issues.len()
            invariant
                0 <= i <= self.issues@.len(),
                n == count_warnings(kinds(self.issues@.subrange(0, i as int))),
                n <= i,
            decreases self.issues.len() - i,
        {
            proof {
                assert(kinds(self.issues@.subrange(0, i + 1)).drop_last() =~= kinds(
                    self.issues@.subrange(0, i as int),
                ));
            }
            if self.issues[i].severity == Severity::Warning {
                n += 1;
            }
            i += 1;
        }
        proof {
            assert(self.issues@.subrange(0, i as int) =~= self.issues@);
        }
        n
    }
}

// ------------------------------------------------------------------
// Paths
// ------------------------------------------------------------------

/// Walking the morphisms `ms` of a path that starts at `source`: the issues met
/// on the way, and the object reached. A morphism that does not exist is
/// reported and skipped without moving.
pub open spec fn walk(g: GraphView, source: ObjectId, ms: Seq<MorphismId>) -> (Seq<IssueKind>, ObjectId)
    decreases ms.len(),
{
    if ms.len() == 0 {
        (Seq::empty(), source)
    } else {
        let (found, current) = walk(g, source, ms.drop_last());
        let id = ms.last();
        if !g.has_morphism(id) {
            (found.push(err("E0102"@)), current)
        } else {
            let m = g.morphism(id);
            let found2 = if ms.len() == 1 {
                if m.source != source {
                    found.push(err("E0104"@))
                } else {
                    found
                }
            } else if m.source != current {
                found.push(err("E0103"@))
            } else {
                found
            };
            (found2, m.target)
        }
    }
}

/// The issues of a path in a graph, in the order they are reported.
pub open spec fn path_issues(path: Path, g: GraphView) -> Seq<IssueKind> {
    if !g.has_object(path.source) {
        seq![err("E0100"@)]
    } else {
        let on_target = if !g.has_object(path.target) {
            seq![err("E0101"@)]
        } else {
            Seq::empty()
        };
        if path.morphisms@.len() == 0 {
            if path.source != path.target {
                on_target.push(err("E0106"@))
            } else {
                on_target
            }
        } else {
            let (found, reached) = walk(g, path.source, path.morphisms@);
            if reached != path.target {
                (on_target + found).push(err("E0105"@))
            } else {
                on_target + found
            }
        }
    }
}

/// Check that `path` exists in `graph` and composes: its source and target
/// exist (`E0100`, after which nothing else is checked; `E0101`), an empty path
/// ends where it starts (`E0106`), each morphism exists (`E0102`), the first
/// leaves the path's source (`E0104`), each next one leaves where the previous
/// one arrived (`E0103`), and the walk ends at the declared target (`E0105`).
pub fn validate_path(path: &Path, graph: &Graph, path_name: &str) -> (r: ValidationResult)
    ensures
        kinds(r.issues@) == path_issues(*path, graph@),
{
    let mut result = ValidationResult::new();
    proof {
        assert(kinds(result.issues@) =~= Seq::<IssueKind>::empty());
    }
    if graph.get_object(path.source).is_none() {
        result.add(
            ValidationError::error(
                "E0100",
                concat5(
                    "Path '",
                    path_name,
                    "' references non-existent source object (id: ",
                    object_id_text(path.source).as_str(),
                    ")",
                ).as_str(),
            ),
        );
        proof {
            assert(kinds(result.issues@) =~= seq![err("E0100"@)]);
        }
        return result;
    }
    if graph.get_object(path.target).is_none() {
        result.add(
            ValidationError::error(
                "E0101",
                concat5(
                    "Path '",
                    path_name,
                    "' references non-existent target object (id: ",
                    object_id_text(path.target).as_str(),
                    ")",
                ).as_str(),
            ),
        );
        proof {
            assert(kinds(result.issues@) =~= seq![err("E0101"@)]);
        }
    }
    let ghost on_target = kinds(result.issues@);
    if path.morphisms.len() == 0 {
        if path.source != path.target {
            result.add(
                ValidationError::error(
                    "E0106",
                    concat3(
                        "Path '",
                        path_name,
                        "' has no morphisms but source and target differ",
                    ).as_str(),
                ),
            );
        }
        return result;
    }
    let mut current = path.source;
    let mut i: usize = 0;
    while i < path.morphisms.len()
        invariant
            0 <= i <= path.morphisms@.len(),
            path.morphisms@.len() > 0,
            kinds(result.issues@) == on_target + walk(
                graph@,
                path.source,
                path.morphisms@.subrange(0, i as int),
            ).0,
            current == walk(graph@, path.source, path.morphisms@.subrange(0, i as int)).1,
        decreases path.morphisms.len() - i,
    {
        let ghost before = path.morphisms@.subrange(0, i as int);
        proof {
            assert(path.morphisms@.subrange(0, i + 1).drop_last() =~= before);
        }
        let id = path.morphisms[i];
        match graph.get_morphism(id) {
            None => {
                result.add(
                    ValidationError::error(
                        "E0102",
                        concat5(
                            concat3("Path '", path_name, "' references non-existent morphism at position ").as_str(),
                            crate::text::decimal(i as u64).as_str(),
                            " (id: ",
                            morphism_id_text(id).as_str(),
                            ")",
                        ).as_str(),
                    ),
                );
                proof {
                    assert(on_target + walk(graph@, path.source, path.morphisms@.subrange(0, i + 1)).0
                        =~= (on_target + walk(graph@, path.source, before).0).push(err("E0102"@)));
                }
            },
            Some(m) => {
                if i == 0 {
                    if m.source != path.source {
                        result.add(
                            ValidationError::error(
                                "E0104",
                                concat5(
                                    "Path '",
                                    path_name,
                                    "' source (",
                                    object_id_text(path.source).as_str(),
                                    concat3(") doesn't match first morphism '", m.name.as_str(), "' source").as_str(),
                                ).as_str(),
                            ),
                        );
                        proof {
                            assert(on_target + walk(graph@, path.source, path.morphisms@.subrange(0, i + 1)).0
                                =~= (on_target + walk(graph@, path.source, before).0).push(err("E0104"@)));
                        }
                    }
                } else if m.source != current {
                    result.add(
                        ValidationError::error(
                            "E0103",
                            concat5(
                                "Path '",
                                path_name,
                                "' has non-composable morphisms at position ",
                                crate::text::decimal(i as u64).as_str(),
                                concat3(": morphism '", m.name.as_str(), "' does not start where the previous morphism ends").as_str(),
                            ).as_str(),
                        ),
                    );
                    proof {
                        assert(on_target + walk(graph@, path.source, path.morphisms@.subrange(0, i + 1)).0
                            =~= (on_target + walk(graph@, path.source, before).0).push(err("E0103"@)));
                    }
                }
                current = m.target;
            },
        }
        i += 1;
    }
    proof {
        assert(path.morphisms@.subrange(0, i as int) =~= path.morphisms@);
    }
    if current != path.target {
        result.add(
            ValidationError::error(
                "E0105",
                concat5(
                    "Path '",
                    path_name,
                    "' declared target (",
                    object_id_text(path.target).as_str(),
                    concat3(") doesn't match computed target (", object_id_text(current).as_str(), ")").as_str(),
                ).as_str(),
            ),
        );
    }
    result
}


/// Validating the same path against the same graph twice reports the same
/// issues both times: the issues are a function of the path and the graph.
pub proof fn lemma_path_validation_repeatable(
    path: Path,
    g: GraphView,
    first: Seq<IssueKind>,
    second: Seq<IssueKind>,
)
    requires
        first == path_issues(path, g),
        second == path_issues(path, g),
    ensures
        first == second,
{
}

/// A path without morphisms whose endpoints exist is free of issues exactly
/// when it ends where it starts; otherwise its one issue is `E0106`.
pub proof fn lemma_empty_path(path: Path, g: GraphView)
    requires
        path.morphisms@.len() == 0,
        g.has_object(path.source),
        g.has_object(path.target),
    ensures
        (path_issues(path, g).len() == 0) <==> path.source == path.target,
        path.source != path.target ==> path_issues(path, g) == seq![err("E0106"@)],
{
    assert(Seq::<IssueKind>::empty().push(err("E0106"@)) =~= seq![err("E0106"@)]);
}

/// One issue when `b` holds, none otherwise.
pub open spec fn when(b: bool, k: IssueKind) -> Seq<IssueKind> {
    if b {
        seq![k]
    } else {
        Seq::empty()
    }
}

// ------------------------------------------------------------------
// Equations
// ------------------------------------------------------------------

/// The issues of one equation: those of both sides, then mismatched sources
/// and targets, then the warnings for a trivial equation and a long side.
pub open spec fn equation_issues(eq: PathEquation, g: GraphView) -> Seq<IssueKind> {
    path_issues(eq.lhs, g) + path_issues(eq.rhs, g) + when(
        eq.lhs.source != eq.rhs.source,
        err("E0107"@),
    ) + when(eq.lhs.target != eq.rhs.target, err("E0108"@)) + when(
        eq.lhs.spec_is_identity() && eq.rhs.spec_is_identity(),
        warn("W0100"@),
    ) + when(eq.lhs.morphisms@.len() > 5 || eq.rhs.morphisms@.len() > 5, warn("W0101"@))
}

fn object_name_or_unknown(graph: &Graph, id: ObjectId) -> (r: String) {
    match graph.get_object(id) {
        Some(o) => o.name.clone(),
        None => String::from_str("unknown"),
    }
}

/// Check one equation: both sides as paths, shared source (`E0107`) and target
/// (`E0108`); warn when both sides are identity paths (`W0100`) or a side has
/// more than five morphisms (`W0101`).
pub fn validate_equation(equation: &PathEquation, graph: &Graph) -> (r: ValidationResult)
    ensures
        kinds(r.issues@) == equation_issues(*equation, graph@),
{
    let mut result = ValidationResult::new();
    let lhs_name = concat3(equation.name.as_str(), " (LHS)", "");
    result.absorb(validate_path(&equation.lhs, graph, lhs_name.as_str()));
    let rhs_name = concat3(equation.name.as_str(), " (RHS)", "");
    result.absorb(validate_path(&equation.rhs, graph, rhs_name.as_str()));
    let ghost sides = kinds(result.issues@);
    if equation.lhs.source != equation.rhs.source {
        let l = object_name_or_unknown(graph, equation.lhs.source);
        let r = object_name_or_unknown(graph, equation.rhs.source);
        result.add(
            ValidationError::error(
                "E0107",
                concat5(
                    concat3("Equation '", equation.name.as_str(), "' has mismatched sources: LHS starts at '").as_str(),
                    l.as_str(),
                    "', RHS starts at '",
                    r.as_str(),
                    "'",
                ).as_str(),
            ).with_suggestion("Both sides of an equation must start from the same object"),
        );
    }
    let ghost after_sources = kinds(result.issues@);
    if equation.lhs.target != equation.rhs.target {
        let l = object_name_or_unknown(graph, equation.lhs.target);
        let r = object_name_or_unknown(graph, equation.rhs.target);
        result.add(
            ValidationError::error(
                "E0108",
                concat5(
                    concat3("Equation '", equation.name.as_str(), "' has mismatched targets: LHS ends at '").as_str(),
                    l.as_str(),
                    "', RHS ends at '",
                    r.as_str(),
                    "'",
                ).as_str(),
            ).with_suggestion("Both sides of an equation must end at the same object"),
        );
    }
    let ghost after_targets = kinds(result.issues@);
    if equation.lhs.is_identity() && equation.rhs.is_identity() {
        result.add(
            ValidationError::warning(
                "W0100",
                concat3("Equation '", equation.name.as_str(), "' is trivial: both sides are identity paths").as_str(),
            ),
        );
    }
    let ghost after_trivial = kinds(result.issues@);
    if equation.lhs.len() > 5 || equation.rhs.len() > 5 {
        let longest = if equation.lhs.len() >= equation.rhs.len() {
            equation.lhs.len()
        } else {
            equation.rhs.len()
        };
        result.add(
            ValidationError::warning(
                "W0101",
                concat5(
                    "Equation '",
                    equation.name.as_str(),
                    "' has a long path (",
                    crate::text::decimal(longest as u64).as_str(),
                    " morphisms). Consider simplifying.",
                ).as_str(),
            ).with_suggestion("Long paths may indicate overly complex business rules"),
        );
    }
    proof {
        let eq = *equation;
        let g = graph@;
        assert(after_sources =~= sides + when(eq.lhs.source != eq.rhs.source, err("E0107"@)));
        assert(after_targets =~= after_sources + when(eq.lhs.target != eq.rhs.target, err("E0108"@)));
        assert(after_trivial =~= after_targets + when(
            eq.lhs.spec_is_identity() && eq.rhs.spec_is_identity(),
            warn("W0100"@),
        ));
        assert(kinds(result.issues@) =~= after_trivial + when(
            eq.lhs.morphisms@.len() > 5 || eq.rhs.morphisms@.len() > 5,
            warn("W0101"@),
        ));
    }
    result
}

/// An equation whose two sides are the same identity path on an existing
/// object has exactly one issue: the warning `W0100`, and no error.
pub proof fn lemma_trivial_equation(eq: PathEquation, g: GraphView)
    requires
        eq.lhs == eq.rhs,
        eq.lhs.morphisms@.len() == 0,
        eq.lhs.source == eq.lhs.target,
        g.has_object(eq.lhs.source),
    ensures
        equation_issues(eq, g) == seq![warn("W0100"@)],
        count_errors(equation_issues(eq, g)) == 0,
        count_warnings(equation_issues(eq, g)) == 1,
{
    let issues = equation_issues(eq, g);
    assert(path_issues(eq.lhs, g) =~= Seq::<IssueKind>::empty());
    assert(issues =~= seq![warn("W0100"@)]);
    assert(issues.drop_last() =~= Seq::<IssueKind>::empty());
    assert(count_errors(issues) == 0) by {
        reveal_with_fuel(count_errors, 2);
    }
    assert(count_warnings(issues) == 1) by {
        reveal_with_fuel(count_warnings, 2);
    }
}

/// The issues of each equation in turn.
pub open spec fn equations_issues(eqs: Seq<PathEquation>, g: GraphView) -> Seq<IssueKind>
    decreases eqs.len(),
{
    if eqs.len() == 0 {
        Seq::empty()
    } else {
        equations_issues(eqs.drop_last(), g) + equation_issues(eqs.last(), g)
    }
}

/// Some equation before position `k` carries the name of equation `k`.
pub open spec fn equation_name_seen(eqs: Seq<PathEquation>, k: int) -> bool {
    exists|j: int| 0 <= j < k && #[trigger] eqs[j].name@ == eqs[k].name@
}

/// A warning for each equation with a non-empty name that an earlier one has.
pub open spec fn duplicate_equation_warnings(eqs: Seq<PathEquation>) -> Seq<IssueKind>
    decreases eqs.len(),
{
    if eqs.len() == 0 {
        Seq::empty()
    } else {
        duplicate_equation_warnings(eqs.drop_last()) + when(
            eqs.last().name@.len() > 0 && equation_name_seen(eqs, eqs.len() - 1),
            warn("W0102"@),
        )
    }
}

fn equation_name_seen_exec(eqs: &Vec<PathEquation>, k: usize) -> (r: bool)
    requires
        k < eqs@.len(),
    ensures
        r == equation_name_seen(eqs@, k as int),
{
    let mut j: usize = 0;
    while j < k
        invariant
            j <= k < eqs@.len(),
            forall|i: int| 0 <= i < j ==> #[trigger] eqs@[i].name@ != eqs@[k as int].name@,
        decreases k - j,
    {
        if eqs[j].name == eqs[k].name {
            return true;
        }
        j += 1;
    }
    false
}

/// Check every equation of the sketch, then warn once for each equation whose
/// non-empty name an earlier equation already had (`W0102`).
pub fn validate_equations(sketch: &Sketch) -> (r: ValidationResult)
    ensures
        kinds(r.issues@) == equations_issues(sketch.equations@, sketch.graph@)
            + duplicate_equation_warnings(sketch.equations@),
{
    let mut result = ValidationResult::new();
    let eqs = &sketch.equations;
    let mut i: usize = 0;
    while i < eqs.len()
        invariant
            0 <= i <= eqs@.len(),
            eqs == &sketch.equations,
            kinds(result.issues@) == equations_issues(eqs@.subrange(0, i as int), sketch.graph@),
        decreases eqs.len() - i,
    {
        proof {
            assert(eqs@.subrange(0, i + 1).drop_last() =~= eqs@.subrange(0, i as int));
        }
        result.absorb(validate_equation(&eqs[i], &sketch.graph));
        i += 1;
    }
    proof {
        assert(eqs@.subrange(0, i as int) =~= eqs@);
    }
    let ghost first = kinds(result.issues@);
    let mut i: usize = 0;
    while i < eqs.len()
        invariant
            0 <= i <= eqs@.len(),
            eqs == &sketch.equations,
            kinds(result.issues@) == first + duplicate_equation_warnings(eqs@.subrange(0, i as int)),
        decreases eqs.len() - i,
    {
        let ghost before = kinds(result.issues@);
        proof {
            let sub = eqs@.subrange(0, i + 1);
            assert(sub.drop_last() =~= eqs@.subrange(0, i as int));
            assert(equation_name_seen(sub, i as int) == equation_name_seen(eqs@, i as int)) by {
                if equation_name_seen(eqs@, i as int) {
                    let j = choose|j: int| 0 <= j < i && #[trigger] eqs@[j].name@ == eqs@[i as int].name@;
                    assert(sub[j] == eqs@[j]);
                }
                if equation_name_seen(sub, i as int) {
                    let j = choose|j: int| 0 <= j < i && #[trigger] sub[j].name@ == sub[i as int].name@;
                    assert(sub[j] == eqs@[j]);
                }
            }
        }
        if !eqs[i].name.as_str().is_empty() && equation_name_seen_exec(eqs, i) {
            result.add(
                ValidationError::warning(
                    "W0102",
                    concat3("Duplicate equation name: '", eqs[i].name.as_str(), "'").as_str(),
                ),
            );
        }
        proof {
            let sub = eqs@.subrange(0, i + 1);
            assert(kinds(result.issues@) =~= first + duplicate_equation_warnings(sub));
        }
        i += 1;
    }
    proof {
        assert(eqs@.subrange(0, i as int) =~= eqs@);
    }
    result
}

// ------------------------------------------------------------------
// Sketches
// ------------------------------------------------------------------

/// For each morphism in turn: its source (`E0001`) and target (`E0002`) must
/// exist.
pub open spec fn endpoint_issues(ms: Seq<crate::graph::Morphism>, g: GraphView) -> Seq<IssueKind>
    decreases ms.len(),
{
    if ms.len() == 0 {
        Seq::empty()
    } else {
        endpoint_issues(ms.drop_last(), g) + when(!g.has_object(ms.last().source), err("E0001"@))
            + when(!g.has_object(ms.last().target), err("E0002"@))
    }
}

/// Some object before position `k` carries the name of object `k`.
pub open spec fn object_name_seen(objs: Seq<crate::graph::Object>, k: int) -> bool {
    exists|j: int| 0 <= j < k && #[trigger] objs[j].name@ == objs[k].name@
}

/// An error for each object whose name an earlier object already had.
pub open spec fn duplicate_object_issues(objs: Seq<crate::graph::Object>) -> Seq<IssueKind>
    decreases objs.len(),
{
    if objs.len() == 0 {
        Seq::empty()
    } else {
        duplicate_object_issues(objs.drop_last()) + when(
            object_name_seen(objs, objs.len() - 1),
            err("E0020"@),
        )
    }
}

/// A warning for each aggregate cone with more than five projections.
pub open spec fn large_aggregate_warnings(ls: Seq<crate::limit::LimitCone>) -> Seq<IssueKind>
    decreases ls.len(),
{
    if ls.len() == 0 {
        Seq::empty()
    } else {
        large_aggregate_warnings(ls.drop_last()) + when(
            ls.last().is_aggregate && ls.last().projections@.len() > 5,
            warn("W0001"@),
        )
    }
}

/// The issues of a sketch, in the order they are reported.
pub open spec fn sketch_issues(s: Sketch) -> Seq<IssueKind> {
    endpoint_issues(s.graph@.morphisms, s.graph@) + equations_issues(s.equations@, s.graph@)
        + duplicate_equation_warnings(s.equations@) + duplicate_object_issues(s.graph@.objects)
        + large_aggregate_warnings(s.limits@)
}

fn object_name_seen_exec(objs: &[crate::graph::Object], k: usize) -> (r: bool)
    requires
        k < objs@.len(),
    ensures
        r == object_name_seen(objs@, k as int),
{
    let mut j: usize = 0;
    while j < k
        invariant
            j <= k < objs@.len(),
            forall|i: int| 0 <= i < j ==> #[trigger] objs@[i].name@ != objs@[k as int].name@,
        decreases k - j,
    {
        if objs[j].name == objs[k].name {
            return true;
        }
        j += 1;
    }
    false
}

/// Check a sketch: every morphism's endpoints exist (`E0001`, `E0002`), every
/// equation (see `validate_equations`), object names are unique (`E0020` for
/// each repeat), and warn on aggregates of more than five parts (`W0001`).
pub fn validate_sketch(sketch: &Sketch) -> (r: ValidationResult)
    ensures
        kinds(r.issues@) == sketch_issues(*sketch),
{
    let mut result = ValidationResult::new();
    let g = &sketch.graph;
    let ms = g.morphisms();
    let mut i: usize = 0;
    while i < ms.len()
        invariant
            0 <= i <= ms@.len(),
            ms@ == g@.morphisms,
            g == &sketch.graph,
            kinds(result.issues@) == endpoint_issues(ms@.subrange(0, i as int), g@),
        decreases ms.len() - i,
    {
        let ghost before = kinds(result.issues@);
        proof {
            assert(ms@.subrange(0, i + 1).drop_last() =~= ms@.subrange(0, i as int));
        }
        let m = &ms[i];
        if g.get_object(m.source).is_none() {
            result.add(
                ValidationError::error(
                    "E0001",
                    concat3("Morphism '", m.name.as_str(), "' references non-existent source object").as_str(),
                ),
            );
        }
        let ghost middle = kinds(result.issues@);
        if g.get_object(m.target).is_none() {
            result.add(
                ValidationError::error(
                    "E0002",
                    concat3("Morphism '", m.name.as_str(), "' references non-existent target object").as_str(),
                ),
            );
        }
        proof {
            assert(middle =~= before + when(!g@.has_object(m.source), err("E0001"@)));
            assert(kinds(result.issues@) =~= before + when(!g@.has_object(m.source), err("E0001"@))
                + when(!g@.has_object(m.target), err("E0002"@)));
        }
        i += 1;
    }
    proof {
        assert(ms@.subrange(0, i as int) =~= ms@);
    }
    let ghost endpoints = kinds(result.issues@);
    result.absorb(validate_equations(sketch));
    let ghost with_equations = kinds(result.issues@);
    let objs = g.objects();
    let mut i: usize = 0;
    while i < objs.len()
        invariant
            0 <= i <= objs@.len(),
            objs@ == g@.objects,
            kinds(result.issues@) == with_equations + duplicate_object_issues(
                objs@.subrange(0, i as int),
            ),
        decreases objs.len() - i,
    {
        proof {
            let sub = objs@.subrange(0, i + 1);
            assert(sub.drop_last() =~= objs@.subrange(0, i as int));
            assert(object_name_seen(sub, i as int) == object_name_seen(objs@, i as int)) by {
                if object_name_seen(objs@, i as int) {
                    let j = choose|j: int| 0 <= j < i && #[trigger] objs@[j].name@ == objs@[i as int].name@;
                    assert(sub[j] == objs@[j]);
                }
                if object_name_seen(sub, i as int) {
                    let j = choose|j: int| 0 <= j < i && #[trigger] sub[j].name@ == sub[i as int].name@;
                    assert(sub[j] == objs@[j]);
                }
            }
        }
        if object_name_seen_exec(objs, i) {
            result.add(
                ValidationError::error(
                    "E0020",
                    concat3("Duplicate object name: '", objs[i].name.as_str(), "'").as_str(),
                ),
            );
        }
        proof {
            assert(kinds(result.issues@) =~= with_equations + duplicate_object_issues(
                objs@.subrange(0, i + 1),
            ));
        }
        i += 1;
    }
    proof {
        assert(objs@.subrange(0, i as int) =~= objs@);
    }
    let ghost with_names = kinds(result.issues@);
    let ls = &sketch.limits;
    let mut i: usize = 0;
    while i < ls.len()
        invariant
            0 <= i <= ls@.len(),
            ls == &sketch.limits,
            kinds(result.issues@) == with_names + large_aggregate_warnings(ls@.subrange(0, i as int)),
        decreases ls.len() - i,
    {
        proof {
            assert(ls@.subrange(0, i + 1).drop_last() =~= ls@.subrange(0, i as int));
        }
        let l = &ls[i];
        if l.is_aggregate && l.projections.len() > 5 {
            result.add(
                ValidationError::warning(
                    "W0001",
                    concat5(
                        "Aggregate '",
                        l.name.as_str(),
                        "' contains ",
                        crate::text::decimal(l.projections.len() as u64).as_str(),
                        " objects, which may be too large",
                    ).as_str(),
                ).with_suggestion("Consider splitting into smaller aggregates"),
            );
        }
        proof {
            assert(kinds(result.issues@) =~= with_names + large_aggregate_warnings(
                ls@.subrange(0, i + 1),
            ));
        }
        i += 1;
    }
    proof {
        assert(ls@.subrange(0, i as int) =~= ls@);
        assert(kinds(result.issues@) =~= sketch_issues(*sketch));
    }
    result
}

/// Whether the sketch's graph holds an object with this id.
pub fn object_exists(sketch: &Sketch, id: ObjectId) -> (r: bool)
    ensures
        r == sketch.graph@.has_object(id),
{
    sketch.graph.get_object(id).is_some()
}

// ------------------------------------------------------------------
// Bounded contexts
// ------------------------------------------------------------------

/// An error for each recorded aggregate root that does not exist.
pub open spec fn root_issues(roots: Seq<ObjectId>, g: GraphView) -> Seq<IssueKind>
    decreases roots.len(),
{
    if roots.len() == 0 {
        Seq::empty()
    } else {
        root_issues(roots.drop_last(), g) + when(!g.has_object(roots.last()), err("E0030"@))
    }
}

/// An error for each projection whose target does not exist.
pub open spec fn projection_issues(ps: Seq<Projection>, g: GraphView) -> Seq<IssueKind>
    decreases ps.len(),
{
    if ps.len() == 0 {
        Seq::empty()
    } else {
        projection_issues(ps.drop_last(), g) + when(!g.has_object(ps.last().target), err("E0032"@))
    }
}

/// For each aggregate cone: its root must exist (`E0031`), then the target of
/// each of its projections (`E0032`).
pub open spec fn aggregate_issues(ls: Seq<LimitCone>, g: GraphView) -> Seq<IssueKind>
    decreases ls.len(),
{
    if ls.len() == 0 {
        Seq::empty()
    } else {
        let l = ls.last();
        aggregate_issues(ls.drop_last(), g) + if l.is_aggregate {
            when(l.root is Some && !g.has_object(l.root->0), err("E0031"@)) + projection_issues(
                l.projections@,
                g,
            )
        } else {
            Seq::empty()
        }
    }
}

/// An error for each existing entity without a registered identity morphism.
pub open spec fn identity_issues(
    entities: Seq<ObjectId>,
    identities: Seq<(ObjectId, MorphismId)>,
    g: GraphView,
) -> Seq<IssueKind>
    decreases entities.len(),
{
    if entities.len() == 0 {
        Seq::empty()
    } else {
        let e = entities.last();
        identity_issues(entities.drop_last(), identities, g) + when(
            identity_of(identities, e) is None && g.has_object(e),
            err("E0040"@),
        )
    }
}

/// Some cone is the structural definition of `vo`.
pub open spec fn has_value_object_limit(ls: Seq<LimitCone>, vo: ObjectId) -> bool {
    exists|i: int| 0 <= i < ls.len() && defines_value_object(#[trigger] ls[i], vo)
}

/// A warning for each existing value object without its cone.
pub open spec fn value_object_warnings(vos: Seq<ObjectId>, ls: Seq<LimitCone>, g: GraphView) -> Seq<
    IssueKind,
>
    decreases vos.len(),
{
    if vos.len() == 0 {
        Seq::empty()
    } else {
        let vo = vos.last();
        value_object_warnings(vos.drop_last(), ls, g) + when(
            !has_value_object_limit(ls, vo) && g.has_object(vo),
            warn("W0010"@),
        )
    }
}

/// Some variant before position `k` carries the name of variant `k`.
pub open spec fn variant_name_seen(injs: Seq<Injection>, k: int) -> bool {
    exists|j: int| 0 <= j < k && #[trigger] injs[j].name@ == injs[k].name@
}

/// An error for each variant whose name an earlier variant of the same cocone
/// already had.
pub open spec fn variant_issues(injs: Seq<Injection>) -> Seq<IssueKind>
    decreases injs.len(),
{
    if injs.len() == 0 {
        Seq::empty()
    } else {
        variant_issues(injs.drop_last()) + when(
            variant_name_seen(injs, injs.len() - 1),
            err("E0050"@),
        )
    }
}

/// The variant issues of each cocone in turn.
pub open spec fn colimit_issues(cs: Seq<crate::colimit::ColimitCocone>) -> Seq<IssueKind>
    decreases cs.len(),
{
    if cs.len() == 0 {
        Seq::empty()
    } else {
        colimit_issues(cs.drop_last()) + variant_issues(cs.last().injections@)
    }
}

/// The issues of a bounded context, in the order they are reported.
pub open spec fn context_issues(c: BoundedContextView) -> Seq<IssueKind> {
    let g = c.sketch.graph@;
    sketch_issues(c.sketch) + root_issues(c.aggregate_roots, g) + aggregate_issues(
        c.sketch.limits@,
        g,
    ) + identity_issues(c.entities, c.entity_identities, g) + value_object_warnings(
        c.value_objects,
        c.sketch.limits@,
        g,
    ) + colimit_issues(c.sketch.colimits@)
}

fn validate_aggregate_roots(context: &BoundedContext, result: &mut ValidationResult)
    ensures
        kinds(final(result).issues@) == kinds(old(result).issues@) + root_issues(
            context@.aggregate_roots,
            context@.sketch.graph@,
        ),
{
    let roots = context.aggregate_roots();
    let g = context.graph();
    let ghost start = kinds(result.issues@);
    let mut i: usize = 0;
    while i < roots.len()
        invariant
            0 <= i <= roots@.len(),
            roots@ == context@.aggregate_roots,
            *g == context@.sketch.graph,
            kinds(result.issues@) == start + root_issues(roots@.subrange(0, i as int), g@),
        decreases roots.len() - i,
    {
        proof {
            assert(roots@.subrange(0, i + 1).drop_last() =~= roots@.subrange(0, i as int));
        }
        if g.get_object(roots[i]).is_none() {
            result.add(
                ValidationError::error(
                    "E0030",
                    concat3(
                        "Aggregate root references non-existent object (id: ",
                        object_id_text(roots[i]).as_str(),
                        ")",
                    ).as_str(),
                ),
            );
        }
        proof {
            assert(kinds(result.issues@) =~= start + root_issues(roots@.subrange(0, i + 1), g@));
        }
        i += 1;
    }
    proof {
        assert(roots@.subrange(0, i as int) =~= roots@);
    }
}

fn validate_projections(limit: &LimitCone, g: &Graph, result: &mut ValidationResult)
    ensures
        kinds(final(result).issues@) == kinds(old(result).issues@) + projection_issues(
            limit.projections@,
            g@,
        ),
{
    let ps = &limit.projections;
    let ghost start = kinds(result.issues@);
    let mut i: usize = 0;
    while i < ps.len()
        invariant
            0 <= i <= ps@.len(),
            ps == &limit.projections,
            kinds(result.issues@) == start + projection_issues(ps@.subrange(0, i as int), g@),
        decreases ps.len() - i,
    {
        proof {
            assert(ps@.subrange(0, i + 1).drop_last() =~= ps@.subrange(0, i as int));
        }
        if g.get_object(ps[i].target).is_none() {
            result.add(
                ValidationError::error(
                    "E0032",
                    concat3(
                        "Aggregate '",
                        limit.name.as_str(),
                        "' contains reference to non-existent object",
                    ).as_str(),
                ),
            );
        }
        proof {
            assert(kinds(result.issues@) =~= start + projection_issues(ps@.subrange(0, i + 1), g@));
        }
        i += 1;
    }
    proof {
        assert(ps@.subrange(0, i as int) =~= ps@);
    }
}

fn validate_aggregate_members(context: &BoundedContext, result: &mut ValidationResult)
    ensures
        kinds(final(result).issues@) == kinds(old(result).issues@) + aggregate_issues(
            context@.sketch.limits@,
            context@.sketch.graph@,
        ),
{
    let ls = &context.sketch().limits;
    let g = context.graph();
    let ghost start = kinds(result.issues@);
    let mut i: usize = 0;
    while i < ls.len()
        invariant
            0 <= i <= ls@.len(),
            ls@ == context@.sketch.limits@,
            *g == context@.sketch.graph,
            kinds(result.issues@) == start + aggregate_issues(ls@.subrange(0, i as int), g@),
        decreases ls.len() - i,
    {
        let ghost before = kinds(result.issues@);
        proof {
            assert(ls@.subrange(0, i + 1).drop_last() =~= ls@.subrange(0, i as int));
        }
        let l = &ls[i];
        if l.is_aggregate {
            if let Some(root) = l.root {
                if g.get_object(root).is_none() {
                    result.add(
                        ValidationError::error(
                            "E0031",
                            concat3(
                                "Aggregate '",
                                l.name.as_str(),
                                "' has root that references non-existent object",
                            ).as_str(),
                        ),
                    );
                }
            }
            let ghost middle = kinds(result.issues@);
            proof {
                assert(middle =~= before + when(
                    l.root is Some && !g@.has_object(l.root->0),
                    err("E0031"@),
                ));
            }
            validate_projections(l, g, result);
        }
        proof {
            assert(kinds(result.issues@) =~= start + aggregate_issues(ls@.subrange(0, i + 1), g@));
        }
        i += 1;
    }
    proof {
        assert(ls@.subrange(0, i as int) =~= ls@);
    }
}

fn validate_entity_identities(context: &BoundedContext, result: &mut ValidationResult)
    ensures
        kinds(final(result).issues@) == kinds(old(result).issues@) + identity_issues(
            context@.entities,
            context@.entity_identities,
            context@.sketch.graph@,
        ),
{
    let es = context.entities();
    let g = context.graph();
    let ghost start = kinds(result.issues@);
    let mut i: usize = 0;
    while i < es.len()
        invariant
            0 <= i <= es@.len(),
            es@ == context@.entities,
            *g == context@.sketch.graph,
            kinds(result.issues@) == start + identity_issues(
                es@.subrange(0, i as int),
                context@.entity_identities,
                g@,
            ),
        decreases es.len() - i,
    {
        proof {
            assert(es@.subrange(0, i + 1).drop_last() =~= es@.subrange(0, i as int));
        }
        if context.get_entity_identity(es[i]).is_none() {
            if let Some(obj) = g.get_object(es[i]) {
                result.add(
                    ValidationError::error(
                        "E0040",
                        concat3(
                            "Entity '",
                            obj.name.as_str(),
                            "' is missing its identity morphism",
                        ).as_str(),
                    ),
                );
            }
        }
        proof {
            assert(kinds(result.issues@) =~= start + identity_issues(
                es@.subrange(0, i + 1),
                context@.entity_identities,
                g@,
            ));
        }
        i += 1;
    }
    proof {
        assert(es@.subrange(0, i as int) =~= es@);
    }
}

fn validate_value_objects(context: &BoundedContext, result: &mut ValidationResult)
    ensures
        kinds(final(result).issues@) == kinds(old(result).issues@) + value_object_warnings(
            context@.value_objects,
            context@.sketch.limits@,
            context@.sketch.graph@,
        ),
{
    let vos = context.value_objects();
    let g = context.graph();
    let ghost ls = context@.sketch.limits@;
    let ghost start = kinds(result.issues@);
    let mut i: usize = 0;
    while i < vos.len()
        invariant
            0 <= i <= vos@.len(),
            vos@ == context@.value_objects,
            ls == context@.sketch.limits@,
            *g == context@.sketch.graph,
            kinds(result.issues@) == start + value_object_warnings(
                vos@.subrange(0, i as int),
                ls,
                g@,
            ),
        decreases vos.len() - i,
    {
        proof {
            assert(vos@.subrange(0, i + 1).drop_last() =~= vos@.subrange(0, i as int));
        }
        let found = context.get_value_object_limit(vos[i]);
        proof {
            if found is None {
                assert(!has_value_object_limit(ls, vos@[i as int]));
            } else {
                assert(has_value_object_limit(ls, vos@[i as int]));
            }
        }
        if found.is_none() {
            if let Some(obj) = g.get_object(vos[i]) {
                result.add(
                    ValidationError::warning(
                        "W0010",
                        concat3(
                            "Value object '",
                            obj.name.as_str(),
                            "' does not have an associated limit cone",
                        ).as_str(),
                    ),
                );
            }
        }
        proof {
            assert(kinds(result.issues@) =~= start + value_object_warnings(
                vos@.subrange(0, i + 1),
                ls,
                g@,
            ));
        }
        i += 1;
    }
    proof {
        assert(vos@.subrange(0, i as int) =~= vos@);
    }
}

fn variant_name_seen_exec(injs: &Vec<Injection>, k: usize) -> (r: bool)
    requires
        k < injs@.len(),
    ensures
        r == variant_name_seen(injs@, k as int),
{
    let mut j: usize = 0;
    while j < k
        invariant
            j <= k < injs@.len(),
            forall|i: int| 0 <= i < j ==> #[trigger] injs@[i].name@ != injs@[k as int].name@,
        decreases k - j,
    {
        if injs[j].name == injs[k].name {
            return true;
        }
        j += 1;
    }
    false
}

fn validate_variants(colimit: &crate::colimit::ColimitCocone, result: &mut ValidationResult)
    ensures
        kinds(final(result).issues@) == kinds(old(result).issues@) + variant_issues(
            colimit.injections@,
        ),
{
    let injs = &colimit.injections;
    let ghost start = kinds(result.issues@);
    let mut i: usize = 0;
    while i < injs.len()
        invariant
            0 <= i <= injs@.len(),
            injs == &colimit.injections,
            kinds(result.issues@) == start + variant_issues(injs@.subrange(0, i as int)),
        decreases injs.len() - i,
    {
        proof {
            let sub = injs@.subrange(0, i + 1);
            assert(sub.drop_last() =~= injs@.subrange(0, i as int));
            assert(variant_name_seen(sub, i as int) == variant_name_seen(injs@, i as int)) by {
                if variant_name_seen(injs@, i as int) {
                    let j = choose|j: int| 0 <= j < i && #[trigger] injs@[j].name@ == injs@[i as int].name@;
                    assert(sub[j] == injs@[j]);
                }
                if variant_name_seen(sub, i as int) {
                    let j = choose|j: int| 0 <= j < i && #[trigger] sub[j].name@ == sub[i as int].name@;
                    assert(sub[j] == injs@[j]);
                }
            }
        }
        if variant_name_seen_exec(injs, i) {
            result.add(
                ValidationError::error(
                    "E0050",
                    concat5(
                        "Enum '",
                        colimit.name.as_str(),
                        "' has duplicate variant: '",
                        injs[i].name.as_str(),
                        "'",
                    ).as_str(),
                ),
            );
        }
        proof {
            assert(kinds(result.issues@) =~= start + variant_issues(injs@.subrange(0, i + 1)));
        }
        i += 1;
    }
    proof {
        assert(injs@.subrange(0, i as int) =~= injs@);
    }
}

fn validate_enum_variants(context: &BoundedContext, result: &mut ValidationResult)
    ensures
        kinds(final(result).issues@) == kinds(old(result).issues@) + colimit_issues(
            context@.sketch.colimits@,
        ),
{
    let cs = &context.sketch().colimits;
    let ghost start = kinds(result.issues@);
    let mut i: usize = 0;
    while i < cs.len()
        invariant
            0 <= i <= cs@.len(),
            cs@ == context@.sketch.colimits@,
            kinds(result.issues@) == start + colimit_issues(cs@.subrange(0, i as int)),
        decreases cs.len() - i,
    {
        proof {
            assert(cs@.subrange(0, i + 1).drop_last() =~= cs@.subrange(0, i as int));
        }
        validate_variants(&cs[i], result);
        proof {
            assert(kinds(result.issues@) =~= start + colimit_issues(cs@.subrange(0, i + 1)));
        }
        i += 1;
    }
    proof {
        assert(cs@.subrange(0, i as int) =~= cs@);
    }
}

/// Check a bounded context: its sketch (see `validate_sketch`), then that
/// aggregate roots exist (`E0030`), each aggregate's root (`E0031`) and members
/// (`E0032`) exist, each entity has its identity morphism (`E0040`), each value
/// object has its cone (warning `W0010`), and no enumeration repeats a variant
/// name (`E0050`).
pub fn validate_context(context: &BoundedContext) -> (r: ValidationResult)
    ensures
        kinds(r.issues@) == context_issues(context@),
{
    let mut result = validate_sketch(context.sketch());
    validate_aggregate_roots(context, &mut result);
    validate_aggregate_members(context, &mut result);
    validate_entity_identities(context, &mut result);
    validate_value_objects(context, &mut result);
    validate_enum_variants(context, &mut result);
    proof {
        assert(kinds(result.issues@) =~= context_issues(context@));
    }
    result
}

// ------------------------------------------------------------------
// Context maps
// ------------------------------------------------------------------

/// The views of the contexts that a lookup may resolve names to.
pub open spec fn views_of(ctxs: Seq<&BoundedContext>) -> Seq<BoundedContextView> {
    ctxs.map_values(|c: &BoundedContext| c@)
}

/// The position of the last context named `name`; a later context shadows an
/// earlier one of the same name.
pub open spec fn context_named(ctxs: Seq<BoundedContextView>, name: Seq<char>) -> Option<int> {
    if exists|i: int| 0 <= i < ctxs.len() && (#[trigger] ctxs[i]).sketch.name@ == name {
        Some(
            choose|i: int|
                0 <= i < ctxs.len() && (#[trigger] ctxs[i]).sketch.name@ == name && forall|j: int|
                    i < j < ctxs.len() ==> (#[trigger] ctxs[j]).sketch.name@ != name,
        )
    } else {
        None
    }
}

/// For each object mapping: its source must name an object of the source
/// context (`E0062`), and its target one of the target context (`E0063`).
pub open spec fn object_mapping_issues(
    ms: Seq<NamedObjectMapping>,
    source: GraphView,
    target: GraphView,
) -> Seq<IssueKind>
    decreases ms.len(),
{
    if ms.len() == 0 {
        Seq::empty()
    } else {
        object_mapping_issues(ms.drop_last(), source, target) + when(
            !source.has_object_named(ms.last().source@),
            err("E0062"@),
        ) + when(!target.has_object_named(ms.last().target@), err("E0063"@))
    }
}

/// For each morphism mapping: its source must name a morphism of the source
/// context (`E0064`), and its target one of the target context (`E0065`).
pub open spec fn morphism_mapping_issues(
    ms: Seq<NamedMorphismMapping>,
    source: GraphView,
    target: GraphView,
) -> Seq<IssueKind>
    decreases ms.len(),
{
    if ms.len() == 0 {
        Seq::empty()
    } else {
        morphism_mapping_issues(ms.drop_last(), source, target) + when(
            !source.has_morphism_named(ms.last().source@),
            err("E0064"@),
        ) + when(!target.has_morphism_named(ms.last().target@), err("E0065"@))
    }
}

/// The issues of a named context map against the contexts it may name.
pub open spec fn context_map_issues(m: NamedContextMapView, ctxs: Seq<BoundedContextView>) -> Seq<
    IssueKind,
> {
    let s = context_named(ctxs, m.source_context);
    let t = context_named(ctxs, m.target_context);
    when(s is None, err("E0060"@)) + when(t is None, err("E0061"@)) + if s is Some && t is Some {
        let sg = ctxs[s->0].sketch.graph@;
        let tg = ctxs[t->0].sketch.graph@;
        object_mapping_issues(m.object_mappings, sg, tg) + morphism_mapping_issues(
            m.morphism_mappings,
            sg,
            tg,
        )
    } else {
        Seq::empty()
    }
}

fn find_context(contexts: &[&BoundedContext], name: &str) -> (r: Option<usize>)
    ensures
        r matches Some(i) ==> Some(i as int) == context_named(views_of(contexts@), name@) && i
            < contexts@.len(),
        r is None ==> context_named(views_of(contexts@), name@) is None,
{
    let wanted = String::from_str(name);
    let mut i: usize = contexts.len();
    while i > 0
        invariant
            0 <= i <= contexts@.len(),
            wanted@ == name@,
            forall|j: int| i <= j < contexts@.len() ==> (#[trigger] views_of(contexts@)[j]).sketch.name@ != name@,
        decreases i,
    {
        i -= 1;
        let ctx: &BoundedContext = contexts[i];
        let ctx_name = String::from_str(ctx.name());
        if ctx_name == wanted {
            proof {
                let vs = views_of(contexts@);
                assert(vs[i as int] == contexts@[i as int]@);
                let k = choose|k: int|
                    0 <= k < vs.len() && (#[trigger] vs[k]).sketch.name@ == name@ && forall|j: int|
                        k < j < vs.len() ==> (#[trigger] vs[j]).sketch.name@ != name@;
                assert(k == i) by {
                    if k > i {
                        assert(vs[k].sketch.name@ != name@);
                    }
                    if k < i {
                        assert(vs[i as int].sketch.name@ == name@);
                    }
                }
            }
            return Some(i);
        }
    }
    None
}

fn validate_object_mappings(
    context_map: &NamedContextMap,
    source_ctx: &BoundedContext,
    target_ctx: &BoundedContext,
    result: &mut ValidationResult,
)
    ensures
        kinds(final(result).issues@) == kinds(old(result).issues@) + object_mapping_issues(
            context_map@.object_mappings,
            source_ctx@.sketch.graph@,
            target_ctx@.sketch.graph@,
        ),
{
    let ms = context_map.object_mappings();
    let sg = source_ctx.graph();
    let tg = target_ctx.graph();
    let ghost start = kinds(result.issues@);
    let mut i: usize = 0;
    while i < ms.len()
        invariant
            0 <= i <= ms@.len(),
            ms@ == context_map@.object_mappings,
            *sg == source_ctx@.sketch.graph,
            *tg == target_ctx@.sketch.graph,
            kinds(result.issues@) == start + object_mapping_issues(
                ms@.subrange(0, i as int),
                sg@,
                tg@,
            ),
        decreases ms.len() - i,
    {
        let ghost before = kinds(result.issues@);
        proof {
            assert(ms@.subrange(0, i + 1).drop_last() =~= ms@.subrange(0, i as int));
        }
        let m = &ms[i];
        if sg.find_object_by_name(m.source.as_str()).is_none() {
            result.add(
                ValidationError::error(
                    "E0062",
                    concat5(
                        "Object mapping in '",
                        context_map.name(),
                        "' references non-existent source object: '",
                        m.source.as_str(),
                        "'",
                    ).as_str(),
                ).with_suggestion(
                    concat5(
                        "Check that '",
                        m.source.as_str(),
                        "' is defined in context '",
                        context_map.source_context(),
                        "'",
                    ).as_str(),
                ),
            );
        }
        let ghost middle = kinds(result.issues@);
        if tg.find_object_by_name(m.target.as_str()).is_none() {
            result.add(
                ValidationError::error(
                    "E0063",
                    concat5(
                        "Object mapping in '",
                        context_map.name(),
                        "' references non-existent target object: '",
                        m.target.as_str(),
                        "'",
                    ).as_str(),
                ).with_suggestion(
                    concat5(
                        "Check that '",
                        m.target.as_str(),
                        "' is defined in context '",
                        context_map.target_context(),
                        "'",
                    ).as_str(),
                ),
            );
        }
        proof {
            assert(middle =~= before + when(!sg@.has_object_named(m.source@), err("E0062"@)));
            assert(kinds(result.issues@) =~= start + object_mapping_issues(
                ms@.subrange(0, i + 1),
                sg@,
                tg@,
            ));
        }
        i += 1;
    }
    proof {
        assert(ms@.subrange(0, i as int) =~= ms@);
    }
}

fn validate_morphism_mappings(
    context_map: &NamedContextMap,
    source_ctx: &BoundedContext,
    target_ctx: &BoundedContext,
    result: &mut ValidationResult,
)
    ensures
        kinds(final(result).issues@) == kinds(old(result).issues@) + morphism_mapping_issues(
            context_map@.morphism_mappings,
            source_ctx@.sketch.graph@,
            target_ctx@.sketch.graph@,
        ),
{
    let ms = context_map.morphism_mappings();
    let sg = source_ctx.graph();
    let tg = target_ctx.graph();
    let ghost start = kinds(result.issues@);
    let mut i: usize = 0;
    while i < ms.len()
        invariant
            0 <= i <= ms@.len(),
            ms@ == context_map@.morphism_mappings,
            *sg == source_ctx@.sketch.graph,
            *tg == target_ctx@.sketch.graph,
            kinds(result.issues@) == start + morphism_mapping_issues(
                ms@.subrange(0, i as int),
                sg@,
                tg@,
            ),
        decreases ms.len() - i,
    {
        let ghost before = kinds(result.issues@);
        proof {
            assert(ms@.subrange(0, i + 1).drop_last() =~= ms@.subrange(0, i as int));
        }
        let m = &ms[i];
        if sg.find_morphism_by_name(m.source.as_str()).is_none() {
            result.add(
                ValidationError::error(
                    "E0064",
                    concat5(
                        "Morphism mapping in '",
                        context_map.name(),
                        "' references non-existent source morphism: '",
                        m.source.as_str(),
                        "'",
                    ).as_str(),
                ).with_suggestion(
                    concat5(
                        "Check that morphism '",
                        m.source.as_str(),
                        "' is defined in context '",
                        context_map.source_context(),
                        "'",
                    ).as_str(),
                ),
            );
        }
        let ghost middle = kinds(result.issues@);
        if tg.find_morphism_by_name(m.target.as_str()).is_none() {
            result.add(
                ValidationError::error(
                    "E0065",
                    concat5(
                        "Morphism mapping in '",
                        context_map.name(),
                        "' references non-existent target morphism: '",
                        m.target.as_str(),
                        "'",
                    ).as_str(),
                ).with_suggestion(
                    concat5(
                        "Check that morphism '",
                        m.target.as_str(),
                        "' is defined in context '",
                        context_map.target_context(),
                        "'",
                    ).as_str(),
                ),
            );
        }
        proof {
            assert(middle =~= before + when(!sg@.has_morphism_named(m.source@), err("E0064"@)));
            assert(kinds(result.issues@) =~= start + morphism_mapping_issues(
                ms@.subrange(0, i + 1),
                sg@,
                tg@,
            ));
        }
        i += 1;
    }
    proof {
        assert(ms@.subrange(0, i as int) =~= ms@);
    }
}

/// A spelling suggestion for an unknown context name: the closest known name,
/// or else a hint to define the context.
fn context_suggestion(contexts: &[&BoundedContext], name: &str) -> String {
    let mut names: Vec<&str> = Vec::new();
    let mut i: usize = 0;
    while i < contexts.len()
        decreases contexts.len() - i,
    {
        let ctx: &BoundedContext = contexts[i];
        names.push(ctx.name());
        i += 1;
    }
    match crate::diagnostics::did_you_mean(name, names.as_slice()) {
        Some(hint) => hint,
        None => concat3("Define a context named '", name, "' or check for typos"),
    }
}

/// Check a named context map against the contexts it may name: its source
/// (`E0060`) and target (`E0061`) contexts must exist; when both do, every
/// object mapping must name existing objects (`E0062`, `E0063`) and every
/// morphism mapping existing morphisms (`E0064`, `E0065`).
pub fn validate_context_map(context_map: &NamedContextMap, contexts: &[&BoundedContext]) -> (r:
    ValidationResult)
    ensures
        kinds(r.issues@) == context_map_issues(context_map@, views_of(contexts@)),
{
    let mut result = ValidationResult::new();
    let source = find_context(contexts, context_map.source_context());
    if source.is_none() {
        result.add(
            ValidationError::error(
                "E0060",
                concat5(
                    "Context map '",
                    context_map.name(),
                    "' references non-existent source context: '",
                    context_map.source_context(),
                    "'",
                ).as_str(),
            ).with_suggestion(context_suggestion(contexts, context_map.source_context()).as_str()),
        );
    }
    let target = find_context(contexts, context_map.target_context());
    if target.is_none() {
        result.add(
            ValidationError::error(
                "E0061",
                concat5(
                    "Context map '",
                    context_map.name(),
                    "' references non-existent target context: '",
                    context_map.target_context(),
                    "'",
                ).as_str(),
            ).with_suggestion(context_suggestion(contexts, context_map.target_context()).as_str()),
        );
    }
    let ghost checked = kinds(result.issues@);
    proof {
        let m = context_map@;
        let vs = views_of(contexts@);
        assert(checked =~= when(context_named(vs, m.source_context) is None, err("E0060"@))
            + when(context_named(vs, m.target_context) is None, err("E0061"@)));
    }
    if let (Some(s), Some(t)) = (source, target) {
        let source_ctx: &BoundedContext = contexts[s];
        let target_ctx: &BoundedContext = contexts[t];
        proof {
            assert(views_of(contexts@)[s as int] == source_ctx@);
            assert(views_of(contexts@)[t as int] == target_ctx@);
        }
        validate_object_mappings(context_map, source_ctx, target_ctx, &mut result);
        validate_morphism_mappings(context_map, source_ctx, target_ctx, &mut result);
    }
    proof {
        assert(kinds(result.issues@) =~= context_map_issues(context_map@, views_of(contexts@)));
    }
    result
}

// ------------------------------------------------------------------
// Whole models
// ------------------------------------------------------------------

/// Some context before position `k` carries the name of context `k`.
pub open spec fn context_name_seen(cs: Seq<BoundedContextView>, k: int) -> bool {
    exists|j: int| 0 <= j < k && #[trigger] cs[j].sketch.name@ == cs[k].sketch.name@
}

/// An error for each context whose name an earlier context already had.
pub open spec fn duplicate_context_issues(cs: Seq<BoundedContextView>) -> Seq<IssueKind>
    decreases cs.len(),
{
    if cs.len() == 0 {
        Seq::empty()
    } else {
        duplicate_context_issues(cs.drop_last()) + when(
            context_name_seen(cs, cs.len() - 1),
            err("E0070"@),
        )
    }
}

/// The issues of each context in turn.
pub open spec fn all_context_issues(cs: Seq<BoundedContextView>) -> Seq<IssueKind>
    decreases cs.len(),
{
    if cs.len() == 0 {
        Seq::empty()
    } else {
        all_context_issues(cs.drop_last()) + context_issues(cs.last())
    }
}

/// Some map before position `k` carries the name of map `k`.
pub open spec fn map_name_seen(ms: Seq<NamedContextMapView>, k: int) -> bool {
    exists|j: int| 0 <= j < k && #[trigger] ms[j].name == ms[k].name
}

/// An error for each context map whose name an earlier map already had.
pub open spec fn duplicate_map_issues(ms: Seq<NamedContextMapView>) -> Seq<IssueKind>
    decreases ms.len(),
{
    if ms.len() == 0 {
        Seq::empty()
    } else {
        duplicate_map_issues(ms.drop_last()) + when(map_name_seen(ms, ms.len() - 1), err("E0071"@))
    }
}

/// The issues of each context map in turn, against all contexts.
pub open spec fn all_map_issues(ms: Seq<NamedContextMapView>, cs: Seq<BoundedContextView>) -> Seq<
    IssueKind,
>
    decreases ms.len(),
{
    if ms.len() == 0 {
        Seq::empty()
    } else {
        all_map_issues(ms.drop_last(), cs) + context_map_issues(ms.last(), cs)
    }
}

/// The issues of a model, in the order they are reported.
pub open spec fn model_issues(cs: Seq<BoundedContextView>, ms: Seq<NamedContextMapView>) -> Seq<
    IssueKind,
> {
    duplicate_context_issues(cs) + all_context_issues(cs) + duplicate_map_issues(ms)
        + all_map_issues(ms, cs)
}

/// Copy every issue of `issues` into `result` with `[prefix] ` before its
/// message.
fn absorb_prefixed(result: &mut ValidationResult, prefix: &str, issues: &ValidationResult)
    ensures
        kinds(final(result).issues@) == kinds(old(result).issues@) + kinds(issues.issues@),
{
    let ghost start = kinds(result.issues@);
    let mut i: usize = 0;
    while i < issues.issues.len()
        invariant
            0 <= i <= issues.issues@.len(),
            kinds(result.issues@) == start + kinds(issues.issues@.subrange(0, i as int)),
        decreases issues.issues.len() - i,
    {
        let e = &issues.issues[i];
        let message = concat5("[", prefix, "] ", e.message.as_str(), "");
        let copy = ValidationError {
            code: e.code.clone(),
            message,
            severity: e.severity,
            location: e.location.clone(),
            suggestion: e.suggestion.clone(),
        };
        result.add(copy);
        proof {
            assert(kinds(issues.issues@.subrange(0, i + 1)) =~= kinds(
                issues.issues@.subrange(0, i as int),
            ).push(kind_of(issues.issues@[i as int])));
        }
        i += 1;
    }
    proof {
        assert(issues.issues@.subrange(0, i as int) =~= issues.issues@);
    }
}

fn check_maps(
    result: &mut ValidationResult,
    context_maps: &[NamedContextMap],
    lookup: &[&BoundedContext],
    Ghost(cs): Ghost<Seq<BoundedContextView>>,
)
    requires
        views_of(lookup@) == cs,
    ensures
        kinds(final(result).issues@) == kinds(old(result).issues@) + all_map_issues(
            context_maps@.map_values(|m: NamedContextMap| m@),
            cs,
        ),
{
    let ghost ms = context_maps@.map_values(|m: NamedContextMap| m@);
    let ghost start = kinds(result.issues@);
    let mut i: usize = 0;
    while i < context_maps.len()
        invariant
            0 <= i <= context_maps@.len(),
            ms == context_maps@.map_values(|m: NamedContextMap| m@),
            views_of(lookup@) == cs,
            kinds(result.issues@) == start + all_map_issues(ms.subrange(0, i as int), cs),
        decreases context_maps.len() - i,
    {
        proof {
            assert(ms.subrange(0, i + 1).drop_last() =~= ms.subrange(0, i as int));
        }
        result.absorb(validate_context_map(&context_maps[i], lookup));
        proof {
            assert(kinds(result.issues@) =~= start + all_map_issues(ms.subrange(0, i + 1), cs));
        }
        i += 1;
    }
    proof {
        assert(ms.subrange(0, i as int) =~= ms);
    }
}

/// Check a whole model: context names are unique (`E0070` for each repeat),
/// each context (its messages prefixed with `[name] `), map names are unique
/// (`E0071` for each repeat), and each map against all the contexts.
pub fn validate_model(contexts: &[BoundedContext], context_maps: &[NamedContextMap]) -> (r:
    ValidationResult)
    ensures
        kinds(r.issues@) == model_issues(
            contexts@.map_values(|c: BoundedContext| c@),
            context_maps@.map_values(|m: NamedContextMap| m@),
        ),
{
    let ghost cs = contexts@.map_values(|c: BoundedContext| c@);
    let ghost ms = context_maps@.map_values(|m: NamedContextMap| m@);
    let mut result = ValidationResult::new();
    let mut lookup: Vec<&BoundedContext> = Vec::new();
    let mut i: usize = 0;
    while i < contexts.len()
        invariant
            0 <= i <= contexts@.len(),
            cs == contexts@.map_values(|c: BoundedContext| c@),
            views_of(lookup@) == cs.subrange(0, i as int),
            kinds(result.issues@) == duplicate_context_issues(cs.subrange(0, i as int)),
        decreases contexts.len() - i,
    {
        proof {
            let sub = cs.subrange(0, i + 1);
            assert(sub.drop_last() =~= cs.subrange(0, i as int));
            assert(context_name_seen(sub, i as int) == context_name_seen(cs, i as int)) by {
                if context_name_seen(cs, i as int) {
                    let j = choose|j: int| 0 <= j < i && #[trigger] cs[j].sketch.name@ == cs[i as int].sketch.name@;
                    assert(sub[j] == cs[j]);
                }
                if context_name_seen(sub, i as int) {
                    let j = choose|j: int| 0 <= j < i && #[trigger] sub[j].sketch.name@ == sub[i as int].sketch.name@;
                    assert(sub[j] == cs[j]);
                }
            }
        }
        let ctx = &contexts[i];
        let name = String::from_str(ctx.name());
        let mut seen = false;
        let mut j: usize = 0;
        while j < i
            invariant
                j <= i < contexts@.len(),
                cs == contexts@.map_values(|c: BoundedContext| c@),
                name@ == cs[i as int].sketch.name@,
                seen == exists|k: int| 0 <= k < j && #[trigger] cs[k].sketch.name@ == cs[i as int].sketch.name@,
            decreases i - j,
        {
            let other = String::from_str(contexts[j].name());
            if other == name {
                seen = true;
            }
            proof {
                assert(cs[j as int] == contexts@[j as int]@);
                if other@ == name@ {
                    assert(cs[j as int].sketch.name@ == cs[i as int].sketch.name@);
                }
            }
            j += 1;
        }
        if seen {
            result.add(
                ValidationError::error(
                    "E0070",
                    concat3("Duplicate context name: '", ctx.name(), "'").as_str(),
                ),
            );
        }
        lookup.push(ctx);
        proof {
            assert(views_of(lookup@) =~= cs.subrange(0, i + 1));
            assert(kinds(result.issues@) =~= duplicate_context_issues(cs.subrange(0, i + 1)));
        }
        i += 1;
    }
    proof {
        assert(cs.subrange(0, i as int) =~= cs);
    }
    let ghost after_names = kinds(result.issues@);
    let mut i: usize = 0;
    while i < contexts.len()
        invariant
            0 <= i <= contexts@.len(),
            cs == contexts@.map_values(|c: BoundedContext| c@),
            kinds(result.issues@) == after_names + all_context_issues(cs.subrange(0, i as int)),
        decreases contexts.len() - i,
    {
        proof {
            assert(cs.subrange(0, i + 1).drop_last() =~= cs.subrange(0, i as int));
        }
        let ctx = &contexts[i];
        let found = validate_context(ctx);
        absorb_prefixed(&mut result, ctx.name(), &found);
        proof {
            assert(kinds(result.issues@) =~= after_names + all_context_issues(cs.subrange(0, i + 1)));
        }
        i += 1;
    }
    proof {
        assert(cs.subrange(0, i as int) =~= cs);
    }
    let ghost after_contexts = kinds(result.issues@);
    let mut i: usize = 0;
    while i < context_maps.len()
        invariant
            0 <= i <= context_maps@.len(),
            ms == context_maps@.map_values(|m: NamedContextMap| m@),
            kinds(result.issues@) == after_contexts + duplicate_map_issues(ms.subrange(0, i as int)),
        decreases context_maps.len() - i,
    {
        proof {
            let sub = ms.subrange(0, i + 1);
            assert(sub.drop_last() =~= ms.subrange(0, i as int));
            assert(map_name_seen(sub, i as int) == map_name_seen(ms, i as int)) by {
                if map_name_seen(ms, i as int) {
                    let j = choose|j: int| 0 <= j < i && #[trigger] ms[j].name == ms[i as int].name;
                    assert(sub[j] == ms[j]);
                }
                if map_name_seen(sub, i as int) {
                    let j = choose|j: int| 0 <= j < i && #[trigger] sub[j].name == sub[i as int].name;
                    assert(sub[j] == ms[j]);
                }
            }
        }
        let map = &context_maps[i];
        let name = String::from_str(map.name());
        let mut seen = false;
        let mut j: usize = 0;
        while j < i
            invariant
                j <= i < context_maps@.len(),
                ms == context_maps@.map_values(|m: NamedContextMap| m@),
                name@ == ms[i as int].name,
                seen == exists|k: int| 0 <= k < j && #[trigger] ms[k].name == ms[i as int].name,
            decreases i - j,
        {
            let other = String::from_str(context_maps[j].name());
            if other == name {
                seen = true;
            }
            proof {
                assert(ms[j as int] == context_maps@[j as int]@);
                if other@ == name@ {
                    assert(ms[j as int].name == ms[i as int].name);
                }
            }
            j += 1;
        }
        if seen {
            result.add(
                ValidationError::error(
                    "E0071",
                    concat3("Duplicate context map name: '", map.name(), "'").as_str(),
                ),
            );
        }
        proof {
            assert(kinds(result.issues@) =~= after_contexts + duplicate_map_issues(
                ms.subrange(0, i + 1),
            ));
        }
        i += 1;
    }
    proof {
        assert(ms.subrange(0, i as int) =~= ms);
    }
    check_maps(&mut result, context_maps, lookup.as_slice(), Ghost(cs));
    proof {
        assert(kinds(result.issues@) =~= model_issues(cs, ms));
    }
    result
}

} // verus!

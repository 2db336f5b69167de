//! Diagnostic helpers: source spans, located errors, renderer settings,
//! "did you mean" suggestions by edit distance, option lists and grouping of
//! issues by code.

use vstd::prelude::*;
use vstd::string::StringSliceAdditionalSpecFns;
use crate::text::{concat3, decimal, decimal_of};
use crate::validation::{SourceLocation, ValidationError};

verus! {

/// A span of source text: a byte range and the line and column where it starts.
#[derive(Debug, Clone, Copy)]
pub struct SourceSpan {
    pub start: usize,
    pub end: usize,
    pub line: u32,
    pub column: u32,
}

impl SourceSpan {
    pub fn new(start: usize, end: usize, line: u32, column: u32) -> (s: Self)
        ensures
            s.start == start,
            s.end == end,
            s.line == line,
            s.column == column,
    {
        SourceSpan { start, end, line, column }
    }

    /// The byte range `start..end`.
    pub fn to_range(&self) -> (r: core::ops::Range<usize>)
        ensures
            r.start == self.start,
            r.end == self.end,
    {
        core::ops::Range { start: self.start, end: self.end }
    }
}

/// An issue together with where it was found in a named source file.
#[derive(Debug)]
pub struct LocatedError {
    pub error: ValidationError,
    pub span: Option<SourceSpan>,
    /// Further labelled spans that help explain the issue.
    pub related_spans: Vec<(SourceSpan, String)>,
    pub filename: String,
}

impl LocatedError {
    /// The issue in `filename`, with no span yet.
    pub fn new(error: ValidationError, filename: &str) -> (l: Self)
        ensures
            l.error == error,
            l.span is None,
            l.related_spans@.len() == 0,
            l.filename@ == filename@,
    {
        LocatedError {
            error,
            span: None,
            related_spans: Vec::new(),
            filename: String::from_str(filename),
        }
    }

    /// The same, at `span`.
    pub fn with_span(self, span: SourceSpan) -> (l: Self)
        ensures
            l.error == self.error,
            l.span == Some(span),
            l.related_spans == self.related_spans,
            l.filename == self.filename,
    {
        LocatedError { span: Some(span), ..self }
    }

    /// The same, with one more labelled span.
    pub fn with_related(self, span: SourceSpan, label: &str) -> (l: Self)
        ensures
            l.error == self.error,
            l.span == self.span,
            l.related_spans@.len() == self.related_spans@.len() + 1,
            l.related_spans@.drop_last() == self.related_spans@,
            l.related_spans@.last().0 == span,
            l.related_spans@.last().1@ == label@,
            l.filename == self.filename,
    {
        let mut l = self;
        l.related_spans.push((span, String::from_str(label)));
        proof {
            assert(l.related_spans@.drop_last() =~= self.related_spans@);
        }
        l
    }
}

/// How issues are to be rendered: with colours or not, with help text or not.
#[derive(Debug, Clone, Copy)]
pub struct DiagnosticRenderer {
    use_colors: bool,
    show_help: bool,
}

impl Default for DiagnosticRenderer {
    fn default() -> (r: Self)
        ensures
            r.spec_use_colors(),
            r.spec_show_help(),
    {
        DiagnosticRenderer { use_colors: true, show_help: true }
    }
}

impl DiagnosticRenderer {
    pub closed spec fn spec_use_colors(&self) -> bool {
        self.use_colors
    }

    pub closed spec fn spec_show_help(&self) -> bool {
        self.show_help
    }

    /// Colours and help text both on.
    pub fn new() -> (r: Self)
        ensures
            r.spec_use_colors(),
            r.spec_show_help(),
    {
        DiagnosticRenderer { use_colors: true, show_help: true }
    }

    /// The same settings without colours.
    pub fn without_colors(self) -> (r: Self)
        ensures
            !r.spec_use_colors(),
            r.spec_show_help() == self.spec_show_help(),
    {
        DiagnosticRenderer { use_colors: false, ..self }
    }

    /// The same settings without help text.
    pub fn without_help(self) -> (r: Self)
        ensures
            r.spec_use_colors() == self.spec_use_colors(),
            !r.spec_show_help(),
    {
        DiagnosticRenderer { show_help: false, ..self }
    }

    /// Whether colours are used.
    pub fn uses_colors(&self) -> (r: bool)
        ensures
            r == self.spec_use_colors(),
    {
        self.use_colors
    }

    /// Whether help text is shown.
    pub fn shows_help(&self) -> (r: bool)
        ensures
            r == self.spec_show_help(),
    {
        self.show_help
    }
}

// ------------------------------------------------------------------
// "Did you mean?"
// ------------------------------------------------------------------

/// The lower-case form of a string, as `str::to_lowercase` gives it.
pub uninterp spec fn lower_of(s: Seq<char>) -> Seq<char>;

/// The Levenshtein distance between two strings, as `strsim::levenshtein`
/// gives it.
pub uninterp spec fn levenshtein_of(a: Seq<char>, b: Seq<char>) -> nat;

/// Relies on `str::to_lowercase`: the lower-case form depends on the
/// characters alone.
#[verifier::external_body]
fn lowercase(s: &str) -> (r: String)
    ensures
        r@ == lower_of(s@),
{
    s.to_lowercase()
}

/// Relies on `strsim::levenshtein`: the number of single-character insertions,
/// deletions and substitutions that turn one string into the other, a function
/// of the two strings alone.
#[verifier::external_body]
fn edit_distance(a: &str, b: &str) -> (r: usize)
    ensures
        r as nat == levenshtein_of(a@, b@),
{
    strsim::levenshtein(a, b)
}

/// Position `i` holds the smallest distance within `threshold`, and no earlier
/// position within the threshold holds one as small.
pub open spec fn is_first_closest(ds: Seq<usize>, threshold: usize, i: int) -> bool {
    &&& 0 <= i < ds.len()
    &&& ds[i] <= threshold
    &&& forall|j: int| 0 <= j < ds.len() && ds[j] <= threshold ==> ds[i] <= #[trigger] ds[j]
    &&& forall|j: int| 0 <= j < i && ds[j] <= threshold ==> ds[i] < #[trigger] ds[j]
}

/// The position of the first smallest distance that is within `threshold`, if
/// any distance is.
pub fn closest_within(distances: &[usize], threshold: usize) -> (r: Option<usize>)
    ensures
        r is None <==> forall|j: int| 0 <= j < distances@.len() ==> #[trigger] distances@[j] > threshold,
        r matches Some(i) ==> is_first_closest(distances@, threshold, i as int),
{
    let mut best: Option<usize> = None;
    let mut i: usize = 0;
    while i < distances.len()
        invariant
            0 <= i <= distances@.len(),
            best is None <==> forall|j: int| 0 <= j < i ==> #[trigger] distances@[j] > threshold,
            best matches Some(b) ==> {
                &&& b < i
                &&& distances@[b as int] <= threshold
                &&& forall|j: int|
                    0 <= j < i && distances@[j] <= threshold ==> distances@[b as int]
                        <= #[trigger] distances@[j]
                &&& forall|j: int|
                    0 <= j < b && distances@[j] <= threshold ==> distances@[b as int]
                        < #[trigger] distances@[j]
            },
        decreases distances.len() - i,
    {
        let d = distances[i];
        if d <= threshold {
            match best {
                None => {
                    best = Some(i);
                },
                Some(b) => {
                    if d < distances[b] {
                        best = Some(i);
                    }
                },
            }
        }
        i += 1;
    }
    best
}

/// The threshold for suggestions: `max_distance`, or 30% of the name's length
/// in bytes when that is larger.
pub open spec fn suggestion_threshold(name: &str, max_distance: usize) -> int {
    let share: int = (name.len() as int) * 30 / 100;
    if max_distance >= share {
        max_distance as int
    } else {
        share
    }
}

/// The distance of each candidate to `name`, both in lower case.
pub open spec fn candidate_distances(name: Seq<char>, candidates: Seq<&str>) -> Seq<nat> {
    candidates.map_values(|c: &str| levenshtein_of(lower_of(name), lower_of(c@)))
}

fn thirty_percent(n: usize) -> (r: usize)
    ensures
        r == n * 30 / 100,
{
    let q = n / 100;
    let m = n % 100;
    proof {
        assert(n == 100 * q + m);
        assert(n * 30 / 100 == 30 * q + m * 30 / 100) by (nonlinear_arith)
            requires
                n == 100 * q + m,
                0 <= m < 100,
        ;
        assert(30 * q <= n) by (nonlinear_arith)
            requires
                n == 100 * q + m,
                0 <= m,
        ;
    }
    q * 30 + m * 30 / 100
}

/// The candidate closest to `name`, ignoring case, among those within the
/// threshold; the first one on a tie.
pub fn suggest_similar_with_threshold<'a>(
    name: &str,
    candidates: &[&'a str],
    max_distance: usize,
) -> (r: Option<&'a str>)
    ensures
        ({
            let ds = candidate_distances(name@, candidates@);
            let t = suggestion_threshold(name, max_distance);
            &&& r is None <==> forall|j: int| 0 <= j < ds.len() ==> #[trigger] ds[j] > t
            &&& r matches Some(c) ==> exists|i: int|
                {
                    &&& is_first_closest(
                        ds.map_values(|d: nat| d as usize),
                        t as usize,
                        i,
                    )
                    &&& c == #[trigger] candidates@[i]
                }
        }),
{
    let share = thirty_percent(name.len());
    let threshold = if max_distance >= share {
        max_distance
    } else {
        share
    };
    let target = lowercase(name);
    let ghost ds = candidate_distances(name@, candidates@);
    let mut distances: Vec<usize> = Vec::new();
    let mut i: usize = 0;
    while i < candidates.len()
        invariant
            0 <= i <= candidates@.len(),
            target@ == lower_of(name@),
            ds == candidate_distances(name@, candidates@),
            distances@.len() == i,
            forall|j: int| 0 <= j < i ==> #[trigger] distances@[j] as nat == ds[j],
        decreases candidates.len() - i,
    {
        let lowered = lowercase(candidates[i]);
        let d = edit_distance(target.as_str(), lowered.as_str());
        distances.push(d);
        i += 1;
    }
    proof {
        assert(ds.map_values(|d: nat| d as usize) =~= distances@);
        assert(threshold == suggestion_threshold(name, max_distance));
    }
    let found = closest_within(distances.as_slice(), threshold);
    proof {
        assert forall|j: int| 0 <= j < ds.len() implies ds[j] == distances@[j] as nat by {}
        if let Some(k) = found {
            assert(is_first_closest(ds.map_values(|d: nat| d as usize), threshold, k as int));
        }
    }
    match found {
        Some(k) => Some(candidates[k]),
        None => None,
    }
}

/// The candidate closest to `name`, ignoring case, within distance three (or
/// 30% of the name's length in bytes, when larger).
pub fn suggest_similar<'a>(name: &str, candidates: &[&'a str]) -> (r: Option<&'a str>)
    ensures
        ({
            let ds = candidate_distances(name@, candidates@);
            let t = suggestion_threshold(name, 3);
            &&& r is None <==> forall|j: int| 0 <= j < ds.len() ==> #[trigger] ds[j] > t
            &&& r matches Some(c) ==> exists|i: int|
                {
                    &&& is_first_closest(
                        ds.map_values(|d: nat| d as usize),
                        t as usize,
                        i,
                    )
                    &&& c == #[trigger] candidates@[i]
                }
        }),
{
    suggest_similar_with_threshold(name, candidates, 3)
}

/// "did you mean `X`?" for the suggestion `X` of `suggest_similar`, if any.
pub fn did_you_mean(name: &str, candidates: &[&str]) -> (r: Option<String>)
    ensures
        ({
            let ds = candidate_distances(name@, candidates@);
            let t = suggestion_threshold(name, 3);
            &&& r is None <==> forall|j: int| 0 <= j < ds.len() ==> #[trigger] ds[j] > t
            &&& r matches Some(m) ==> exists|i: int|
                {
                    &&& is_first_closest(
                        ds.map_values(|d: nat| d as usize),
                        t as usize,
                        i,
                    )
                    &&& m@ == "did you mean `"@ + (#[trigger] candidates@[i])@ + "`?"@
                }
        }),
{
    match suggest_similar(name, candidates) {
        Some(s) => Some(concat3("did you mean `", s, "`?")),
        None => None,
    }
}

// ------------------------------------------------------------------
// Option lists
// ------------------------------------------------------------------

/// The parts separated by `, `.
pub open spec fn joined(parts: Seq<Seq<char>>) -> Seq<char>
    decreases parts.len(),
{
    if parts.len() == 0 {
        Seq::empty()
    } else if parts.len() == 1 {
        parts[0]
    } else {
        joined(parts.drop_last()) + ", "@ + parts.last()
    }
}

/// The text that lists `options`, showing at most `max_show` of them.
pub open spec fn options_text(options: Seq<Seq<char>>, max_show: nat) -> Seq<char> {
    if options.len() == 0 {
        "no options available"@
    } else if options.len() <= max_show {
        "available: "@ + joined(options)
    } else {
        "available: "@ + joined(options.take(max_show as int)) + ", ... ("@ + decimal_of(
            (options.len() - max_show) as nat,
        ) + " more)"@
    }
}

fn join_first(options: &[&str], count: usize) -> (r: String)
    requires
        count <= options@.len(),
    ensures
        r@ == joined(options@.map_values(|s: &str| s@).take(count as int)),
{
    let ghost parts = options@.map_values(|s: &str| s@);
    let mut r = String::new();
    let mut i: usize = 0;
    while i < count
        invariant
            0 <= i <= count <= options@.len(),
            parts == options@.map_values(|s: &str| s@),
            r@ == joined(parts.take(i as int)),
        decreases count - i,
    {
        proof {
            assert(parts.take(i + 1).drop_last() =~= parts.take(i as int));
        }
        if i == 0 {
            r = String::from_str(options[i]);
            proof {
                assert(parts.take(1)[0] == options@[0]@);
            }
        } else {
            r = r.concat(", ").concat(options[i]);
            proof {
                assert(parts.take(i + 1).last() == options@[i as int]@);
            }
        }
        i += 1;
    }
    proof {
        if i == 0 {
            assert(r@ =~= Seq::<char>::empty());
        }
    }
    r
}

/// "available: A, B" listing the options, or the first `max_show` of them
/// followed by how many more there are; "no options available" when empty.
pub fn available_options(options: &[&str], max_show: usize) -> (r: String)
    ensures
        r@ == options_text(options@.map_values(|s: &str| s@), max_show as nat),
{
    let ghost parts = options@.map_values(|s: &str| s@);
    if options.len() == 0 {
        return String::from_str("no options available");
    }
    if options.len() <= max_show {
        let list = join_first(options, options.len());
        proof {
            assert(parts.take(options@.len() as int) =~= parts);
        }
        String::from_str("available: ").concat(list.as_str())
    } else {
        let list = join_first(options, max_show);
        let more = decimal((options.len() - max_show) as u64);
        String::from_str("available: ").concat(list.as_str()).concat(", ... (").concat(
            more.as_str(),
        ).concat(" more)")
    }
}

// ------------------------------------------------------------------
// Grouping
// ------------------------------------------------------------------

/// The issues that share one code.
#[derive(Debug)]
pub struct GroupedErrors {
    pub code: String,
    pub count: usize,
    pub errors: Vec<ValidationError>,
}

/// The distinct codes of `es`, in order of first appearance.
pub open spec fn codes_in_order(es: Seq<ValidationError>) -> Seq<Seq<char>>
    decreases es.len(),
{
    if es.len() == 0 {
        Seq::empty()
    } else {
        let rest = codes_in_order(es.drop_last());
        if rest.contains(es.last().code@) {
            rest
        } else {
            rest.push(es.last().code@)
        }
    }
}

/// The issues of `es` with this code, in order.
pub open spec fn with_code(es: Seq<ValidationError>, code: Seq<char>) -> Seq<ValidationError>
    decreases es.len(),
{
    if es.len() == 0 {
        Seq::empty()
    } else {
        let rest = with_code(es.drop_last(), code);
        if es.last().code@ == code {
            rest.push(es.last())
        } else {
            rest
        }
    }
}

fn copy_option(s: &Option<String>) -> (r: Option<String>)
    ensures
        r == *s,
{
    match s {
        Some(t) => Some(t.clone()),
        None => None,
    }
}

fn copy_error(e: &ValidationError) -> (r: ValidationError)
    ensures
        r == *e,
{
    ValidationError {
        code: e.code.clone(),
        message: e.message.clone(),
        severity: e.severity,
        location: SourceLocation {
            file: copy_option(&e.location.file),
            line: e.location.line,
            column: e.location.column,
        },
        suggestion: copy_option(&e.suggestion),
    }
}

/// The issues grouped by code: one group per distinct code, in order of the
/// code's first appearance, each holding its issues in order and their count.
pub fn group_errors(errors: &[ValidationError]) -> (r: Vec<GroupedErrors>)
    ensures
        r@.len() == codes_in_order(errors@).len(),
        forall|k: int|
            0 <= k < r@.len() ==> {
                &&& (#[trigger] r@[k]).code@ == codes_in_order(errors@)[k]
                &&& r@[k].errors@ == with_code(errors@, codes_in_order(errors@)[k])
                &&& r@[k].count == r@[k].errors@.len()
            },
{
    let mut groups: Vec<GroupedErrors> = Vec::new();
    let mut i: usize = 0;
    while i < errors.len()
        invariant
            0 <= i <= errors@.len(),
            groups@.len() == codes_in_order(errors@.subrange(0, i as int)).len(),
            forall|k: int|
                0 <= k < groups@.len() ==> {
                    let codes = codes_in_order(errors@.subrange(0, i as int));
                    &&& (#[trigger] groups@[k]).code@ == codes[k]
                    &&& groups@[k].errors@ == with_code(errors@.subrange(0, i as int), codes[k])
                    &&& groups@[k].count == groups@[k].errors@.len()
                },
        decreases errors.len() - i,
    {
        let ghost prefix = errors@.subrange(0, i as int);
        let ghost next = errors@.subrange(0, i + 1);
        let ghost codes = codes_in_order(prefix);
        let e = &errors[i];
        proof {
            assert(next.drop_last() =~= prefix);
            assert(next.last() == *e);
        }
        let mut found: Option<usize> = None;
        let mut k: usize = 0;
        while k < groups.len()
            invariant
                0 <= k <= groups@.len(),
                groups@.len() == codes.len(),
                forall|j: int| 0 <= j < groups@.len() ==> (#[trigger] groups@[j]).code@ == codes[j],
                found is None ==> forall|j: int| 0 <= j < k ==> codes[j] != e.code@,
                found matches Some(f) ==> f < groups@.len() && codes[f as int] == e.code@,
            decreases groups.len() - k,
        {
            if found.is_none() && groups[k].code == e.code {
                found = Some(k);
            }
            k += 1;
        }
        // Every group's errors, with the new issue added to the group of its code.
        match found {
            Some(f) => {
                let ghost before = groups@;
                proof {
                    assert(codes.contains(e.code@));
                    assert(groups@[f as int].count == groups@[f as int].errors@.len());
                    assert(groups@[f as int].count <= i) by {
                        lemma_with_code_len(prefix, codes[f as int]);
                    }
                }
                let g = &mut groups[f];
                g.errors.push(copy_error(e));
                g.count = g.count + 1;
                proof {
                    assert(codes_in_order(next) == codes);
                    assert forall|j: int| 0 <= j < groups@.len() implies {
                        &&& (#[trigger] groups@[j]).code@ == codes_in_order(next)[j]
                        &&& groups@[j].errors@ == with_code(next, codes_in_order(next)[j])
                        &&& groups@[j].count == groups@[j].errors@.len()
                    } by {
                        if j != f {
                            assert(groups@[j] == before[j]);
                            assert(codes[j] != e.code@) by {
                                lemma_codes_distinct(prefix);
                            }
                        }
                    }
                }
            },
            None => {
                proof {
                    assert(!codes.contains(e.code@));
                }
                let mut members: Vec<ValidationError> = Vec::new();
                members.push(copy_error(e));
                let ghost before = groups@;
                groups.push(GroupedErrors { code: e.code.clone(), count: 1, errors: members });
                proof {
                    assert(codes_in_order(next) == codes.push(e.code@));
                    lemma_with_code_absent(prefix, e.code@);
                    assert(with_code(next, e.code@) =~= seq![*e]);
                    assert forall|j: int| 0 <= j < groups@.len() implies {
                        &&& (#[trigger] groups@[j]).code@ == codes_in_order(next)[j]
                        &&& groups@[j].errors@ == with_code(next, codes_in_order(next)[j])
                        &&& groups@[j].count == groups@[j].errors@.len()
                    } by {
                        if j < before.len() {
                            assert(groups@[j] == before[j]);
                        }
                    }
                }
            },
        }
        i += 1;
    }
    proof {
        assert(errors@.subrange(0, i as int) =~= errors@);
    }
    groups
}

proof fn lemma_with_code_len(es: Seq<ValidationError>, code: Seq<char>)
    ensures
        with_code(es, code).len() <= es.len(),
    decreases es.len(),
{
    if es.len() > 0 {
        lemma_with_code_len(es.drop_last(), code);
    }
}

proof fn lemma_with_code_absent(es: Seq<ValidationError>, code: Seq<char>)
    requires
        !codes_in_order(es).contains(code),
    ensures
        with_code(es, code).len() == 0,
    decreases es.len(),
{
    if es.len() > 0 {
        let rest = codes_in_order(es.drop_last());
        if rest.contains(code) {
            let idx = choose|idx: int| 0 <= idx < rest.len() && rest[idx] == code;
            assert(codes_in_order(es)[idx] == code);
            assert(codes_in_order(es).contains(code));
        }
        if es.last().code@ == code {
            if !rest.contains(es.last().code@) {
                assert(codes_in_order(es) == rest.push(code));
                assert(codes_in_order(es).last() == code);
            }
        }
        lemma_with_code_absent(es.drop_last(), code);
    }
}

proof fn lemma_codes_distinct(es: Seq<ValidationError>)
    ensures
        forall|a: int, b: int|
            0 <= a < b < codes_in_order(es).len() ==> codes_in_order(es)[a] != codes_in_order(
                es,
            )[b],
    decreases es.len(),
{
    if es.len() > 0 {
        lemma_codes_distinct(es.drop_last());
        let rest = codes_in_order(es.drop_last());
        if !rest.contains(es.last().code@) {
            assert forall|a: int, b: int|
                0 <= a < b < codes_in_order(es).len() implies codes_in_order(es)[a]
                != codes_in_order(es)[b] by {
                if b == rest.len() {
                    assert(rest[a] != es.last().code@);
                }
            }
        }
    }
}

} // verus!

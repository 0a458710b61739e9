//! What can go wrong: when a schema is compiled, when a reference is
//! resolved, and when an instance is validated.
use crate::paths::JsonPointer;
use vstd::prelude::*;

verus! {

/// The primitive types that the keyword `type` can ask for.
#[derive(Clone, Copy, Debug, PartialEq, Eq, Structural)]
pub enum PrimitiveType {
    Array,
    Boolean,
    Integer,
    Null,
    Number,
    Object,
    String,
}

/// Why a schema could not be compiled.
#[derive(Clone, Copy, Debug, PartialEq, Eq, Structural)]
pub enum CompileError {
    /// A reference and the scope around it do not combine into a URL.
    InvalidReference,
    /// The value is no schema of the dialect in use.
    InvalidSchema,
    /// A keyword's value does not have the shape that the keyword asks for.
    InvalidKeyword,
}

/// Why a reference's target could not be found.
#[derive(Clone, Copy, Debug, PartialEq, Eq, Structural)]
pub enum ResolutionError {
    /// The target is no URL.
    InvalidTarget,
    /// The target lies in a document that the resolver does not hold.
    UnknownDocument,
    /// The document has no value where the target's fragment points.
    MissingFragment,
}

/// What an instance was found to violate.
#[derive(Clone, Copy, Debug, PartialEq, Eq, Structural)]
pub enum ErrorKind {
    /// The instance is not of the type asked for.
    Type(PrimitiveType),
    /// The schema `false` admits no instance.
    FalseSchema,
    /// A reference's target could not be found.
    ResolutionFailure(ResolutionError),
    /// A reference's target is no schema that compiles.
    CompileFailure(CompileError),
    /// References lead from one to the next without end.
    ReferenceLoop,
}

/// The mathematical model of a violation.
pub struct ErrorView {
    pub kind: ErrorKind,
    pub schema_path: Seq<Seq<char>>,
    pub instance_path: Seq<Seq<char>>,
}

impl ErrorView {
    /// This violation, reported from behind a reference that stands at
    /// `prefix` in the schema.
    pub open spec fn behind(self, prefix: Seq<Seq<char>>) -> ErrorView {
        ErrorView {
            kind: self.kind,
            schema_path: prefix + self.schema_path,
            instance_path: self.instance_path,
        }
    }
}

/// One violation: what was violated, the keyword that found it and the value
/// that it was found in.
#[derive(Debug, PartialEq, Eq)]
pub struct ValidationError {
    kind: ErrorKind,
    schema_path: JsonPointer,
    instance_path: JsonPointer,
}

impl View for ValidationError {
    type V = ErrorView;

    closed spec fn view(&self) -> ErrorView {
        ErrorView {
            kind: self.kind,
            schema_path: self.schema_path@,
            instance_path: self.instance_path@,
        }
    }
}

/// The models of a list of violations, in the same order.
pub open spec fn error_views(errors: Seq<ValidationError>) -> Seq<ErrorView> {
    errors.map_values(|error: ValidationError| error@)
}

/// Each of `errors` as it is reported from behind a reference at `prefix`.
pub open spec fn all_behind(errors: Seq<ErrorView>, prefix: Seq<Seq<char>>) -> Seq<ErrorView> {
    errors.map_values(|error: ErrorView| error.behind(prefix))
}

impl ValidationError {
    /// A violation of `kind`, found by the keyword at `schema_path` in the
    /// value at `instance_path`.
    pub fn new(kind: ErrorKind, schema_path: JsonPointer, instance_path: JsonPointer) -> (error:
        ValidationError)
        ensures
            error@ == (ErrorView {
                kind,
                schema_path: schema_path@,
                instance_path: instance_path@,
            }),
    {
        ValidationError { kind, schema_path, instance_path }
    }

    /// What was violated.
    pub fn kind(&self) -> (kind: ErrorKind)
        ensures
            kind == self@.kind,
    {
        self.kind
    }

    /// The path from the schema's root to the keyword that found the
    /// violation.
    pub fn schema_path(&self) -> (path: &JsonPointer)
        ensures
            path@ == self@.schema_path,
    {
        &self.schema_path
    }

    /// The path from the instance's root to the offending value.
    pub fn instance_path(&self) -> (path: &JsonPointer)
        ensures
            path@ == self@.instance_path,
    {
        &self.instance_path
    }

    /// This violation, reported from behind a reference at `prefix`.
    pub fn behind(&self, prefix: &JsonPointer) -> (error: ValidationError)
        ensures
            error@ == self@.behind(prefix@),
    {
        ValidationError {
            kind: self.kind,
            schema_path: prefix.extend_with(&self.schema_path),
            instance_path: self.instance_path.duplicate(),
        }
    }
}

/// A list that holds the one violation described.
pub fn single_error(kind: ErrorKind, schema_path: &JsonPointer, instance_path: &JsonPointer) -> (errors:
    Vec<ValidationError>)
    ensures
        error_views(errors@) == seq![
            ErrorView { kind, schema_path: schema_path@, instance_path: instance_path@ },
        ],
{
    let mut errors: Vec<ValidationError> = Vec::new();
    errors.push(ValidationError::new(kind, schema_path.duplicate(), instance_path.duplicate()));
    assert(error_views(errors@) =~= seq![
        ErrorView { kind, schema_path: schema_path@, instance_path: instance_path@ },
    ]);
    errors
}

/// Each of `errors` as it is reported from behind a reference at `prefix`.
pub fn prefix_errors(errors: &Vec<ValidationError>, prefix: &JsonPointer) -> (prefixed: Vec<
    ValidationError,
>)
    ensures
        error_views(prefixed@) == all_behind(error_views(errors@), prefix@),
{
    let mut prefixed: Vec<ValidationError> = Vec::new();
    let mut i: usize = 0;
    while i < errors.len()
        invariant
            i <= errors.len(),
            prefixed@.len() == i,
            forall|k: int| 0 <= k < i ==> (#[trigger] prefixed@[k])@ == errors@[k]@.behind(prefix@),
        decreases errors.len() - i,
    {
        prefixed.push(errors[i].behind(prefix));
        i += 1;
    }
    assert(error_views(prefixed@) =~= all_behind(error_views(errors@), prefix@));
    prefixed
}

/// Moves the violations of `more` behind those of `errors`.
pub fn append_errors(errors: &mut Vec<ValidationError>, more: Vec<ValidationError>)
    ensures
        error_views(final(errors)@) == error_views(old(errors)@) + error_views(more@),
{
    let mut more = more;
    let ghost added = more@;
    errors.append(&mut more);
    assert(error_views(errors@) =~= error_views(old(errors)@) + error_views(added));
}

} // verus!

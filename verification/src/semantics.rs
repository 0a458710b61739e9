//! What compiled validators are, as mathematical values, and what they say
//! of an instance.
use crate::context::ContextView;
use crate::error::{all_behind, CompileError, ErrorKind, ErrorView, PrimitiveType};
use crate::json::{position, JsonValue};
use crate::resolver::{reference_keyword, resolved, Draft, ResolverView};
use vstd::prelude::*;

verus! {

/// The model of a reference: the URL it points to, where it stands in its
/// schema, and the dialect and resolver under which its target is read.
pub struct RefView {
    pub target: Seq<char>,
    pub schema_path: Seq<Seq<char>>,
    pub draft: Draft,
    pub resolver: ResolverView,
}

/// The model of one compiled keyword.
pub enum ValidatorView {
    Type { expected: PrimitiveType, schema_path: Seq<Seq<char>> },
    False { schema_path: Seq<Seq<char>> },
    Properties { members: Seq<(Seq<char>, NodeView)> },
    Reference(RefView),
}

/// The model of a compiled schema: its keywords' validators in order, and
/// how many references may follow one another on one instance value.
pub struct NodeView {
    pub validators: Seq<ValidatorView>,
    pub limit: nat,
}

/// The name of the keyword that asks for a type.
pub open spec fn type_keyword() -> Seq<char> {
    "type"@
}

/// The name of the keyword that holds a schema for each named member.
pub open spec fn properties_keyword() -> Seq<char> {
    "properties"@
}

/// The primitive type that a name stands for.
pub open spec fn primitive_named(name: Seq<char>) -> Option<PrimitiveType> {
    if name == "array"@ {
        Some(PrimitiveType::Array)
    } else if name == "boolean"@ {
        Some(PrimitiveType::Boolean)
    } else if name == "integer"@ {
        Some(PrimitiveType::Integer)
    } else if name == "null"@ {
        Some(PrimitiveType::Null)
    } else if name == "number"@ {
        Some(PrimitiveType::Number)
    } else if name == "object"@ {
        Some(PrimitiveType::Object)
    } else if name == "string"@ {
        Some(PrimitiveType::String)
    } else {
        None
    }
}

/// Whether a value is of a primitive type. An integer is a number too.
pub open spec fn has_type(value: JsonValue, expected: PrimitiveType) -> bool {
    match expected {
        PrimitiveType::Array => value is Array,
        PrimitiveType::Boolean => value is Bool,
        PrimitiveType::Integer => value is Integer,
        PrimitiveType::Null => value is Null,
        PrimitiveType::Number => value is Integer || value is Decimal,
        PrimitiveType::Object => value is Object,
        PrimitiveType::String => value is String,
    }
}

/// The validator of a reference written in `context`. The target is
/// neither resolved nor compiled here.
pub open spec fn compiled_reference(reference: Seq<char>, context: ContextView) -> Result<
    RefView,
    CompileError,
> {
    match context.target_of(reference) {
        Ok(target) => Ok(
            RefView {
                target,
                schema_path: context.schema_path,
                draft: context.draft,
                resolver: context.resolver,
            },
        ),
        Err(error) => Err(error),
    }
}

/// What a schema compiles to in `context`. A boolean is a schema in every
/// dialect but the first. An object with a member `$ref` is that reference
/// and nothing else; any other object is its keywords in order.
pub open spec fn compiled(schema: JsonValue, context: ContextView) -> Result<NodeView, CompileError>
    decreases schema, 0nat,
{
    match schema {
        JsonValue::Bool(admits) => if context.draft == Draft::Draft4 {
            Err(CompileError::InvalidSchema)
        } else if admits {
            Ok(NodeView { validators: Seq::empty(), limit: context.resolver.limit })
        } else {
            Ok(
                NodeView {
                    validators: seq![ValidatorView::False { schema_path: context.schema_path }],
                    limit: context.resolver.limit,
                },
            )
        },
        JsonValue::Object(members) => match schema.member(reference_keyword()) {
            Some(JsonValue::String(reference)) => match compiled_reference(reference, context) {
                Ok(validator) => Ok(
                    NodeView {
                        validators: seq![ValidatorView::Reference(validator)],
                        limit: context.resolver.limit,
                    },
                ),
                Err(error) => Err(error),
            },
            Some(_) => Err(CompileError::InvalidKeyword),
            None => match compiled_keywords(members, members.len() as int, context) {
                Ok(validators) => Ok(NodeView { validators, limit: context.resolver.limit }),
                Err(error) => Err(error),
            },
        },
        _ => Err(CompileError::InvalidSchema),
    }
}

/// What the first `upto` members of a schema object compile to: the
/// validators of those that are keywords, in order, or the first error.
pub open spec fn compiled_keywords(
    members: Seq<(Seq<char>, JsonValue)>,
    upto: int,
    context: ContextView,
) -> Result<Seq<ValidatorView>, CompileError>
    decreases members, upto,
{
    if upto <= 0 || upto > members.len() {
        Ok(Seq::empty())
    } else {
        match compiled_keywords(members, upto - 1, context) {
            Err(error) => Err(error),
            Ok(validators) => match compiled_keyword(
                members[upto - 1].0,
                members[upto - 1].1,
                context,
            ) {
                Err(error) => Err(error),
                Ok(Some(validator)) => Ok(validators.push(validator)),
                Ok(None) => Ok(validators),
            },
        }
    }
}

/// What one member of a schema object compiles to; `None` for a member that
/// is no keyword.
pub open spec fn compiled_keyword(name: Seq<char>, value: JsonValue, context: ContextView) -> Result<
    Option<ValidatorView>,
    CompileError,
>
    decreases value, 0nat,
{
    if name == type_keyword() {
        match value {
            JsonValue::String(wanted) => match primitive_named(wanted) {
                Some(expected) => Ok(
                    Some(
                        ValidatorView::Type {
                            expected,
                            schema_path: context.schema_path.push(type_keyword()),
                        },
                    ),
                ),
                None => Err(CompileError::InvalidKeyword),
            },
            _ => Err(CompileError::InvalidKeyword),
        }
    } else if name == properties_keyword() {
        match value {
            JsonValue::Object(properties) => match compiled_properties(
                properties,
                properties.len() as int,
                context.with(properties_keyword()),
            ) {
                Ok(members) => Ok(Some(ValidatorView::Properties { members })),
                Err(error) => Err(error),
            },
            _ => Err(CompileError::InvalidKeyword),
        }
    } else {
        Ok(None)
    }
}

/// What the first `upto` members of the value of `properties` compile to:
/// each name with its schema compiled, or the first error.
pub open spec fn compiled_properties(
    properties: Seq<(Seq<char>, JsonValue)>,
    upto: int,
    context: ContextView,
) -> Result<Seq<(Seq<char>, NodeView)>, CompileError>
    decreases properties, upto,
{
    if upto <= 0 || upto > properties.len() {
        Ok(Seq::empty())
    } else {
        match compiled_properties(properties, upto - 1, context) {
            Err(error) => Err(error),
            Ok(members) => match compiled(
                properties[upto - 1].1,
                context.with(properties[upto - 1].0),
            ) {
                Err(error) => Err(error),
                Ok(node) => Ok(members.push((properties[upto - 1].0, node))),
            },
        }
    }
}

/// What a reference stands for: its target, resolved and compiled at the
/// root of a context of the scope found there; or the violation that is
/// reported where that fails.
pub open spec fn target_node(resolver: ResolverView, draft: Draft, target: Seq<char>) -> Result<
    NodeView,
    ErrorKind,
> {
    match resolved(resolver, draft, target) {
        Err(error) => Err(ErrorKind::ResolutionFailure(error)),
        Ok((scope, schema)) => match compiled(
            schema,
            ContextView { scope, draft, resolver, schema_path: Seq::empty() },
        ) {
            Err(error) => Err(ErrorKind::CompileFailure(error)),
            Ok(node) => Ok(node),
        },
    }
}

impl RefView {
    /// What this reference stands for.
    pub open spec fn target_node(self) -> Result<NodeView, ErrorKind> {
        target_node(self.resolver, self.draft, self.target)
    }

    /// The violations that this reference reports of `instance`, which
    /// stands at `at`, when `hops` more references may follow.
    pub open spec fn errors(self, instance: JsonValue, at: Seq<Seq<char>>, hops: nat) -> Seq<
        ErrorView,
    > {
        validator_errors(ValidatorView::Reference(self), instance, at, hops)
    }

    /// Whether this reference admits `instance` when `hops` more references
    /// may follow.
    pub open spec fn accepts(self, instance: JsonValue, hops: nat) -> bool {
        validator_accepts(ValidatorView::Reference(self), instance, hops)
    }
}

/// The one violation of `kind` found by the keyword at `schema_path` in the
/// value at `at`.
pub open spec fn one_error(kind: ErrorKind, schema_path: Seq<Seq<char>>, at: Seq<Seq<char>>) -> Seq<
    ErrorView,
> {
    seq![ErrorView { kind, schema_path, instance_path: at }]
}

/// The violations that a compiled schema reports of `instance`, which stands
/// at `at`: those of its validators, in order. `hops` is the number of
/// references that may still follow one another on this instance value.
pub open spec fn node_errors(node: NodeView, instance: JsonValue, at: Seq<Seq<char>>, hops: nat) -> Seq<
    ErrorView,
>
    decreases instance, hops, node, 0nat,
{
    errors_upto(node.validators, node.validators.len() as int, instance, at, hops)
}

/// The violations that the first `upto` of `validators` report.
pub open spec fn errors_upto(
    validators: Seq<ValidatorView>,
    upto: int,
    instance: JsonValue,
    at: Seq<Seq<char>>,
    hops: nat,
) -> Seq<ErrorView>
    decreases instance, hops, validators, upto,
{
    if upto <= 0 || upto > validators.len() {
        Seq::empty()
    } else {
        errors_upto(validators, upto - 1, instance, at, hops) + validator_errors(
            validators[upto - 1],
            instance,
            at,
            hops,
        )
    }
}

/// The violations that one validator reports.
///
/// A reference reports what its target reports, each violation with the
/// reference's own place in the schema put in front of the violation's; one
/// violation at its own place where the target cannot be had; and one where
/// no more references may follow.
pub open spec fn validator_errors(
    validator: ValidatorView,
    instance: JsonValue,
    at: Seq<Seq<char>>,
    hops: nat,
) -> Seq<ErrorView>
    decreases instance, hops, validator, 0nat,
{
    match validator {
        ValidatorView::Type { expected, schema_path } => if has_type(instance, expected) {
            Seq::empty()
        } else {
            one_error(ErrorKind::Type(expected), schema_path, at)
        },
        ValidatorView::False { schema_path } => one_error(ErrorKind::FalseSchema, schema_path, at),
        ValidatorView::Properties { members } => property_errors(
            members,
            members.len() as int,
            instance,
            at,
            hops,
        ),
        ValidatorView::Reference(reference) => if hops == 0 {
            one_error(ErrorKind::ReferenceLoop, reference.schema_path, at)
        } else {
            match reference.target_node() {
                Err(kind) => one_error(kind, reference.schema_path, at),
                Ok(node) => all_behind(
                    node_errors(node, instance, at, (hops - 1) as nat),
                    reference.schema_path,
                ),
            }
        },
    }
}

/// The violations that the first `upto` schemas of `properties` report:
/// each is asked about the member of its name, where `instance` is an
/// object that has one. The count of references starts anew there.
pub open spec fn property_errors(
    members: Seq<(Seq<char>, NodeView)>,
    upto: int,
    instance: JsonValue,
    at: Seq<Seq<char>>,
    hops: nat,
) -> Seq<ErrorView>
    decreases instance, hops, members, upto,
{
    if upto <= 0 || upto > members.len() {
        Seq::empty()
    } else {
        let (name, node) = members[upto - 1];
        property_errors(members, upto - 1, instance, at, hops) + (match instance {
            JsonValue::Object(fields) => {
                let i = position(fields, name, 0);
                if 0 <= i < fields.len() {
                    node_errors(node, fields[i].1, at.push(name), node.limit)
                } else {
                    Seq::empty()
                }
            },
            _ => Seq::empty(),
        })
    }
}

/// Whether a compiled schema admits `instance`: every validator does.
pub open spec fn node_accepts(node: NodeView, instance: JsonValue, hops: nat) -> bool
    decreases instance, hops, node, 0nat,
{
    forall|i: int|
        0 <= i < node.validators.len() ==> validator_accepts(
            #[trigger] node.validators[i],
            instance,
            hops,
        )
}

/// Whether one validator admits `instance`.
pub open spec fn validator_accepts(validator: ValidatorView, instance: JsonValue, hops: nat) -> bool
    decreases instance, hops, validator, 0nat,
{
    match validator {
        ValidatorView::Type { expected, .. } => has_type(instance, expected),
        ValidatorView::False { .. } => false,
        ValidatorView::Properties { members } => forall|k: int|
            0 <= k < members.len() ==> property_accepts(#[trigger] members[k], instance, hops),
        ValidatorView::Reference(reference) => hops > 0 && (match reference.target_node() {
            Err(_) => false,
            Ok(node) => node_accepts(node, instance, (hops - 1) as nat),
        }),
    }
}

/// Whether the schema of one property admits the member of its name, where
/// `instance` is an object that has one.
pub open spec fn property_accepts(member: (Seq<char>, NodeView), instance: JsonValue, hops: nat) -> bool
    decreases instance, hops, member, 0nat,
{
    match instance {
        JsonValue::Object(fields) => {
            let i = position(fields, member.0, 0);
            0 <= i < fields.len() ==> node_accepts(member.1, fields[i].1, member.1.limit)
        },
        _ => true,
    }
}

} // verus!

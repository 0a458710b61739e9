//! Compiling a schema into validators.
use crate::context::CompilationContext;
use crate::error::{CompileError, PrimitiveType};
use crate::json::{lemma_field_is_smaller, lemma_object_view, same_text, Json, JsonValue};
use crate::node::{validator_views, SchemaNode, Validator};
use crate::reference::RefValidator;
use crate::resolver::Draft;
use crate::semantics::{
    compiled, compiled_keyword, compiled_keywords, compiled_properties, primitive_named, NodeView,
    ValidatorView,
};
use vstd::prelude::*;

verus! {

/// The primitive type that a name stands for.
pub fn primitive_type(name: &str) -> (found: Option<PrimitiveType>)
    ensures
        found == primitive_named(name@),
{
    if same_text(name, "array") {
        Some(PrimitiveType::Array)
    } else if same_text(name, "boolean") {
        Some(PrimitiveType::Boolean)
    } else if same_text(name, "integer") {
        Some(PrimitiveType::Integer)
    } else if same_text(name, "null") {
        Some(PrimitiveType::Null)
    } else if same_text(name, "number") {
        Some(PrimitiveType::Number)
    } else if same_text(name, "object") {
        Some(PrimitiveType::Object)
    } else if same_text(name, "string") {
        Some(PrimitiveType::String)
    } else {
        None
    }
}

/// Once a keyword has failed to compile, that error is the outcome however
/// many more members are taken in.
pub proof fn lemma_keyword_error_stays(
    members: Seq<(Seq<char>, JsonValue)>,
    upto: int,
    later: int,
    context: crate::context::ContextView,
)
    requires
        0 <= upto <= later <= members.len(),
        compiled_keywords(members, upto, context) is Err,
    ensures
        compiled_keywords(members, later, context) == compiled_keywords(members, upto, context),
    decreases later - upto,
{
    if upto < later {
        lemma_keyword_error_stays(members, upto, later - 1, context);
    }
}

/// Once a property's schema has failed to compile, that error is the outcome
/// however many more properties are taken in.
pub proof fn lemma_property_error_stays(
    properties: Seq<(Seq<char>, JsonValue)>,
    upto: int,
    later: int,
    context: crate::context::ContextView,
)
    requires
        0 <= upto <= later <= properties.len(),
        compiled_properties(properties, upto, context) is Err,
    ensures
        compiled_properties(properties, later, context) == compiled_properties(
            properties,
            upto,
            context,
        ),
    decreases later - upto,
{
    if upto < later {
        lemma_property_error_stays(properties, upto, later - 1, context);
    }
}

/// Compiles a schema into its validators. A reference in it becomes a
/// validator that holds the target's URL: the target itself is not compiled
/// here.
pub fn compile_validators(schema: &Json, context: &CompilationContext) -> (node: Result<
    SchemaNode,
    CompileError,
>)
    ensures
        match node {
            Ok(made) => compiled(schema@, context@) == Ok::<NodeView, CompileError>(made@),
            Err(error) => compiled(schema@, context@) == Err::<NodeView, CompileError>(error),
        },
    decreases schema@, 0nat,
{
    let limit = context.resolver().reference_limit();
    match schema {
        Json::Bool(admits) => {
            if context.config().draft() == Draft::Draft4 {
                return Err(CompileError::InvalidSchema);
            }
            let mut validators: Vec<Validator> = Vec::new();
            if !*admits {
                validators.push(Validator::False { schema_path: context.schema_path().duplicate() });
                assert(validator_views(validators@) =~= seq![
                    ValidatorView::False { schema_path: context@.schema_path },
                ]);
            } else {
                assert(validator_views(validators@) =~= Seq::<ValidatorView>::empty());
            }
            Ok(SchemaNode::new(validators, limit))
        },
        Json::Object(members) => {
            proof {
                lemma_object_view(*schema);
            }
            match schema.member("$ref") {
                Some(Json::String(reference)) => {
                    match RefValidator::compile(reference.as_str(), context) {
                        Ok(made) => {
                            let mut validators: Vec<Validator> = Vec::new();
                            let ghost model = made@;
                            validators.push(Validator::Reference(made));
                            assert(validator_views(validators@) =~= seq![
                                ValidatorView::Reference(model),
                            ]);
                            Ok(SchemaNode::new(validators, limit))
                        },
                        Err(error) => Err(error),
                    }
                },
                Some(_) => Err(CompileError::InvalidKeyword),
                None => {
                    let ghost model = schema@->Object_0;
                    let mut validators: Vec<Validator> = Vec::new();
                    let mut i: usize = 0;
                    assert(validator_views(validators@) =~= Seq::<ValidatorView>::empty());
                    while i < members.len()
                        invariant
                            i <= members.len(),
                            schema@ == JsonValue::Object(model),
                            schema@.member(crate::resolver::reference_keyword()) is None,
                            model.len() == members.len(),
                            forall|k: int|
                                0 <= k < members.len() ==> #[trigger] model[k] == (
                                    members[k].0@,
                                    members[k].1@,
                                ),
                            compiled_keywords(model, i as int, context@) == Ok::<
                                Seq<ValidatorView>,
                                CompileError,
                            >(validator_views(validators@)),
                        decreases members.len() - i,
                    {
                        proof {
                            lemma_field_is_smaller(schema@, i as int);
                        }
                        assert(model[i as int] == (members[i as int].0@, members[i as int].1@));
                        match compile_keyword(members[i].0.as_str(), &members[i].1, context) {
                            Ok(Some(made)) => {
                                let ghost before = validator_views(validators@);
                                let ghost view = made@;
                                validators.push(made);
                                assert(validator_views(validators@) =~= before.push(view));
                            },
                            Ok(None) => {},
                            Err(error) => {
                                proof {
                                    assert(compiled_keywords(model, i + 1, context@) == Err::<
                                        Seq<ValidatorView>,
                                        CompileError,
                                    >(error));
                                    lemma_keyword_error_stays(
                                        model,
                                        i + 1,
                                        model.len() as int,
                                        context@,
                                    );
                                }
                                return Err(error);
                            },
                        }
                        i += 1;
                    }
                    Ok(SchemaNode::new(validators, limit))
                },
            }
        },
        _ => Err(CompileError::InvalidSchema),
    }
}

/// Compiles one member of a schema object; `None` for a member that is no
/// keyword.
pub fn compile_keyword(name: &str, value: &Json, context: &CompilationContext) -> (validator:
    Result<Option<Validator>, CompileError>)
    ensures
        match validator {
            Ok(Some(made)) => compiled_keyword(name@, value@, context@) == Ok::<
                Option<ValidatorView>,
                CompileError,
            >(Some(made@)),
            Ok(None) => compiled_keyword(name@, value@, context@) == Ok::<
                Option<ValidatorView>,
                CompileError,
            >(None),
            Err(error) => compiled_keyword(name@, value@, context@) == Err::<
                Option<ValidatorView>,
                CompileError,
            >(error),
        },
    decreases value@, 0nat,
{
    if same_text(name, "type") {
        match value {
            Json::String(wanted) => match primitive_type(wanted.as_str()) {
                Some(expected) => Ok(
                    Some(
                        Validator::Type {
                            expected,
                            schema_path: context.schema_path().with("type"),
                        },
                    ),
                ),
                None => Err(CompileError::InvalidKeyword),
            },
            _ => Err(CompileError::InvalidKeyword),
        }
    } else if same_text(name, "properties") {
        match value {
            Json::Object(properties) => {
                proof {
                    lemma_object_view(*value);
                }
                let ghost model = value@->Object_0;
                let inner = context.with("properties");
                let mut members: Vec<(String, SchemaNode)> = Vec::new();
                let mut k: usize = 0;
                while k < properties.len()
                    invariant
                        k <= properties.len(),
                        value@ == JsonValue::Object(model),
                        name@ == crate::semantics::properties_keyword(),
                        name@ != crate::semantics::type_keyword(),
                        inner@ == context@.with(crate::semantics::properties_keyword()),
                        model.len() == properties.len(),
                        forall|j: int|
                            0 <= j < properties.len() ==> #[trigger] model[j] == (
                                properties[j].0@,
                                properties[j].1@,
                            ),
                        members@.len() == k,
                        compiled_properties(model, k as int, inner@) is Ok,
                        compiled_properties(model, k as int, inner@)->Ok_0.len() == k,
                        forall|j: int|
                            0 <= j < k ==> compiled_properties(model, k as int, inner@)->Ok_0[j]
                                == ((#[trigger] members@[j]).0@, members@[j].1@),
                    decreases properties.len() - k,
                {
                    proof {
                        lemma_field_is_smaller(value@, k as int);
                    }
                    assert(model[k as int] == (properties[k as int].0@, properties[k as int].1@));
                    let place = inner.with(properties[k].0.as_str());
                    match compile_validators(&properties[k].1, &place) {
                        Ok(node) => {
                            members.push((properties[k].0.clone(), node));
                        },
                        Err(error) => {
                            proof {
                                assert(compiled_properties(model, k + 1, inner@) == Err::<
                                    Seq<(Seq<char>, NodeView)>,
                                    CompileError,
                                >(error));
                                lemma_property_error_stays(
                                    model,
                                    k + 1,
                                    model.len() as int,
                                    inner@,
                                );
                            }
                            return Err(error);
                        },
                    }
                    k += 1;
                }
                let made = Validator::Properties { members };
                proof {
                    crate::node::lemma_properties_view(made);
                    assert(made@->members =~= compiled_properties(
                        model,
                        model.len() as int,
                        inner@,
                    )->Ok_0);
                }
                Ok(Some(made))
            },
            _ => Err(CompileError::InvalidKeyword),
        }
    } else {
        Ok(None)
    }
}

} // verus!

use schema_ref::compile::compile_validators;
use schema_ref::context::{CompilationContext, CompilationOptions};
use schema_ref::error::{CompileError, ErrorKind, PrimitiveType, ResolutionError};
use schema_ref::json::Json;
use schema_ref::node::{SchemaNode, Validator};
use schema_ref::paths::JsonPointer;
use schema_ref::reference::{compile, RefValidator};
use schema_ref::resolver::{Draft, Resolver};
use std::sync::Arc;

const SCOPE: &str = "json-schema:///";

fn text(value: &str) -> Json {
    Json::String(value.to_string())
}

fn object(members: Vec<(&str, Json)>) -> Json {
    Json::Object(members.into_iter().map(|(name, value)| (name.to_string(), value)).collect())
}

fn reference_to(target: &str) -> Json {
    object(vec![("$ref", text(target))])
}

fn context_for(document: Json, draft: Draft) -> CompilationContext {
    CompilationContext::new(
        SCOPE.to_string(),
        Arc::new(CompilationOptions::new(draft)),
        Arc::new(Resolver::new(SCOPE.to_string(), document)),
    )
}

fn compiled(document: Json) -> SchemaNode {
    let context = context_for(document, Draft::Draft7);
    let root = context.resolver().document();
    compile_validators(root, &context).expect("the schema compiles")
}

fn schema_paths(node: &SchemaNode, instance: &Json) -> Vec<String> {
    node.validate(instance, &JsonPointer::new())
        .iter()
        .map(|error| error.schema_path().to_string())
        .collect()
}

/// `{"properties": {"foo": {"$ref": "#/definitions/foo"}},
///   "definitions": {"foo": {"type": "string"}}}`
fn foo_schema() -> Json {
    object(vec![
        ("properties", object(vec![("foo", reference_to("#/definitions/foo"))])),
        ("definitions", object(vec![("foo", object(vec![("type", text("string"))]))])),
    ])
}

/// A list whose every `next` is a list again and whose `value` is an
/// integer: `{"properties": {"value": {"type": "integer"}, "next": {"$ref": "#"}}}`
fn list_schema() -> Json {
    object(vec![(
        "properties",
        object(vec![
            ("value", object(vec![("type", text("integer"))])),
            ("next", reference_to("#")),
        ]),
    )])
}

fn list_of(values: &[Json]) -> Json {
    match values.split_first() {
        None => Json::Null,
        Some((first, rest)) => {
            let mut members = vec![("value", first.duplicate())];
            if !rest.is_empty() {
                members.push(("next", list_of(rest)));
            }
            object(members)
        }
    }
}

#[test]
fn schema_path() {
    let node = compiled(foo_schema());
    let instance = object(vec![("foo", Json::Integer(42))]);
    let errors = node.validate(&instance, &JsonPointer::new());
    assert_eq!(errors.len(), 1);
    assert_eq!(errors[0].schema_path().to_string(), "/properties/foo/type");
}

#[test]
fn violation_names_kind_and_instance_path() {
    let node = compiled(foo_schema());
    let instance = object(vec![("foo", Json::Integer(42))]);
    let errors = node.validate(&instance, &JsonPointer::new());
    assert_eq!(errors.len(), 1);
    assert_eq!(errors[0].kind(), ErrorKind::Type(PrimitiveType::String));
    assert_eq!(errors[0].instance_path().to_string(), "/foo");
}

#[test]
fn resolved_reference_admits_what_its_target_admits() {
    let node = compiled(foo_schema());
    let good = object(vec![("foo", text("bar"))]);
    assert!(node.is_valid(&good));
    assert!(node.validate(&good, &JsonPointer::new()).is_empty());
    let bad = object(vec![("foo", Json::Integer(42))]);
    assert!(!node.is_valid(&bad));
}

#[test]
fn path_is_composed_alike_on_every_call() {
    let node = compiled(foo_schema());
    let instance = object(vec![("foo", Json::Integer(42))]);
    let first = schema_paths(&node, &instance);
    let second = schema_paths(&node, &instance);
    let third = schema_paths(&node, &instance);
    assert_eq!(first, vec!["/properties/foo/type".to_string()]);
    assert_eq!(second, first);
    assert_eq!(third, first);
}

#[test]
fn check_first_then_validate_composes_the_same_path() {
    let node = compiled(foo_schema());
    let instance = object(vec![("foo", Json::Integer(42))]);
    assert!(!node.is_valid(&instance));
    assert_eq!(schema_paths(&node, &instance), vec!["/properties/foo/type".to_string()]);
}

#[test]
fn repeated_checks_agree() {
    let node = compiled(foo_schema());
    let good = object(vec![("foo", text("bar"))]);
    let bad = object(vec![("foo", Json::Bool(true))]);
    for _ in 0..5 {
        assert!(node.is_valid(&good));
        assert!(!node.is_valid(&bad));
    }
}

#[test]
fn reference_path_is_prepended_directly() {
    let document = foo_schema();
    let context = context_for(document, Draft::Draft7)
        .with("first")
        .with("second");
    let validator = RefValidator::compile("#/definitions/foo", &context).expect("a valid reference");
    assert_eq!(validator.schema_path().to_string(), "/first/second");
    let at = JsonPointer::new().with("here");
    for _ in 0..2 {
        let errors = validator.validate(&Json::Integer(1), &at);
        assert_eq!(errors.len(), 1);
        assert_eq!(errors[0].schema_path().to_string(), "/first/second/type");
        assert_eq!(errors[0].instance_path().to_string(), "/here");
    }
    assert!(validator.is_valid(&text("yes")));
    assert!(validator.validate(&text("yes"), &at).is_empty());
}

#[test]
fn nested_references_compose_all_their_paths() {
    let document = object(vec![
        ("properties", object(vec![("a", reference_to("#/definitions/outer"))])),
        (
            "definitions",
            object(vec![
                (
                    "outer",
                    object(vec![(
                        "properties",
                        object(vec![("b", reference_to("#/definitions/inner"))]),
                    )]),
                ),
                ("inner", object(vec![("type", text("null"))])),
            ]),
        ),
    ]);
    let node = compiled(document);
    let instance = object(vec![("a", object(vec![("b", Json::Integer(0))]))]);
    let errors = node.validate(&instance, &JsonPointer::new());
    assert_eq!(errors.len(), 1);
    assert_eq!(errors[0].schema_path().to_string(), "/properties/a/properties/b/type");
    assert_eq!(errors[0].instance_path().to_string(), "/a/b");
}

#[test]
fn recursive_schema_compiles_and_validates_each_level() {
    let node = compiled(list_schema());
    let good = list_of(&[Json::Integer(1), Json::Integer(2), Json::Integer(3)]);
    assert!(node.is_valid(&good));
    assert!(node.validate(&good, &JsonPointer::new()).is_empty());

    let bad_deep = list_of(&[Json::Integer(1), Json::Integer(2), text("three")]);
    assert!(!node.is_valid(&bad_deep));
    let errors = node.validate(&bad_deep, &JsonPointer::new());
    assert_eq!(errors.len(), 1);
    assert_eq!(errors[0].instance_path().to_string(), "/next/next/value");
    assert_eq!(
        errors[0].schema_path().to_string(),
        "/properties/next/properties/next/properties/value/type"
    );

    let bad_twice = list_of(&[text("one"), Json::Integer(2), text("three")]);
    let errors = node.validate(&bad_twice, &JsonPointer::new());
    assert_eq!(errors.len(), 2);
    assert_eq!(errors[0].instance_path().to_string(), "/value");
    assert_eq!(errors[1].instance_path().to_string(), "/next/next/value");
}

#[test]
fn recursive_schema_follows_a_deep_instance() {
    let node = compiled(list_schema());
    let values: Vec<Json> = (0..200).map(Json::Integer).collect();
    assert!(node.is_valid(&list_of(&values)));
    let mut spoiled = values;
    spoiled.push(Json::Null);
    let errors = node.validate(&list_of(&spoiled), &JsonPointer::new());
    assert_eq!(errors.len(), 1);
    assert_eq!(errors[0].kind(), ErrorKind::Type(PrimitiveType::Integer));
    assert_eq!(errors[0].instance_path().len(), 201);
}

#[test]
fn reference_to_itself_alone_is_reported_not_followed_for_ever() {
    let node = compiled(reference_to("#"));
    assert!(!node.is_valid(&Json::Null));
    let errors = node.validate(&Json::Null, &JsonPointer::new());
    assert_eq!(errors.len(), 1);
    assert_eq!(errors[0].kind(), ErrorKind::ReferenceLoop);
}

#[test]
fn chain_of_references_is_followed_to_its_end() {
    let document = object(vec![
        ("$ref", text("#/definitions/a")),
        (
            "definitions",
            object(vec![
                ("a", reference_to("#/definitions/b")),
                ("b", reference_to("#/definitions/c")),
                ("c", object(vec![("type", text("boolean"))])),
            ]),
        ),
    ]);
    let node = compiled(document);
    assert!(node.is_valid(&Json::Bool(false)));
    let errors = node.validate(&Json::Integer(0), &JsonPointer::new());
    assert_eq!(errors.len(), 1);
    assert_eq!(errors[0].kind(), ErrorKind::Type(PrimitiveType::Boolean));
    assert_eq!(errors[0].schema_path().to_string(), "/type");
}

#[test]
fn missing_fragment_is_one_violation_for_any_instance() {
    let document = object(vec![
        ("properties", object(vec![("foo", reference_to("#/definitions/missing"))])),
        ("definitions", object(vec![])),
    ]);
    let node = compiled(document);
    for value in [Json::Null, Json::Integer(1), text("x"), object(vec![])] {
        let instance = object(vec![("foo", value)]);
        assert!(!node.is_valid(&instance));
        let errors = node.validate(&instance, &JsonPointer::new());
        assert_eq!(errors.len(), 1);
        assert_eq!(
            errors[0].kind(),
            ErrorKind::ResolutionFailure(ResolutionError::MissingFragment)
        );
        assert_eq!(errors[0].schema_path().to_string(), "/properties/foo");
        assert_eq!(errors[0].instance_path().to_string(), "/foo");
    }
}

#[test]
fn failed_resolution_is_tried_again_on_every_call() {
    let context = context_for(object(vec![]), Draft::Draft7);
    let validator = RefValidator::compile("#/definitions/missing", &context).expect("a valid reference");
    for _ in 0..3 {
        assert!(!validator.is_valid(&Json::Null));
        assert_eq!(validator.validate(&Json::Null, &JsonPointer::new()).len(), 1);
    }
}

#[test]
fn unknown_document_is_a_resolution_failure() {
    let context = context_for(object(vec![]), Draft::Draft7);
    let validator =
        RefValidator::compile("http://example.com/other.json#/a", &context).expect("a valid reference");
    assert_eq!(validator.reference(), "http://example.com/other.json#/a");
    let errors = validator.validate(&Json::Null, &JsonPointer::new());
    assert_eq!(errors.len(), 1);
    assert_eq!(
        errors[0].kind(),
        ErrorKind::ResolutionFailure(ResolutionError::UnknownDocument)
    );
    assert!(!validator.is_valid(&Json::Null));
}

#[test]
fn target_that_is_no_schema_is_a_compile_failure() {
    let document = object(vec![("definitions", object(vec![("bad", Json::Integer(5))]))]);
    let context = context_for(document, Draft::Draft7);
    let validator = RefValidator::compile("#/definitions/bad", &context).expect("a valid reference");
    let errors = validator.validate(&Json::Null, &JsonPointer::new());
    assert_eq!(errors.len(), 1);
    assert_eq!(errors[0].kind(), ErrorKind::CompileFailure(CompileError::InvalidSchema));
    assert!(!validator.is_valid(&Json::Null));
}

#[test]
fn target_with_a_malformed_keyword_is_a_compile_failure() {
    let document = object(vec![(
        "definitions",
        object(vec![("bad", object(vec![("type", Json::Integer(7))]))]),
    )]);
    let context = context_for(document, Draft::Draft7);
    let validator = RefValidator::compile("#/definitions/bad", &context).expect("a valid reference");
    let errors = validator.validate(&text("x"), &JsonPointer::new().with("i"));
    assert_eq!(errors.len(), 1);
    assert_eq!(errors[0].kind(), ErrorKind::CompileFailure(CompileError::InvalidKeyword));
    assert_eq!(errors[0].schema_path().to_string(), "");
    assert_eq!(errors[0].instance_path().to_string(), "/i");
}

#[test]
fn reference_is_read_against_the_scope() {
    let context = context_for(object(vec![]), Draft::Draft7);
    let validator = RefValidator::compile("#/definitions/foo", &context).expect("a valid reference");
    assert_eq!(validator.reference(), "json-schema:///#/definitions/foo");
    let context = CompilationContext::new(
        "http://example.com/schemas/root.json".to_string(),
        Arc::new(CompilationOptions::new(Draft::Draft7)),
        Arc::new(Resolver::new(SCOPE.to_string(), Json::Null)),
    );
    let validator = RefValidator::compile("other.json#/a", &context).expect("a valid reference");
    assert_eq!(validator.reference(), "http://example.com/schemas/other.json#/a");
    assert_eq!(context.build_url("/x").unwrap(), "http://example.com/x");
}

#[test]
fn reference_that_is_no_url_fails_to_compile() {
    let context = context_for(object(vec![]), Draft::Draft7);
    assert!(matches!(
        RefValidator::compile("http://[", &context),
        Err(CompileError::InvalidReference)
    ));
    assert!(matches!(
        compile(&Json::Null, "http://[", &context),
        Some(Err(CompileError::InvalidReference))
    ));
    let schema = object(vec![("properties", object(vec![("a", reference_to("http://["))]))]);
    assert!(matches!(compile_validators(&schema, &context), Err(CompileError::InvalidReference)));
}

#[test]
fn scope_that_is_no_url_fails_to_compile_a_reference() {
    let context = CompilationContext::new(
        "not a url".to_string(),
        Arc::new(CompilationOptions::new(Draft::Draft7)),
        Arc::new(Resolver::new(SCOPE.to_string(), Json::Null)),
    );
    assert!(matches!(
        RefValidator::compile("#/a", &context),
        Err(CompileError::InvalidReference)
    ));
}

#[test]
fn keyword_compiles_to_a_reference() {
    let context = context_for(foo_schema(), Draft::Draft7);
    match compile(&Json::Null, "#/definitions/foo", &context) {
        Some(Ok(Validator::Reference(validator))) => {
            assert_eq!(validator.reference(), "json-schema:///#/definitions/foo");
            assert!(validator.is_valid(&text("a")));
        }
        _ => panic!("a reference validator is owed"),
    }
}

#[test]
fn reference_is_shown_with_its_target() {
    let context = context_for(object(vec![]), Draft::Draft7);
    let validator = RefValidator::compile("#/definitions/foo", &context).expect("a valid reference");
    assert_eq!(validator.to_string(), "$ref: json-schema:///#/definitions/foo");
}

#[test]
fn reference_overrides_its_sibling_keywords() {
    let document = object(vec![
        ("type", text("integer")),
        ("$ref", text("#/definitions/s")),
        ("definitions", object(vec![("s", object(vec![("type", text("string"))]))])),
    ]);
    let node = compiled(document);
    assert_eq!(node.validators().len(), 1);
    assert!(node.is_valid(&text("x")));
    assert!(!node.is_valid(&Json::Integer(1)));
}

#[test]
fn reference_with_a_value_that_is_no_string_is_malformed() {
    let context = context_for(object(vec![]), Draft::Draft7);
    let schema = object(vec![("$ref", Json::Integer(1))]);
    assert!(matches!(compile_validators(&schema, &context), Err(CompileError::InvalidKeyword)));
}

#[test]
fn boolean_schema_depends_on_the_dialect() {
    let old = context_for(Json::Null, Draft::Draft4);
    assert!(matches!(compile_validators(&Json::Bool(true), &old), Err(CompileError::InvalidSchema)));
    for draft in [Draft::Draft6, Draft::Draft7] {
        let context = context_for(Json::Null, draft);
        let all = compile_validators(&Json::Bool(true), &context).expect("a schema");
        assert!(all.is_valid(&Json::Integer(3)));
        let none = compile_validators(&Json::Bool(false), &context).expect("a schema");
        let errors = none.validate(&Json::Integer(3), &JsonPointer::new());
        assert_eq!(errors.len(), 1);
        assert_eq!(errors[0].kind(), ErrorKind::FalseSchema);
    }
}

#[test]
fn reference_to_a_boolean_schema_follows_the_dialect() {
    let document = object(vec![("definitions", object(vec![("no", Json::Bool(false))]))]);
    let new = context_for(document, Draft::Draft7);
    let validator = RefValidator::compile("#/definitions/no", &new).expect("a valid reference");
    let errors = validator.validate(&Json::Null, &JsonPointer::new());
    assert_eq!(errors.len(), 1);
    assert_eq!(errors[0].kind(), ErrorKind::FalseSchema);

    let document = object(vec![("definitions", object(vec![("no", Json::Bool(false))]))]);
    let old = context_for(document, Draft::Draft4);
    let validator = RefValidator::compile("#/definitions/no", &old).expect("a valid reference");
    let errors = validator.validate(&Json::Null, &JsonPointer::new());
    assert_eq!(errors.len(), 1);
    assert_eq!(errors[0].kind(), ErrorKind::CompileFailure(CompileError::InvalidSchema));
}

#[test]
fn every_primitive_type_is_told_apart() {
    let context = context_for(Json::Null, Draft::Draft7);
    let values = [
        ("array", Json::Array(vec![])),
        ("boolean", Json::Bool(true)),
        ("integer", Json::Integer(-3)),
        ("null", Json::Null),
        ("number", Json::Decimal("1.5".to_string())),
        ("object", object(vec![])),
        ("string", text("")),
    ];
    for (name, _) in &values {
        let schema = object(vec![("type", text(name))]);
        let node = compile_validators(&schema, &context).expect("a schema");
        for (other, value) in &values {
            let expected = name == other || (*name == "number" && *other == "integer");
            assert_eq!(node.is_valid(value), expected, "{} against {}", other, name);
            assert_eq!(node.validate(value, &JsonPointer::new()).is_empty(), expected);
        }
    }
    let unknown = object(vec![("type", text("text"))]);
    assert!(matches!(compile_validators(&unknown, &context), Err(CompileError::InvalidKeyword)));
}

#[test]
fn properties_ask_only_members_that_are_there() {
    let schema = object(vec![(
        "properties",
        object(vec![
            ("a", object(vec![("type", text("string"))])),
            ("b", object(vec![("type", text("integer"))])),
        ]),
    )]);
    let node = compiled(schema);
    assert!(node.is_valid(&object(vec![])));
    assert!(node.is_valid(&Json::Integer(1)));
    assert!(node.is_valid(&object(vec![("b", Json::Integer(1)), ("c", Json::Null)])));
    let errors = node.validate(
        &object(vec![("b", text("x")), ("a", Json::Null)]),
        &JsonPointer::new(),
    );
    assert_eq!(errors.len(), 2);
    assert_eq!(errors[0].schema_path().to_string(), "/properties/a/type");
    assert_eq!(errors[1].schema_path().to_string(), "/properties/b/type");
}

#[test]
fn properties_must_be_an_object() {
    let context = context_for(Json::Null, Draft::Draft7);
    let schema = object(vec![("properties", Json::Array(vec![]))]);
    assert!(matches!(compile_validators(&schema, &context), Err(CompileError::InvalidKeyword)));
    let schema = object(vec![("properties", object(vec![("a", Json::Integer(1))]))]);
    assert!(matches!(compile_validators(&schema, &context), Err(CompileError::InvalidSchema)));
}

#[test]
fn check_agrees_with_validate() {
    let node = compiled(list_schema());
    let instances = [
        Json::Null,
        list_of(&[Json::Integer(1)]),
        list_of(&[text("a")]),
        list_of(&[Json::Integer(1), Json::Bool(false)]),
        object(vec![("next", Json::Integer(1))]),
    ];
    for instance in &instances {
        assert_eq!(
            node.is_valid(instance),
            node.validate(instance, &JsonPointer::new()).is_empty()
        );
    }
}

#[test]
fn validators_can_be_shared_between_threads() {
    fn shared<T: Send + Sync>() {}
    shared::<RefValidator>();
    shared::<SchemaNode>();
}

#[test]
fn resolver_counts_the_references_of_its_document() {
    assert_eq!(Resolver::new(SCOPE.to_string(), Json::Null).reference_limit(), 1);
    assert_eq!(Resolver::new(SCOPE.to_string(), foo_schema()).reference_limit(), 2);
    let many = Json::Array(vec![reference_to("#"), object(vec![("a", reference_to("#/0"))])]);
    assert_eq!(Resolver::new(SCOPE.to_string(), many).reference_limit(), 3);
}

#[test]
fn resolver_finds_values_by_fragment() {
    let resolver = Resolver::new(SCOPE.to_string(), foo_schema());
    let (scope, value) = resolver
        .resolve_fragment(Draft::Draft7, "json-schema:///#/definitions/foo/type")
        .expect("the value is there");
    assert_eq!(scope, SCOPE);
    assert!(matches!(value, Json::String(name) if name == "string"));
    let (_, root) = resolver.resolve_fragment(Draft::Draft7, SCOPE).expect("the root");
    assert!(matches!(root, Json::Object(members) if members.len() == 2));
    assert!(matches!(
        resolver.resolve_fragment(Draft::Draft7, "json-schema:///#/nowhere"),
        Err(ResolutionError::MissingFragment)
    ));
    assert!(matches!(
        resolver.resolve_fragment(Draft::Draft7, "json-schema:///#no-slash"),
        Err(ResolutionError::MissingFragment)
    ));
    assert!(matches!(
        resolver.resolve_fragment(Draft::Draft7, "json-schema:///other#/definitions"),
        Err(ResolutionError::UnknownDocument)
    ));
    assert!(matches!(
        resolver.resolve_fragment(Draft::Draft7, "definitions"),
        Err(ResolutionError::InvalidTarget)
    ));
}

#[test]
fn target_is_kept_after_the_first_successful_use() {
    let context = context_for(foo_schema(), Draft::Draft7);
    let validator = RefValidator::compile("#/definitions/foo", &context).expect("a valid reference");
    assert!(validator.cached().is_none());
    assert!(!validator.is_valid(&Json::Null));
    let kept = validator.cached().expect("the target was compiled");
    assert_eq!(kept.node().validators().len(), 1);
    assert!(validator.is_valid(&text("s")));
    assert_eq!(validator.validate(&Json::Null, &JsonPointer::new()).len(), 1);
    let later = validator.cached().expect("the target is still there");
    assert!(Arc::ptr_eq(&kept, &later));
}

#[test]
fn target_is_kept_after_the_first_validation_too() {
    let context = context_for(foo_schema(), Draft::Draft7);
    let validator = RefValidator::compile("#/definitions/foo", &context).expect("a valid reference");
    assert!(validator.validate(&text("s"), &JsonPointer::new()).is_empty());
    let kept = validator.cached().expect("the target was compiled");
    assert!(validator.validate(&text("t"), &JsonPointer::new()).is_empty());
    assert!(Arc::ptr_eq(&kept, &validator.cached().expect("the target is still there")));
}

#[test]
fn failure_is_not_kept() {
    let document = object(vec![("definitions", object(vec![("bad", Json::Integer(5))]))]);
    let context = context_for(document, Draft::Draft7);
    let missing = RefValidator::compile("#/definitions/none", &context).expect("a valid reference");
    let broken = RefValidator::compile("#/definitions/bad", &context).expect("a valid reference");
    for _ in 0..2 {
        assert!(!missing.is_valid(&Json::Null));
        assert_eq!(missing.validate(&Json::Null, &JsonPointer::new()).len(), 1);
        assert!(missing.cached().is_none());
        assert!(!broken.is_valid(&Json::Null));
        assert_eq!(broken.validate(&Json::Null, &JsonPointer::new()).len(), 1);
        assert!(broken.cached().is_none());
    }
}

#[test]
fn copy_of_a_document_is_equal_to_it() {
    let document = foo_schema();
    assert_eq!(document.duplicate(), document);
    let list = Json::Array(vec![Json::Decimal("2.50".to_string()), Json::Bool(true), Json::Null]);
    assert_eq!(list.duplicate(), list);
}

#[test]
fn kept_target_serves_only_the_reference_it_was_compiled_for() {
    let context = context_for(foo_schema(), Draft::Draft7);
    let validator = RefValidator::compile("#/definitions/foo", &context).expect("a valid reference");
    let other = RefValidator::compile("#/definitions", &context).expect("a valid reference");
    assert!(validator.is_valid(&text("s")));
    let kept = validator.cached().expect("the target was compiled");

    let served = validator.usable(Some(Arc::clone(&kept)), true).expect("it fits");
    assert!(Arc::ptr_eq(&served, &kept));
    assert!(validator.fits(&kept, true));
    assert!(validator.usable(Some(Arc::clone(&kept)), false).is_none());
    assert!(!validator.fits(&kept, false));
    assert!(validator.usable(None, true).is_none());
    assert!(other.usable(Some(Arc::clone(&kept)), true).is_none());
    assert!(!other.fits(&kept, true));

    let older = context_for(foo_schema(), Draft::Draft4);
    let same_url = RefValidator::compile("#/definitions/foo", &older).expect("a valid reference");
    assert!(same_url.usable(Some(kept), true).is_none());
}

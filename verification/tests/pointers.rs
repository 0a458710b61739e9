use schema_ref::json::Json;
use schema_ref::paths::JsonPointer;
use schema_ref::pointer::{chars_of, index_of, lookup, tokens_of};

fn text(value: &str) -> Json {
    Json::String(value.to_string())
}

fn object(members: Vec<(&str, Json)>) -> Json {
    Json::Object(members.into_iter().map(|(name, value)| (name.to_string(), value)).collect())
}

#[test]
fn empty_pointer_has_no_tokens() {
    assert_eq!(tokens_of(""), Some(vec![]));
}

#[test]
fn pointer_is_split_at_slashes() {
    assert_eq!(
        tokens_of("/definitions/foo"),
        Some(vec!["definitions".to_string(), "foo".to_string()])
    );
    assert_eq!(tokens_of("/"), Some(vec![String::new()]));
    assert_eq!(tokens_of("/a//b/"), Some(vec!["a".into(), "".into(), "b".into(), "".into()]));
}

#[test]
fn pointer_must_begin_with_a_slash() {
    assert_eq!(tokens_of("definitions/foo"), None);
    assert_eq!(tokens_of("a"), None);
}

#[test]
fn escapes_are_undone() {
    assert_eq!(tokens_of("/a~1b"), Some(vec!["a/b".to_string()]));
    assert_eq!(tokens_of("/m~0n"), Some(vec!["m~n".to_string()]));
    assert_eq!(tokens_of("/~01"), Some(vec!["~1".to_string()]));
    assert_eq!(tokens_of("/~~1~"), Some(vec!["~/~".to_string()]));
    assert_eq!(tokens_of("/~2/é~0"), Some(vec!["~2".to_string(), "é~".to_string()]));
}

#[test]
fn index_is_decimal_without_leading_zero() {
    assert_eq!(index_of("0"), Some(0));
    assert_eq!(index_of("7"), Some(7));
    assert_eq!(index_of("120"), Some(120));
    assert_eq!(index_of(""), None);
    assert_eq!(index_of("01"), None);
    assert_eq!(index_of("+1"), None);
    assert_eq!(index_of("-1"), None);
    assert_eq!(index_of("1a"), None);
    assert_eq!(index_of(&usize::MAX.to_string()), Some(usize::MAX));
    assert_eq!(index_of("99999999999999999999999999999"), None);
}

#[test]
fn lookup_follows_members_and_elements() {
    let document = object(vec![
        ("a", Json::Array(vec![Json::Integer(10), object(vec![("b/c", text("deep"))])])),
        ("", Json::Bool(true)),
        ("a", Json::Null),
    ]);
    assert!(matches!(lookup(&document, ""), Some(Json::Object(_))));
    assert!(matches!(lookup(&document, "/a/0"), Some(Json::Integer(10))));
    assert!(matches!(lookup(&document, "/a/1/b~1c"), Some(Json::String(t)) if t == "deep"));
    assert!(matches!(lookup(&document, "/"), Some(Json::Bool(true))));
    assert!(lookup(&document, "/a/2").is_none());
    assert!(lookup(&document, "/a/00").is_none());
    assert!(lookup(&document, "/a/x").is_none());
    assert!(lookup(&document, "/a/0/b").is_none());
    assert!(lookup(&document, "/missing").is_none());
    assert!(lookup(&document, "a").is_none());
}

#[test]
fn first_member_of_a_name_is_found() {
    let document = object(vec![("k", Json::Integer(1)), ("k", Json::Integer(2))]);
    assert!(matches!(document.member("k"), Some(Json::Integer(1))));
    assert!(document.member("j").is_none());
    assert!(Json::Integer(1).member("k").is_none());
    let list = Json::Array(vec![Json::Null, Json::Bool(false)]);
    assert!(matches!(list.element(1), Some(Json::Bool(false))));
    assert!(list.element(2).is_none());
    assert!(document.element(0).is_none());
}

#[test]
fn characters_are_listed_in_order() {
    assert_eq!(chars_of("a/é"), vec!['a', '/', 'é']);
    assert_eq!(chars_of(""), Vec::<char>::new());
}

#[test]
fn path_is_shown_with_slashes() {
    let root = JsonPointer::new();
    assert_eq!(root.to_string(), "");
    assert_eq!(root.len(), 0);
    let path = root.with("properties").with("foo");
    assert_eq!(path.to_string(), "/properties/foo");
    assert_eq!(path.len(), 2);
    assert_eq!(path.token(1), "foo");
    assert_eq!(path.duplicate().to_string(), "/properties/foo");
}

#[test]
fn paths_are_joined_end_to_end() {
    let front = JsonPointer::new().with("first").with("second");
    let back = JsonPointer::new().with("third");
    let joined = front.extend_with(&back);
    assert_eq!(joined.to_string(), "/first/second/third");
    assert_eq!(joined.len(), 3);
    assert_eq!(front.extend_with(&JsonPointer::new()).to_string(), "/first/second");
    assert_eq!(JsonPointer::new().extend_with(&back).to_string(), "/third");
}

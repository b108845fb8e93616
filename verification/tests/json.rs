use ynab_tui::data_layer::json::Json;

#[test]
fn text_that_is_not_json_gives_none() {
    assert_eq!(Json::parse(""), None);
    assert_eq!(Json::parse("{"), None);
    assert_eq!(Json::parse("{\"a\": }"), None);
    assert_eq!(Json::parse("not json at all"), None);
    assert_eq!(Json::parse("[1, 2,]"), None);
}

#[test]
fn scalars_parse_to_their_variants() {
    assert_eq!(Json::parse("null"), Some(Json::Null));
    assert_eq!(Json::parse("true"), Some(Json::Bool(true)));
    assert_eq!(Json::parse("false"), Some(Json::Bool(false)));
    assert_eq!(Json::parse("-4200"), Some(Json::Number(Some(-4200))));
    assert_eq!(Json::parse("\"a\\nb\""), Some(Json::Text("a\nb".to_string())));
}

#[test]
fn numbers_outside_i64_have_no_integer() {
    assert_eq!(Json::parse("9223372036854775807"), Some(Json::Number(Some(i64::MAX))));
    assert_eq!(Json::parse("9223372036854775808"), Some(Json::Number(None)));
    assert_eq!(Json::parse("1.5"), Some(Json::Number(None)));
    assert_eq!(Json::parse("1.0"), Some(Json::Number(None)));
}

#[test]
fn arrays_and_objects_keep_their_contents() {
    let doc = Json::parse("{\"b\": [1, \"two\", null], \"a\": {\"x\": true}}").unwrap();
    assert_eq!(
        doc.get("b"),
        Some(&Json::Array(vec![
            Json::Number(Some(1)),
            Json::Text("two".to_string()),
            Json::Null,
        ]))
    );
    assert_eq!(doc.get("a"), Some(&Json::Object(vec![("x".to_string(), Json::Bool(true))])));
    assert_eq!(doc.get("c"), None);
    assert_eq!(doc.get(""), None);
}

#[test]
fn get_on_anything_but_an_object_is_none() {
    assert_eq!(Json::Null.get("a"), None);
    assert_eq!(Json::Array(vec![Json::Null]).get("0"), None);
    assert_eq!(Json::Text("a".to_string()).get("a"), None);
}

#[test]
fn get_takes_the_first_member_of_that_name() {
    let doc = Json::Object(vec![
        ("k".to_string(), Json::Number(Some(1))),
        ("other".to_string(), Json::Null),
        ("k".to_string(), Json::Number(Some(2))),
    ]);
    assert_eq!(doc.get("k"), Some(&Json::Number(Some(1))));
    assert_eq!(doc.get("other"), Some(&Json::Null));
}

#[test]
fn accessors_answer_only_for_their_kind() {
    let text = Json::Text("hello".to_string());
    let number = Json::Number(Some(7));
    let truth = Json::Bool(true);
    let list = Json::Array(vec![Json::Null]);
    assert_eq!(text.as_str(), Some("hello"));
    assert_eq!(number.as_str(), None);
    assert_eq!(number.as_i64(), Some(7));
    assert_eq!(Json::Number(None).as_i64(), None);
    assert_eq!(text.as_i64(), None);
    assert_eq!(truth.as_bool(), Some(true));
    assert_eq!(number.as_bool(), None);
    assert_eq!(list.as_array(), Some(&vec![Json::Null]));
    assert_eq!(text.as_array(), None);
    assert!(Json::Null.is_null());
    assert!(!truth.is_null());
}

#[test]
fn names_with_letters_beyond_ascii_are_found() {
    let doc = Json::parse("{\"caf\u{e9}\": 1, \"cafe\": 2}").unwrap();
    assert_eq!(doc.get("caf\u{e9}").and_then(|j| j.as_i64()), Some(1));
    assert_eq!(doc.get("cafe").and_then(|j| j.as_i64()), Some(2));
}

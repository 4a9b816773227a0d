use bookos_store::json::{parse, set_member, Json};

fn text(s: &str) -> Json {
    Json::Str(s.to_string())
}

#[test]
fn a_document_is_read_into_its_tree() {
    let doc = parse(r#" {"b":[1,-2,2.5,null,true],"a":{"k":"v"}} "#).unwrap();
    assert_eq!(doc.get("a").unwrap().get("k"), Some(&text("v")));
    assert_eq!(
        doc.get("b"),
        Some(&Json::Array(vec![
            Json::Number("1".to_string()),
            Json::Number("-2".to_string()),
            Json::Number("2.5".to_string()),
            Json::Null,
            Json::Bool(true),
        ]))
    );
    assert_eq!(doc.get("c"), None);
}

#[test]
fn what_is_no_document_is_not_read() {
    assert_eq!(parse(""), None);
    assert_eq!(parse("{"), None);
    assert_eq!(parse("{} x"), None);
    assert_eq!(parse("null"), Some(Json::Null));
}

#[test]
fn a_key_that_comes_twice_counts_once() {
    match parse(r#"{"k":1,"k":2}"#) {
        Some(Json::Object(members)) => {
            assert_eq!(members, vec![("k".to_string(), Json::Number("2".to_string()))]);
        }
        other => panic!("{:?}", other),
    }
}

#[test]
fn only_objects_have_members() {
    assert_eq!(text("x").get("x"), None);
    assert_eq!(Json::Array(vec![Json::Null]).get("0"), None);
    assert_eq!(text("x").as_str(), Some("x"));
    assert_eq!(Json::Null.as_str(), None);
    assert_eq!(Json::Array(vec![Json::Null]).as_array(), Some(&vec![Json::Null]));
    assert_eq!(text("x").as_array(), None);
}

#[test]
fn a_member_that_is_set_is_found() {
    let members = vec![("a".to_string(), Json::Null), ("b".to_string(), Json::Bool(false))];
    let members = set_member(members, "a", text("new"));
    let members = set_member(members, "c", Json::Bool(true));
    assert_eq!(
        members,
        vec![
            ("a".to_string(), text("new")),
            ("b".to_string(), Json::Bool(false)),
            ("c".to_string(), Json::Bool(true)),
        ]
    );
}

#[test]
fn a_copy_is_the_same_tree() {
    let doc = parse(r#"{"a":[{"b":1.5},"x",false],"c":null}"#).unwrap();
    assert_eq!(doc.duplicate(), doc);
}

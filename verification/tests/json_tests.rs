use hass_link::json::parse::MAX_DEPTH;
use hass_link::json::{Json, Member};

fn member(key: &str, value: Json) -> Member {
    Member { key: key.to_string(), value }
}

fn text(s: &str) -> Json {
    Json::Str(s.to_string())
}

#[test]
fn parse_reads_scalars() {
    assert_eq!(Json::parse("null"), Some(Json::Null));
    assert_eq!(Json::parse("true"), Some(Json::Bool(true)));
    assert_eq!(Json::parse("false"), Some(Json::Bool(false)));
    assert_eq!(Json::parse("\"on\""), Some(text("on")));
    assert_eq!(Json::parse("  42 "), Some(Json::Int(42)));
    assert_eq!(Json::parse("-7"), Some(Json::Int(-7)));
}

#[test]
fn parse_tells_integers_from_other_numbers() {
    assert_eq!(Json::parse("9223372036854775807"), Some(Json::Int(i64::MAX)));
    assert_eq!(Json::parse("-9223372036854775808"), Some(Json::Int(i64::MIN)));
    assert_eq!(
        Json::parse("18446744073709551615"),
        Some(Json::Number("18446744073709551615".to_string()))
    );
    assert_eq!(Json::parse("1.5"), Some(Json::Number("1.5".to_string())));
    assert_eq!(Json::parse("1.0"), Some(Json::Number("1.0".to_string())));
    assert_eq!(Json::parse("1e3"), Some(Json::Number("1000.0".to_string())));
}

#[test]
fn parse_builds_nested_trees() {
    let tree = Json::parse(r#"{"a":[1,{"b":null},"x"],"c":{"d":true}}"#).unwrap();
    let a = tree.get("a").unwrap();
    assert_eq!(
        a,
        &Json::Array(vec![
            Json::Int(1),
            Json::Object(vec![member("b", Json::Null)]),
            text("x"),
        ])
    );
    assert_eq!(tree.get("c").unwrap().get("d"), Some(&Json::Bool(true)));
    assert_eq!(tree.get("missing"), None);
}

#[test]
fn parse_reads_empty_containers() {
    assert_eq!(Json::parse("[]"), Some(Json::Array(vec![])));
    assert_eq!(Json::parse("{}"), Some(Json::Object(vec![])));
}

#[test]
fn parse_unescapes_strings_and_keys() {
    let tree = Json::parse(r#"{"k\"ey":"line\nbreak é \\ \/"}"#).unwrap();
    assert_eq!(tree.get("k\"ey"), Some(&text("line\nbreak \u{e9} \\ /")));
}

#[test]
fn parse_rejects_what_is_no_json() {
    assert_eq!(Json::parse(""), None);
    assert_eq!(Json::parse("garbage"), None);
    assert_eq!(Json::parse("{"), None);
    assert_eq!(Json::parse("{\"a\":1,}"), None);
    assert_eq!(Json::parse("[1 2]"), None);
    assert_eq!(Json::parse("{} trailing"), None);
    assert_eq!(Json::parse("{\"a\":[1,{\"b\":tru}]}"), None);
}

#[test]
fn parse_keeps_the_last_of_equal_keys() {
    let tree = Json::parse(r#"{"a":1,"a":2}"#).unwrap();
    assert_eq!(tree.get("a"), Some(&Json::Int(2)));
}

#[test]
fn parse_follows_nesting_up_to_its_bound() {
    let deep = 100;
    let ok = format!("{}{}", "[".repeat(deep), "]".repeat(deep));
    let mut tree = Json::parse(&ok).unwrap();
    let mut levels = 0;
    while let Json::Array(mut items) = tree {
        levels += 1;
        match items.pop() {
            Some(inner) => tree = inner,
            None => break,
        }
    }
    assert_eq!(levels, deep);
    let too_deep = format!("{}{}", "[".repeat(200), "]".repeat(200));
    assert_eq!(Json::parse(&too_deep), None);
    assert_eq!(MAX_DEPTH, 128);
}

#[test]
fn parse_within_counts_levels() {
    assert_eq!(Json::parse_within("7", 0), Some(Json::Int(7)));
    assert_eq!(Json::parse_within("[]", 0), None);
    assert_eq!(Json::parse_within("{}", 0), None);
    assert_eq!(Json::parse_within("[7]", 1), Some(Json::Array(vec![Json::Int(7)])));
    assert_eq!(Json::parse_within("[[7]]", 1), None);
    assert_eq!(
        Json::parse_within("{\"a\":{\"b\":1}}", 2),
        Some(Json::Object(vec![member(
            "a",
            Json::Object(vec![member("b", Json::Int(1))])
        )]))
    );
}

#[test]
fn get_finds_the_first_of_equal_keys() {
    let tree = Json::Object(vec![
        member("a", Json::Int(1)),
        member("b", Json::Int(2)),
        member("a", Json::Int(3)),
    ]);
    assert_eq!(tree.get("a"), Some(&Json::Int(1)));
    assert_eq!(tree.get("b"), Some(&Json::Int(2)));
    assert_eq!(tree.get("c"), None);
    assert_eq!(tree.get(""), None);
}

#[test]
fn get_finds_nothing_outside_objects() {
    assert_eq!(Json::Null.get("a"), None);
    assert_eq!(text("a").get("a"), None);
    assert_eq!(Json::Array(vec![text("a")]).get("a"), None);
}

#[test]
fn render_writes_scalars() {
    assert_eq!(Json::Null.render(), "null");
    assert_eq!(Json::Bool(true).render(), "true");
    assert_eq!(Json::Bool(false).render(), "false");
    assert_eq!(Json::Number("1.5".to_string()).render(), "1.5");
    assert_eq!(text("on").render(), "\"on\"");
    assert_eq!(text("").render(), "\"\"");
}

#[test]
fn render_writes_integers_in_decimal() {
    assert_eq!(Json::Int(0).render(), "0");
    assert_eq!(Json::Int(7).render(), "7");
    assert_eq!(Json::Int(10).render(), "10");
    assert_eq!(Json::Int(-1).render(), "-1");
    assert_eq!(Json::Int(1234567890).render(), "1234567890");
    assert_eq!(Json::Int(i64::MAX).render(), "9223372036854775807");
    assert_eq!(Json::Int(i64::MIN).render(), "-9223372036854775808");
}

#[test]
fn render_escapes_strings() {
    assert_eq!(text("a\"b").render(), r#""a\"b""#);
    assert_eq!(text("a\\b").render(), r#""a\\b""#);
    assert_eq!(text("\n\t\r").render(), r#""\n\t\r""#);
    assert_eq!(text("\u{8}\u{c}").render(), r#""\b\f""#);
    assert_eq!(text("\u{0}\u{1}\u{b}\u{1f}").render(), r#""\u0000\u0001\u000b\u001f""#);
    assert_eq!(text("\u{7f} / \u{e9} \u{1f600}").render(), "\"\u{7f} / \u{e9} \u{1f600}\"");
}

#[test]
fn render_writes_containers_compactly_and_in_order() {
    assert_eq!(Json::Array(vec![]).render(), "[]");
    assert_eq!(Json::Object(vec![]).render(), "{}");
    assert_eq!(Json::Array(vec![Json::Int(1)]).render(), "[1]");
    assert_eq!(
        Json::Array(vec![Json::Int(1), Json::Null, text("x")]).render(),
        "[1,null,\"x\"]"
    );
    let tree = Json::Object(vec![
        member("z", Json::Int(1)),
        member("a", Json::Array(vec![Json::Bool(true), Json::Object(vec![])])),
        member("k\"", Json::Object(vec![member("n", Json::Null)])),
    ]);
    assert_eq!(tree.render(), r#"{"z":1,"a":[true,{}],"k\"":{"n":null}}"#);
}

#[test]
fn render_is_read_back_by_parse() {
    let tree = Json::Object(vec![
        member("a", Json::Array(vec![Json::Int(-3), Json::Number("2.5".to_string())])),
        member("b", text("q\"\\\n\u{1}\u{e9}")),
        member("c", Json::Object(vec![member("d", Json::Null)])),
    ]);
    assert_eq!(Json::parse(&tree.render()), Some(tree));
}

#[test]
fn clone_copies_the_whole_tree() {
    let tree = Json::Object(vec![
        member("a", Json::Array(vec![Json::Int(1), text("x")])),
        member("b", Json::Object(vec![member("c", Json::Bool(false))])),
    ]);
    let copy = tree.clone();
    assert_eq!(copy, tree);
    assert_eq!(member("k", text("v")).clone(), member("k", text("v")));
}

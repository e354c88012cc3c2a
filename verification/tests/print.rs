use json_ld::json::Json;
use json_ld::print::{to_syntax, Preset, Print, Size};
use json_ld::syntax::context::{Container, ContainerKind};
use json_syntax::Parse;

fn text(s: &str) -> Json {
    Json::Text(s.to_string())
}

fn number(s: &str) -> Json {
    Json::Number(s.to_string())
}

fn object(entries: Vec<(&str, Json)>) -> Json {
    Json::Object(entries.into_iter().map(|(k, v)| (k.to_string(), v)).collect())
}

fn sample() -> Json {
    object(vec![
        ("@context", object(vec![("name", text("http://xmlns.com/foaf/0.1/name"))])),
        ("@id", text("http://example/a")),
        ("values", Json::Array(vec![number("1"), number("2.5e3"), Json::Null, Json::Boolean(true)])),
        ("empty", Json::Array(vec![])),
        ("nothing", object(vec![])),
        ("nested", Json::Array(vec![Json::Array(vec![Json::Boolean(false)]), object(vec![("k", text("v"))])])),
        ("quote\"d\\key\n", text("tab\there\u{1}\u{1f}\u{8}\u{c}\r\u{7f}é")),
    ])
}

fn reference(source: &str) -> json_syntax::Value<()> {
    json_syntax::Value::parse_str(source, |_| ()).unwrap().into_value()
}

#[test]
fn value_is_made_a_value_of_json_syntax() {
    let made = to_syntax(&sample()).unwrap();
    let source = r#"{"@context":{"name":"http://xmlns.com/foaf/0.1/name"},"@id":"http://example/a","values":[1,2.5e3,null,true],"empty":[],"nothing":{},"nested":[[false],{"k":"v"}],"quote\"d\\key\n":"tab\there\u0001\u001f\b\f\r\u007fé"}"#;
    assert_eq!(made.0, reference(source));
    assert_eq!(to_syntax(&Json::Null).unwrap().0, json_syntax::Value::Null);
    assert_ne!(to_syntax(&Json::Boolean(true)).unwrap().0, to_syntax(&Json::Boolean(false)).unwrap().0);
    assert_ne!(to_syntax(&text("1")).unwrap().0, to_syntax(&number("1")).unwrap().0);
}

#[test]
fn entries_keep_their_order_and_their_keys() {
    let doc = object(vec![("b", number("1")), ("a", number("2")), ("b", number("3"))]);
    assert_eq!(doc.compact_print().unwrap(), r#"{"b":1,"a":2,"b":3}"#);
}

#[test]
fn text_that_is_no_number_is_not_printed() {
    assert!(to_syntax(&number("1e")).is_none());
    assert!(number("").compact_print().is_none());
    assert!(Json::Array(vec![number("1"), number("x")]).pretty_print().is_none());
    assert!(object(vec![("a", Json::Array(vec![number("01")]))]).inline_print().is_none());
    let mut sizes = vec![Size::Width(1)];
    assert_eq!(object(vec![("a", number("-"))]).pre_compute_size(Preset::Compact, &mut sizes), None);
    assert_eq!(sizes, vec![Size::Width(1)]);
    assert_eq!(number("-12.5E+3").compact_print().unwrap(), "-12.5E+3");
}

#[test]
fn compact_print_is_on_one_line_without_spaces() {
    let printed = sample().compact_print().unwrap();
    assert_eq!(printed, json_syntax::Print::compact_print(&reference(&printed)).to_string());
    assert!(printed.starts_with("{\"@context\":{\"name\":\"http://xmlns.com/foaf/0.1/name\"},\"@id\""));
    assert_eq!(sample().print_with(Preset::Compact).unwrap(), printed);
}

#[test]
fn inline_print_is_on_one_line_with_spaces() {
    let doc = object(vec![("a", Json::Array(vec![number("1"), number("2")])), ("b", object(vec![]))]);
    assert_eq!(doc.inline_print().unwrap(), r#"{ "a": [ 1, 2 ], "b": {} }"#);
}

#[test]
fn pretty_print_of_small_values() {
    assert_eq!(Json::Null.pretty_print().unwrap(), "null");
    assert_eq!(Json::Boolean(false).pretty_print().unwrap(), "false");
    assert_eq!(number("12").pretty_print().unwrap(), "12");
    assert_eq!(Json::Array(vec![]).pretty_print().unwrap(), "[]");
    assert_eq!(Json::Array(vec![number("1")]).pretty_print().unwrap(), "[ 1 ]");
    assert_eq!(Json::Array(vec![number("1"), number("2")]).pretty_print().unwrap(), "[\n  1,\n  2\n]");
    assert_eq!(object(vec![("a", number("1"))]).pretty_print().unwrap(), "{ \"a\": 1 }");
    assert_eq!(
        object(vec![("a", number("1")), ("b", Json::Array(vec![]))]).pretty_print().unwrap(),
        "{\n  \"a\": 1,\n  \"b\": []\n}"
    );
}

#[test]
fn string_literals_are_escaped() {
    assert_eq!(text("a\"b\\c").compact_print().unwrap(), "\"a\\\"b\\\\c\"");
    assert_eq!(text("\u{8}\t\n\u{c}\r").compact_print().unwrap(), "\"\\b\\t\\n\\f\\r\"");
    assert_eq!(text("\u{0}\u{1f}").compact_print().unwrap(), "\"\\u0000\\u001f\"");
    assert_eq!(text("é").compact_print().unwrap(), "\"é\"");
}

#[test]
fn sizes_are_added_after_those_that_were_there() {
    let doc = Json::Array(vec![object(vec![("a", Json::Array(vec![]))]), Json::Array(vec![number("1"), number("2")])]);
    let mut sizes = vec![Size::Width(7)];
    let size = doc.pre_compute_size(Preset::Pretty, &mut sizes).unwrap();
    assert_eq!(size, Size::Expanded);
    assert_eq!(sizes, vec![Size::Width(7), Size::Expanded, Size::Width(13), Size::Width(4), Size::Expanded]);
    let mut compact = Vec::new();
    assert_eq!(doc.pre_compute_size(Preset::Compact, &mut compact), Some(Size::Width(16)));
    assert_eq!(compact, vec![Size::Width(16), Size::Width(8), Size::Width(2), Size::Width(5)]);
    let mut inline = Vec::new();
    assert_eq!(text("a\nb").pre_compute_size(Preset::Inline, &mut inline), Some(Size::Width(6)));
    assert!(inline.is_empty());
}

#[test]
fn context_syntax_is_printed_as_json() {
    assert_eq!(ContainerKind::List.compact_print().unwrap(), "\"@list\"");
    let container = Container::Many(vec![ContainerKind::Index, ContainerKind::Unordered]);
    assert_eq!(container.compact_print().unwrap(), r#"["@index","@set"]"#);
    assert_eq!(container.inline_print().unwrap(), r#"[ "@index", "@set" ]"#);
}

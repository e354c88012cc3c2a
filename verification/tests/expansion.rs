use json_ld::document::Document;
use json_ld::context::ActiveContext;
use json_ld::error::ErrorCode;
use json_ld::expansion::{expand, ExpandedNode, ExpandedObject};
use json_ld::iri::{BlankIdBuf, IriBuf};
use json_ld::json::Json;
use json_ld::loader::NoLoader;
use json_ld::object::id::{Id, ValidId};
use json_ld::object::indexed::Indexed;
use json_ld::object::mapped_eq::unordered_mapped_eq;
use json_ld::object::node::Object;
use json_ld::object::value::{Direction, Literal};
use json_syntax::Parse;

fn convert(value: json_syntax::Value<()>) -> Json {
    match value {
        json_syntax::Value::Null => Json::Null,
        json_syntax::Value::Boolean(b) => Json::Boolean(b),
        json_syntax::Value::Number(n) => Json::Number(n.as_str().to_string()),
        json_syntax::Value::String(s) => Json::Text(s.as_str().to_string()),
        json_syntax::Value::Array(items) => Json::Array(items.into_iter().map(|i| convert(i.into_value())).collect()),
        json_syntax::Value::Object(object) => Json::Object(
            object
                .into_iter()
                .map(|e| (e.key.into_value().as_str().to_string(), convert(e.value.into_value())))
                .collect(),
        ),
    }
}

fn parse(source: &str) -> Json {
    convert(json_syntax::Value::parse_str(source, |_| ()).unwrap().into_value())
}

fn run(document: &str) -> Result<Vec<Indexed<ExpandedObject>>, ErrorCode> {
    let active = ActiveContext::new(None);
    expand(&active, &parse(document), &None, &mut NoLoader).map_err(|e| e.code)
}

fn node(object: &Indexed<ExpandedObject>) -> &ExpandedNode {
    match &object.inner {
        Object::Node(n) => n,
        _ => panic!("not a node"),
    }
}

fn id_text(id: &Id<IriBuf, json_ld::iri::BlankIdBuf>) -> String {
    match id {
        Id::Valid(ValidId::Iri(i)) => i.as_str().to_string(),
        Id::Valid(ValidId::Blank(b)) => b.as_str().to_string(),
        Id::Invalid(s) => format!("invalid:{}", s),
    }
}

fn text_value(object: &Indexed<ExpandedObject>) -> String {
    match &object.inner {
        Object::Value(v) => match &v.literal {
            Literal::Text(s) => s.clone(),
            Literal::Number(n) => n.clone(),
            Literal::Boolean(b) => b.to_string(),
        },
        _ => panic!("not a value"),
    }
}

#[test]
fn minimal_node() {
    let r = run(r#"{"@context":{"name":"http://xmlns.com/foaf/0.1/name"}, "@id":"http://example/a", "name":"A"}"#)
        .unwrap();
    assert_eq!(r.len(), 1);
    let n = node(&r[0]);
    assert_eq!(id_text(n.id.as_ref().unwrap()), "http://example/a");
    assert!(matches!(n.id, Some(Id::Valid(ValidId::Iri(_)))));
    assert_eq!(n.properties.entries.len(), 1);
    let p = &n.properties.entries[0];
    assert_eq!(id_text(&p.property), "http://xmlns.com/foaf/0.1/name");
    assert_eq!(p.objects.len(), 1);
    match &p.objects[0].inner {
        Object::Value(v) => {
            assert!(matches!(&v.literal, Literal::Text(s) if s == "A"));
            assert!(v.ty.is_none() && v.language.is_none() && v.direction.is_none());
        },
        _ => panic!("not a value"),
    }
    assert!(p.objects[0].index.is_none());
}

#[test]
fn list_container() {
    let r = run(r#"{"@context":{"items":{"@id":"http://ex/items","@container":"@list"}},"items":[1,2,3]}"#).unwrap();
    assert_eq!(r.len(), 1);
    let n = node(&r[0]);
    assert!(n.id.is_none());
    assert_eq!(n.properties.entries.len(), 1);
    let p = &n.properties.entries[0];
    assert_eq!(id_text(&p.property), "http://ex/items");
    assert_eq!(p.objects.len(), 1);
    match &p.objects[0].inner {
        Object::List(l) => {
            let numbers: Vec<String> = l.items.iter().map(text_value).collect();
            assert_eq!(numbers, vec!["1", "2", "3"]);
            assert!(l.items.iter().all(|i| matches!(&i.inner, Object::Value(v) if matches!(v.literal, Literal::Number(_)))));
        },
        _ => panic!("not a list"),
    }
}

#[test]
fn list_object_is_kept_as_it_is() {
    let r = run(r#"{"@context":{"items":{"@id":"http://ex/items","@container":"@list"}},"items":{"@list":["a"]}}"#)
        .unwrap();
    let p = &node(&r[0]).properties.entries[0];
    assert_eq!(p.objects.len(), 1);
    assert!(matches!(&p.objects[0].inner, Object::List(l) if l.items.len() == 1));
}

#[test]
fn null_context_clears_within_a_document() {
    let r = run(
        r#"{"@context":[{"x":"http://ex/x"}, null, {"y":"http://ex/y"}], "@id":"http://example/a", "x":"dropped", "y":"kept"}"#,
    )
    .unwrap();
    let n = node(&r[0]);
    assert_eq!(n.properties.entries.len(), 1);
    assert_eq!(id_text(&n.properties.entries[0].property), "http://ex/y");
    assert_eq!(text_value(&n.properties.entries[0].objects[0]), "kept");
    let only_x = run(r#"{"@context":[{"x":"http://ex/x"}, null], "@id":"http://example/a", "x":"dropped"}"#).unwrap();
    assert!(only_x.is_empty());
}

#[test]
fn document_with_remote_context_fails_with_no_loader() {
    let active = ActiveContext::new(None);
    let r = expand(&active, &parse(r#"{"@context":"http://example/ctx", "k":"v"}"#), &None, &mut NoLoader);
    let e = r.err().unwrap();
    assert_eq!(e.code, ErrorCode::LoadingRemoteContextFailed);
    assert_eq!(e.cause.unwrap().0.as_str(), "http://example/ctx");
}

#[test]
fn compact_iri_expansion() {
    let active = ActiveContext::new(None);
    let with_prefix = json_ld::processing::process(
        &active,
        &parse(r#"{"foaf":"http://xmlns.com/foaf/0.1/"}"#),
        &None,
        &mut NoLoader,
        json_ld::processing::Options { override_protected: false, propagate: true, validate_scoped: true },
    )
    .ok()
    .unwrap();
    let r = expand(&with_prefix, &parse(r#"{"foaf:name":"A"}"#), &None, &mut NoLoader).ok().unwrap();
    assert_eq!(r.len(), 1);
    let n = node(&r[0]);
    assert_eq!(id_text(&n.properties.entries[0].property), "http://xmlns.com/foaf/0.1/name");
    assert_eq!(text_value(&n.properties.entries[0].objects[0]), "A");
}

#[test]
fn values_take_type_language_and_direction() {
    let r = run(
        r#"{"@context":{"@vocab":"http://ex/","@language":"en","date":{"@type":"http://www.w3.org/2001/XMLSchema#date"},
            "label":{"@language":"fr","@direction":"rtl"},"plain":{"@language":null},"ref":{"@type":"@id"},
            "kind":{"@type":"@vocab"}},
            "@id":"http://example/a","date":"2020-01-01","label":"l","plain":"p","other":"o","count":3,
            "ref":"http://example/b","kind":"Thing","flag":true}"#,
    )
    .unwrap();
    let n = node(&r[0]);
    let find = |iri: &str| n.properties.entries.iter().find(|e| id_text(&e.property) == iri).unwrap();
    match &find("http://ex/date").objects[0].inner {
        Object::Value(v) => {
            assert_eq!(v.ty.as_ref().unwrap().as_str(), "http://www.w3.org/2001/XMLSchema#date");
            assert!(v.language.is_none());
        },
        _ => panic!(),
    }
    match &find("http://ex/label").objects[0].inner {
        Object::Value(v) => {
            assert_eq!(v.language.as_deref(), Some("fr"));
            assert_eq!(v.direction, Some(Direction::Rtl));
        },
        _ => panic!(),
    }
    match &find("http://ex/plain").objects[0].inner {
        Object::Value(v) => assert!(v.language.is_none()),
        _ => panic!(),
    }
    match &find("http://ex/other").objects[0].inner {
        Object::Value(v) => assert_eq!(v.language.as_deref(), Some("en")),
        _ => panic!(),
    }
    match &find("http://ex/count").objects[0].inner {
        Object::Value(v) => {
            assert!(matches!(&v.literal, Literal::Number(n) if n == "3"));
            assert!(v.language.is_none());
        },
        _ => panic!(),
    }
    assert_eq!(id_text(node(&find("http://ex/ref").objects[0]).id.as_ref().unwrap()), "http://example/b");
    assert_eq!(id_text(node(&find("http://ex/kind").objects[0]).id.as_ref().unwrap()), "http://ex/Thing");
    assert!(matches!(&find("http://ex/flag").objects[0].inner, Object::Value(v) if matches!(v.literal, Literal::Boolean(true))));
}

#[test]
fn value_objects_sets_types_graphs_and_reverse_properties() {
    let r = run(
        r#"{"@context":{"@vocab":"http://ex/","of":{"@reverse":"http://ex/has"}},
            "@id":"http://example/a","@type":["A","http://other/B"],"@index":"i",
            "v":{"@value":"x","@language":"de","@index":"vi"},"n":{"@value":null},
            "s":{"@set":[1,{"@value":2}]},"l":{"@list":[["nested"]]},
            "of":{"@id":"http://example/parent"},
            "@included":[{"@id":"http://example/inc","p":"q"}],
            "@graph":[{"@id":"http://example/g","p":"q"},{"@id":"http://example/bare"},"free"]}"#,
    )
    .unwrap();
    assert_eq!(r.len(), 1);
    assert_eq!(r[0].index.as_deref(), Some("i"));
    let n = node(&r[0]);
    let types: Vec<String> = n.types.as_ref().unwrap().iter().map(id_text).collect();
    assert_eq!(types, vec!["http://ex/A", "http://other/B"]);
    let find = |iri: &str| n.properties.entries.iter().find(|e| id_text(&e.property) == iri);
    let v = &find("http://ex/v").unwrap().objects[0];
    assert_eq!(v.index.as_deref(), Some("vi"));
    assert!(matches!(&v.inner, Object::Value(x) if x.language.as_deref() == Some("de")));
    assert!(find("http://ex/n").is_none());
    let set: Vec<String> = find("http://ex/s").unwrap().objects.iter().map(text_value).collect();
    assert_eq!(set, vec!["1", "2"]);
    match &find("http://ex/l").unwrap().objects[0].inner {
        Object::List(l) => assert_eq!(l.items.len(), 1),
        _ => panic!(),
    }
    let reverse = n.reverse_properties.as_ref().unwrap();
    assert_eq!(id_text(&reverse.entries[0].property), "http://ex/has");
    assert_eq!(id_text(reverse.entries[0].nodes[0].inner.id.as_ref().unwrap()), "http://example/parent");
    assert_eq!(n.included.as_ref().unwrap().len(), 1);
    let graph = n.graph.as_ref().unwrap();
    assert_eq!(graph.len(), 1);
    assert_eq!(id_text(node(&graph[0]).id.as_ref().unwrap()), "http://example/g");
}

#[test]
fn top_level_graph_is_unwrapped_and_free_values_are_dropped() {
    let r = run(
        r#"{"@context":{"p":"http://ex/p"},"@graph":[{"@id":"http://example/a","p":1},{"@id":"http://example/b","p":2}]}"#,
    )
    .unwrap();
    let ids: Vec<String> = r.iter().map(|o| id_text(node(o).id.as_ref().unwrap())).collect();
    assert_eq!(ids, vec!["http://example/a", "http://example/b"]);
    assert!(run(r#"["free", 1, null, {"@value":"v"}, {"@list":[1]}, {"@id":"http://example/bare"}]"#).unwrap().is_empty());
    assert!(run(r#"{"unknown":"dropped"}"#).unwrap().is_empty());
}

#[test]
fn identifiers_are_iris_blank_or_invalid() {
    let base = IriBuf::from_str("http://example/dir/doc").unwrap();
    let active = ActiveContext::new(Some(base.clone()));
    let r = expand(
        &active,
        &parse(
            r#"[{"@id":"relative","http://ex/p":1},{"@id":"_:b0","http://ex/p":1},{"@id":"not an iri","http://ex/p":1}]"#,
        ),
        &Some(base),
        &mut NoLoader,
    )
    .ok()
    .unwrap();
    assert!(matches!(&node(&r[0]).id, Some(Id::Valid(ValidId::Iri(i))) if i.as_str() == "http://example/dir/relative"));
    assert!(matches!(&node(&r[1]).id, Some(Id::Valid(ValidId::Blank(b))) if b.as_str() == "_:b0"));
    assert!(matches!(&node(&r[2]).id, Some(Id::Invalid(s)) if s == "not an iri"));
}

#[test]
fn property_scoped_context_holds_within_the_values() {
    let r = run(
        r#"{"@context":{"@vocab":"http://ex/","inner":{"@context":{"name":"http://other/name"}}},
            "@id":"http://example/a","name":"outer","inner":{"@id":"http://example/b","name":"inner"}}"#,
    )
    .unwrap();
    let n = node(&r[0]);
    let find = |iri: &str| n.properties.entries.iter().find(|e| id_text(&e.property) == iri).unwrap();
    assert_eq!(text_value(&find("http://ex/name").objects[0]), "outer");
    let inner = node(&find("http://ex/inner").objects[0]);
    assert_eq!(id_text(&inner.properties.entries[0].property), "http://other/name");
}

#[test]
fn each_error_of_a_document_has_an_input() {
    let cases = [
        (r#"{"@id":12}"#, ErrorCode::InvalidIdValue),
        (r#"{"@id":"http://example/a","@id":"http://example/b"}"#, ErrorCode::CollidingKeywords),
        (r#"{"@type":12}"#, ErrorCode::InvalidTypeValue),
        (r#"{"@type":["http://ex/A",12]}"#, ErrorCode::InvalidTypeValue),
        (r#"{"@index":12,"http://ex/p":1}"#, ErrorCode::InvalidIndexValue),
        (r#"{"http://ex/p":{"@value":"v","@id":"http://example/a"}}"#, ErrorCode::InvalidValueObject),
        (r#"{"http://ex/p":{"@value":"v","@type":"http://ex/t","@language":"en"}}"#, ErrorCode::InvalidValueObject),
        (r#"{"http://ex/p":{"@value":["v"]}}"#, ErrorCode::InvalidValueObjectValue),
        (r#"{"http://ex/p":{"@value":"v","@type":12}}"#, ErrorCode::InvalidTypedValue),
        (r#"{"http://ex/p":{"@value":"v","@type":"_:b"}}"#, ErrorCode::InvalidTypedValue),
        (r#"{"http://ex/p":{"@value":1,"@language":"en"}}"#, ErrorCode::InvalidLanguageTaggedValue),
        (r#"{"http://ex/p":{"@value":"v","@language":12}}"#, ErrorCode::InvalidLanguageTaggedString),
        (r#"{"http://ex/p":{"@value":"v","@direction":"up"}}"#, ErrorCode::InvalidBaseDirection),
        (r#"{"http://ex/p":{"@value":"v","@index":12}}"#, ErrorCode::InvalidIndexValue),
        (r#"{"http://ex/p":{"@list":[1],"@id":"http://example/a"}}"#, ErrorCode::InvalidSetOrListObject),
        (r#"{"http://ex/p":{"@set":[1],"@id":"http://example/a"}}"#, ErrorCode::InvalidSetOrListObject),
        (r#"{"@included":["v"]}"#, ErrorCode::InvalidIncludedValue),
        (r#"{"@context":{"of":{"@reverse":"http://ex/has"}},"of":"value"}"#, ErrorCode::InvalidReversePropertyValue),
        (r#"{"@context":12}"#, ErrorCode::InvalidLocalContext),
        (r#"{"@reverse":"value"}"#, ErrorCode::InvalidReverseValue),
        (r#"{"@reverse":{"http://ex/has":"value"}}"#, ErrorCode::InvalidReversePropertyValue),
    ];
    for (document, code) in cases {
        assert_eq!(run(document).err(), Some(code), "{}", document);
    }
}

#[test]
fn list_term_wraps_an_array_and_keeps_a_list_object() {
    let context = r#""@context":{"items":{"@id":"http://ex/items","@container":"@list"}}"#;
    let nested = parse(&format!(r#"{{{},"items":[[1]]}}"#, context)).expand(&mut NoLoader).ok().unwrap();
    let written = parse(&format!(r#"{{{},"items":[{{"@list":[1]}}]}}"#, context)).expand(&mut NoLoader).ok().unwrap();
    let full = parse(r#"{"http://ex/items":{"@list":[{"@list":[1]}]}}"#).expand(&mut NoLoader).ok().unwrap();
    assert!(unordered_mapped_eq(&nested, &full, &|label: &BlankIdBuf| label));
    assert!(unordered_mapped_eq(&written, &full, &|label: &BlankIdBuf| label));
    let kept = parse(&format!(r#"{{{},"items":{{"@list":[1]}}}}"#, context)).expand(&mut NoLoader).ok().unwrap();
    let plain = parse(r#"{"http://ex/items":{"@list":[1]}}"#).expand(&mut NoLoader).ok().unwrap();
    assert!(unordered_mapped_eq(&kept, &plain, &|label: &BlankIdBuf| label));
    assert!(!unordered_mapped_eq(&kept, &full, &|label: &BlankIdBuf| label));
}

fn expansion_of(source: &str) -> Result<Vec<Indexed<ExpandedObject>>, ErrorCode> {
    parse(source).expand(&mut NoLoader).map_err(|e| e.code)
}

fn alike(a: &str, b: &str) -> bool {
    unordered_mapped_eq(&expansion_of(a).unwrap(), &expansion_of(b).unwrap(), &|label: &BlankIdBuf| label)
}

#[test]
fn nested_entries_stand_in_the_node_itself() {
    let plain = r#"{"@id":"http://ex/a","http://ex/name":"A","http://ex/age":1}"#;
    assert!(alike(r#"{"@id":"http://ex/a","@nest":{"http://ex/name":"A","http://ex/age":1}}"#, plain));
    assert!(alike(
        r#"{"@context":{"labels":"@nest","name":"http://ex/name"},"@id":"http://ex/a","labels":{"name":"A"},"http://ex/age":1}"#,
        plain
    ));
    assert!(alike(r#"{"@id":"http://ex/a","@nest":[{"http://ex/name":"A"},{"@nest":{"http://ex/age":1}}]}"#, plain));
    assert!(!alike(r#"{"@id":"http://ex/a","@nest":{"http://ex/name":"B"}}"#, plain));
    assert_eq!(expansion_of(r#"{"@id":"http://ex/a","@nest":"x"}"#).err(), Some(ErrorCode::InvalidNestValue));
    assert_eq!(expansion_of(r#"{"@id":"http://ex/a","@nest":[1]}"#).err(), Some(ErrorCode::InvalidNestValue));
    assert_eq!(
        expansion_of(r#"{"@id":"http://ex/a","@nest":{"@value":"x"}}"#).err(),
        Some(ErrorCode::InvalidNestValue)
    );
}

#[test]
fn language_map_gives_each_string_its_language() {
    let context = r#""@context":{"label":{"@id":"http://ex/label","@container":"@language"}}"#;
    assert!(alike(
        &format!(r#"{{{},"@id":"http://ex/a","label":{{"en":"Hello","fr":["Bonjour",null,"Salut"],"@none":"x","de":null}}}}"#, context),
        r#"{"@id":"http://ex/a","http://ex/label":[{"@value":"Hello","@language":"en"},{"@value":"Bonjour","@language":"fr"},{"@value":"Salut","@language":"fr"},{"@value":"x"}]}"#
    ));
    assert!(!alike(
        &format!(r#"{{{},"@id":"http://ex/a","label":{{"en":"Hello"}}}}"#, context),
        r#"{"@id":"http://ex/a","http://ex/label":{"@value":"Hello","@language":"fr"}}"#
    ));
    assert!(alike(
        &format!(r#"{{{},"@id":"http://ex/a","label":"plain"}}"#, context),
        r#"{"@id":"http://ex/a","http://ex/label":"plain"}"#
    ));
    assert_eq!(
        expansion_of(&format!(r#"{{{},"label":{{"en":1}}}}"#, context)).err(),
        Some(ErrorCode::InvalidLanguageMapValue)
    );
    assert_eq!(
        expansion_of(&format!(r#"{{{},"label":{{"en":["a",{{"@value":"b"}}]}}}}"#, context)).err(),
        Some(ErrorCode::InvalidLanguageMapValue)
    );
}

#[test]
fn index_map_gives_each_object_its_index() {
    let context = r#""@context":{"post":{"@id":"http://ex/post","@container":"@index"}}"#;
    assert!(alike(
        &format!(
            r#"{{{},"@id":"http://ex/a","post":{{"first":{{"@id":"http://ex/1"}},"second":[{{"@id":"http://ex/2"}},{{"@value":"v","@index":"own"}}],"@none":"free"}}}}"#,
            context
        ),
        r#"{"@id":"http://ex/a","http://ex/post":[{"@id":"http://ex/1","@index":"first"},{"@id":"http://ex/2","@index":"second"},{"@value":"v","@index":"own"},"free"]}"#
    ));
    assert!(!alike(
        &format!(r#"{{{},"@id":"http://ex/a","post":{{"first":{{"@id":"http://ex/1"}}}}}}"#, context),
        r#"{"@id":"http://ex/a","http://ex/post":{"@id":"http://ex/1"}}"#
    ));
}

#[test]
fn identifier_map_gives_each_node_its_identifier() {
    let context = r#""@context":{"post":{"@id":"http://ex/post","@container":"@id"}}"#;
    assert!(alike(
        &format!(
            r#"{{{},"@id":"http://ex/a","post":{{"http://ex/1":{{"http://ex/p":"one"}},"http://ex/2":{{"@id":"http://ex/own","http://ex/p":"two"}},"@none":{{"http://ex/p":"none"}}}}}}"#,
            context
        ),
        r#"{"@id":"http://ex/a","http://ex/post":[{"@id":"http://ex/1","http://ex/p":"one"},{"@id":"http://ex/own","http://ex/p":"two"},{"http://ex/p":"none"}]}"#
    ));
}

#[test]
fn type_map_gives_each_node_its_type() {
    let context = r#""@context":{"post":{"@id":"http://ex/post","@container":"@type"}}"#;
    assert!(alike(
        &format!(
            r#"{{{},"@id":"http://ex/a","post":{{"http://ex/T":{{"@id":"http://ex/1"}},"http://ex/U":{{"@id":"http://ex/2","@type":"http://ex/V"}}}}}}"#,
            context
        ),
        r#"{"@id":"http://ex/a","http://ex/post":[{"@id":"http://ex/1","@type":"http://ex/T"},{"@id":"http://ex/2","@type":["http://ex/V","http://ex/U"]}]}"#
    ));
}

#[test]
fn graph_container_makes_a_graph_of_each_value() {
    let context = r#""@context":{"claim":{"@id":"http://ex/claim","@container":"@graph"}}"#;
    assert!(alike(
        &format!(r#"{{{},"@id":"http://ex/a","claim":[{{"@id":"http://ex/1","http://ex/p":"one"}},{{"@id":"http://ex/2","http://ex/p":"two"}}]}}"#, context),
        r#"{"@id":"http://ex/a","http://ex/claim":[{"@graph":[{"@id":"http://ex/1","http://ex/p":"one"}]},{"@graph":[{"@id":"http://ex/2","http://ex/p":"two"}]}]}"#
    ));
    assert!(!alike(
        &format!(r#"{{{},"@id":"http://ex/a","claim":{{"@id":"http://ex/1","http://ex/p":"one"}}}}"#, context),
        r#"{"@id":"http://ex/a","http://ex/claim":{"@id":"http://ex/1","http://ex/p":"one"}}"#
    ));
}

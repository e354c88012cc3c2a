use json_ld::compaction::model::Options;
use json_ld::context::ActiveContext;
use json_ld::document::{Document, ExpandedDocument};
use json_ld::error::ErrorCode;
use json_ld::iri::{BlankIdBuf, IriBuf};
use json_ld::json::Json;
use json_ld::loader::{NoLoader, RemoteDocument};
use json_ld::object::mapped_eq::unordered_mapped_eq;
use json_ld::print::Print;
use json_ld::round_trip::sound::is_sound_document;
use json_syntax::Parse;

fn convert(value: json_syntax::Value<()>) -> Json {
    match value {
        json_syntax::Value::Null => Json::Null,
        json_syntax::Value::Boolean(b) => Json::Boolean(b),
        json_syntax::Value::Number(n) => Json::Number(n.as_str().to_string()),
        json_syntax::Value::String(s) => Json::Text(s.as_str().to_string()),
        json_syntax::Value::Array(items) => Json::Array(items.into_iter().map(|i| convert(i.into_value())).collect()),
        json_syntax::Value::Object(object) => Json::Object(
            object
                .into_iter()
                .map(|e| (e.key.into_value().as_str().to_string(), convert(e.value.into_value())))
                .collect(),
        ),
    }
}

fn parse(source: &str) -> Json {
    convert(json_syntax::Value::parse_str(source, |_| ()).unwrap().into_value())
}

fn compact(document: &str, context: &str) -> Result<String, ErrorCode> {
    parse(document).compact(&parse(context), &mut NoLoader).map(|j| j.compact_print().unwrap()).map_err(|e| e.code)
}

fn same(a: &ExpandedDocument, b: &ExpandedDocument) -> bool {
    unordered_mapped_eq(a, b, &|label: &BlankIdBuf| label)
}

fn round_trip(document: &str, context: &str) {
    let expanded = parse(document).expand(&mut NoLoader).ok().unwrap();
    let compacted = parse(document).compact(&parse(context), &mut NoLoader).ok().unwrap();
    let again = compacted.expand(&mut NoLoader).ok().unwrap();
    assert!(same(&again, &expanded), "{} became {}", document, compacted.compact_print().unwrap());
    assert!(same(&expanded, &again));
}

#[test]
fn minimal_node_is_compacted_with_its_term() {
    let r = compact(
        r#"{"@id":"http://example/a","http://xmlns.com/foaf/0.1/name":"A"}"#,
        r#"{"name":"http://xmlns.com/foaf/0.1/name"}"#,
    );
    assert_eq!(
        r.unwrap(),
        r#"{"@id":"http://example/a","name":"A","@context":{"name":"http://xmlns.com/foaf/0.1/name"}}"#
    );
}

#[test]
fn list_container_is_unwrapped() {
    let context = r#"{"items":{"@id":"http://ex/items","@container":"@list"}}"#;
    let r = compact(r#"{"http://ex/items":{"@list":[1,2,3]}}"#, context).unwrap();
    assert_eq!(r, format!(r#"{{"items":[1,2,3],"@context":{}}}"#, context));
    round_trip(r#"{"@context":{"items":{"@id":"http://ex/items","@container":"@list"}},"items":[1,2,3]}"#, context);
}

#[test]
fn several_nodes_stand_in_a_graph() {
    let r = compact(
        r#"[{"@id":"http://example/a","http://ex/p":1},{"@id":"http://example/b","http://ex/p":[2,3]}]"#,
        r#"{"p":"http://ex/p","id":"@id","graph":"@graph"}"#,
    )
    .unwrap();
    assert_eq!(
        r,
        r#"{"graph":[{"id":"http://example/a","p":1},{"id":"http://example/b","p":[2,3]}],"@context":{"p":"http://ex/p","id":"@id","graph":"@graph"}}"#
    );
}

#[test]
fn empty_document_and_empty_context() {
    assert_eq!(compact(r#"[]"#, r#"{"p":"http://ex/p"}"#).unwrap(), r#"{"@context":{"p":"http://ex/p"}}"#);
    assert_eq!(compact(r#"[]"#, r#"{}"#).unwrap(), "{}");
    assert_eq!(compact(r#"[]"#, r#"[]"#).unwrap(), "{}");
    assert_eq!(compact(r#"[]"#, r#"null"#).unwrap(), "{}");
    assert_eq!(compact(r#"{"@id":"http://example/a","http://ex/p":1}"#, r#"{}"#).unwrap(), r#"{"@id":"http://example/a","http://ex/p":1}"#);
    assert_eq!(compact(r#"{"@id":"http://example/a","http://ex/p":1}"#, r#"null"#).unwrap(), r#"{"@id":"http://example/a","http://ex/p":1}"#);
}

#[test]
fn arrays_of_one_item_are_kept_on_request() {
    let doc = parse(r#"{"@id":"http://example/a","http://ex/p":1,"@type":"http://ex/T"}"#);
    let r = doc
        .compact_with(&None, &parse(r#"{"p":"http://ex/p"}"#), &mut NoLoader, Options { compact_arrays: false })
        .ok()
        .unwrap();
    assert_eq!(
        r.compact_print().unwrap(),
        r#"{"@graph":[{"@id":"http://example/a","@type":["http://ex/T"],"p":[1]}],"@context":{"p":"http://ex/p"}}"#
    );
    let set = compact(r#"{"@id":"http://example/a","http://ex/p":1}"#, r#"{"p":{"@id":"http://ex/p","@container":"@set"}}"#);
    assert!(set.unwrap().starts_with(r#"{"@id":"http://example/a","p":[1],"#));
}

#[test]
fn shortest_term_is_taken_then_the_first_in_the_dictionary() {
    let r = compact(
        r#"{"@id":"http://example/a","http://ex/p":1}"#,
        r#"{"long":"http://ex/p","zz":"http://ex/p","ab":"http://ex/p","b":{"@id":"http://ex/p","@container":"@list"}}"#,
    )
    .unwrap();
    assert!(r.starts_with(r#"{"@id":"http://example/a","ab":1,"#), "{}", r);
}

#[test]
fn compact_iris_and_vocabulary_are_used() {
    let r = compact(
        r#"{"@id":"http://example/a","@type":"http://ex/vocab#Thing","http://xmlns.com/foaf/0.1/name":"A","http://ex/vocab#size":3}"#,
        r#"{"@vocab":"http://ex/vocab#","foaf":"http://xmlns.com/foaf/0.1/"}"#,
    )
    .unwrap();
    assert!(r.starts_with(r#"{"@id":"http://example/a","@type":"Thing","foaf:name":"A","size":3,"#), "{}", r);
}

#[test]
fn values_are_written_in_full_where_the_term_does_not_give_them_back() {
    let context = r#"{"@language":"en","date":{"@id":"http://ex/date","@type":"http://www.w3.org/2001/XMLSchema#date"},"p":"http://ex/p","ref":{"@id":"http://ex/ref","@type":"@id"}}"#;
    let document = r#"{"@id":"http://example/a","http://ex/date":{"@value":"2020-01-01","@type":"http://www.w3.org/2001/XMLSchema#date"},
        "http://ex/p":[{"@value":"hello","@language":"en"},{"@value":"bonjour","@language":"fr"},{"@value":"plain"},{"@value":"x","@index":"i"}],
        "http://ex/ref":[{"@id":"http://example/b"},{"@id":"http://example/c","http://ex/p":{"@value":1}}]}"#;
    let r = compact(document, context).unwrap();
    assert!(
        r.starts_with(
            r#"{"@id":"http://example/a","date":"2020-01-01","p":["hello",{"@value":"bonjour","@language":"fr"},{"@value":"plain"},{"@value":"x","@index":"i"}],"ref":["http://example/b",{"@id":"http://example/c","p":1}],"#
        ),
        "{}",
        r
    );
    round_trip(document, context);
}

#[test]
fn reverse_properties_graphs_and_included_nodes_are_compacted() {
    let context = r#"{"of":{"@reverse":"http://ex/has"},"p":"http://ex/p"}"#;
    let document = r#"{"@id":"http://example/a","@reverse":{"http://ex/has":{"@id":"http://example/parent"},"http://ex/other":{"@id":"http://example/o"}},
        "@included":[{"@id":"http://example/inc","http://ex/p":"q"}],
        "@graph":[{"@id":"http://example/g","http://ex/p":"q"}]}"#;
    let r = compact(document, context).unwrap();
    assert!(
        r.starts_with(
            r#"{"@id":"http://example/a","of":[{"@id":"http://example/parent"}],"@reverse":{"http://ex/other":[{"@id":"http://example/o"}]},"@included":[{"@id":"http://example/inc","p":"q"}],"@graph":[{"@id":"http://example/g","p":"q"}],"#
        ),
        "{}",
        r
    );
    round_trip(document, context);
}

#[test]
fn two_lists_under_a_list_term_are_refused() {
    let r = compact(
        r#"{"http://ex/items":[{"@list":[1]},{"@list":[2]}]}"#,
        r#"{"items":{"@id":"http://ex/items","@container":"@list"}}"#,
    );
    assert_eq!(r.err(), Some(ErrorCode::CompactionToListOfLists));
}

#[test]
fn iri_that_reads_as_a_compact_iri_is_refused() {
    let r = compact(r#"{"@id":"http://example/a","ex:p":1}"#, r#"{"ex":{"@id":"http://other/","@prefix":true}}"#);
    assert_eq!(r.err(), Some(ErrorCode::IriConfusedWithPrefix));
}

#[test]
fn compaction_fails_where_the_context_cannot_be_loaded() {
    let r = parse(r#"{"@id":"http://example/a"}"#).compact(&parse(r#""http://example/ctx""#), &mut NoLoader);
    assert_eq!(r.err().unwrap().code, ErrorCode::LoadingRemoteContextFailed);
}

#[test]
fn expansion_is_idempotent() {
    let document = parse(
        r#"{"@context":{"@vocab":"http://ex/","ref":{"@type":"@id"},"items":{"@container":"@list"}},
            "@id":"http://example/a","@type":"T","name":"A","ref":"http://example/b","items":[1,"two",true],
            "child":{"@id":"_:b0","name":{"@value":"n","@language":"en"}}}"#,
    );
    let expanded = document.expand(&mut NoLoader).ok().unwrap();
    let written = document.compact(&Json::Null, &mut NoLoader).ok().unwrap();
    let again = written.expand(&mut NoLoader).ok().unwrap();
    assert!(same(&again, &expanded), "{}", written.compact_print().unwrap());
    let once_more = again_as_json(&written).expand(&mut NoLoader).ok().unwrap();
    assert!(same(&once_more, &again));
}

fn again_as_json(written: &Json) -> Json {
    written.compact(&Json::Null, &mut NoLoader).ok().unwrap()
}

#[test]
fn remote_document_is_expanded_against_its_own_iri() {
    let base = IriBuf::from_str("http://example/dir/doc").unwrap();
    let remote = RemoteDocument::new(parse(r#"{"@id":"a","http://ex/p":{"@id":"b"}}"#), base);
    assert_eq!(remote.base_url().as_str(), "http://example/dir/doc");
    let expanded = Document::expand(&remote, &mut NoLoader).ok().unwrap();
    let plain = parse(r#"{"@id":"http://example/dir/a","http://ex/p":{"@id":"http://example/dir/b"}}"#)
        .expand(&mut NoLoader)
        .ok()
        .unwrap();
    assert!(same(&expanded, &plain));
    let (document, url) = remote.into_parts();
    assert_eq!(url.as_str(), "http://example/dir/doc");
    assert!(document.get("@id").is_some());
}

#[test]
fn active_context_of_a_document_starts_without_terms() {
    let active = ActiveContext::new(None);
    assert!(active.terms.is_empty() && !active.has_protected_terms());
}

#[test]
fn sound_documents_come_back_from_the_context_without_terms() {
    let documents = [
        r#"{"@id":"http://ex/a","@type":["http://ex/T","http://ex/U"],"http://ex/p":[{"@value":"x","@language":"en"},{"@value":"2","@type":"http://ex/int"},true,{"@list":[1,{"@list":["y"]},{"@id":"_:b0"}]}],"http://ex/q":{"@id":"http://ex/b","http://ex/r":"z"}}"#,
        r#"{"@id":"_:n","@reverse":{"http://ex/of":[{"@id":"http://ex/c"},{"@id":"http://ex/d","http://ex/p":1}]},"@included":[{"@id":"http://ex/e","http://ex/p":"in"}],"@graph":[{"@id":"http://ex/f","http://ex/p":{"@value":"v","@index":"i"}}]}"#,
        r#"[{"@id":"http://ex/a","http://ex/p":1},{"@id":"http://ex/b","@index":"second","http://ex/p":{"@value":"r","@direction":"rtl"}}]"#,
        r#"[]"#,
    ];
    for document in documents {
        round_trip(document, "null");
        let expanded = parse(document).expand(&mut NoLoader).ok().unwrap();
        let kept = parse(document)
            .compact_with(&None, &Json::Null, &mut NoLoader, Options { compact_arrays: false })
            .ok()
            .unwrap();
        let again = kept.expand(&mut NoLoader).ok().unwrap();
        assert!(same(&again, &expanded), "{} became {}", document, kept.compact_print().unwrap());
    }
}

#[test]
fn lists_of_lists_come_back_from_a_list_term() {
    let context = r#"{"items":{"@id":"http://ex/items","@container":"@list"}}"#;
    let r = compact(r#"{"@id":"http://ex/a","http://ex/items":{"@list":[{"@list":[1]}]}}"#, context).unwrap();
    assert_eq!(r, format!(r#"{{"@id":"http://ex/a","items":[{{"@list":[1]}}],"@context":{}}}"#, context));
    round_trip(r#"{"@id":"http://ex/a","http://ex/items":{"@list":[{"@list":[1]}]}}"#, context);
    round_trip(r#"{"@id":"http://ex/a","http://ex/items":{"@list":[{"@list":[1]},{"@list":[]}]}}"#, context);
    round_trip(r#"{"@id":"http://ex/a","http://ex/items":{"@list":[]}}"#, context);
}

#[test]
fn soundness_of_a_document_is_decided() {
    let sound = parse(r#"{"@id":"http://ex/a","@type":"http://ex/T","http://ex/p":[{"@value":"x","@language":"en"},{"@list":[{"@id":"_:b0"}]}],"@reverse":{"http://ex/of":{"@id":"http://ex/c"}}}"#);
    assert!(is_sound_document(&sound.expand(&mut NoLoader).ok().unwrap()));
    assert!(is_sound_document(&parse("[]").expand(&mut NoLoader).ok().unwrap()));
    let with_a_name_that_is_no_iri = parse(r#"{"@id":"not an iri","http://ex/p":1}"#);
    assert!(!is_sound_document(&with_a_name_that_is_no_iri.expand(&mut NoLoader).ok().unwrap()));
    let with_a_type_that_is_no_iri = parse(r#"{"@id":"http://ex/a","@type":"no type"}"#);
    assert!(!is_sound_document(&with_a_type_that_is_no_iri.expand(&mut NoLoader).ok().unwrap()));
    let wrapper = parse(r#"{"@graph":[{"@graph":[{"@id":"http://ex/a","http://ex/p":1}]}]}"#);
    assert!(!is_sound_document(&wrapper.expand(&mut NoLoader).ok().unwrap()));
}

#[test]
fn language_maps_and_index_maps_are_written() {
    let context = r#"{"label":{"@id":"http://ex/label","@container":"@language"},"post":{"@id":"http://ex/post","@container":"@index"},"ex":"http://ex/"}"#;
    let document = r#"{"@id":"http://ex/a","http://ex/label":[{"@value":"Hello","@language":"en"},{"@value":"Bonjour","@language":"fr"},{"@value":"Salut","@language":"fr"},{"@value":"typed","@type":"http://ex/T"}],"http://ex/post":[{"@id":"http://ex/1","@index":"first"},{"@value":"v","@index":"first"},{"@id":"http://ex/2","@index":"second"},{"@id":"http://ex/3"}]}"#;
    let r = compact(document, context).unwrap();
    assert!(
        r.starts_with(
            r#"{"@id":"ex:a","label":{"en":"Hello","fr":["Bonjour","Salut"]},"ex:label":{"@value":"typed","@type":"ex:T"},"post":{"first":[{"@id":"ex:1"},"v"],"second":{"@id":"ex:2"}},"ex:post":{"@id":"ex:3"},"#
        ),
        "{}",
        r
    );
    round_trip(document, context);
    round_trip(
        r#"{"@context":{"label":{"@id":"http://ex/label","@container":"@language"}},"@id":"http://ex/a","label":{"en":"Hello","fr":["Bonjour","Salut"],"@none":"plain"}}"#,
        context,
    );
}

#[test]
fn terms_with_a_map_of_identifiers_or_types_are_not_written() {
    let context = r#"{"byId":{"@id":"http://ex/p","@container":"@id"},"byType":{"@id":"http://ex/q","@container":"@type"},"graphs":{"@id":"http://ex/g","@container":"@graph"},"ex":"http://ex/"}"#;
    let document = r#"{"@id":"http://ex/a","http://ex/p":{"@id":"http://ex/1","http://ex/n":1},"http://ex/q":{"@id":"http://ex/2","@type":"http://ex/T"},"http://ex/g":{"@graph":[{"@id":"http://ex/3","http://ex/n":3}]}}"#;
    let r = compact(document, context).unwrap();
    assert!(r.contains(r#""ex:p":"#) && r.contains(r#""ex:q":"#) && r.contains(r#""ex:g":"#), "{}", r);
    round_trip(document, context);
}

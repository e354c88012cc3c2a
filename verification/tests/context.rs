use json_ld::context::ActiveContext;
use json_ld::error::ErrorCode;
use json_ld::iri::IriBuf;
use json_ld::json::Json;
use json_ld::loader::{next_step, Loader, Next, NoLoader, Preloaded, RemoteDocument};
use json_ld::processing::{process, Options};
use json_syntax::Parse;

fn convert(value: json_syntax::Value<()>) -> Json {
    match value {
        json_syntax::Value::Null => Json::Null,
        json_syntax::Value::Boolean(b) => Json::Boolean(b),
        json_syntax::Value::Number(n) => Json::Number(n.as_str().to_string()),
        json_syntax::Value::String(s) => Json::Text(s.as_str().to_string()),
        json_syntax::Value::Array(items) => Json::Array(items.into_iter().map(|i| convert(i.into_value())).collect()),
        json_syntax::Value::Object(object) => Json::Object(
            object
                .into_iter()
                .map(|e| (e.key.into_value().as_str().to_string(), convert(e.value.into_value())))
                .collect(),
        ),
    }
}

fn parse(source: &str) -> Json {
    convert(json_syntax::Value::parse_str(source, |_| ()).unwrap().into_value())
}

fn options() -> Options {
    Options { override_protected: false, propagate: true, validate_scoped: true }
}

fn run(context: &str) -> Result<ActiveContext, ErrorCode> {
    let active = ActiveContext::new(None);
    process(&active, &parse(context), &None, &mut NoLoader, options()).map_err(|e| e.code)
}

fn one_document(url: &str, content: &str) -> Preloaded {
    let mut loader = Preloaded::new();
    let at = IriBuf::from_str(url).unwrap();
    loader.insert(at.clone(), RemoteDocument::new(parse(content), at));
    loader
}

#[test]
fn protected_redefinition_is_rejected() {
    let r = run(r#"[{"@protected":true,"t":"http://ex/t"}, {"t":"http://ex/u"}]"#);
    assert_eq!(r.err(), Some(ErrorCode::ProtectedTermRedefinition));
}

#[test]
fn protected_term_may_be_defined_again_the_same() {
    let r = run(r#"[{"@protected":true,"t":"http://ex/t"}, {"t":"http://ex/t"}]"#).unwrap();
    let t = r.get("t").unwrap();
    assert_eq!(t.iri.as_deref(), Some("http://ex/t"));
    assert!(t.protected);
}

#[test]
fn protected_term_may_be_overridden_on_request() {
    let active = ActiveContext::new(None);
    let first = process(&active, &parse(r#"{"@protected":true,"t":"http://ex/t"}"#), &None, &mut NoLoader, options())
        .ok()
        .unwrap();
    let overriding = Options { override_protected: true, propagate: true, validate_scoped: true };
    let second = process(&first, &parse(r#"{"t":"http://ex/u"}"#), &None, &mut NoLoader, overriding).ok().unwrap();
    assert_eq!(second.get("t").unwrap().iri.as_deref(), Some("http://ex/u"));
}

#[test]
fn null_context_clears_the_terms() {
    let r = run(r#"[{"x":"http://ex/x"}, null, {"y":"http://ex/y"}]"#).unwrap();
    assert!(r.get("x").is_none());
    assert_eq!(r.get("y").unwrap().iri.as_deref(), Some("http://ex/y"));
    assert_eq!(r.expand_iri("x", false, true), Some("x".to_string()));
    assert_eq!(r.expand_iri("y", false, true), Some("http://ex/y".to_string()));
}

#[test]
fn null_context_resets_all_but_the_base() {
    let base = IriBuf::from_str("http://example/doc").unwrap();
    let active = ActiveContext::new(Some(base.clone()));
    let context = parse(r#"[{"@vocab":"http://ex/", "@language":"en", "x":"http://ex/x"}, null]"#);
    let r = process(&active, &context, &Some(base), &mut NoLoader, options()).ok().unwrap();
    assert_eq!(r.base.as_ref().map(|b| b.as_str()), Some("http://example/doc"));
    assert!(r.vocab.is_none());
    assert!(r.language.is_none());
    assert!(r.direction.is_none());
    assert!(r.propagate);
    assert!(r.previous.is_none());
    assert!(r.terms.is_empty());
}

#[test]
fn null_context_is_refused_over_protected_terms() {
    let r = run(r#"[{"@protected":true,"t":"http://ex/t"}, null]"#);
    assert_eq!(r.err(), Some(ErrorCode::InvalidContextNullification));
}

#[test]
fn remote_context_fails_with_no_loader() {
    let active = ActiveContext::new(None);
    let r = process(&active, &parse(r#""http://example/ctx""#), &None, &mut NoLoader, options());
    let e = r.err().unwrap();
    assert_eq!(e.code, ErrorCode::LoadingRemoteContextFailed);
    let cause = e.cause.unwrap();
    assert_eq!(cause.0.as_str(), "http://example/ctx");
    assert_eq!(cause.message(), "cannot load `http://example/ctx`");
}

#[test]
fn remote_context_is_loaded_and_processed() {
    let mut loader =
        one_document("http://example/ctx", r#"{"@context":{"k":"http://ex/k"}}"#);
    let active = ActiveContext::new(None);
    let r = process(&active, &parse(r#""http://example/ctx""#), &None, &mut loader, options()).ok().unwrap();
    assert_eq!(r.get("k").unwrap().iri.as_deref(), Some("http://ex/k"));
    let missing = process(&active, &parse(r#""http://example/other""#), &None, &mut loader, options());
    let e = missing.err().unwrap();
    assert_eq!(e.code, ErrorCode::LoadingRemoteContextFailed);
    assert_eq!(e.cause.unwrap().0.as_str(), "http://example/other");
}

#[test]
fn remote_context_that_includes_itself_is_refused() {
    let mut loader =
        one_document("http://example/ctx", r#"{"@context":"http://example/ctx"}"#);
    let active = ActiveContext::new(None);
    let r = process(&active, &parse(r#""http://example/ctx""#), &None, &mut loader, options());
    assert_eq!(r.err().unwrap().code, ErrorCode::RecursiveContextInclusion);
}

#[test]
fn remote_document_without_context_is_refused() {
    let mut loader = one_document("http://example/ctx", r#"{"k":"v"}"#);
    let active = ActiveContext::new(None);
    let r = process(&active, &parse(r#""http://example/ctx""#), &None, &mut loader, options());
    assert_eq!(r.err().unwrap().code, ErrorCode::InvalidRemoteContext);
}

#[test]
fn imported_context_stands_behind_the_importing_one() {
    let mut loader = one_document("http://example/ctx", r#"{"@context":{"a":"http://ex/imported-a","b":"http://ex/imported-b"}}"#);
    let active = ActiveContext::new(None);
    let context = parse(r#"{"@import":"http://example/ctx","a":"http://ex/a"}"#);
    let r = process(&active, &context, &None, &mut loader, options()).ok().unwrap();
    assert_eq!(r.get("a").unwrap().iri.as_deref(), Some("http://ex/a"));
    assert_eq!(r.get("b").unwrap().iri.as_deref(), Some("http://ex/imported-b"));
}

#[test]
fn compact_iri_is_expanded_through_its_prefix() {
    let r = run(r#"{"foaf":"http://xmlns.com/foaf/0.1/"}"#).unwrap();
    assert!(r.get("foaf").unwrap().prefix);
    assert_eq!(r.expand_iri("foaf:name", false, true), Some("http://xmlns.com/foaf/0.1/name".to_string()));
    assert_eq!(r.expand_iri("other:name", false, true), Some("other:name".to_string()));
    assert_eq!(r.expand_iri("_:b0", false, true), Some("_:b0".to_string()));
    assert_eq!(r.expand_iri("@type", false, true), Some("@type".to_string()));
    assert_eq!(r.expand_iri("@ignored", false, true), None);
}

#[test]
fn vocabulary_and_base_are_used_for_plain_names() {
    let base = IriBuf::from_str("http://example/dir/doc").unwrap();
    let active = ActiveContext::new(Some(base.clone()));
    let r = process(&active, &parse(r#"{"@vocab":"http://ex/vocab#"}"#), &Some(base), &mut NoLoader, options())
        .ok()
        .unwrap();
    assert_eq!(r.expand_iri("name", false, true), Some("http://ex/vocab#name".to_string()));
    assert_eq!(r.expand_iri("name", true, false), Some("http://example/dir/name".to_string()));
    assert_eq!(r.expand_iri("name", false, false), Some("name".to_string()));
}

#[test]
fn term_definitions_are_read_in_full() {
    let r = run(
        r#"{"@vocab":"http://ex/","items":{"@id":"http://ex/items","@container":"@list"},
            "label":{"@id":"http://ex/label","@language":"en","@direction":"rtl"},
            "ref":{"@type":"@id"},"by":{"@reverse":"http://ex/of","@container":"@set"},
            "tags":{"@container":["@index","@set"],"@index":"kind"},"none":null}"#,
    )
    .unwrap();
    let items = r.get("items").unwrap();
    assert_eq!(items.iri.as_deref(), Some("http://ex/items"));
    assert_eq!(items.container, vec![json_ld::syntax::context::ContainerKind::List]);
    let label = r.get("label").unwrap();
    assert!(matches!(&label.language, Some(json_ld::syntax::context::Nullable::Given(l)) if l == "en"));
    assert!(matches!(
        &label.direction,
        Some(json_ld::syntax::context::Nullable::Given(json_ld::object::value::Direction::Rtl))
    ));
    let reference = r.get("ref").unwrap();
    assert_eq!(reference.iri.as_deref(), Some("http://ex/ref"));
    assert_eq!(reference.typ.as_deref(), Some("@id"));
    let by = r.get("by").unwrap();
    assert!(by.reverse);
    assert_eq!(by.iri.as_deref(), Some("http://ex/of"));
    assert_eq!(r.get("tags").unwrap().index.as_deref(), Some("kind"));
    assert!(r.get("none").unwrap().iri.is_none());
}

#[test]
fn each_error_of_a_context_has_an_input() {
    let cases = [
        (r#"{"@id":"http://ex/id"}"#, ErrorCode::KeywordRedefinition),
        (r#"{"a":"b","b":"a"}"#, ErrorCode::CyclicIriMapping),
        (r#"{"":"http://ex/"}"#, ErrorCode::InvalidTermDefinition),
        (r#"{"t":true}"#, ErrorCode::InvalidTermDefinition),
        (r#"{"t":{"@id":"http://ex/t","@unknown":1}}"#, ErrorCode::InvalidTermDefinition),
        (r#"{"t":"plain"}"#, ErrorCode::InvalidIriMapping),
        (r#"{"t":{"@id":12}}"#, ErrorCode::InvalidIriMapping),
        (r#"{"t":{"@id":"@context"}}"#, ErrorCode::InvalidKeywordAlias),
        (r#"{"t":{"@id":"http://ex/t","@container":"@nonsense"}}"#, ErrorCode::InvalidContainerMapping),
        (r#"{"t":{"@id":"http://ex/t","@container":["@list","@set"]}}"#, ErrorCode::InvalidContainerMapping),
        (r#"{"t":{"@id":"http://ex/t","@type":"relative"}}"#, ErrorCode::InvalidTypeMapping),
        (r#"{"t":{"@id":"http://ex/t","@language":1}}"#, ErrorCode::InvalidLanguageMapping),
        (r#"{"t":{"@id":"http://ex/t","@direction":"up"}}"#, ErrorCode::InvalidBaseDirection),
        (r#"{"t":{"@id":"http://ex/t","@nest":"@id"}}"#, ErrorCode::InvalidNestValue),
        (r#"{"t":{"@id":"http://ex/t","@prefix":1}}"#, ErrorCode::InvalidPrefixValue),
        (r#"{"t":{"@id":"http://ex/t","@protected":1}}"#, ErrorCode::InvalidProtectedValue),
        (r#"{"t":{"@id":"http://ex/t","@context":12}}"#, ErrorCode::InvalidScopedContext),
        (r#"{"t":{"@reverse":"http://ex/r","@id":"http://ex/t"}}"#, ErrorCode::InvalidReverseProperty),
        (r#"{"t":{"@reverse":"http://ex/r","@container":"@list"}}"#, ErrorCode::InvalidReverseProperty),
        (r#"{"@base":12}"#, ErrorCode::InvalidBaseIri),
        (r#"{"@vocab":12}"#, ErrorCode::InvalidVocabMapping),
        (r#"{"@language":12}"#, ErrorCode::InvalidDefaultLanguage),
        (r#"{"@direction":"up"}"#, ErrorCode::InvalidBaseDirection),
        (r#"{"@propagate":"yes"}"#, ErrorCode::InvalidPropagateValue),
        (r#"{"@protected":"yes"}"#, ErrorCode::InvalidProtectedValue),
        (r#"{"@version":1.0}"#, ErrorCode::InvalidVersionValue),
        (r#"{"@import":12}"#, ErrorCode::InvalidImportValue),
        (r#"12"#, ErrorCode::InvalidLocalContext),
        (r#""not an iri""#, ErrorCode::LoadingRemoteContextFailed),
    ];
    for (context, code) in cases {
        assert_eq!(run(context).err(), Some(code), "{}", context);
    }
}

#[test]
fn context_that_does_not_propagate_keeps_the_one_before() {
    let active = ActiveContext::new(None);
    let first = process(&active, &parse(r#"{"a":"http://ex/a"}"#), &None, &mut NoLoader, options()).ok().unwrap();
    let second =
        process(&first, &parse(r#"{"@propagate":false,"b":"http://ex/b"}"#), &None, &mut NoLoader, options())
            .ok()
            .unwrap();
    assert!(second.get("a").is_some() && second.get("b").is_some());
    let previous = second.previous.as_ref().unwrap();
    assert!(previous.get("a").is_some() && previous.get("b").is_none());
}

#[test]
fn preloaded_loader_answers_with_what_it_holds() {
    let mut loader = one_document("http://example/ctx", r#"{"k":"v"}"#);
    let asked = IriBuf::from_str("http://example/ctx").unwrap();
    let other = IriBuf::from_str("http://example/other").unwrap();
    assert!(loader.has(&asked));
    assert!(!loader.has(&other));
    let found = loader.load(&asked).ok().unwrap();
    assert_eq!(found.base_url().as_str(), "http://example/ctx");
    assert!(json_ld::json::json_eq(found.document(), &parse(r#"{"k":"v"}"#)));
    assert_eq!(loader.load(&other).err().unwrap().0.as_str(), "http://example/other");
    loader.insert(asked.clone(), RemoteDocument::new(parse("1"), other.clone()));
    assert_eq!(loader.load(&asked).ok().unwrap().base_url().as_str(), "http://example/ctx");
}

#[test]
fn next_step_asks_for_what_is_missing_once() {
    let active = ActiveContext::new(None);
    let mut fetched = Preloaded::new();
    let first = process(&active, &parse(r#""http://example/ctx""#), &None, &mut fetched, options());
    let url = match next_step(first, &fetched) {
        Next::Fetch(url) => url,
        _ => panic!("nothing to fetch"),
    };
    assert_eq!(url.as_str(), "http://example/ctx");
    fetched.insert(url.clone(), RemoteDocument::new(parse(r#"{"@context":{"k":"http://ex/k"}}"#), url));
    let second = process(&active, &parse(r#""http://example/ctx""#), &None, &mut fetched, options());
    match next_step(second, &fetched) {
        Next::Done(context) => assert_eq!(context.get("k").unwrap().iri.as_deref(), Some("http://ex/k")),
        _ => panic!("not done"),
    }
    let bad = process(&active, &parse(r#"{"@version":2}"#), &None, &mut fetched, options());
    match next_step(bad, &fetched) {
        Next::Failed(code) => assert_eq!(code, ErrorCode::InvalidVersionValue),
        _ => panic!("not failed"),
    }
}

#[test]
fn references_are_resolved_against_a_base_with_a_rooted_path_only() {
    let base = IriBuf::from_str("http://example/a/b/c").unwrap();
    assert!(base.is_hierarchical());
    assert_eq!(base.resolve("../x").unwrap().as_str(), "http://example/a/x");
    assert_eq!(base.resolve("y").unwrap().as_str(), "http://example/a/b/y");
    assert!(base.resolve("not a reference").is_none());
    let rooted = IriBuf::from_str("file:/a/b").unwrap();
    assert!(rooted.is_hierarchical());
    assert_eq!(rooted.resolve("../../../x").unwrap().as_str(), "file:/x");
    let rootless = IriBuf::from_str("s:a/b").unwrap();
    assert!(!rootless.is_hierarchical());
    assert!(rootless.resolve("../x").is_none());
    assert!(IriBuf::from_str("urn:x:y").unwrap().resolve("z").is_none());
    let active = ActiveContext::new(Some(rootless));
    let r = process(&active, &parse(r#"{"@base":"../x"}"#), &None, &mut NoLoader, options());
    assert_eq!(r.err().unwrap().code, ErrorCode::InvalidBaseIri);
    let active = ActiveContext::new(Some(base));
    let r = process(&active, &parse(r#"{"@base":"../x"}"#), &None, &mut NoLoader, options()).ok().unwrap();
    assert_eq!(r.base.unwrap().as_str(), "http://example/a/x");
}

use json_ld::iri::{BlankIdBuf, IriBuf};
use json_ld::object::id::{Id, ValidId};
use json_ld::object::indexed::Indexed;
use json_ld::object::mapped_eq::{
    id_mapped_eq, node_mapped_eq, object_mapped_eq, opt_mapped_eq, unordered_mapped_eq, MappedEq,
};
use json_ld::object::node::{List, Node, Object, Properties, PropertyEntry, ReverseProperties, ReversePropertyEntry};
use json_ld::object::value::{Direction, Literal, Value};

type Ident = Id<IriBuf, BlankIdBuf>;

fn iri(s: &str) -> Ident {
    Id::Valid(ValidId::Iri(IriBuf::from_str(s).unwrap()))
}

fn blank(s: &str) -> Ident {
    Id::Valid(ValidId::Blank(BlankIdBuf::from_str(s).unwrap()))
}

fn text(s: &str) -> Indexed<Object<IriBuf, BlankIdBuf>> {
    Indexed::new(Object::Value(Value::plain(Literal::Text(s.to_string()))), None)
}

fn node(id: Ident, properties: Vec<(Ident, Vec<Indexed<Object<IriBuf, BlankIdBuf>>>)>) -> Node<IriBuf, BlankIdBuf> {
    Node {
        id: Some(id),
        types: None,
        graph: None,
        included: None,
        properties: Properties {
            entries: properties.into_iter().map(|(property, objects)| PropertyEntry { property, objects }).collect(),
        },
        reverse_properties: None,
    }
}

fn identity(label: &BlankIdBuf) -> &BlankIdBuf {
    label
}

fn renaming<F: for<'x> Fn(&'x BlankIdBuf) -> &'x BlankIdBuf>(f: F) -> F {
    f
}

#[test]
fn identifiers_compare_by_kind_and_text() {
    assert!(id_mapped_eq(&iri("http://ex/a"), &iri("http://ex/a"), &identity));
    assert!(!id_mapped_eq(&iri("http://ex/a"), &iri("http://ex/b"), &identity));
    assert!(!id_mapped_eq(&iri("http://ex/a"), &blank("_:a"), &identity));
    let x: Ident = Id::Invalid("x".to_string());
    let y: Ident = Id::Invalid("y".to_string());
    assert!(id_mapped_eq(&x, &x, &identity));
    assert!(!id_mapped_eq(&x, &y, &identity));
    assert!(iri("http://ex/a").mapped_eq(&iri("http://ex/a"), &identity));
}

#[test]
fn blank_labels_are_taken_through_the_renaming() {
    let b1: &'static BlankIdBuf = Box::leak(Box::new(BlankIdBuf::from_str("_:b1").unwrap()));
    let renamed = renaming(move |label| if label.as_str() == "_:a1" { b1 } else { label });
    assert!(id_mapped_eq(&blank("_:a1"), &blank("_:b1"), &renamed));
    assert!(!id_mapped_eq(&blank("_:a1"), &blank("_:a1"), &renamed));
    assert!(!id_mapped_eq(&blank("_:a1"), &blank("_:b1"), &identity));
    assert!(id_mapped_eq(&blank("_:a1"), &blank("_:a1"), &identity));
}

#[test]
fn blank_nodes_of_two_documents_are_kept_apart() {
    let first = vec![Indexed::new(Object::Node(node(blank("_:b0"), vec![(iri("http://ex/p"), vec![text("v")])])), None)];
    let second = vec![Indexed::new(Object::Node(node(blank("_:b1"), vec![(iri("http://ex/p"), vec![text("v")])])), None)];
    assert!(!unordered_mapped_eq(&first, &second, &identity));
    assert!(unordered_mapped_eq(&first, &first, &identity));
    let b1: &'static BlankIdBuf = Box::leak(Box::new(BlankIdBuf::from_str("_:b1").unwrap()));
    assert!(unordered_mapped_eq(&first, &second, &renaming(move |_| b1)));
}

#[test]
fn unordered_collections_pair_up_whatever_their_order() {
    let a = vec![text("x"), text("y"), text("x")];
    let b = vec![text("x"), text("x"), text("y")];
    let c = vec![text("x"), text("y"), text("y")];
    assert!(unordered_mapped_eq(&a, &b, &identity));
    assert!(!unordered_mapped_eq(&a, &c, &identity));
    assert!(!unordered_mapped_eq(&a, &vec![text("x"), text("y")], &identity));
    assert!(unordered_mapped_eq(&Vec::<Indexed<Object<IriBuf, BlankIdBuf>>>::new(), &Vec::new(), &identity));
}

#[test]
fn lists_compare_position_by_position() {
    let a = Object::List(List { items: vec![text("x"), text("y")] });
    let b = Object::List(List { items: vec![text("y"), text("x")] });
    let c = Object::List(List { items: vec![text("x"), text("y")] });
    assert!(!object_mapped_eq(&a, &b, &identity));
    assert!(object_mapped_eq(&a, &c, &identity));
    assert!(vec![iri("http://ex/a"), iri("http://ex/b")].mapped_eq(&vec![iri("http://ex/a"), iri("http://ex/b")], &identity));
    assert!(!vec![iri("http://ex/a"), iri("http://ex/b")].mapped_eq(&vec![iri("http://ex/b"), iri("http://ex/a")], &identity));
}

#[test]
fn values_compare_by_all_that_they_hold() {
    let plain = Value::<IriBuf>::plain(Literal::Text("v".to_string()));
    let mut tagged = Value::<IriBuf>::plain(Literal::Text("v".to_string()));
    tagged.language = Some("en".to_string());
    let mut directed = Value::<IriBuf>::plain(Literal::Text("v".to_string()));
    directed.direction = Some(Direction::Ltr);
    let mut typed = Value::<IriBuf>::plain(Literal::Text("v".to_string()));
    typed.ty = Some(IriBuf::from_str("http://ex/t").unwrap());
    let number = Value::<IriBuf>::plain(Literal::Number("1".to_string()));
    let all = [plain, tagged, directed, typed, number, Value::plain(Literal::Boolean(true))];
    for (i, a) in all.iter().enumerate() {
        for (j, b) in all.iter().enumerate() {
            let x: Object<IriBuf, BlankIdBuf> = Object::Value(Value {
                literal: match &a.literal {
                    Literal::Text(s) => Literal::Text(s.clone()),
                    Literal::Number(n) => Literal::Number(n.clone()),
                    Literal::Boolean(b) => Literal::Boolean(*b),
                },
                ty: a.ty.clone(),
                language: a.language.clone(),
                direction: a.direction,
            });
            let y: Object<IriBuf, BlankIdBuf> = Object::Value(Value {
                literal: match &b.literal {
                    Literal::Text(s) => Literal::Text(s.clone()),
                    Literal::Number(n) => Literal::Number(n.clone()),
                    Literal::Boolean(b) => Literal::Boolean(*b),
                },
                ty: b.ty.clone(),
                language: b.language.clone(),
                direction: b.direction,
            });
            assert_eq!(object_mapped_eq(&x, &y, &identity), i == j);
        }
    }
}

#[test]
fn nodes_compare_by_all_their_parts() {
    let base = || node(iri("http://ex/a"), vec![(iri("http://ex/p"), vec![text("x"), text("y")]), (iri("http://ex/q"), vec![text("z")])]);
    let reordered = node(iri("http://ex/a"), vec![(iri("http://ex/q"), vec![text("z")]), (iri("http://ex/p"), vec![text("y"), text("x")])]);
    assert!(node_mapped_eq(&base(), &reordered, &identity));
    let mut typed = base();
    typed.types = Some(vec![iri("http://ex/T")]);
    assert!(!node_mapped_eq(&base(), &typed, &identity));
    let mut with_graph = base();
    with_graph.graph = Some(vec![text("g")]);
    assert!(!node_mapped_eq(&base(), &with_graph, &identity));
    let mut with_included = base();
    with_included.included = Some(vec![Indexed::new(node(iri("http://ex/i"), vec![]), None)]);
    assert!(!node_mapped_eq(&base(), &with_included, &identity));
    let mut with_reverse = base();
    with_reverse.reverse_properties = Some(ReverseProperties {
        entries: vec![ReversePropertyEntry { property: iri("http://ex/r"), nodes: vec![Indexed::new(node(iri("http://ex/s"), vec![]), None)] }],
    });
    assert!(!node_mapped_eq(&base(), &with_reverse, &identity));
    assert!(node_mapped_eq(&with_reverse, &with_reverse, &identity));
    assert!(!node_mapped_eq(&base(), &node(iri("http://ex/a"), vec![(iri("http://ex/p"), vec![text("x"), text("y")])]), &identity));
    let indexed = Indexed::new(Object::Node(base()), Some("i".to_string()));
    let other_index = Indexed::new(Object::Node(base()), Some("j".to_string()));
    assert!(!indexed.mapped_eq(&other_index, &identity));
    assert!(indexed.mapped_eq(&indexed, &identity));
}

#[test]
fn optional_values_compare_when_both_are_there_or_neither() {
    let a = iri("http://ex/a");
    let b = iri("http://ex/b");
    assert!(opt_mapped_eq(Some(&a), Some(&a), &identity));
    assert!(!opt_mapped_eq(Some(&a), Some(&b), &identity));
    assert!(!opt_mapped_eq(Some(&a), None, &identity));
    assert!(!opt_mapped_eq(None, Some(&a), &identity));
    assert!(opt_mapped_eq::<Ident, _>(None, None, &identity));
    assert!(Some(iri("http://ex/a")).mapped_eq(&Some(iri("http://ex/a")), &identity));
}

#[test]
fn metadata_takes_no_part() {
    let first = locspan::Meta(iri("http://ex/a"), 1u32);
    let second = locspan::Meta(iri("http://ex/a"), 2u32);
    let third = locspan::Meta(iri("http://ex/b"), 1u32);
    assert!(first.mapped_eq(&second, &identity));
    assert!(!first.mapped_eq(&third, &identity));
    let one = locspan::Stripped(locspan::Meta(blank("_:a"), "here"));
    let other = locspan::Stripped(locspan::Meta(blank("_:a"), "there"));
    let another = locspan::Stripped(locspan::Meta(blank("_:b"), "here"));
    assert!(one.mapped_eq(&other, &identity));
    assert!(!one.mapped_eq(&another, &identity));
}

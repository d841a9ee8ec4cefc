use sauron_core::attribute::{attr, group_attributes_per_name, merge_attributes_of_same_name, Attribute, AttributeValue};
use sauron_core::html::{div, node_list, span, text};
use sauron_core::html_attributes::{class, classes, key};
use sauron_core::node::{Leaf, Node, NodeTrait};
use sauron_core::value::Value;

#[test]
fn text_nodes_and_leaves() {
    let t: Node<()> = text("hello");
    assert!(t.is_text());
    assert_eq!(t.as_text(), Some("hello"));
    assert!(!t.is_safe_html());
    let leaf = Leaf::SafeHtml("<i>x</i>".to_string());
    assert_eq!(leaf.as_safe_html(), Some("<i>x</i>"));
    assert_eq!(leaf.as_text(), None);
}

#[test]
fn element_unrolls_node_lists() {
    let view: Node<()> = div(vec![], vec![span(vec![], vec![]), node_list(vec![text("a"), text("b")])]);
    assert_eq!(view.children_count(), 3);
    assert!(view.children()[1].is_text());
}

#[test]
fn attribute_value_collects_values_of_a_name() {
    let view: Node<()> = div(vec![class("a"), key(3), class("b")], vec![]);
    let values = view.attribute_value("class").unwrap();
    assert_eq!(values.len(), 2);
    assert!(view.attribute_value("id").is_none());
    assert!(view.get_key() == Some(&Value::I32(3)));
}

#[test]
fn merging_attributes_of_the_same_name() {
    let a: Attribute<()> = class("x");
    let b: Attribute<()> = attr("id", "y");
    let c: Attribute<()> = class("z");
    let merged = merge_attributes_of_same_name(&[&a, &b, &c]);
    assert_eq!(merged.len(), 2);
    assert!(merged[0] == classes(vec!["x", "z"]));
    assert!(merged[1] == attr("id", "y"));

    let all = vec![a, b, c];
    let grouped = group_attributes_per_name(&all);
    assert_eq!(grouped.len(), 2);
    assert_eq!(grouped[0].0, "class");
    assert_eq!(grouped[0].1.len(), 2);
    assert_eq!(grouped[1].0, "id");
}

#[test]
fn values_display_and_compare() {
    assert_eq!(Value::Vec(vec![Value::I32(-4), Value::Bool(true), Value::Str("s")]).to_string(), "-4 true s");
    assert!(Value::Str("a") == Value::String("a".to_string()));
    assert!(Value::U8(1) != Value::U16(1));
    let v: AttributeValue<()> = AttributeValue::Simple(Value::Bool(false));
    assert_eq!(v.get_simple().unwrap().as_bool(), Some(false));
}

use sauron_core::attribute::{attr, attr_ns, Attribute, AttributeValue};
use sauron_core::callback::Callback;
use sauron_core::dom_actions::{remove_element_attribute, remove_element_attributes, set_element_attribute, set_element_attributes, DomAction};
use sauron_core::events::{on, Event};
use sauron_core::html::{div, input, span, text};
use sauron_core::html_attributes::{checked, class, empty_attr, inner_html, style, styles, styles_flag, value};
use sauron_core::map_msg::{AttValueMapMsg, AttributeMapMsg, NodeMapMsg};
use sauron_core::node::Node;
use sauron_core::render::Render;
use sauron_core::value::Value;

fn names(actions: &[DomAction]) -> Vec<String> {
    actions
        .iter()
        .map(|a| match a {
            DomAction::SetAttributeNs { namespace, name, value } => format!("ns {} {}={}", namespace, name, value),
            DomAction::SetAttribute { name, value } => format!("set {}={}", name, value),
            DomAction::RemoveAttribute { name } => format!("remove {}", name),
            DomAction::SetValue(v) => format!("value {}", v),
            DomAction::SetNumericValue { value_i32, value } => format!("number {} {}", value_i32, value.to_string()),
            DomAction::SetOpen(b) => format!("open {}", b),
            DomAction::SetChecked(b) => format!("checked {}", b),
            DomAction::SetDisabled(b) => format!("disabled {}", b),
            DomAction::SetInnerHtml(h) => format!("inner {}", h),
            DomAction::AddListener { event, index, node_id } => format!("listen {} {} {}", event, index, node_id),
            DomAction::RemoveListeners { event } => format!("unlisten {}", event),
        })
        .collect()
}

#[test]
fn set_plain_and_special_attributes() {
    let c: Attribute<()> = class("a");
    assert_eq!(names(&set_element_attribute(&c, 1).0), vec!["set class=a"]);
    let v: Attribute<()> = value(7);
    assert_eq!(names(&set_element_attribute(&v, 1).0), vec!["set value=7", "value 7", "number 7 7"]);
    let ch: Attribute<()> = checked(false);
    assert_eq!(names(&set_element_attribute(&ch, 1).0), vec!["set checked=false", "checked false"]);
    let ns: Attribute<()> = attr_ns(Some("http://www.w3.org/1999/xlink"), "href", "#a");
    assert_eq!(names(&set_element_attribute(&ns, 1).0), vec!["ns http://www.w3.org/1999/xlink href=#a"]);
}

#[test]
fn set_styles_inner_html_and_listeners() {
    let s: Attribute<()> = style("color", "red");
    assert_eq!(names(&set_element_attribute(&s, 1).0), vec!["set style=color:red;"]);
    let h: Attribute<()> = inner_html("<b>x</b>");
    assert_eq!(names(&set_element_attribute(&h, 1).0), vec!["remove inner_html", "inner <b>x</b>"]);
    let listener: Callback<Event, ()> = Callback::from(|_e: Event| ());
    let e: Attribute<()> = attr("enter", AttributeValue::EventListener(listener));
    let (actions, next) = set_element_attribute(&e, 7);
    assert_eq!(names(&actions), vec!["remove enter", "set data-vdom-id=7", "listen enter 0 7"]);
    assert_eq!(next, 8);
    let l1: Callback<Event, ()> = Callback::from(|_e: Event| ());
    let l2: Callback<Event, ()> = Callback::from(|_e: Event| ());
    let two: Attribute<()> = Attribute::with_multiple_values(
        None,
        "click",
        vec![AttributeValue::EventListener(l1), AttributeValue::EventListener(l2)],
    );
    let (actions, next) = set_element_attribute(&two, 10);
    assert_eq!(
        names(&actions),
        vec!["remove click", "set data-vdom-id=10", "listen click 0 10", "set data-vdom-id=11", "listen click 1 11"]
    );
    assert_eq!(next, 12);
}

#[test]
fn set_merges_attributes_and_remove_resets() {
    let a: Attribute<()> = class("a");
    let b: Attribute<()> = class("b");
    let (actions, next) = set_element_attributes(&[&a, &b], 3);
    assert_eq!(names(&actions), vec!["set class=a b"]);
    assert_eq!(next, 3);
    let v: Attribute<()> = value("x");
    assert_eq!(names(&remove_element_attribute(&v)), vec!["value ", "remove value"]);
    assert_eq!(names(&remove_element_attribute(&a)), vec!["remove class"]);
}

#[test]
fn styles_and_flags() {
    let view: Node<()> = div(
        vec![styles_flag(vec![("font-family", "monospace", true), ("user-select", "none", false)]), styles(vec![("display", "flex")])],
        vec![],
    );
    assert_eq!(view.render_to_string(), r#"<div style="font-family:monospace; display:flex;"></div>"#);
    let e: Node<()> = span(vec![empty_attr()], vec![]);
    assert_eq!(e.render_to_string(), "<span></span>");
}

#[test]
fn map_msg_keeps_the_tree() {
    let listener: Callback<Event, u8> = Callback::from(|_e: Event| 3u8);
    let view: Node<u8> = div(vec![attr("click", AttributeValue::EventListener(listener)), class("c")], vec![text("t")]);
    assert_eq!(view.get_callbacks().len(), 1);
    let mapped: Node<u32> = view.map_msg(|m: u8| m as u32 * 2);
    assert_eq!(mapped.render_to_string(), r#"<div  class="c">t</div>"#);
    let cbs = mapped.get_callbacks();
    assert_eq!(cbs.len(), 1);
    assert_eq!(cbs[0].emit(Event::WebEvent(sauron_core::events::WebEvent { handle: 1 })), 6);
    let plain: AttributeValue<u8> = AttributeValue::Simple(Value::Bool(true));
    assert!(!plain.is_callback());
    let _ = input::<u8>(vec![], vec![]);
}

#[test]
fn removing_attributes_removes_values_and_listeners() {
    let listener: Callback<Event, ()> = Callback::from(|_e: Event| ());
    let attrs: Vec<Attribute<()>> = vec![
        checked(true),
        attr("click", AttributeValue::EventListener(listener)),
        style("color", "red"),
        class("a"),
    ];
    assert_eq!(
        names(&remove_element_attributes(&attrs)),
        vec!["checked false", "remove checked", "unlisten click", "remove class"]
    );
    assert!(remove_element_attributes::<()>(&[]).is_empty());
}

#[test]
fn attribute_map_callback_keeps_the_attribute() {
    let listener: Callback<Event, u8> = Callback::from(|_e: Event| 5u8);
    let a: Attribute<u8> = attr("click", AttributeValue::EventListener(listener));
    assert_eq!(AttributeMapMsg::get_callback(&a).len(), 1);
    let double: Callback<u8, u32> = Callback::from(|m: u8| m as u32 * 2);
    let mapped: Attribute<u32> = AttributeMapMsg::map_callback(a, double);
    let cbs = AttributeMapMsg::get_callback(&mapped);
    assert_eq!(cbs.len(), 1);
    assert_eq!(cbs[0].emit(Event::WebEvent(sauron_core::events::WebEvent { handle: 2 })), 10);
    let plain: Attribute<u8> = class("c");
    let mapped_plain: Attribute<u16> = AttributeMapMsg::map_msg(plain, |m: u8| m as u16);
    assert!(AttributeMapMsg::get_callback(&mapped_plain).is_empty());
    assert!(mapped_plain == class("c"));
}

#[test]
fn on_holds_the_given_closure() {
    let a: Attribute<u8> = on("click", |_e: Event| 5u8);
    assert_eq!(a.value.len(), 1);
    match &a.value[0] {
        AttributeValue::EventListener(l) => {
            assert_eq!(l.emit(Event::WebEvent(sauron_core::events::WebEvent { handle: 3 })), 5)
        }
        _ => panic!("not a listener"),
    }
    let mapped: Attribute<u16> = a.map_msg(|m: u8| m as u16 + 1);
    match &mapped.value[0] {
        AttributeValue::EventListener(l) => {
            assert_eq!(l.emit(Event::WebEvent(sauron_core::events::WebEvent { handle: 3 })), 6)
        }
        _ => panic!("not a listener"),
    }
}

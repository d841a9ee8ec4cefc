use sauron_core::html::{comment, div, fragment, input, node_list, p, span, text, view_if};
use sauron_core::html_attributes::{checked, class, classes_flag, disabled, inner_html, style};
use sauron_core::node::Node;
use sauron_core::render::Render;

#[test]
fn test_render_comments() {
    let view: Node<()> = div(vec![], vec![comment("comment1"), comment("comment2")]);

    assert_eq!(view.render_to_string(), "<div><!--comment1--><!--comment2--></div>");
}

#[test]
fn test_render_text_siblings_should_be_separated_with_comments() {
    let view: Node<()> = div(vec![], vec![text("text1"), text("text2")]);

    assert_eq!(view.render_to_string(), "<div>text1<!--separator-->text2</div>");
}

#[test]
fn test_render_classes() {
    let view: Node<()> = div(vec![class("frame"), class("component")], vec![]);
    let expected = r#"<div class="frame component"></div>"#;
    let mut buffer = String::new();
    view.render(&mut buffer).expect("must render");
    assert_eq!(expected, buffer);
}

#[test]
fn test_render_class_flag() {
    let view: Node<()> = div(
        vec![class("frame"), classes_flag(vec![("component", true), ("layer", false)])],
        vec![],
    );
    let expected = r#"<div class="frame component"></div>"#;
    let mut buffer = String::new();
    view.render(&mut buffer).expect("must render");
    assert_eq!(expected, buffer);
}

#[test]
fn render_pretty_indents_children() {
    let view: Node<()> = div(vec![], vec![p(vec![], vec![text("hi")]), span(vec![], vec![])]);
    assert_eq!(
        view.render_to_string_pretty(),
        "<div>\n  <p>hi</p>\n  <span></span>\n</div>"
    );
    assert_eq!(view.render_to_string(), "<div><p>hi</p><span></span></div>");
}

#[test]
fn render_boolean_attributes() {
    let off: Node<()> = input(vec![checked(false), disabled(false)], vec![]);
    assert_eq!(off.render_to_string(), "<input  />");
    let on: Node<()> = input(vec![checked(true)], vec![]);
    assert_eq!(on.render_to_string(), r#"<input checked="true"/>"#);
}

#[test]
fn render_styles_and_inner_html() {
    let view: Node<()> = div(vec![style("display", "flex"), style("color", "red")], vec![]);
    assert_eq!(view.render_to_string(), r#"<div style="display:flex; color:red;"></div>"#);
    let html: Node<()> = div(vec![inner_html("<b>x</b>")], vec![]);
    assert_eq!(html.render_to_string(), "<div ><b>x</b></div>");
}

#[test]
fn render_fragment_and_node_list() {
    let frag: Node<()> = fragment(vec![span(vec![], vec![]), span(vec![], vec![])]);
    assert_eq!(frag.render_to_string_pretty(), "<span></span>\n<span></span>");
    let list: Node<()> = div(vec![], vec![node_list(vec![text("a"), span(vec![], vec![])])]);
    assert_eq!(list.render_to_string(), "<div>a<span></span></div>");
    assert_eq!(list.children_count(), 2);
}

#[test]
fn view_if_hides_with_an_empty_span() {
    let shown: Node<()> = view_if(true, span(vec![], vec![]));
    assert_eq!(shown.render_to_string(), "<span></span>");
    let hidden: Node<()> = view_if(false, p(vec![], vec![text("x")]));
    assert!(hidden == span(vec![], vec![]));
    assert_eq!(hidden.render_to_string(), "<span></span>");
}

use sauron_core::attribute::Attribute;
use sauron_core::html_attributes::{class, classes};
use sauron_core::jss::{
    class_namespaced, classes_namespaced_flag, css_map_writable, jss, jss_ns, process_css,
    selector_namespaced, Json, JsonNumber,
};

fn obj(entries: Vec<(&str, Json)>) -> Json {
    Json::Object(entries.into_iter().map(|(k, v)| (k.to_string(), v)).collect())
}

fn s(text: &str) -> Json {
    Json::String(text.to_string())
}

fn n(x: u64) -> Json {
    Json::Number(JsonNumber::PosInt(x))
}

#[test]
fn test_jss() {
    let css = jss(&obj(vec![
        (".layer", obj(vec![("background-color", s("red")), ("border", s("1px solid green"))])),
        (".hide .layer", obj(vec![("opacity", n(0))])),
    ]));

    let expected = r#".layer {
    background-color: red;
    border: 1px solid green;
}
.hide .layer {
    opacity: 0;
}"#;
    println!("{}", css);
    assert_eq!(expected, css);
}

#[test]
fn test_jss_ns() {
    let css = jss_ns(
        "frame",
        &obj(vec![
            (".", obj(vec![("display", s("block"))])),
            (".layer", obj(vec![("background-color", s("red")), ("border", s("1px solid green"))])),
            (".hide .layer", obj(vec![("opacity", n(0))])),
        ]),
    );

    let expected = r#".frame {
    display: block;
}
.frame__layer {
    background-color: red;
    border: 1px solid green;
}
.frame__hide .frame__layer {
    opacity: 0;
}"#;
    println!("{}", css);
    assert_eq!(expected, css);
}

#[test]
fn test_jss_ns_with_media_query() {
    let css = jss_ns(
        "frame",
        &obj(vec![
            (".", obj(vec![("display", s("block"))])),
            (".layer", obj(vec![("background-color", s("red")), ("border", s("1px solid green"))])),
            (
                "@media screen and (max-width: 800px)",
                obj(vec![(".layer", obj(vec![("width", s("100%"))]))]),
            ),
            (".hide .layer", obj(vec![("opacity", n(0))])),
        ]),
    );

    let expected = r#".frame {
    display: block;
}
.frame__layer {
    background-color: red;
    border: 1px solid green;
}
@media screen and (max-width: 800px) {
    .frame__layer {
        width: 100%;
    }
}
.frame__hide .frame__layer {
    opacity: 0;
}"#;
    println!("{}", css);
    assert_eq!(expected, css);
}

#[test]
fn test_selector_ns() {
    assert_eq!(".frame", selector_namespaced("frame", "."));
    assert_eq!(".frame__hide .frame__corner", selector_namespaced("frame", ".hide .corner"));
}

#[test]
fn test_class_namespaced() {
    let expected: Attribute<()> = class("frame__border".to_string());
    assert!(expected == class_namespaced("frame", "border"));

    let expected: Attribute<()> = class("frame__border frame__corner".to_string());
    assert!(expected == class_namespaced("frame", "border corner"));
}

#[test]
fn selector_namespaced_examples() {
    assert_eq!(".frame__text-anim", selector_namespaced("frame", ".text-anim"));
    assert_eq!(".frame__hide button", selector_namespaced("frame", ".hide button"));
    assert_eq!(
        ".frame__expand_corners,.frame__hovered",
        selector_namespaced("frame", ".expand_corners,.hovered")
    );
    assert_eq!(
        ".frame__expand_corners,.frame__hovered button .frame__highlight",
        selector_namespaced("frame", ".expand_corners,.hovered button .highlight")
    );
    assert_eq!(
        ".frame__expand_corners.frame__hovered button .frame__highlight",
        selector_namespaced("frame", ".expand_corners.hovered button .highlight")
    );
    assert_eq!(".frame", selector_namespaced("frame", "  .  "));
}

#[test]
fn class_namespaced_without_names_is_the_namespace() {
    let expected: Attribute<()> = class("frame".to_string());
    assert!(expected == class_namespaced("frame", "   "));
}

#[test]
fn classes_namespaced_flag_keeps_flagged() {
    let expected: Attribute<()> = classes(vec!["frame__a", "frame__c"]);
    let got: Attribute<()> =
        classes_namespaced_flag("frame", vec![("a", true), ("b", false), ("c", true)]);
    assert!(expected == got);
}

#[test]
fn jss_without_indents_and_scalars() {
    let json = obj(vec![(
        "p",
        obj(vec![
            ("flag", Json::Bool(true)),
            ("z", Json::Number(JsonNumber::NegInt(-2))),
            ("w", Json::Number(JsonNumber::Float("1.5".to_string()))),
        ]),
    )]);
    assert_eq!(process_css(None, &json, false), "pflag: true;z: -2;w: 1.5;}");
    assert_eq!(process_css(None, &s("not an object"), true), "");
}

#[test]
fn css_writable_rejects_arrays() {
    if let Json::Object(map) = obj(vec![("p", obj(vec![("x", Json::Array(vec![]))]))]) {
        assert!(!css_map_writable(&map, 0));
    }
    if let Json::Object(map) = obj(vec![("p", obj(vec![("x", s("1"))]))]) {
        assert!(css_map_writable(&map, 0));
    }
}

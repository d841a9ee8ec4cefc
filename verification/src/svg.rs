//! Building svg nodes: elements in the svg namespace and the common svg tags and
//! attributes.
use vstd::prelude::*;
use crate::attribute::{Attribute, AttributeV, AttributeValueV, attr, attrs_view};
use crate::html::{html_element, separated};
use crate::node::{ElementV, Node, NodeV, nodes_view, unroll};
use crate::value::ToValue;

verus! {

/// The svg namespace; elements created in it render as svg in the browser.
pub const SVG_NAMESPACE: &'static str = "http://www.w3.org/2000/svg";

/// The model of an svg element node.
pub open spec fn svg_node(tag: Seq<char>, attrs: Seq<AttributeV>, children: Seq<NodeV>) -> NodeV {
    NodeV::Element(
        ElementV {
            namespace: Some(SVG_NAMESPACE@),
            tag,
            attrs,
            children: unroll(separated(children)),
            self_closing: false,
        },
    )
}

/// An svg element of `tag`, in the svg namespace, not self closing.
pub fn svg_element<MSG>(tag: &'static str, attrs: Vec<Attribute<MSG>>, children: Vec<Node<MSG>>) -> (r:
    Node<MSG>)
    ensures
        r@ == svg_node(tag@, attrs_view(attrs@), nodes_view(children@)),
{
    html_element(Some(SVG_NAMESPACE), tag, attrs, children, false)
}

/// Creates an svg `svg` element.
pub fn svg<MSG>(attrs: Vec<Attribute<MSG>>, children: Vec<Node<MSG>>) -> (r: Node<MSG>)
    ensures
        r@ == svg_node("svg"@, attrs_view(attrs@), nodes_view(children@)),
{
    svg_element("svg", attrs, children)
}

/// Creates an svg `circle` element.
pub fn circle<MSG>(attrs: Vec<Attribute<MSG>>, children: Vec<Node<MSG>>) -> (r: Node<MSG>)
    ensures
        r@ == svg_node("circle"@, attrs_view(attrs@), nodes_view(children@)),
{
    svg_element("circle", attrs, children)
}

/// Creates an svg `line` element.
pub fn line<MSG>(attrs: Vec<Attribute<MSG>>, children: Vec<Node<MSG>>) -> (r: Node<MSG>)
    ensures
        r@ == svg_node("line"@, attrs_view(attrs@), nodes_view(children@)),
{
    svg_element("line", attrs, children)
}

/// Creates an svg `rect` element.
pub fn rect<MSG>(attrs: Vec<Attribute<MSG>>, children: Vec<Node<MSG>>) -> (r: Node<MSG>)
    ensures
        r@ == svg_node("rect"@, attrs_view(attrs@), nodes_view(children@)),
{
    svg_element("rect", attrs, children)
}

/// Creates an svg `path` element.
pub fn path<MSG>(attrs: Vec<Attribute<MSG>>, children: Vec<Node<MSG>>) -> (r: Node<MSG>)
    ensures
        r@ == svg_node("path"@, attrs_view(attrs@), nodes_view(children@)),
{
    svg_element("path", attrs, children)
}

/// Creates an svg `g` element.
pub fn g<MSG>(attrs: Vec<Attribute<MSG>>, children: Vec<Node<MSG>>) -> (r: Node<MSG>)
    ensures
        r@ == svg_node("g"@, attrs_view(attrs@), nodes_view(children@)),
{
    svg_element("g", attrs, children)
}

/// The svg `x1` attribute.
pub fn x1<V: ToValue, MSG>(v: V) -> (result: Attribute<MSG>)
    ensures
        result@ == (AttributeV {
            namespace: None,
            name: "x1"@,
            value: seq![AttributeValueV::Simple(v.value_spec())],
        }),
{
    attr("x1", v)
}

/// The svg `x2` attribute.
pub fn x2<V: ToValue, MSG>(v: V) -> (result: Attribute<MSG>)
    ensures
        result@ == (AttributeV {
            namespace: None,
            name: "x2"@,
            value: seq![AttributeValueV::Simple(v.value_spec())],
        }),
{
    attr("x2", v)
}

/// The svg `y1` attribute.
pub fn y1<V: ToValue, MSG>(v: V) -> (result: Attribute<MSG>)
    ensures
        result@ == (AttributeV {
            namespace: None,
            name: "y1"@,
            value: seq![AttributeValueV::Simple(v.value_spec())],
        }),
{
    attr("y1", v)
}

/// The svg `y2` attribute.
pub fn y2<V: ToValue, MSG>(v: V) -> (result: Attribute<MSG>)
    ensures
        result@ == (AttributeV {
            namespace: None,
            name: "y2"@,
            value: seq![AttributeValueV::Simple(v.value_spec())],
        }),
{
    attr("y2", v)
}

/// The svg `cx` attribute.
pub fn cx<V: ToValue, MSG>(v: V) -> (result: Attribute<MSG>)
    ensures
        result@ == (AttributeV {
            namespace: None,
            name: "cx"@,
            value: seq![AttributeValueV::Simple(v.value_spec())],
        }),
{
    attr("cx", v)
}

/// The svg `cy` attribute.
pub fn cy<V: ToValue, MSG>(v: V) -> (result: Attribute<MSG>)
    ensures
        result@ == (AttributeV {
            namespace: None,
            name: "cy"@,
            value: seq![AttributeValueV::Simple(v.value_spec())],
        }),
{
    attr("cy", v)
}

/// The svg `r` attribute.
pub fn r<V: ToValue, MSG>(v: V) -> (result: Attribute<MSG>)
    ensures
        result@ == (AttributeV {
            namespace: None,
            name: "r"@,
            value: seq![AttributeValueV::Simple(v.value_spec())],
        }),
{
    attr("r", v)
}

/// The svg `width` attribute.
pub fn width<V: ToValue, MSG>(v: V) -> (result: Attribute<MSG>)
    ensures
        result@ == (AttributeV {
            namespace: None,
            name: "width"@,
            value: seq![AttributeValueV::Simple(v.value_spec())],
        }),
{
    attr("width", v)
}

/// The svg `height` attribute.
pub fn height<V: ToValue, MSG>(v: V) -> (result: Attribute<MSG>)
    ensures
        result@ == (AttributeV {
            namespace: None,
            name: "height"@,
            value: seq![AttributeValueV::Simple(v.value_spec())],
        }),
{
    attr("height", v)
}

/// The svg `xmlns` attribute.
pub fn xmlns<V: ToValue, MSG>(v: V) -> (result: Attribute<MSG>)
    ensures
        result@ == (AttributeV {
            namespace: None,
            name: "xmlns"@,
            value: seq![AttributeValueV::Simple(v.value_spec())],
        }),
{
    attr("xmlns", v)
}

/// The svg `d` attribute.
pub fn d<V: ToValue, MSG>(v: V) -> (result: Attribute<MSG>)
    ensures
        result@ == (AttributeV {
            namespace: None,
            name: "d"@,
            value: seq![AttributeValueV::Simple(v.value_spec())],
        }),
{
    attr("d", v)
}

/// The svg `fill` attribute.
pub fn fill<V: ToValue, MSG>(v: V) -> (result: Attribute<MSG>)
    ensures
        result@ == (AttributeV {
            namespace: None,
            name: "fill"@,
            value: seq![AttributeValueV::Simple(v.value_spec())],
        }),
{
    attr("fill", v)
}

/// The svg `stroke` attribute.
pub fn stroke<V: ToValue, MSG>(v: V) -> (result: Attribute<MSG>)
    ensures
        result@ == (AttributeV {
            namespace: None,
            name: "stroke"@,
            value: seq![AttributeValueV::Simple(v.value_spec())],
        }),
{
    attr("stroke", v)
}

} // verus!

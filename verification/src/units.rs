//! Css units such as `px` and `%`, and the css functions `rgb`, `rgba` and `rotate`.
use vstd::prelude::*;
use crate::text::push_str;
use crate::value::{ToValue, value_text};

verus! {

/// The text of a value followed by a unit.
pub open spec fn unit_text<V: ToValue>(v: V, unit: Seq<char>) -> Seq<char> {
    value_text(v.value_spec()) + unit
}

/// The text of `v` followed by `unit`.
fn with_unit<V: ToValue>(v: V, unit: &str) -> (r: String)
    ensures
        r@ == unit_text(v, unit@),
{
    let mut s = v.to_value().to_string();
    push_str(&mut s, unit);
    s
}

/// The value in pixels (1px = 1/96th of 1in): the value followed by `px`.
pub fn px<V: ToValue>(v: V) -> (r: String)
    ensures
        r@ == unit_text(v, "px"@),
{
    with_unit(v, "px")
}

/// The value in quarter millimeters: 1q is 1/40th of 1cm: the value followed by `q`.
pub fn q<V: ToValue>(v: V) -> (r: String)
    ensures
        r@ == unit_text(v, "q"@),
{
    with_unit(v, "q")
}

/// The value in millimeters: the value followed by `mm`.
pub fn mm<V: ToValue>(v: V) -> (r: String)
    ensures
        r@ == unit_text(v, "mm"@),
{
    with_unit(v, "mm")
}

/// The value in centimeters: the value followed by `cm`.
pub fn cm<V: ToValue>(v: V) -> (r: String)
    ensures
        r@ == unit_text(v, "cm"@),
{
    with_unit(v, "cm")
}

/// The value in points (1pt = 1/72 of 1in): the value followed by `pt`.
pub fn pt<V: ToValue>(v: V) -> (r: String)
    ensures
        r@ == unit_text(v, "pt"@),
{
    with_unit(v, "pt")
}

/// The value in picas (1pc = 12 pt): the value followed by `pc`.
pub fn pc<V: ToValue>(v: V) -> (r: String)
    ensures
        r@ == unit_text(v, "pc"@),
{
    with_unit(v, "pc")
}

/// The value in relative to the font size of the element: the value followed by `em`.
pub fn em<V: ToValue>(v: V) -> (r: String)
    ensures
        r@ == unit_text(v, "em"@),
{
    with_unit(v, "em")
}

/// The value in relative to the x-height of the current font: the value followed by `ex`.
pub fn ex<V: ToValue>(v: V) -> (r: String)
    ensures
        r@ == unit_text(v, "ex"@),
{
    with_unit(v, "ex")
}

/// The value in relative to the width of the "0" (zero): the value followed by `ch`.
pub fn ch<V: ToValue>(v: V) -> (r: String)
    ensures
        r@ == unit_text(v, "ch"@),
{
    with_unit(v, "ch")
}

/// The value in relative to the font size of the root element: the value followed by `rem`.
pub fn rem<V: ToValue>(v: V) -> (r: String)
    ensures
        r@ == unit_text(v, "rem"@),
{
    with_unit(v, "rem")
}

/// The value in relative to 1% of the width of the viewport: the value followed by `vw`.
pub fn vw<V: ToValue>(v: V) -> (r: String)
    ensures
        r@ == unit_text(v, "vw"@),
{
    with_unit(v, "vw")
}

/// The value in relative to 1% of the height of the viewport: the value followed by `vh`.
pub fn vh<V: ToValue>(v: V) -> (r: String)
    ensures
        r@ == unit_text(v, "vh"@),
{
    with_unit(v, "vh")
}

/// The value in inches (1in = 96px = 2.54cm): the value followed by `in`.
pub fn inches<V: ToValue>(v: V) -> (r: String)
    ensures
        r@ == unit_text(v, "in"@),
{
    with_unit(v, "in")
}

/// The value in percentage: the value followed by `%`.
pub fn percent<V: ToValue>(v: V) -> (r: String)
    ensures
        r@ == unit_text(v, "%"@),
{
    with_unit(v, "%")
}

/// The css function `rgb(r, g, b)`.
pub fn rgb<R: ToValue, G: ToValue, B: ToValue>(r: R, g: G, b: B) -> (result: String)
    ensures
        result@ == "rgb("@ + value_text(r.value_spec()) + ", "@ + value_text(g.value_spec()) + ", "@
            + value_text(b.value_spec()) + ")"@,
{
    let mut s = String::new();
    push_str(&mut s, "rgb(");
    push_str(&mut s, r.to_value().to_string().as_str());
    push_str(&mut s, ", ");
    push_str(&mut s, g.to_value().to_string().as_str());
    push_str(&mut s, ", ");
    push_str(&mut s, b.to_value().to_string().as_str());
    push_str(&mut s, ")");
    s
}

/// The css function `rgba(r, g, b, a)`.
pub fn rgba<R: ToValue, G: ToValue, B: ToValue, A: ToValue>(r: R, g: G, b: B, a: A) -> (result:
    String)
    ensures
        result@ == "rgba("@ + value_text(r.value_spec()) + ", "@ + value_text(g.value_spec()) + ", "@
            + value_text(b.value_spec()) + ", "@ + value_text(a.value_spec()) + ")"@,
{
    let mut s = String::new();
    push_str(&mut s, "rgba(");
    push_str(&mut s, r.to_value().to_string().as_str());
    push_str(&mut s, ", ");
    push_str(&mut s, g.to_value().to_string().as_str());
    push_str(&mut s, ", ");
    push_str(&mut s, b.to_value().to_string().as_str());
    push_str(&mut s, ", ");
    push_str(&mut s, a.to_value().to_string().as_str());
    push_str(&mut s, ")");
    s
}

/// The css function `rotate(a)`.
pub fn rotate<A: ToValue>(a: A) -> (result: String)
    ensures
        result@ == "rotate("@ + value_text(a.value_spec()) + ")"@,
{
    let mut s = String::new();
    push_str(&mut s, "rotate(");
    push_str(&mut s, a.to_value().to_string().as_str());
    push_str(&mut s, ")");
    s
}

} // verus!

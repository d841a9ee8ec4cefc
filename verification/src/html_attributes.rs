//! Building the common html attributes: classes, styles, the attributes that
//! drive the diffing (`key`, `skip`, `replace`) and a few others.
use vstd::prelude::*;
use crate::attribute::{
    Attribute, AttributeV, AttributeValue, AttributeValueV, Style, StyleV, attr, avs_view,
};
use crate::value::{ToValue, Value, ValueV, value_text};

verus! {

/// The attribute values of class names: each a simple text value.
pub open spec fn class_values(names: Seq<Seq<char>>) -> Seq<AttributeValueV> {
    names.map_values(|t: Seq<char>| AttributeValueV::Simple(ValueV::Text(t)))
}

/// The displayed texts of some values.
pub open spec fn texts_of<V: ToValue>(items: Seq<V>) -> Seq<Seq<char>> {
    items.map_values(|v: V| value_text(v.value_spec()))
}

/// The displayed texts of the names whose flag is set, in order.
pub open spec fn flagged_texts<V: ToValue>(pairs: Seq<(V, bool)>) -> Seq<Seq<char>>
    decreases pairs.len(),
{
    if pairs.len() == 0 {
        Seq::empty()
    } else if pairs.last().1 {
        flagged_texts(pairs.drop_last()).push(value_text(pairs.last().0.value_spec()))
    } else {
        flagged_texts(pairs.drop_last())
    }
}

/// The `class` attribute with one value.
pub fn class<V: ToValue, MSG>(v: V) -> (r: Attribute<MSG>)
    ensures
        r@ == (AttributeV {
            namespace: None,
            name: "class"@,
            value: seq![AttributeValueV::Simple(v.value_spec())],
        }),
{
    attr("class", v)
}

/// The `class` attribute holding each of `class_list` as a text value, in order.
pub fn classes<V: ToValue, MSG>(class_list: Vec<V>) -> (r: Attribute<MSG>)
    ensures
        r@ == (AttributeV {
            namespace: None,
            name: "class"@,
            value: class_values(texts_of(class_list@)),
        }),
{
    let ghost all = texts_of(class_list@);
    let mut values: Vec<AttributeValue<MSG>> = Vec::new();
    let mut rest = class_list;
    let ghost mut done: int = 0;
    while rest.len() > 0
        invariant
            0 <= done <= all.len(),
            done + rest@.len() == all.len(),
            all == texts_of(class_list@),
            forall|j: int|
                0 <= j < rest@.len() ==> value_text(#[trigger] rest@[j].value_spec()) == all[done
                    + j],
            avs_view(values@) == class_values(all.take(done)),
        decreases rest@.len(),
    {
        let item = rest.remove(0);
        assert(value_text(item.value_spec()) == all[done]);
        let text = item.to_value().to_string();
        let ghost before = values@;
        let ghost tv = text@;
        let v = AttributeValue::Simple(Value::String(text));
        assert(v@ == AttributeValueV::Simple(ValueV::Text(tv)));
        values.push(v);
        proof {
            assert(avs_view(values@) =~= avs_view(before).push(v@));
            done = done + 1;
            assert(all.take(done) =~= all.take(done - 1).push(all[done - 1]));
            assert(avs_view(values@) =~= class_values(all.take(done)));
        }
    }
    assert(all.take(done) =~= all);
    Attribute::with_multiple_values(None, "class", values)
}

/// The `class` attribute holding the names whose flag is set, in order.
pub fn classes_flag<V: ToValue, MSG>(pairs: Vec<(V, bool)>) -> (r: Attribute<MSG>)
    ensures
        r@ == (AttributeV {
            namespace: None,
            name: "class"@,
            value: class_values(flagged_texts(pairs@)),
        }),
{
    let ghost all = pairs@;
    let mut names: Vec<String> = Vec::new();
    let mut rest = pairs;
    let ghost mut done: int = 0;
    while rest.len() > 0
        invariant
            0 <= done <= all.len(),
            done + rest@.len() == all.len(),
            all == pairs@,
            forall|j: int| 0 <= j < rest@.len() ==> #[trigger] rest@[j] == all[done + j],
            texts_of(names@) == flagged_texts(all.take(done)),
        decreases rest@.len(),
    {
        let (name, flag) = rest.remove(0);
        let ghost before = names@;
        assert(all.take(done + 1).drop_last() =~= all.take(done));
        assert(all.take(done + 1).last() == (name, flag));
        if flag {
            let text = name.to_value().to_string();
            names.push(text);
            assert(texts_of(names@) =~= texts_of(before).push(text@));
        }
        proof {
            done = done + 1;
        }
    }
    assert(all.take(done) =~= all);
    classes(names)
}

/// The `id` attribute.
pub fn id<V: ToValue, MSG>(v: V) -> (r: Attribute<MSG>)
    ensures
        r@ == (AttributeV {
            namespace: None,
            name: "id"@,
            value: seq![AttributeValueV::Simple(v.value_spec())],
        }),
{
    attr("id", v)
}

/// The `value` attribute.
pub fn value<V: ToValue, MSG>(v: V) -> (r: Attribute<MSG>)
    ensures
        r@ == (AttributeV {
            namespace: None,
            name: "value"@,
            value: seq![AttributeValueV::Simple(v.value_spec())],
        }),
{
    attr("value", v)
}

/// The `checked` attribute.
pub fn checked<MSG>(v: bool) -> (r: Attribute<MSG>)
    ensures
        r@ == (AttributeV {
            namespace: None,
            name: "checked"@,
            value: seq![AttributeValueV::Simple(ValueV::Bool(v))],
        }),
{
    attr("checked", v)
}

/// The `disabled` attribute.
pub fn disabled<MSG>(v: bool) -> (r: Attribute<MSG>)
    ensures
        r@ == (AttributeV {
            namespace: None,
            name: "disabled"@,
            value: seq![AttributeValueV::Simple(ValueV::Bool(v))],
        }),
{
    attr("disabled", v)
}

/// The `open` attribute.
pub fn open<MSG>(v: bool) -> (r: Attribute<MSG>)
    ensures
        r@ == (AttributeV {
            namespace: None,
            name: "open"@,
            value: seq![AttributeValueV::Simple(ValueV::Bool(v))],
        }),
{
    attr("open", v)
}

/// The `key` attribute, by which the diffing matches old and new elements.
pub fn key<V: ToValue, MSG>(v: V) -> (r: Attribute<MSG>)
    ensures
        r@ == (AttributeV {
            namespace: None,
            name: "key"@,
            value: seq![AttributeValueV::Simple(v.value_spec())],
        }),
{
    attr("key", v)
}

/// The `skip` attribute: when true the diffing skips the element and its descendants.
pub fn skip<MSG>(v: bool) -> (r: Attribute<MSG>)
    ensures
        r@ == (AttributeV {
            namespace: None,
            name: "skip"@,
            value: seq![AttributeValueV::Simple(ValueV::Bool(v))],
        }),
{
    attr("skip", v)
}

/// The `replace` attribute: when true the element replaces the old one it matches.
pub fn replace<MSG>(v: bool) -> (r: Attribute<MSG>)
    ensures
        r@ == (AttributeV {
            namespace: None,
            name: "replace"@,
            value: seq![AttributeValueV::Simple(ValueV::Bool(v))],
        }),
{
    attr("replace", v)
}

/// The `style` attribute holding one style of `name` and `value`.
pub fn style<V: ToValue, MSG>(name: &str, value: V) -> (r: Attribute<MSG>)
    ensures
        r@ == (AttributeV {
            namespace: None,
            name: "style"@,
            value: seq![AttributeValueV::Style(seq![StyleV { name: name@, value: value.value_spec() }])],
        }),
{
    let mut styles: Vec<Style> = Vec::new();
    styles.push(Style::new(name, value));
    let r = attr("style", AttributeValue::from_styles(styles));
    assert(crate::attribute::styles_view(styles@) =~= seq![StyleV { name: name@, value: value.value_spec() }]);
    r
}

/// The models of the styles of some name and value pairs.
pub open spec fn styles_of<N: ToValue, V: ToValue>(pairs: Seq<(N, V)>) -> Seq<StyleV> {
    pairs.map_values(|p: (N, V)| StyleV { name: value_text(p.0.value_spec()), value: p.1.value_spec() })
}

/// The models of the styles whose flag is set, in order.
pub open spec fn flagged_styles<N: ToValue, V: ToValue>(trio: Seq<(N, V, bool)>) -> Seq<StyleV>
    decreases trio.len(),
{
    if trio.len() == 0 {
        Seq::empty()
    } else if trio.last().2 {
        flagged_styles(trio.drop_last()).push(
            StyleV { name: value_text(trio.last().0.value_spec()), value: trio.last().1.value_spec() },
        )
    } else {
        flagged_styles(trio.drop_last())
    }
}

/// The `style` attribute holding the styles of the name and value pairs, in order.
pub fn styles<N: ToValue, V: ToValue, MSG>(pairs: Vec<(N, V)>) -> (r: Attribute<MSG>)
    ensures
        r@ == (AttributeV {
            namespace: None,
            name: "style"@,
            value: seq![AttributeValueV::Style(styles_of(pairs@))],
        }),
{
    let ghost all = pairs@;
    let mut list: Vec<Style> = Vec::new();
    let mut rest = pairs;
    let ghost mut done: int = 0;
    while rest.len() > 0
        invariant
            0 <= done <= all.len(),
            done + rest@.len() == all.len(),
            forall|j: int| 0 <= j < rest@.len() ==> #[trigger] rest@[j] == all[done + j],
            crate::attribute::styles_view(list@) == styles_of(all.take(done)),
        decreases rest@.len(),
    {
        let (name, value) = rest.remove(0);
        let ghost before = list@;
        assert(all[done] == (name, value));
        let text = name.to_value().to_string();
        list.push(Style::new(text.as_str(), value));
        proof {
            assert(crate::attribute::styles_view(list@) =~= crate::attribute::styles_view(before).push(
                StyleV { name: value_text(name.value_spec()), value: value.value_spec() },
            ));
            assert(all.take(done + 1) =~= all.take(done).push(all[done]));
            done = done + 1;
        }
    }
    assert(all.take(done) =~= all);
    attr("style", AttributeValue::from_styles(list))
}

/// The `style` attribute holding the styles whose flag is set, in order.
pub fn styles_flag<N: ToValue, V: ToValue, MSG>(trio: Vec<(N, V, bool)>) -> (r: Attribute<MSG>)
    ensures
        r@ == (AttributeV {
            namespace: None,
            name: "style"@,
            value: seq![AttributeValueV::Style(flagged_styles(trio@))],
        }),
{
    let ghost all = trio@;
    let mut list: Vec<Style> = Vec::new();
    let mut rest = trio;
    let ghost mut done: int = 0;
    while rest.len() > 0
        invariant
            0 <= done <= all.len(),
            done + rest@.len() == all.len(),
            forall|j: int| 0 <= j < rest@.len() ==> #[trigger] rest@[j] == all[done + j],
            crate::attribute::styles_view(list@) == flagged_styles(all.take(done)),
        decreases rest@.len(),
    {
        let (name, value, flag) = rest.remove(0);
        let ghost before = list@;
        assert(all.take(done + 1).drop_last() =~= all.take(done));
        assert(all.take(done + 1).last() == (name, value, flag));
        if flag {
            let text = name.to_value().to_string();
            list.push(Style::new(text.as_str(), value));
            assert(crate::attribute::styles_view(list@) =~= crate::attribute::styles_view(before).push(
                StyleV { name: value_text(name.value_spec()), value: value.value_spec() },
            ));
        }
        proof {
            done = done + 1;
        }
    }
    assert(all.take(done) =~= all);
    attr("style", AttributeValue::from_styles(list))
}

/// An attribute with no name and the empty value; renderers leave it out.
pub fn empty_attr<MSG>() -> (r: Attribute<MSG>)
    ensures
        r@ == (AttributeV { namespace: None, name: ""@, value: seq![AttributeValueV::Empty] }),
{
    attr("", AttributeValue::Empty)
}

/// The `inner_html` attribute: a function call that sets the html inside the element.
pub fn inner_html<V: ToValue, MSG>(v: V) -> (r: Attribute<MSG>)
    ensures
        r@ == (AttributeV {
            namespace: None,
            name: "inner_html"@,
            value: seq![AttributeValueV::FunctionCall(v.value_spec())],
        }),
{
    attr("inner_html", AttributeValue::function_call(v.to_value()))
}

} // verus!

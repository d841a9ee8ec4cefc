//! Attributes of elements: their values, styles, merging attributes of the same
//! name and telling the kinds of values apart.
use vstd::prelude::*;
use vstd::std_specs::cmp::PartialEqSpecImpl;
use crate::callback::{Callback, callback_mapped, ensures_of, lemma_from_fn_relations, requires_of};
use crate::events::Listener;
use crate::text::{join, lemma_join_push, push_char, push_str, str_eq};
use crate::value::{ToValue, Value, ValueV, value_text};

verus! {

/// A css style: a property name and its value.
#[derive(PartialEq)]
pub struct Style {
    /// style name such as border, width, etc
    pub name: String,
    /// value of the style
    pub value: Value,
}

/// The model of a [`Style`].
pub struct StyleV {
    pub name: Seq<char>,
    pub value: ValueV,
}

impl View for Style {
    type V = StyleV;

    open spec fn view(&self) -> StyleV {
        StyleV { name: self.name@, value: self.value@ }
    }
}

/// The text of a style: `name:value`.
pub open spec fn style_text(s: StyleV) -> Seq<char> {
    s.name + seq![':'] + value_text(s.value)
}

/// The models of a sequence of styles.
pub open spec fn styles_view(s: Seq<Style>) -> Seq<StyleV> {
    s.map_values(|x: Style| x@)
}

impl Style {
    /// A style with `name` and `value`.
    pub fn new<V: ToValue>(name: &str, value: V) -> (r: Self)
        ensures
            r@ == (StyleV { name: name@, value: value.value_spec() }),
    {
        Style { name: String::from_str(name), value: value.to_value() }
    }

    /// A copy of this style with the same model.
    pub fn duplicate(&self) -> (r: Self)
        ensures
            r@ == self@,
    {
        Style { name: self.name.clone(), value: self.value.duplicate() }
    }

    /// Appends the text of this style, `name:value`, to `buffer`.
    pub fn write_text(&self, buffer: &mut String)
        ensures
            final(buffer)@ == old(buffer)@ + style_text(self@),
    {
        push_str(buffer, self.name.as_str());
        push_char(buffer, ':');
        self.value.write_text(buffer);
        assert(buffer@ =~= old(buffer)@ + style_text(self@));
    }

    /// The text of this style, `name:value`.
    pub fn to_string(&self) -> (r: String)
        ensures
            r@ == style_text(self@),
    {
        let mut s = String::new();
        self.write_text(&mut s);
        assert(s@ =~= style_text(self@));
        s
    }
}

/// The values an attribute can hold.
#[verifier::reject_recursive_types(MSG)]
pub enum AttributeValue<MSG> {
    /// an argument of a function that is called on the element, such as `inner_html`
    FunctionCall(Value),
    /// a simple value, wrapper of primitive types
    Simple(Value),
    /// style values
    Style(Vec<Style>),
    /// an event listener
    EventListener(Listener<MSG>),
    /// no value
    Empty,
}

/// The model of an [`AttributeValue`]; a listener is known by its kind only.
pub enum AttributeValueV {
    FunctionCall(ValueV),
    Simple(ValueV),
    Style(Seq<StyleV>),
    EventListener,
    Empty,
}

impl<MSG> View for AttributeValue<MSG> {
    type V = AttributeValueV;

    open spec fn view(&self) -> AttributeValueV {
        match self {
            AttributeValue::FunctionCall(v) => AttributeValueV::FunctionCall(v@),
            AttributeValue::Simple(v) => AttributeValueV::Simple(v@),
            AttributeValue::Style(s) => AttributeValueV::Style(styles_view(s@)),
            AttributeValue::EventListener(_) => AttributeValueV::EventListener,
            AttributeValue::Empty => AttributeValueV::Empty,
        }
    }
}

/// The models of a sequence of attribute values.
pub open spec fn avs_view<MSG>(s: Seq<AttributeValue<MSG>>) -> Seq<AttributeValueV> {
    s.map_values(|x: AttributeValue<MSG>| x@)
}

/// The models of a sequence of references to attribute values.
pub open spec fn av_refs_view<MSG>(s: Seq<&AttributeValue<MSG>>) -> Seq<AttributeValueV> {
    s.map_values(|x: &AttributeValue<MSG>| (*x)@)
}

impl<MSG> AttributeValue<MSG> {
    /// A style value holding `styles`.
    pub fn from_styles(styles: Vec<Style>) -> (r: Self)
        ensures
            r@ == AttributeValueV::Style(styles_view(styles@)),
    {
        AttributeValue::Style(styles)
    }

    /// A function call value with argument `value`.
    pub fn function_call(value: Value) -> (r: Self)
        ensures
            r@ == AttributeValueV::FunctionCall(value@),
    {
        AttributeValue::FunctionCall(value)
    }

    /// The value, if this is a `Simple` variant.
    pub fn get_simple(&self) -> (r: Option<&Value>)
        ensures
            r matches Some(v) ==> self@ == AttributeValueV::Simple(v@),
            r is None ==> !(self@ is Simple),
    {
        match self {
            AttributeValue::Simple(v) => Some(v),
            _ => None,
        }
    }

    /// The text, if this is a `Simple` variant holding a string value.
    pub fn as_str(&self) -> (r: Option<&str>)
        ensures
            r matches Some(s) ==> self@ == AttributeValueV::Simple(ValueV::Text(s@)),
            r is None ==> !(self@ matches AttributeValueV::Simple(ValueV::Text(_))),
    {
        if let Some(simple) = self.get_simple() {
            simple.as_str()
        } else {
            None
        }
    }

    /// The argument, if this is a `FunctionCall` variant.
    pub fn get_function_call_value(&self) -> (r: Option<&Value>)
        ensures
            r matches Some(v) ==> self@ == AttributeValueV::FunctionCall(v@),
            r is None ==> !(self@ is FunctionCall),
    {
        match self {
            AttributeValue::FunctionCall(v) => Some(v),
            _ => None,
        }
    }

    /// Whether this is a style value.
    pub fn is_style(&self) -> (r: bool)
        ensures
            r == (self@ is Style),
    {
        match self {
            AttributeValue::Style(_) => true,
            _ => false,
        }
    }

    /// The listener, if this is an `EventListener` variant.
    pub fn as_event_listener(&self) -> (r: Option<&Listener<MSG>>)
        ensures
            r is Some <==> self@ is EventListener,
            r matches Some(l) ==> *self == AttributeValue::EventListener(*l),
    {
        match self {
            AttributeValue::EventListener(cb) => Some(cb),
            _ => None,
        }
    }

    /// The styles, if this is a `Style` variant.
    pub fn as_style(&self) -> (r: Option<&Vec<Style>>)
        ensures
            r matches Some(s) ==> self@ == AttributeValueV::Style(styles_view(s@)),
            r is None ==> !(self@ is Style),
    {
        match self {
            AttributeValue::Style(styles) => Some(styles),
            _ => None,
        }
    }

    /// Whether this is a function call value.
    pub fn is_function_call(&self) -> (r: bool)
        ensures
            r == (self@ is FunctionCall),
    {
        match self {
            AttributeValue::FunctionCall(_) => true,
            _ => false,
        }
    }

    /// Whether this is the empty value.
    pub fn is_empty(&self) -> (r: bool)
        ensures
            r == (self@ is Empty),
    {
        match self {
            AttributeValue::Empty => true,
            _ => false,
        }
    }

    /// A copy of this value with the same model; a listener is shared.
    pub fn duplicate(&self) -> (r: Self)
        ensures
            r@ == self@,
    {
        match self {
            AttributeValue::FunctionCall(v) => AttributeValue::FunctionCall(v.duplicate()),
            AttributeValue::Simple(v) => AttributeValue::Simple(v.duplicate()),
            AttributeValue::Style(styles) => {
                let mut out: Vec<Style> = Vec::new();
                let mut i: usize = 0;
                while i < styles.len()
                    invariant
                        i <= styles@.len(),
                        out@.len() == i,
                        forall|j: int| 0 <= j < i ==> #[trigger] out@[j]@ == styles@[j]@,
                    decreases styles@.len() - i,
                {
                    out.push(styles[i].duplicate());
                    i = i + 1;
                }
                assert(styles_view(out@) =~= styles_view(styles@));
                AttributeValue::Style(out)
            },
            AttributeValue::EventListener(cb) => AttributeValue::EventListener(cb.duplicate()),
            AttributeValue::Empty => AttributeValue::Empty,
        }
    }
}

/// The listener of a value, if it is one.
pub open spec fn value_listener<MSG>(v: AttributeValue<MSG>) -> Option<Listener<MSG>> {
    match v {
        AttributeValue::EventListener(l) => Some(l),
        _ => None,
    }
}

/// Whether `w` holds what a mapper (what it takes, and what it makes of it) makes of
/// the listener `l`, if there is one: then `w` is a listener whose outputs are the
/// mapper's outputs on those of `l` (see [`callback_mapped`]).
pub open spec fn listener_mapped<MSG, MSG2>(
    l: Option<Listener<MSG>>,
    w: AttributeValue<MSG2>,
    takes: spec_fn(MSG) -> bool,
    maps: spec_fn(MSG, MSG2) -> bool,
) -> bool {
    match l {
        Some(l) => match w {
            AttributeValue::EventListener(m) => callback_mapped(l, m, takes, maps),
            _ => false,
        },
        None => true,
    }
}

/// Whether each value of `ws` holds what a mapper makes of the listener of the value
/// of `vs` at the same place.
pub open spec fn values_mapped<MSG, MSG2>(
    vs: Seq<AttributeValue<MSG>>,
    ws: Seq<AttributeValue<MSG2>>,
    takes: spec_fn(MSG) -> bool,
    maps: spec_fn(MSG, MSG2) -> bool,
) -> bool {
    &&& vs.len() == ws.len()
    &&& forall|i: int|
        0 <= i < vs.len() ==> #[trigger] listener_mapped(value_listener(vs[i]), ws[i], takes, maps)
}

/// Whether the values of each attribute of `bs` hold what a mapper makes of the
/// listeners of the attribute of `attrs` at the same place.
pub open spec fn attrs_mapped<MSG, MSG2>(
    attrs: Seq<Attribute<MSG>>,
    bs: Seq<Attribute<MSG2>>,
    takes: spec_fn(MSG) -> bool,
    maps: spec_fn(MSG, MSG2) -> bool,
) -> bool {
    &&& attrs.len() == bs.len()
    &&& forall|i: int| 0 <= i < attrs.len() ==> #[trigger] values_mapped(attrs[i].value@, bs[i].value@, takes, maps)
}

impl<MSG: 'static> AttributeValue<MSG> {
    /// This value with the listener's message mapped by `cb`; other values are unchanged.
    pub fn map_msg<F: Fn(MSG) -> MSG2 + Clone + 'static, MSG2: 'static>(self, cb: F) -> (r:
        AttributeValue<MSG2>)
        ensures
            r@ == self@,
            listener_mapped(value_listener(self), r, requires_of(cb), ensures_of(cb)),
    {
        match self {
            AttributeValue::FunctionCall(this) => AttributeValue::FunctionCall(this),
            AttributeValue::Simple(this) => AttributeValue::Simple(this),
            AttributeValue::Style(this) => AttributeValue::Style(this),
            AttributeValue::EventListener(this) => AttributeValue::EventListener(this.map_msg(cb)),
            AttributeValue::Empty => AttributeValue::Empty,
        }
    }
}

/// Things that can become the value of an attribute: attribute values themselves
/// and everything that can become a [`Value`] (as a simple value).
pub trait ToAttributeValue<MSG> {
    /// The model of the attribute value that `self` becomes.
    spec fn attribute_value_spec(&self) -> AttributeValueV;

    /// The attribute value that `self` becomes.
    fn to_attribute_value(self) -> (r: AttributeValue<MSG>)
        ensures
            r@ == self.attribute_value_spec(),
    ;
}

impl<MSG> ToAttributeValue<MSG> for AttributeValue<MSG> {
    open spec fn attribute_value_spec(&self) -> AttributeValueV {
        self@
    }

    fn to_attribute_value(self) -> (r: AttributeValue<MSG>) {
        self
    }
}

impl<MSG, V: ToValue> ToAttributeValue<MSG> for V {
    open spec fn attribute_value_spec(&self) -> AttributeValueV {
        AttributeValueV::Simple(self.value_spec())
    }

    fn to_attribute_value(self) -> (r: AttributeValue<MSG>) {
        AttributeValue::Simple(self.to_value())
    }
}

/// An attribute of an element: an optional namespace, a name and values.
#[verifier::reject_recursive_types(MSG)]
pub struct Attribute<MSG> {
    /// namespace of an attribute, used by svg attributes such as xlink-href
    pub namespace: Option<&'static str>,
    /// the attribute name
    pub name: &'static str,
    /// the attribute values: simple values, styles, listeners or function calls
    pub value: Vec<AttributeValue<MSG>>,
}

/// The model of an [`Attribute`].
pub struct AttributeV {
    pub namespace: Option<Seq<char>>,
    pub name: Seq<char>,
    pub value: Seq<AttributeValueV>,
}

/// The model of an optional name.
pub open spec fn opt_str_view(o: Option<&'static str>) -> Option<Seq<char>> {
    match o {
        Some(s) => Some(s@),
        None => None,
    }
}

impl<MSG> View for Attribute<MSG> {
    type V = AttributeV;

    open spec fn view(&self) -> AttributeV {
        AttributeV {
            namespace: opt_str_view(self.namespace),
            name: self.name@,
            value: avs_view(self.value@),
        }
    }
}

/// The models of a sequence of attributes.
pub open spec fn attrs_view<MSG>(s: Seq<Attribute<MSG>>) -> Seq<AttributeV> {
    s.map_values(|x: Attribute<MSG>| x@)
}

/// The models of a sequence of references to attributes.
pub open spec fn attr_refs_view<MSG>(s: Seq<&Attribute<MSG>>) -> Seq<AttributeV> {
    s.map_values(|x: &Attribute<MSG>| (*x)@)
}

/// Copies a sequence of attribute values.
pub fn duplicate_values<MSG>(values: &Vec<AttributeValue<MSG>>) -> (r: Vec<AttributeValue<MSG>>)
    ensures
        avs_view(r@) == avs_view(values@),
{
    let mut out: Vec<AttributeValue<MSG>> = Vec::new();
    let mut i: usize = 0;
    while i < values.len()
        invariant
            i <= values@.len(),
            out@.len() == i,
            forall|j: int| 0 <= j < i ==> #[trigger] out@[j]@ == values@[j]@,
        decreases values@.len() - i,
    {
        out.push(values[i].duplicate());
        i = i + 1;
    }
    assert(avs_view(out@) =~= avs_view(values@));
    out
}

impl<MSG> Attribute<MSG> {
    /// An attribute with namespace, name and one value.
    pub fn new(namespace: Option<&'static str>, name: &'static str, value: AttributeValue<MSG>) -> (r:
        Self)
        ensures
            r@ == (AttributeV {
                namespace: opt_str_view(namespace),
                name: name@,
                value: seq![value@],
            }),
    {
        let mut values: Vec<AttributeValue<MSG>> = Vec::new();
        values.push(value);
        let r = Attribute { name, value: values, namespace };
        assert(avs_view(r.value@) =~= seq![value@]);
        r
    }

    /// An attribute with namespace, name and several values.
    pub fn with_multiple_values(
        namespace: Option<&'static str>,
        name: &'static str,
        value: Vec<AttributeValue<MSG>>,
    ) -> (r: Self)
        ensures
            r@ == (AttributeV {
                namespace: opt_str_view(namespace),
                name: name@,
                value: avs_view(value@),
            }),
    {
        Attribute { name, value, namespace }
    }

    /// The name of this attribute.
    pub fn name(&self) -> (r: &&'static str)
        ensures
            (*r)@ == self@.name,
    {
        &self.name
    }

    /// The values of this attribute.
    pub fn value(&self) -> (r: &[AttributeValue<MSG>])
        ensures
            avs_view(r@) == self@.value,
    {
        self.value.as_slice()
    }

    /// The namespace of this attribute.
    pub fn namespace(&self) -> (r: Option<&&'static str>)
        ensures
            match r {
                Some(n) => self@.namespace == Some((*n)@),
                None => self@.namespace is None,
            },
    {
        self.namespace.as_ref()
    }

    /// A copy of this attribute with the same model; listeners are shared.
    pub fn duplicate(&self) -> (r: Self)
        ensures
            r@ == self@,
    {
        Attribute {
            namespace: self.namespace,
            name: self.name,
            value: duplicate_values(&self.value),
        }
    }

    /// The listeners among the values of this attribute, in order.
    pub fn get_callback(&self) -> (r: Vec<&Listener<MSG>>)
        ensures
            listener_refs(r@) == listeners_in(self.value@),
            r@.len() == values_of_kind(self@.value, ValueKind::Listener).len(),
    {
        partition_callbacks_from_plain_styles_and_func_calls(self).listeners
    }
}

impl<MSG: 'static> Attribute<MSG> {
    /// This attribute with the messages of its listeners mapped by `cb`.
    pub fn map_msg<F: Fn(MSG) -> MSG2 + Clone + 'static, MSG2: 'static>(self, cb: F) -> (r:
        Attribute<MSG2>)
        ensures
            r@ == self@,
            values_mapped(self.value@, r.value@, requires_of(cb), ensures_of(cb)),
    {
        let ghost f = cb;
        let mapper = Callback::from_fn(cb);
        proof {
            lemma_from_fn_relations(mapper, f);
        }
        crate::map_msg::attribute_map_callback(self, mapper)
    }
}

/// Creates an attribute of `name` and `value`, without a namespace.
pub fn attr<MSG, V: ToAttributeValue<MSG>>(name: &'static str, value: V) -> (r: Attribute<MSG>)
    ensures
        r@ == (AttributeV { namespace: None, name: name@, value: seq![value.attribute_value_spec()] }),
{
    attr_ns(None, name, value)
}

/// Creates an attribute of `name` and `value` in `namespace`.
pub fn attr_ns<MSG, V: ToAttributeValue<MSG>>(
    namespace: Option<&'static str>,
    name: &'static str,
    value: V,
) -> (r: Attribute<MSG>)
    ensures
        r@ == (AttributeV {
            namespace: opt_str_view(namespace),
            name: name@,
            value: seq![value.attribute_value_spec()],
        }),
{
    Attribute::new(namespace, name, value.to_attribute_value())
}

// ----------------------------------------------------------------------------
// Merging attributes of the same name
// ----------------------------------------------------------------------------
/// The index of the first attribute named `name`, if there is one.
pub open spec fn find_name(attrs: Seq<AttributeV>, name: Seq<char>) -> Option<int>
    decreases attrs.len(),
{
    if attrs.len() == 0 {
        None
    } else {
        match find_name(attrs.drop_last(), name) {
            Some(i) => Some(i),
            None => if attrs.last().name == name {
                Some(attrs.len() - 1)
            } else {
                None
            },
        }
    }
}

/// Attributes of the same name merged into one: each name appears once, at the place
/// of its first occurrence, without a namespace, with the values of all the attributes
/// of that name in order.
pub open spec fn merge_spec(attrs: Seq<AttributeV>) -> Seq<AttributeV>
    decreases attrs.len(),
{
    if attrs.len() == 0 {
        Seq::empty()
    } else {
        let merged = merge_spec(attrs.drop_last());
        let a = attrs.last();
        match find_name(merged, a.name) {
            Some(i) => merged.update(
                i,
                AttributeV { value: merged[i].value + a.value, ..merged[i] },
            ),
            None => merged.push(AttributeV { namespace: None, name: a.name, value: a.value }),
        }
    }
}

/// What `find_name` finds is named so, and nothing before it is.
pub proof fn lemma_find_name(attrs: Seq<AttributeV>, name: Seq<char>)
    ensures
        match find_name(attrs, name) {
            Some(i) => 0 <= i < attrs.len() && attrs[i].name == name && forall|j: int|
                0 <= j < i ==> attrs[j].name != name,
            None => forall|j: int| 0 <= j < attrs.len() ==> attrs[j].name != name,
        },
    decreases attrs.len(),
{
    if attrs.len() > 0 {
        let d = attrs.drop_last();
        lemma_find_name(d, name);
        assert(forall|j: int| 0 <= j < d.len() ==> d[j] == attrs[j]);
    }
}

/// The attribute values of the attributes named `name`, in order.
pub open spec fn values_named(attrs: Seq<AttributeV>, name: Seq<char>) -> Seq<AttributeValueV>
    decreases attrs.len(),
{
    if attrs.len() == 0 {
        Seq::empty()
    } else if attrs.last().name == name {
        values_named(attrs.drop_last(), name) + attrs.last().value
    } else {
        values_named(attrs.drop_last(), name)
    }
}


/// The values of an absent name are none.
proof fn lemma_values_named_absent(attrs: Seq<AttributeV>, name: Seq<char>)
    requires
        forall|i: int| 0 <= i < attrs.len() ==> (#[trigger] attrs[i]).name != name,
    ensures
        values_named(attrs, name) == Seq::<AttributeValueV>::empty(),
    decreases attrs.len(),
{
    if attrs.len() > 0 {
        let d = attrs.drop_last();
        assert(forall|i: int| 0 <= i < d.len() ==> d[i] == attrs[i]);
        lemma_values_named_absent(d, name);
    }
}

/// Merging attributes of the same name: each name appears once; each merged
/// attribute has no namespace and holds the values of all the attributes of its name,
/// in order; a name is merged exactly when some attribute has it.
pub proof fn lemma_merge_law(attrs: Seq<AttributeV>)
    ensures
        forall|i: int, j: int|
            0 <= i < j < merge_spec(attrs).len() ==> (#[trigger] merge_spec(attrs)[i]).name
                != (#[trigger] merge_spec(attrs)[j]).name,
        forall|i: int|
            0 <= i < merge_spec(attrs).len() ==> (#[trigger] merge_spec(attrs)[i]).namespace is None
                && merge_spec(attrs)[i].value == values_named(attrs, merge_spec(attrs)[i].name),
        forall|i: int|
            0 <= i < attrs.len() ==> (#[trigger] find_name(merge_spec(attrs), attrs[i].name)) is Some,
        forall|j: int|
            0 <= j < merge_spec(attrs).len() ==> (#[trigger] find_name(attrs, merge_spec(attrs)[j].name)) is Some,
    decreases attrs.len(),
{
    if attrs.len() > 0 {
        let d = attrs.drop_last();
        let a = attrs.last();
        let m = merge_spec(d);
        let r = merge_spec(attrs);
        lemma_merge_law(d);
        lemma_find_name(m, a.name);
        assert(forall|i: int| 0 <= i < d.len() ==> d[i] == attrs[i]);
        match find_name(m, a.name) {
            Some(k) => {
                assert(r == m.update(k, AttributeV { value: m[k].value + a.value, ..m[k] }));
                assert forall|i: int| 0 <= i < r.len() implies (#[trigger] r[i]).namespace is None
                    && r[i].value == values_named(attrs, r[i].name) by {
                    if i == k {
                        assert(values_named(attrs, a.name) == values_named(d, a.name) + a.value);
                    } else {
                        assert(r[i] == m[i]);
                        if k < i {
                            assert(m[k].name != m[i].name);
                        } else {
                            assert(m[i].name != m[k].name);
                        }
                    }
                }
                assert forall|i: int, j: int| 0 <= i < j < r.len() implies (#[trigger] r[i]).name
                    != (#[trigger] r[j]).name by {
                    assert(r[i].name == m[i].name);
                    assert(r[j].name == m[j].name);
                    assert(m[i].name != m[j].name);
                }
                assert forall|i: int| 0 <= i < attrs.len() implies (#[trigger] find_name(
                    r,
                    attrs[i].name,
                )) is Some by {
                    lemma_find_name(r, attrs[i].name);
                    if i < d.len() {
                        lemma_find_name(m, d[i].name);
                        let q = find_name(m, d[i].name)->Some_0;
                        assert(r[q].name == m[q].name);
                    } else {
                        assert(r[k].name == a.name);
                    }
                }
                assert forall|j: int| 0 <= j < r.len() implies (#[trigger] find_name(attrs, r[j].name)) is Some by {
                    assert(r[j].name == m[j].name);
                    lemma_find_name(d, m[j].name);
                    lemma_find_name(attrs, m[j].name);
                    let q = find_name(d, m[j].name)->Some_0;
                    assert(attrs[q].name == m[j].name);
                }
            },
            None => {
                let fresh = AttributeV { namespace: None, name: a.name, value: a.value };
                assert(r == m.push(fresh));
                assert(forall|i: int| 0 <= i < d.len() ==> (#[trigger] d[i]).name != a.name) by {
                    assert forall|i: int| 0 <= i < d.len() implies (#[trigger] d[i]).name != a.name by {
                        if d[i].name == a.name {
                            let q = find_name(m, d[i].name)->Some_0;
                            lemma_find_name(m, d[i].name);
                        }
                    }
                }
                lemma_values_named_absent(d, a.name);
                assert forall|i: int| 0 <= i < r.len() implies (#[trigger] r[i]).namespace is None
                    && r[i].value == values_named(attrs, r[i].name) by {
                    if i == m.len() {
                        assert(values_named(attrs, a.name) == values_named(d, a.name) + a.value);
                        assert(values_named(d, a.name) + a.value =~= a.value);
                    } else {
                        assert(r[i] == m[i]);
                        assert(m[i].name != a.name);
                    }
                }
                assert forall|i: int, j: int| 0 <= i < j < r.len() implies (#[trigger] r[i]).name
                    != (#[trigger] r[j]).name by {
                    if j == m.len() {
                        assert(r[i] == m[i]);
                        assert(m[i].name != a.name);
                    } else {
                        assert(r[i] == m[i]);
                        assert(r[j] == m[j]);
                    }
                }
                assert forall|i: int| 0 <= i < attrs.len() implies (#[trigger] find_name(
                    r,
                    attrs[i].name,
                )) is Some by {
                    lemma_find_name(r, attrs[i].name);
                    if i < d.len() {
                        lemma_find_name(m, d[i].name);
                        let q = find_name(m, d[i].name)->Some_0;
                        assert(r[q].name == m[q].name);
                    } else {
                        assert(r[m.len() as int].name == a.name);
                    }
                }
                assert forall|j: int| 0 <= j < r.len() implies (#[trigger] find_name(attrs, r[j].name)) is Some by {
                    lemma_find_name(attrs, r[j].name);
                    if j < m.len() {
                        assert(r[j].name == m[j].name);
                        lemma_find_name(d, m[j].name);
                        let q = find_name(d, m[j].name)->Some_0;
                        assert(attrs[q].name == m[j].name);
                    } else {
                        assert(attrs[attrs.len() - 1].name == a.name);
                    }
                }
            },
        }
    }
}

// ----------------------------------------------------------------------------
// The index of names kept while merging and grouping
// ----------------------------------------------------------------------------
#[verifier::external_type_specification]
#[verifier::external_body]
#[verifier::reject_recursive_types(K)]
#[verifier::reject_recursive_types(V)]
#[verifier::reject_recursive_types(S)]
pub struct ExIndexMap<K, V, S>(indexmap::IndexMap<K, V, S>);

/// The entries of an index from names to positions, in the order in which they were
/// inserted: each is a name and its position.
pub uninterp spec fn position_entries(m: indexmap::IndexMap<&'static str, usize>) -> Seq<(Seq<char>, usize)>;

/// The position that the first entry named `name` holds, if there is one.
pub open spec fn lookup_position(entries: Seq<(Seq<char>, usize)>, name: Seq<char>) -> Option<usize>
    decreases entries.len(),
{
    if entries.len() == 0 {
        None
    } else {
        match lookup_position(entries.drop_last(), name) {
            Some(p) => Some(p),
            None => if entries.last().0 == name {
                Some(entries.last().1)
            } else {
                None
            },
        }
    }
}

/// Makes an empty index with room for `n` names, by `indexmap::IndexMap::with_capacity`.
/// Its contract: the new map holds no entry.
#[verifier::external_body]
fn positions_with_capacity(n: usize) -> (m: indexmap::IndexMap<&'static str, usize>)
    ensures
        position_entries(m) == Seq::<(Seq<char>, usize)>::empty(),
{
    indexmap::IndexMap::with_capacity(n)
}

/// Looks a name up, by `indexmap::IndexMap::get`. Its contract: the result is the value
/// of the entry whose key equals `name` as a string, if there is one (a map holds each
/// key at most once, so this is the first such entry).
#[verifier::external_body]
fn positions_get(m: &indexmap::IndexMap<&'static str, usize>, name: &'static str) -> (r: Option<usize>)
    ensures
        r == lookup_position(position_entries(*m), name@),
{
    m.get(&name).copied()
}

/// Inserts a name that the map does not hold yet, by `indexmap::IndexMap::insert`. Its
/// contract: the new entry comes last in order and the others stay as they were. What
/// `insert` does with a key that is present already (it replaces the value in place) is
/// not stated, as the callers never do it.
#[verifier::external_body]
fn positions_insert(m: &mut indexmap::IndexMap<&'static str, usize>, name: &'static str, pos: usize)
    requires
        lookup_position(position_entries(*old(m)), name@) is None,
    ensures
        position_entries(*final(m)) == position_entries(*old(m)).push((name@, pos)),
{
    m.insert(name, pos);
}

/// An index whose entries name the attributes of `attrs` in order, each with its own
/// position, finds a name where `find_name` does.
proof fn lemma_lookup_finds_name(entries: Seq<(Seq<char>, usize)>, attrs: Seq<AttributeV>, name: Seq<char>)
    requires
        entries.len() == attrs.len(),
        forall|j: int| 0 <= j < entries.len() ==> (#[trigger] entries[j]).0 == attrs[j].name && entries[j].1 == j,
    ensures
        match find_name(attrs, name) {
            Some(i) => lookup_position(entries, name) == Some(i as usize),
            None => lookup_position(entries, name) is None,
        },
    decreases entries.len(),
{
    if entries.len() > 0 {
        let de = entries.drop_last();
        let da = attrs.drop_last();
        assert forall|j: int| 0 <= j < de.len() implies (#[trigger] de[j]).0 == da[j].name && de[j].1 == j by {
            assert(de[j] == entries[j]);
            assert(da[j] == attrs[j]);
        }
        lemma_lookup_finds_name(de, da, name);
        assert(entries.last() == entries[entries.len() - 1]);
    }
}

/// Merges the values of the attributes of the same name: the result holds each name
/// once, in the order of first occurrence, without namespace, with all the values of
/// that name in order (see [`merge_spec`]).
pub fn merge_attributes_of_same_name<MSG>(attributes: &[&Attribute<MSG>]) -> (r: Vec<
    Attribute<MSG>,
>)
    ensures
        attrs_view(r@) == merge_spec(attr_refs_view(attributes@)),
{
    let ghost input = attr_refs_view(attributes@);
    let mut merged: Vec<Attribute<MSG>> = Vec::new();
    let mut index = positions_with_capacity(attributes.len());
    let mut i: usize = 0;
    while i < attributes.len()
        invariant
            i <= attributes@.len(),
            input == attr_refs_view(attributes@),
            attrs_view(merged@) == merge_spec(input.take(i as int)),
            position_entries(index).len() == merged@.len(),
            forall|j: int|
                0 <= j < merged@.len() ==> (#[trigger] position_entries(index)[j]).0 == attrs_view(
                    merged@,
                )[j].name && position_entries(index)[j].1 == j,
        decreases attributes@.len() - i,
    {
        let att = attributes[i];
        let ghost before = attrs_view(merged@);
        let ghost entries = position_entries(index);
        assert(input.take(i + 1).drop_last() =~= input.take(i as int));
        assert(input.take(i + 1).last() == att@);
        proof {
            lemma_find_name(before, att@.name);
            lemma_lookup_finds_name(entries, before, att@.name);
        }
        let ghost after = merge_spec(input.take(i + 1));
        assert(after == (match find_name(before, att@.name) {
            Some(q) => before.update(q, AttributeV { value: before[q].value + att@.value, ..before[q] }),
            None => before.push(AttributeV { namespace: None, name: att@.name, value: att@.value }),
        }));
        match positions_get(&index, att.name) {
            Some(k) => {
                assert(find_name(before, att@.name) == Some(k as int)) by {
                    assert(before.len() == merged@.len());
                    if let Some(q) = find_name(before, att@.name) {
                        assert(0 <= q < before.len());
                        assert(entries[q].1 == q);
                    }
                }
                let mut extra = duplicate_values(&att.value);
                let mut existing = merged.remove(k);
                let ghost ev = existing@;
                existing.value.append(&mut extra);
                merged.insert(k, existing);
                proof {
                    assert(avs_view(existing.value@) =~= ev.value + att@.value);
                    assert(ev == before[k as int]);
                    assert(attrs_view(merged@) =~= before.update(
                        k as int,
                        AttributeV { value: before[k as int].value + att@.value, ..before[k as int] },
                    ));
                    assert(attrs_view(merged@) == after);
                    assert forall|j: int| 0 <= j < merged@.len() implies (#[trigger] position_entries(index)[j]).0
                        == attrs_view(merged@)[j].name && position_entries(index)[j].1 == j by {
                        assert(attrs_view(merged@)[j].name == before[j].name);
                    }
                }
            },
            None => {
                let ghost pos = merged.len();
                positions_insert(&mut index, att.name, merged.len());
                let fresh = Attribute { namespace: None, name: att.name, value: duplicate_values(&att.value) };
                merged.push(fresh);
                assert(attrs_view(merged@) =~= before.push(
                    AttributeV { namespace: None, name: att@.name, value: att@.value },
                ));
                assert(attrs_view(merged@) == after);
                proof {
                    assert forall|j: int| 0 <= j < merged@.len() implies (#[trigger] position_entries(index)[j]).0
                        == attrs_view(merged@)[j].name && position_entries(index)[j].1 == j by {
                        if j < pos {
                            assert(position_entries(index)[j] == entries[j]);
                            assert(attrs_view(merged@)[j] == before[j]);
                        }
                    }
                }
            },
        }
        i = i + 1;
    }
    assert(input.take(attributes@.len() as int) =~= input);
    merged
}

/// The names of attributes, each once, in the order of first occurrence, with the
/// indexes of the attributes of each name in order.
pub open spec fn group_spec(attrs: Seq<AttributeV>) -> Seq<(Seq<char>, Seq<int>)>
    decreases attrs.len(),
{
    if attrs.len() == 0 {
        Seq::empty()
    } else {
        let groups = group_spec(attrs.drop_last());
        let a = attrs.last();
        let k = attrs.len() - 1;
        match find_group(groups, a.name) {
            Some(i) => groups.update(i, (groups[i].0, groups[i].1.push(k))),
            None => groups.push((a.name, seq![k])),
        }
    }
}

/// The index of the group named `name`, if there is one.
pub open spec fn find_group(groups: Seq<(Seq<char>, Seq<int>)>, name: Seq<char>) -> Option<int>
    decreases groups.len(),
{
    if groups.len() == 0 {
        None
    } else {
        match find_group(groups.drop_last(), name) {
            Some(i) => Some(i),
            None => if groups.last().0 == name {
                Some(groups.len() - 1)
            } else {
                None
            },
        }
    }
}

proof fn lemma_find_group(groups: Seq<(Seq<char>, Seq<int>)>, name: Seq<char>)
    ensures
        match find_group(groups, name) {
            Some(i) => 0 <= i < groups.len() && groups[i].0 == name && forall|j: int|
                0 <= j < i ==> groups[j].0 != name,
            None => forall|j: int| 0 <= j < groups.len() ==> groups[j].0 != name,
        },
    decreases groups.len(),
{
    if groups.len() > 0 {
        let d = groups.drop_last();
        lemma_find_group(d, name);
        assert(forall|j: int| 0 <= j < d.len() ==> d[j] == groups[j]);
    }
}

/// An index whose entries name the groups in order, each with its own position,
/// finds a name where `find_group` does.
proof fn lemma_lookup_finds_group(
    entries: Seq<(Seq<char>, usize)>,
    groups: Seq<(Seq<char>, Seq<int>)>,
    name: Seq<char>,
)
    requires
        entries.len() == groups.len(),
        forall|j: int| 0 <= j < entries.len() ==> (#[trigger] entries[j]).0 == groups[j].0 && entries[j].1 == j,
    ensures
        match find_group(groups, name) {
            Some(i) => lookup_position(entries, name) == Some(i as usize),
            None => lookup_position(entries, name) is None,
        },
    decreases entries.len(),
{
    if entries.len() > 0 {
        let de = entries.drop_last();
        let dg = groups.drop_last();
        assert forall|j: int| 0 <= j < de.len() implies (#[trigger] de[j]).0 == dg[j].0 && de[j].1 == j by {
            assert(de[j] == entries[j]);
            assert(dg[j] == groups[j]);
        }
        lemma_lookup_finds_group(de, dg, name);
        assert(entries.last() == entries[entries.len() - 1]);
    }
}

/// Groups attributes by name: each name once, in the order of first occurrence,
/// with the attributes of that name in order (see [`group_spec`]).
pub fn group_attributes_per_name<'a, MSG>(attributes: &'a [Attribute<MSG>]) -> (r: Vec<
    (&'static str, Vec<&'a Attribute<MSG>>),
>)
    ensures
        r@.len() == group_spec(attrs_view(attributes@)).len(),
        forall|g: int|
            0 <= g < r@.len() ==> {
                &&& (#[trigger] r@[g]).0@ == group_spec(attrs_view(attributes@))[g].0
                &&& r@[g].1@.len() == group_spec(attrs_view(attributes@))[g].1.len()
                &&& forall|j: int|
                    0 <= j < r@[g].1@.len() ==> *r@[g].1@[j] == attributes@[group_spec(
                        attrs_view(attributes@),
                    )[g].1[j]]
            },
{
    let ghost input = attrs_view(attributes@);
    let mut grouped: Vec<(&'static str, Vec<&'a Attribute<MSG>>)> = Vec::new();
    let mut index = positions_with_capacity(attributes.len());
    let mut i: usize = 0;
    while i < attributes.len()
        invariant
            i <= attributes@.len(),
            input == attrs_view(attributes@),
            grouped@.len() == group_spec(input.take(i as int)).len(),
            position_entries(index).len() == grouped@.len(),
            forall|j: int|
                0 <= j < grouped@.len() ==> (#[trigger] position_entries(index)[j]).0 == grouped@[j].0@
                    && position_entries(index)[j].1 == j,
            forall|g: int|
                0 <= g < grouped@.len() ==> {
                    &&& (#[trigger] grouped@[g]).0@ == group_spec(input.take(i as int))[g].0
                    &&& grouped@[g].1@.len() == group_spec(input.take(i as int))[g].1.len()
                    &&& forall|j: int|
                        0 <= j < grouped@[g].1@.len() ==> *grouped@[g].1@[j] == attributes@[group_spec(
                            input.take(i as int),
                        )[g].1[j]]
                },
        decreases attributes@.len() - i,
    {
        let name = attributes[i].name;
        let ghost before = group_spec(input.take(i as int));
        assert(input.take(i + 1).drop_last() =~= input.take(i as int));
        assert(input.take(i + 1).last() == input[i as int]);
        let ghost entries = position_entries(index);
        proof {
            lemma_find_group(before, name@);
            lemma_lookup_finds_group(entries, before, name@);
        }
        let found_at = positions_get(&index, name);
        let ghost old_grouped = grouped@;
        proof {
            if let Some(q) = find_group(before, name@) {
                assert(entries[q].1 == q);
            }
        }
        let ghost after = group_spec(input.take(i + 1));
        assert(after == (match find_group(before, name@) {
            Some(q) => before.update(q, (before[q].0, before[q].1.push(i as int))),
            None => before.push((name@, seq![i as int])),
        }));
        if let Some(k) = found_at {
            assert(find_group(before, name@) == Some(k as int));
            let ghost old_entry = old_grouped[k as int];
            let (gname, mut members) = grouped.remove(k);
            assert(members@ == old_entry.1@);
            members.push(&attributes[i]);
            let ghost new_members = members@;
            grouped.insert(k, (gname, members));
            proof {
                assert(grouped@ =~= old_grouped.update(k as int, grouped@[k as int]));
                assert(grouped@[k as int].1@ == old_entry.1@.push(&attributes[i as int]));
                assert(grouped@[k as int].0 == old_entry.0);
                assert forall|j: int| 0 <= j < grouped@.len() implies (#[trigger] position_entries(index)[j]).0
                    == grouped@[j].0@ && position_entries(index)[j].1 == j by {
                    if j != k {
                        assert(grouped@[j] == old_grouped[j]);
                    }
                }
                assert forall|g: int| 0 <= g < grouped@.len() implies {
                    &&& (#[trigger] grouped@[g]).0@ == after[g].0
                    &&& grouped@[g].1@.len() == after[g].1.len()
                    &&& forall|j: int|
                        0 <= j < grouped@[g].1@.len() ==> *grouped@[g].1@[j] == attributes@[after[g].1[j]]
                } by {
                    if g == k {
                        assert(after[g].1 == before[g].1.push(i as int));
                        assert(old_grouped[g] == old_entry);
                        assert forall|j: int| 0 <= j < grouped@[g].1@.len() implies *grouped@[g].1@[j] == attributes@[after[g].1[j]] by {
                            if j < old_entry.1@.len() {
                                assert(grouped@[g].1@[j] == old_entry.1@[j]);
                                assert(after[g].1[j] == before[g].1[j]);
                            }
                        }
                    } else {
                        assert(grouped@[g] == old_grouped[g]);
                        assert(after[g] == before[g]);
                        assert forall|j: int| 0 <= j < grouped@[g].1@.len() implies *grouped@[g].1@[j] == attributes@[after[g].1[j]] by {
                            assert(grouped@[g].1@[j] == old_grouped[g].1@[j]);
                            assert(after[g].1[j] == before[g].1[j]);
                        }
                    }
                }
            }
        } else {
            positions_insert(&mut index, name, grouped.len());
            let mut members: Vec<&'a Attribute<MSG>> = Vec::new();
            members.push(&attributes[i]);
            grouped.push((name, members));
            proof {
                assert forall|j: int| 0 <= j < grouped@.len() implies (#[trigger] position_entries(index)[j]).0
                    == grouped@[j].0@ && position_entries(index)[j].1 == j by {
                    if j < old_grouped.len() {
                        assert(position_entries(index)[j] == entries[j]);
                        assert(grouped@[j] == old_grouped[j]);
                    }
                }
                assert forall|g: int| 0 <= g < grouped@.len() implies {
                    &&& (#[trigger] grouped@[g]).0@ == after[g].0
                    &&& grouped@[g].1@.len() == after[g].1.len()
                    &&& forall|j: int|
                        0 <= j < grouped@[g].1@.len() ==> *grouped@[g].1@[j] == attributes@[after[g].1[j]]
                } by {
                    if g == old_grouped.len() {
                        assert(after[g].1 == seq![i as int]);
                    } else {
                        assert(grouped@[g] == old_grouped[g]);
                        assert(after[g] == before[g]);
                        assert forall|j: int| 0 <= j < grouped@[g].1@.len() implies *grouped@[g].1@[j] == attributes@[after[g].1[j]] by {
                            assert(grouped@[g].1@[j] == old_grouped[g].1@[j]);
                            assert(after[g].1[j] == before[g].1[j]);
                        }
                    }
                }
            }
        }
        i = i + 1;
    }
    assert(input.take(attributes@.len() as int) =~= input);
    grouped
}

// ----------------------------------------------------------------------------
// Telling the kinds of values apart
// ----------------------------------------------------------------------------
/// The kinds of attribute values that rendering and patching treat apart.
pub enum ValueKind {
    Plain,
    Style,
    FunctionCall,
    Listener,
}

/// Whether a value is of a kind.
pub open spec fn is_kind(v: AttributeValueV, k: ValueKind) -> bool {
    match k {
        ValueKind::Plain => v is Simple,
        ValueKind::Style => v is Style,
        ValueKind::FunctionCall => v is FunctionCall,
        ValueKind::Listener => v is EventListener,
    }
}

/// The values of a kind, in order.
pub open spec fn values_of_kind(vals: Seq<AttributeValueV>, k: ValueKind) -> Seq<AttributeValueV>
    decreases vals.len(),
{
    if vals.len() == 0 {
        Seq::empty()
    } else if is_kind(vals.last(), k) {
        values_of_kind(vals.drop_last(), k).push(vals.last())
    } else {
        values_of_kind(vals.drop_last(), k)
    }
}

/// The values of an attribute split by kind; the `Empty` values are dropped.
#[verifier::reject_recursive_types(MSG)]
pub struct SegregatedAttributes<'a, MSG> {
    /// the event listeners
    pub listeners: Vec<&'a Listener<MSG>>,
    /// the simple values
    pub plain_values: Vec<&'a AttributeValue<MSG>>,
    /// the style values
    pub styles: Vec<&'a AttributeValue<MSG>>,
    /// the function call values
    pub function_calls: Vec<&'a AttributeValue<MSG>>,
}

/// The listeners among some attribute values, in order.
pub open spec fn listeners_in<MSG>(vals: Seq<AttributeValue<MSG>>) -> Seq<Listener<MSG>>
    decreases vals.len(),
{
    if vals.len() == 0 {
        Seq::empty()
    } else {
        match vals.last() {
            AttributeValue::EventListener(l) => listeners_in(vals.drop_last()).push(l),
            _ => listeners_in(vals.drop_last()),
        }
    }
}

/// The listeners that references point to.
pub open spec fn listener_refs<MSG>(refs: Seq<&Listener<MSG>>) -> Seq<Listener<MSG>> {
    refs.map_values(|l: &Listener<MSG>| *l)
}

/// There are as many listeners among some values as values of the listener kind.
pub proof fn lemma_listeners_count<MSG>(vals: Seq<AttributeValue<MSG>>)
    ensures
        listeners_in(vals).len() == values_of_kind(avs_view(vals), ValueKind::Listener).len(),
    decreases vals.len(),
{
    if vals.len() > 0 {
        lemma_listeners_count(vals.drop_last());
        assert(avs_view(vals).drop_last() =~= avs_view(vals.drop_last()));
    }
}

/// Splits the values of an attribute into listeners, simple values, styles and
/// function calls, each in their order.
pub fn partition_callbacks_from_plain_styles_and_func_calls<'a, MSG>(
    attr: &'a Attribute<MSG>,
) -> (r: SegregatedAttributes<'a, MSG>)
    ensures
        listener_refs(r.listeners@) == listeners_in(attr.value@),
        r.listeners@.len() == values_of_kind(attr@.value, ValueKind::Listener).len(),
        av_refs_view(r.plain_values@) == values_of_kind(attr@.value, ValueKind::Plain),
        av_refs_view(r.styles@) == values_of_kind(attr@.value, ValueKind::Style),
        av_refs_view(r.function_calls@) == values_of_kind(attr@.value, ValueKind::FunctionCall),
{
    let ghost vals = attr@.value;
    let mut listeners: Vec<&'a Listener<MSG>> = Vec::new();
    let mut plain_values: Vec<&'a AttributeValue<MSG>> = Vec::new();
    let mut styles: Vec<&'a AttributeValue<MSG>> = Vec::new();
    let mut function_calls: Vec<&'a AttributeValue<MSG>> = Vec::new();
    let mut i: usize = 0;
    while i < attr.value.len()
        invariant
            i <= attr.value@.len(),
            vals == attr@.value,
            vals == avs_view(attr.value@),
            listeners@.len() == values_of_kind(vals.take(i as int), ValueKind::Listener).len(),
            listener_refs(listeners@) == listeners_in(attr.value@.take(i as int)),
            av_refs_view(plain_values@) == values_of_kind(vals.take(i as int), ValueKind::Plain),
            av_refs_view(styles@) == values_of_kind(vals.take(i as int), ValueKind::Style),
            av_refs_view(function_calls@) == values_of_kind(
                vals.take(i as int),
                ValueKind::FunctionCall,
            ),
        decreases attr.value@.len() - i,
    {
        let av = &attr.value[i];
        assert(vals.take(i + 1).drop_last() =~= vals.take(i as int));
        assert(vals.take(i + 1).last() == av@);
        assert(attr.value@.take(i + 1).drop_last() =~= attr.value@.take(i as int));
        assert(attr.value@.take(i + 1).last() == *av);
        let ghost l0 = listeners@;
        let ghost p0 = plain_values@;
        let ghost s0 = styles@;
        let ghost f0 = function_calls@;
        match av {
            AttributeValue::Simple(_) => {
                plain_values.push(av);
                assert(av_refs_view(plain_values@) =~= av_refs_view(p0).push(av@));
            },
            AttributeValue::FunctionCall(_) => {
                function_calls.push(av);
                assert(av_refs_view(function_calls@) =~= av_refs_view(f0).push(av@));
            },
            AttributeValue::Style(_) => {
                styles.push(av);
                assert(av_refs_view(styles@) =~= av_refs_view(s0).push(av@));
            },
            AttributeValue::EventListener(cb) => {
                listeners.push(cb);
                assert(listener_refs(listeners@) =~= listener_refs(l0).push(*cb));
            },
            AttributeValue::Empty => {},
        }
        i = i + 1;
    }
    assert(vals.take(attr.value@.len() as int) =~= vals);
    assert(attr.value@.take(attr.value@.len() as int) =~= attr.value@);
    SegregatedAttributes { listeners, plain_values, styles, function_calls }
}

/// The texts of the simple and function call values, in order.
pub open spec fn plain_texts(vals: Seq<AttributeValueV>) -> Seq<Seq<char>>
    decreases vals.len(),
{
    if vals.len() == 0 {
        Seq::empty()
    } else {
        let rest = plain_texts(vals.drop_last());
        match vals.last() {
            AttributeValueV::Simple(v) => rest.push(value_text(v)),
            AttributeValueV::FunctionCall(v) => rest.push(value_text(v)),
            _ => rest,
        }
    }
}

/// The text of a list of styles: each `name:value` followed by `;`.
pub open spec fn styles_text(styles: Seq<StyleV>) -> Seq<char>
    decreases styles.len(),
{
    if styles.len() == 0 {
        Seq::empty()
    } else {
        styles_text(styles.drop_last()) + style_text(styles.last()) + seq![';']
    }
}

/// The texts of the style values, in order.
pub open spec fn style_texts(vals: Seq<AttributeValueV>) -> Seq<Seq<char>>
    decreases vals.len(),
{
    if vals.len() == 0 {
        Seq::empty()
    } else {
        let rest = style_texts(vals.drop_last());
        match vals.last() {
            AttributeValueV::Style(s) => rest.push(styles_text(s)),
            _ => rest,
        }
    }
}

/// Texts joined by spaces, or nothing when there are none.
pub open spec fn merged_text(texts: Seq<Seq<char>>) -> Option<Seq<char>> {
    if texts.len() == 0 {
        None
    } else {
        Some(join(texts, seq![' ']))
    }
}

/// Joins the texts of the simple and function call values with spaces;
/// `None` when there are no such values.
pub fn merge_plain_attributes_values<MSG>(attr_values: &[&AttributeValue<MSG>]) -> (r: Option<String>)
    ensures
        match merged_text(plain_texts(av_refs_view(attr_values@))) {
            Some(t) => r matches Some(s) && s@ == t,
            None => r is None,
        },
{
    let ghost vals = av_refs_view(attr_values@);
    let mut buffer = String::new();
    let mut count: usize = 0;
    let mut i: usize = 0;
    while i < attr_values.len()
        invariant
            i <= attr_values@.len(),
            vals == av_refs_view(attr_values@),
            count == plain_texts(vals.take(i as int)).len(),
            count <= i,
            buffer@ == join(plain_texts(vals.take(i as int)), seq![' ']),
        decreases attr_values@.len() - i,
    {
        let av = attr_values[i];
        let ghost before = plain_texts(vals.take(i as int));
        assert(vals.take(i + 1).drop_last() =~= vals.take(i as int));
        assert(vals.take(i + 1).last() == av@);
        match av {
            AttributeValue::Simple(v) | AttributeValue::FunctionCall(v) => {
                proof {
                    if count > 0 {
                        lemma_join_push(before, seq![' '], value_text(v@));
                    } else {
                        assert(join(before.push(value_text(v@)), seq![' ']) =~= value_text(v@));
                    }
                }
                if count > 0 {
                    push_char(&mut buffer, ' ');
                }
                v.write_text(&mut buffer);
                count = count + 1;
                assert(buffer@ =~= join(before.push(value_text(v@)), seq![' ']));
            },
            _ => {},
        }
        i = i + 1;
    }
    assert(vals.take(attr_values@.len() as int) =~= vals);
    if count > 0 {
        Some(buffer)
    } else {
        None
    }
}

/// Appends the text of a list of styles: each `name:value` followed by `;`.
pub fn write_styles(styles: &Vec<Style>, buffer: &mut String)
    ensures
        final(buffer)@ == old(buffer)@ + styles_text(styles_view(styles@)),
{
    let ghost sv = styles_view(styles@);
    let mut i: usize = 0;
    while i < styles.len()
        invariant
            i <= styles@.len(),
            sv == styles_view(styles@),
            buffer@ == old(buffer)@ + styles_text(sv.take(i as int)),
        decreases styles@.len() - i,
    {
        assert(sv.take(i + 1).drop_last() =~= sv.take(i as int));
        styles[i].write_text(buffer);
        push_char(buffer, ';');
        i = i + 1;
        assert(buffer@ =~= old(buffer)@ + styles_text(sv.take(i as int)));
    }
    assert(sv.take(styles@.len() as int) =~= sv);
}

/// Joins the texts of the style values with spaces, each style written `name:value;`;
/// `None` when there are no style values.
pub fn merge_styles_attributes_values<MSG>(attr_values: &[&AttributeValue<MSG>]) -> (r: Option<
    String,
>)
    ensures
        match merged_text(style_texts(av_refs_view(attr_values@))) {
            Some(t) => r matches Some(s) && s@ == t,
            None => r is None,
        },
{
    let ghost vals = av_refs_view(attr_values@);
    let mut buffer = String::new();
    let mut count: usize = 0;
    let mut i: usize = 0;
    while i < attr_values.len()
        invariant
            i <= attr_values@.len(),
            vals == av_refs_view(attr_values@),
            count == style_texts(vals.take(i as int)).len(),
            count <= i,
            buffer@ == join(style_texts(vals.take(i as int)), seq![' ']),
        decreases attr_values@.len() - i,
    {
        let av = attr_values[i];
        let ghost before = style_texts(vals.take(i as int));
        assert(vals.take(i + 1).drop_last() =~= vals.take(i as int));
        assert(vals.take(i + 1).last() == av@);
        match av {
            AttributeValue::Style(styles) => {
                let ghost t = styles_text(styles_view(styles@));
                proof {
                    if count > 0 {
                        lemma_join_push(before, seq![' '], t);
                    } else {
                        assert(join(before.push(t), seq![' ']) =~= t);
                    }
                }
                if count > 0 {
                    push_char(&mut buffer, ' ');
                }
                write_styles(styles, &mut buffer);
                count = count + 1;
                assert(buffer@ =~= join(before.push(t), seq![' ']));
            },
            _ => {},
        }
        i = i + 1;
    }
    assert(vals.take(attr_values@.len() as int) =~= vals);
    if count > 0 {
        Some(buffer)
    } else {
        None
    }
}

// ----------------------------------------------------------------------------
// Equality
// ----------------------------------------------------------------------------
impl Style {
    /// Whether two styles have the same name and equal values.
    pub fn same_as(&self, other: &Style) -> (r: bool)
        ensures
            r == (self@ == other@),
    {
        str_eq(self.name.as_str(), other.name.as_str()) && self.value.same_as(&other.value)
    }
}

/// Whether two lists of styles are pairwise equal.
fn styles_same(a: &Vec<Style>, b: &Vec<Style>) -> (r: bool)
    ensures
        r == (styles_view(a@) == styles_view(b@)),
{
    if a.len() != b.len() {
        assert(styles_view(a@).len() != styles_view(b@).len());
        return false;
    }
    let mut i: usize = 0;
    while i < a.len()
        invariant
            a@.len() == b@.len(),
            i <= a@.len(),
            forall|j: int| 0 <= j < i ==> #[trigger] a@[j]@ == b@[j]@,
        decreases a@.len() - i,
    {
        if !a[i].same_as(&b[i]) {
            assert(styles_view(a@)[i as int] != styles_view(b@)[i as int]);
            return false;
        }
        i = i + 1;
    }
    assert(styles_view(a@) =~= styles_view(b@));
    true
}

impl<MSG> AttributeValue<MSG> {
    /// Whether two attribute values are equal: the same variant with equal contents;
    /// any two listeners are equal.
    pub fn same_as(&self, other: &AttributeValue<MSG>) -> (r: bool)
        ensures
            r == (self@ == other@),
    {
        match (self, other) {
            (AttributeValue::FunctionCall(a), AttributeValue::FunctionCall(b)) => a.same_as(b),
            (AttributeValue::Simple(a), AttributeValue::Simple(b)) => a.same_as(b),
            (AttributeValue::Style(a), AttributeValue::Style(b)) => styles_same(a, b),
            (AttributeValue::EventListener(_), AttributeValue::EventListener(_)) => true,
            (AttributeValue::Empty, AttributeValue::Empty) => true,
            _ => false,
        }
    }
}

/// Two attribute values are equal when their models are.
impl<MSG> PartialEq for AttributeValue<MSG> {
    fn eq(&self, other: &Self) -> (r: bool) {
        self.same_as(other)
    }
}

impl<MSG> PartialEqSpecImpl for AttributeValue<MSG> {
    open spec fn obeys_eq_spec() -> bool {
        true
    }

    open spec fn eq_spec(&self, other: &AttributeValue<MSG>) -> bool {
        self@ == other@
    }
}

/// Whether two lists of attribute values are pairwise equal.
fn values_same<MSG>(a: &Vec<AttributeValue<MSG>>, b: &Vec<AttributeValue<MSG>>) -> (r: bool)
    ensures
        r == (avs_view(a@) == avs_view(b@)),
{
    if a.len() != b.len() {
        assert(avs_view(a@).len() != avs_view(b@).len());
        return false;
    }
    let mut i: usize = 0;
    while i < a.len()
        invariant
            a@.len() == b@.len(),
            i <= a@.len(),
            forall|j: int| 0 <= j < i ==> #[trigger] a@[j]@ == b@[j]@,
        decreases a@.len() - i,
    {
        if !a[i].same_as(&b[i]) {
            assert(avs_view(a@)[i as int] != avs_view(b@)[i as int]);
            return false;
        }
        i = i + 1;
    }
    assert(avs_view(a@) =~= avs_view(b@));
    true
}

impl<MSG> Attribute<MSG> {
    /// Whether two attributes have the same namespace, the same name and equal values.
    pub fn same_as(&self, other: &Attribute<MSG>) -> (r: bool)
        ensures
            r == (self@ == other@),
    {
        let same_namespace = match (self.namespace, other.namespace) {
            (Some(a), Some(b)) => str_eq(a, b),
            (None, None) => true,
            _ => false,
        };
        same_namespace && str_eq(self.name, other.name) && values_same(&self.value, &other.value)
    }
}

/// Two attributes are equal when their models are.
impl<MSG> PartialEq for Attribute<MSG> {
    fn eq(&self, other: &Self) -> (r: bool) {
        self.same_as(other)
    }
}

impl<MSG> PartialEqSpecImpl for Attribute<MSG> {
    open spec fn obeys_eq_spec() -> bool {
        true
    }

    open spec fn eq_spec(&self, other: &Attribute<MSG>) -> bool {
        self@ == other@
    }
}

/// Whether two lists of attributes are pairwise equal.
pub fn attributes_same<MSG>(a: &Vec<Attribute<MSG>>, b: &Vec<Attribute<MSG>>) -> (r: bool)
    ensures
        r == (attrs_view(a@) == attrs_view(b@)),
{
    if a.len() != b.len() {
        assert(attrs_view(a@).len() != attrs_view(b@).len());
        return false;
    }
    let mut i: usize = 0;
    while i < a.len()
        invariant
            a@.len() == b@.len(),
            i <= a@.len(),
            forall|j: int| 0 <= j < i ==> #[trigger] a@[j]@ == b@[j]@,
        decreases a@.len() - i,
    {
        if !a[i].same_as(&b[i]) {
            assert(attrs_view(a@)[i as int] != attrs_view(b@)[i as int]);
            return false;
        }
        i = i + 1;
    }
    assert(attrs_view(a@) =~= attrs_view(b@));
    true
}

} // verus!

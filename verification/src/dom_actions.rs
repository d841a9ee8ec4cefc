//! What setting or removing the attributes of an element does to the real dom:
//! the operations, in order, that the host performs on the element.
use vstd::prelude::*;
use crate::attribute::{
    Attribute, AttributeV, AttributeValue, AttributeValueV, ValueKind, attr_refs_view, attrs_view,
    merge_attributes_of_same_name, merge_plain_attributes_values, merge_spec,
    merge_styles_attributes_values, merged_text, partition_callbacks_from_plain_styles_and_func_calls,
    plain_texts, style_texts, values_of_kind,
};
use crate::chars::concat;
use crate::text::{join, nat_text, push_nat, push_str, str_eq};
use crate::value::{Value, ValueV, value_number};

verus! {

/// An operation on a dom element.
#[allow(inconsistent_fields)]
pub enum DomAction {
    /// set an attribute in a namespace
    SetAttributeNs { namespace: &'static str, name: &'static str, value: String },
    /// set an attribute
    SetAttribute { name: &'static str, value: String },
    /// remove an attribute
    RemoveAttribute { name: &'static str },
    /// set the `value` property of a form element
    SetValue(String),
    /// set the numeric `value` property of the elements that have one: the number as
    /// `i32` for list items, the number itself for meters and progress bars
    SetNumericValue { value_i32: i32, value: Value },
    /// set the `open` property
    SetOpen(bool),
    /// set the `checked` property
    SetChecked(bool),
    /// set the `disabled` property
    SetDisabled(bool),
    /// set the inner html
    SetInnerHtml(String),
    /// attach the listener of index `index` among the listeners of the attribute to
    /// the event `event`, and keep its closure in the table of closures under the node
    /// id `node_id`
    AddListener { event: &'static str, index: usize, node_id: usize },
    /// detach the listeners of the element and of its descendants that listen to
    /// `event`
    RemoveListeners { event: &'static str },
}

/// The model of a [`DomAction`].
#[allow(inconsistent_fields)]
pub enum DomActionV {
    SetAttributeNs { namespace: Seq<char>, name: Seq<char>, value: Seq<char> },
    SetAttribute { name: Seq<char>, value: Seq<char> },
    RemoveAttribute { name: Seq<char> },
    SetValue(Seq<char>),
    SetNumericValue { value_i32: i32, value: ValueV },
    SetOpen(bool),
    SetChecked(bool),
    SetDisabled(bool),
    SetInnerHtml(Seq<char>),
    AddListener { event: Seq<char>, index: nat, node_id: nat },
    RemoveListeners { event: Seq<char> },
}

impl View for DomAction {
    type V = DomActionV;

    open spec fn view(&self) -> DomActionV {
        match self {
            DomAction::SetAttributeNs { namespace, name, value } => DomActionV::SetAttributeNs {
                namespace: namespace@,
                name: name@,
                value: value@,
            },
            DomAction::SetAttribute { name, value } => DomActionV::SetAttribute {
                name: name@,
                value: value@,
            },
            DomAction::RemoveAttribute { name } => DomActionV::RemoveAttribute { name: name@ },
            DomAction::SetValue(v) => DomActionV::SetValue(v@),
            DomAction::SetNumericValue { value_i32, value } => DomActionV::SetNumericValue {
                value_i32: *value_i32,
                value: value@,
            },
            DomAction::SetOpen(b) => DomActionV::SetOpen(*b),
            DomAction::SetChecked(b) => DomActionV::SetChecked(*b),
            DomAction::SetDisabled(b) => DomActionV::SetDisabled(*b),
            DomAction::SetInnerHtml(h) => DomActionV::SetInnerHtml(h@),
            DomAction::AddListener { event, index, node_id } => DomActionV::AddListener {
                event: event@,
                index: *index as nat,
                node_id: *node_id as nat,
            },
            DomAction::RemoveListeners { event } => DomActionV::RemoveListeners { event: event@ },
        }
    }
}

/// The models of a sequence of actions.
pub open spec fn actions_view(s: Seq<DomAction>) -> Seq<DomActionV> {
    s.map_values(|a: DomAction| a@)
}

/// Whether the first of some simple values is `true`.
pub open spec fn first_is_true(plain: Seq<AttributeValueV>) -> bool {
    plain.len() > 0 && plain[0] == AttributeValueV::Simple(ValueV::Bool(true))
}

/// The numeric value action of the first of some simple values, if it is a number.
pub open spec fn numeric_action(plain: Seq<AttributeValueV>) -> Seq<DomActionV> {
    if plain.len() > 0 && plain[0] is Simple && value_number(plain[0]->Simple_0) is Some {
        seq![
            DomActionV::SetNumericValue {
                value_i32: value_number(plain[0]->Simple_0)->Some_0 as i32,
                value: plain[0]->Simple_0,
            },
        ]
    } else {
        Seq::empty()
    }
}

/// The text of a boolean.
pub open spec fn bool_text(b: bool) -> Seq<char> {
    if b {
        "true"@
    } else {
        "false"@
    }
}

/// What setting the simple values (joined by spaces into `text`) of an attribute
/// without namespace does: it is set as an attribute; for `value`, `open`,
/// `checked` and `disabled` (the last three with the first value as a boolean) the
/// property is then set too.
pub open spec fn plain_actions(
    name: Seq<char>,
    text: Seq<char>,
    plain: Seq<AttributeValueV>,
) -> Seq<DomActionV> {
    if name == "value"@ {
        seq![DomActionV::SetAttribute { name, value: text }, DomActionV::SetValue(text)]
            + numeric_action(plain)
    } else if name == "open"@ {
        seq![
            DomActionV::SetAttribute { name, value: bool_text(first_is_true(plain)) },
            DomActionV::SetOpen(first_is_true(plain)),
        ]
    } else if name == "checked"@ {
        seq![
            DomActionV::SetAttribute { name, value: bool_text(first_is_true(plain)) },
            DomActionV::SetChecked(first_is_true(plain)),
        ]
    } else if name == "disabled"@ {
        seq![
            DomActionV::SetAttribute { name, value: bool_text(first_is_true(plain)) },
            DomActionV::SetDisabled(first_is_true(plain)),
        ]
    } else {
        seq![DomActionV::SetAttribute { name, value: text }]
    }
}

/// The listener actions of an attribute whose `count` listeners get the node ids
/// from `first_id` on: for each listener, in order, the element's `data-vdom-id`
/// attribute is set to its id, then the listener is attached and its closure kept
/// under that id.
pub open spec fn listener_actions(name: Seq<char>, first_id: nat, count: nat) -> Seq<DomActionV>
    decreases count,
{
    if count == 0 {
        Seq::empty()
    } else {
        let k = (count - 1) as nat;
        listener_actions(name, first_id, k) + seq![
            DomActionV::SetAttribute { name: "data-vdom-id"@, value: nat_text(first_id + k) },
            DomActionV::AddListener { event: name, index: k, node_id: first_id + k },
        ]
    }
}

/// The number of listeners of an attribute.
pub open spec fn listener_count(a: AttributeV) -> nat {
    values_of_kind(a.value, ValueKind::Listener).len()
}

/// The number of listeners of some attributes.
pub open spec fn total_listeners(attrs: Seq<AttributeV>) -> nat
    decreases attrs.len(),
{
    if attrs.len() == 0 {
        0
    } else {
        total_listeners(attrs.drop_last()) + listener_count(attrs.last())
    }
}

/// The listeners of a prefix of attributes are no more than those of all of them.
proof fn lemma_total_listeners_prefix(attrs: Seq<AttributeV>, i: int)
    requires
        0 <= i <= attrs.len(),
    ensures
        total_listeners(attrs.take(i)) <= total_listeners(attrs),
    decreases attrs.len(),
{
    if i < attrs.len() {
        let d = attrs.drop_last();
        assert(d.take(i) =~= attrs.take(i));
        lemma_total_listeners_prefix(d, i);
    } else {
        assert(attrs.take(i) =~= attrs);
    }
}

/// What setting an attribute does to an element: its simple values (joined by
/// spaces) are set, or else its styles, or else the attribute is removed; then the
/// inner html of an `inner_html` attribute is set; then its listeners are attached,
/// with the node ids from `first_id` on.
pub open spec fn set_attribute_actions(a: AttributeV, first_id: nat) -> Seq<DomActionV> {
    let plain = values_of_kind(a.value, ValueKind::Plain);
    let styles = values_of_kind(a.value, ValueKind::Style);
    let calls = values_of_kind(a.value, ValueKind::FunctionCall);
    let listeners = values_of_kind(a.value, ValueKind::Listener);
    let values_part = match merged_text(plain_texts(plain)) {
        Some(t) => match a.namespace {
            Some(ns) => seq![DomActionV::SetAttributeNs { namespace: ns, name: a.name, value: t }],
            None => plain_actions(a.name, t, plain),
        },
        None => match merged_text(style_texts(styles)) {
            Some(t) => seq![DomActionV::SetAttribute { name: a.name, value: t }],
            None => seq![DomActionV::RemoveAttribute { name: a.name }],
        },
    };
    let calls_part = match merged_text(plain_texts(calls)) {
        Some(t) => if a.name == "inner_html"@ {
            seq![DomActionV::SetInnerHtml(t)]
        } else {
            Seq::empty()
        },
        None => Seq::empty(),
    };
    values_part + calls_part + listener_actions(a.name, first_id, listeners.len())
}

/// What removing an attribute does to an element: the properties `value`, `open`,
/// `checked` and `disabled` are reset, then the attribute is removed.
pub open spec fn remove_attribute_actions(name: Seq<char>) -> Seq<DomActionV> {
    (if name == "value"@ {
        seq![DomActionV::SetValue(Seq::empty())]
    } else if name == "open"@ {
        seq![DomActionV::SetOpen(false)]
    } else if name == "checked"@ {
        seq![DomActionV::SetChecked(false)]
    } else if name == "disabled"@ {
        seq![DomActionV::SetDisabled(false)]
    } else {
        Seq::empty()
    }) + seq![DomActionV::RemoveAttribute { name }]
}

/// What setting each of some attributes does, one after the other.
pub open spec fn set_attributes_actions(attrs: Seq<AttributeV>, first_id: nat) -> Seq<DomActionV>
    decreases attrs.len(),
{
    if attrs.len() == 0 {
        Seq::empty()
    } else {
        set_attributes_actions(attrs.drop_last(), first_id) + set_attribute_actions(
            attrs.last(),
            first_id + total_listeners(attrs.drop_last()),
        )
    }
}

/// The text of a boolean, as a string.
fn bool_string(b: bool) -> (r: String)
    ensures
        r@ == bool_text(b),
{
    let mut t = String::new();
    if b {
        push_str(&mut t, "true");
    } else {
        push_str(&mut t, "false");
    }
    assert(t@ =~= bool_text(b));
    t
}

/// The property actions of setting the simple values of an attribute without a
/// namespace.
fn plain_value_actions<MSG>(
    name: &'static str,
    text: String,
    plain_values: &Vec<&crate::attribute::AttributeValue<MSG>>,
) -> (r: Vec<DomAction>)
    ensures
        actions_view(r@) == plain_actions(name@, text@, crate::attribute::av_refs_view(plain_values@)),
{
    let ghost plain = crate::attribute::av_refs_view(plain_values@);
    let mut first_true = false;
    if plain_values.len() > 0 {
        match plain_values[0].get_simple() {
            Some(v) => match v.as_bool() {
                Some(b) => {
                    first_true = b;
                },
                None => {},
            },
            None => {},
        }
        assert(plain[0] == plain_values@[0]@);
    }
    assert(first_true == first_is_true(plain));
    let mut actions: Vec<DomAction> = Vec::new();
    if str_eq(name, "value") {
        actions.push(DomAction::SetAttribute { name, value: text.clone() });
        actions.push(DomAction::SetValue(text));
        if plain_values.len() > 0 {
            match plain_values[0].get_simple() {
                Some(v) => match v.as_i32() {
                    Some(n) => {
                        actions.push(DomAction::SetNumericValue { value_i32: n, value: v.duplicate() });
                    },
                    None => {},
                },
                None => {},
            }
        }
        assert(actions_view(actions@) =~= plain_actions(name@, text@, plain));
    } else if str_eq(name, "open") {
        actions.push(DomAction::SetAttribute { name, value: bool_string(first_true) });
        actions.push(DomAction::SetOpen(first_true));
        assert(actions_view(actions@) =~= plain_actions(name@, text@, plain));
    } else if str_eq(name, "checked") {
        actions.push(DomAction::SetAttribute { name, value: bool_string(first_true) });
        actions.push(DomAction::SetChecked(first_true));
        assert(actions_view(actions@) =~= plain_actions(name@, text@, plain));
    } else if str_eq(name, "disabled") {
        actions.push(DomAction::SetAttribute { name, value: bool_string(first_true) });
        actions.push(DomAction::SetDisabled(first_true));
        assert(actions_view(actions@) =~= plain_actions(name@, text@, plain));
    } else {
        actions.push(DomAction::SetAttribute { name, value: text });
        assert(actions_view(actions@) =~= plain_actions(name@, text@, plain));
    }
    actions
}

/// The operations that setting an attribute performs on an element, in order, when
/// the next free node id is `next_id`; and the next free node id after it, one id
/// being taken by each listener.
pub fn set_element_attribute<MSG>(attr: &Attribute<MSG>, next_id: usize) -> (r: (Vec<DomAction>, usize))
    requires
        next_id + listener_count(attr@) <= usize::MAX,
    ensures
        actions_view(r.0@) == set_attribute_actions(attr@, next_id as nat),
        r.1 == next_id + listener_count(attr@),
{
    let segregated = partition_callbacks_from_plain_styles_and_func_calls(attr);
    let ghost plain = values_of_kind(attr@.value, ValueKind::Plain);
    let mut actions: Vec<DomAction> = match merge_plain_attributes_values(segregated.plain_values.as_slice()) {
        Some(merged) => match attr.namespace {
            Some(ns) => {
                let mut v: Vec<DomAction> = Vec::new();
                v.push(DomAction::SetAttributeNs { namespace: ns, name: attr.name, value: merged });
                assert(actions_view(v@) =~= seq![
                    DomActionV::SetAttributeNs { namespace: ns@, name: attr.name@, value: merged@ },
                ]);
                v
            },
            None => plain_value_actions(attr.name, merged, &segregated.plain_values),
        },
        None => match merge_styles_attributes_values(segregated.styles.as_slice()) {
            Some(merged) => {
                let mut v: Vec<DomAction> = Vec::new();
                v.push(DomAction::SetAttribute { name: attr.name, value: merged });
                assert(actions_view(v@) =~= seq![DomActionV::SetAttribute { name: attr.name@, value: merged@ }]);
                v
            },
            None => {
                let mut v: Vec<DomAction> = Vec::new();
                v.push(DomAction::RemoveAttribute { name: attr.name });
                assert(actions_view(v@) =~= seq![DomActionV::RemoveAttribute { name: attr.name@ }]);
                v
            },
        },
    };
    let ghost values_part = actions_view(actions@);
    match merge_plain_attributes_values(segregated.function_calls.as_slice()) {
        Some(merged) => {
            if str_eq(attr.name, "inner_html") {
                actions.push(DomAction::SetInnerHtml(merged));
            }
        },
        None => {},
    }
    let ghost with_calls = actions_view(actions@);
    let count = segregated.listeners.len();
    let mut i: usize = 0;
    while i < count
        invariant
            i <= count,
            count == listener_count(attr@),
            next_id + count <= usize::MAX,
            actions_view(actions@) == with_calls + listener_actions(attr.name@, next_id as nat, i as nat),
        decreases count - i,
    {
        let ghost before = actions@;
        let id = next_id + i;
        let mut id_text = String::new();
        push_nat(&mut id_text, id as u128);
        assert(id_text@ =~= nat_text(id as nat));
        actions.push(DomAction::SetAttribute { name: "data-vdom-id", value: id_text });
        actions.push(DomAction::AddListener { event: attr.name, index: i, node_id: id });
        proof {
            assert(actions_view(actions@) =~= actions_view(before) + seq![
                DomActionV::SetAttribute { name: "data-vdom-id"@, value: nat_text(id as nat) },
                DomActionV::AddListener { event: attr.name@, index: i as nat, node_id: id as nat },
            ]);
            assert(listener_actions(attr.name@, next_id as nat, (i + 1) as nat) == listener_actions(
                attr.name@,
                next_id as nat,
                i as nat,
            ) + seq![
                DomActionV::SetAttribute { name: "data-vdom-id"@, value: nat_text(next_id as nat + i as nat) },
                DomActionV::AddListener { event: attr.name@, index: i as nat, node_id: next_id as nat + i as nat },
            ]);
        }
        i = i + 1;
    }
    assert(actions_view(actions@) =~= set_attribute_actions(attr@, next_id as nat));
    (actions, next_id + count)
}

/// The operations that setting attributes performs on an element: the attributes
/// of the same name are merged first; the listeners take the node ids from
/// `next_id` on. Also the next free node id after them.
pub fn set_element_attributes<MSG>(attrs: &[&Attribute<MSG>], next_id: usize) -> (r: (Vec<DomAction>, usize))
    requires
        next_id + total_listeners(merge_spec(attr_refs_view(attrs@))) <= usize::MAX,
    ensures
        actions_view(r.0@) == set_attributes_actions(merge_spec(attr_refs_view(attrs@)), next_id as nat),
        r.1 == next_id + total_listeners(merge_spec(attr_refs_view(attrs@))),
{
    let merged = merge_attributes_of_same_name(attrs);
    let ghost mv = attrs_view(merged@);
    let mut actions: Vec<DomAction> = Vec::new();
    let mut id = next_id;
    let mut i: usize = 0;
    while i < merged.len()
        invariant
            i <= merged@.len(),
            mv == attrs_view(merged@),
            next_id + total_listeners(mv) <= usize::MAX,
            id == next_id + total_listeners(mv.take(i as int)),
            actions_view(actions@) == set_attributes_actions(mv.take(i as int), next_id as nat),
        decreases merged@.len() - i,
    {
        proof {
            assert(mv.take(i + 1).drop_last() =~= mv.take(i as int));
            assert(mv.take(i + 1).last() == merged@[i as int]@);
            lemma_total_listeners_prefix(mv, i + 1);
        }
        let (mut more, after) = set_element_attribute(&merged[i], id);
        let ghost before = actions@;
        let ghost added = more@;
        actions.append(&mut more);
        proof {
            assert(actions_view(actions@) =~= actions_view(before) + actions_view(added));
        }
        id = after;
        i = i + 1;
    }
    assert(mv.take(merged@.len() as int) =~= mv);
    (actions, id)
}

/// The operations that removing an attribute performs on an element.
pub fn remove_element_attribute<MSG>(attr: &Attribute<MSG>) -> (r: Vec<DomAction>)
    ensures
        actions_view(r@) == remove_attribute_actions(attr@.name),
{
    let mut actions: Vec<DomAction> = Vec::new();
    if str_eq(attr.name, "value") {
        actions.push(DomAction::SetValue(String::new()));
    } else if str_eq(attr.name, "open") {
        actions.push(DomAction::SetOpen(false));
    } else if str_eq(attr.name, "checked") {
        actions.push(DomAction::SetChecked(false));
    } else if str_eq(attr.name, "disabled") {
        actions.push(DomAction::SetDisabled(false));
    }
    actions.push(DomAction::RemoveAttribute { name: attr.name });
    assert(actions_view(actions@) =~= remove_attribute_actions(attr@.name));
    actions
}

/// What removing one value of an attribute named `name` does: a simple value removes
/// the attribute, a listener detaches the listeners of that event, other values do
/// nothing.
pub open spec fn value_removal_actions(name: Seq<char>, v: AttributeValueV) -> Seq<DomActionV> {
    match v {
        AttributeValueV::Simple(_) => remove_attribute_actions(name),
        AttributeValueV::EventListener => seq![DomActionV::RemoveListeners { event: name }],
        _ => Seq::empty(),
    }
}

/// What removing each value of an attribute does, in order.
pub open spec fn values_removal_actions(name: Seq<char>, values: Seq<AttributeValueV>) -> Seq<DomActionV>
    decreases values.len(),
{
    if values.len() == 0 {
        Seq::empty()
    } else {
        values_removal_actions(name, values.drop_last()) + value_removal_actions(name, values.last())
    }
}

/// What removing each of some attributes does, one after the other.
pub open spec fn remove_attributes_actions(attrs: Seq<AttributeV>) -> Seq<DomActionV>
    decreases attrs.len(),
{
    if attrs.len() == 0 {
        Seq::empty()
    } else {
        remove_attributes_actions(attrs.drop_last()) + values_removal_actions(
            attrs.last().name,
            attrs.last().value,
        )
    }
}

/// The operations that a patch removing some attributes from an element performs:
/// for each value of each attribute, a simple value removes the attribute and a
/// listener detaches the listeners of its event.
pub fn remove_element_attributes<MSG>(attrs: &[Attribute<MSG>]) -> (r: Vec<DomAction>)
    ensures
        actions_view(r@) == remove_attributes_actions(attrs_view(attrs@)),
{
    let ghost av = attrs_view(attrs@);
    let mut actions: Vec<DomAction> = Vec::new();
    let mut i: usize = 0;
    while i < attrs.len()
        invariant
            i <= attrs@.len(),
            av == attrs_view(attrs@),
            actions_view(actions@) == remove_attributes_actions(av.take(i as int)),
        decreases attrs@.len() - i,
    {
        let attr = &attrs[i];
        let ghost vals = attr@.value;
        let ghost start = actions_view(actions@);
        let mut j: usize = 0;
        while j < attr.value.len()
            invariant
                j <= attr.value@.len(),
                vals == attr@.value,
                vals.len() == attr.value@.len(),
                actions_view(actions@) == start + values_removal_actions(attr@.name, vals.take(j as int)),
            decreases attr.value@.len() - j,
        {
            let ghost before = actions_view(actions@);
            assert(vals.take(j + 1).drop_last() =~= vals.take(j as int));
            assert(vals[j as int] == attr.value@[j as int]@);
            match &attr.value[j] {
                AttributeValue::Simple(_) => {
                    let mut removal = remove_element_attribute(attr);
                    actions.append(&mut removal);
                },
                AttributeValue::EventListener(_) => {
                    actions.push(DomAction::RemoveListeners { event: attr.name });
                },
                _ => {},
            }
            assert(actions_view(actions@) =~= before + value_removal_actions(attr@.name, vals[j as int]));
            j = j + 1;
        }
        assert(vals.take(attr.value@.len() as int) =~= vals);
        assert(av.take(i + 1).drop_last() =~= av.take(i as int));
        assert(av[i as int] == attr@);
        i = i + 1;
    }
    assert(av.take(attrs@.len() as int) =~= av);
    actions
}

// ----------------------------------------------------------------------------
// Laws of setting and removing attributes
// ----------------------------------------------------------------------------
/// Simple values have one text each.
proof fn lemma_plain_texts_len(vals: Seq<AttributeValueV>)
    requires
        forall|i: int| 0 <= i < vals.len() ==> (#[trigger] vals[i]) is Simple,
    ensures
        plain_texts(vals).len() == vals.len(),
    decreases vals.len(),
{
    if vals.len() > 0 {
        let d = vals.drop_last();
        assert forall|i: int| 0 <= i < d.len() implies (#[trigger] d[i]) is Simple by {
            assert(d[i] == vals[i]);
        }
        lemma_plain_texts_len(d);
        assert(vals.last() == vals[vals.len() - 1]);
    }
}

/// The values of the simple kind are simple values.
proof fn lemma_plain_values_are_simple(vals: Seq<AttributeValueV>)
    ensures
        forall|i: int|
            0 <= i < values_of_kind(vals, ValueKind::Plain).len() ==> (#[trigger] values_of_kind(
                vals,
                ValueKind::Plain,
            )[i]) is Simple,
    decreases vals.len(),
{
    if vals.len() > 0 {
        lemma_plain_values_are_simple(vals.drop_last());
    }
}

/// The listener actions only set the node id attribute and attach listeners.
proof fn lemma_listener_actions_kinds(name: Seq<char>, first_id: nat, count: nat)
    ensures
        forall|i: int|
            0 <= i < listener_actions(name, first_id, count).len() ==> {
                let act = #[trigger] listener_actions(name, first_id, count)[i];
                act is SetAttribute || act is AddListener
            },
    decreases count,
{
    if count > 0 {
        lemma_listener_actions_kinds(name, first_id, (count - 1) as nat);
    }
}

/// Setting an attribute `open`, `checked` or `disabled` without namespace that has
/// simple values first sets the attribute to `true` or `false` (whether its first
/// simple value is `true`), then sets the property of the same name to that
/// boolean; no other of the properties `value`, `open`, `checked` and `disabled` is
/// set.
pub proof fn lemma_boolean_property_is_set(a: AttributeV, first_id: nat)
    requires
        a.name == "open"@ || a.name == "checked"@ || a.name == "disabled"@,
        a.namespace is None,
        values_of_kind(a.value, ValueKind::Plain).len() > 0,
    ensures
        ({
            let acts = set_attribute_actions(a, first_id);
            let plain = values_of_kind(a.value, ValueKind::Plain);
            let t = plain[0] == AttributeValueV::Simple(ValueV::Bool(true));
            &&& acts.len() >= 2
            &&& acts[0] == DomActionV::SetAttribute {
                name: a.name,
                value: if t {
                    seq!['t', 'r', 'u', 'e']
                } else {
                    seq!['f', 'a', 'l', 's', 'e']
                },
            }
            &&& a.name == "open"@ ==> acts[1] == DomActionV::SetOpen(t)
            &&& a.name == "checked"@ ==> acts[1] == DomActionV::SetChecked(t)
            &&& a.name == "disabled"@ ==> acts[1] == DomActionV::SetDisabled(t)
            &&& forall|i: int|
                0 <= i < acts.len() ==> {
                    &&& (#[trigger] acts[i]) is SetOpen ==> a.name == "open"@
                    &&& acts[i] is SetChecked ==> a.name == "checked"@
                    &&& acts[i] is SetDisabled ==> a.name == "disabled"@
                    &&& !(acts[i] is SetValue)
                }
        }),
{
    reveal_strlit("true");
    reveal_strlit("false");
    reveal_strlit("open");
    reveal_strlit("checked");
    reveal_strlit("disabled");
    reveal_strlit("value");
    assert("value"@.len() == 5 && "open"@.len() == 4 && "checked"@.len() == 7 && "disabled"@.len() == 8);
    let plain = values_of_kind(a.value, ValueKind::Plain);
    lemma_plain_values_are_simple(a.value);
    lemma_plain_texts_len(plain);
    let acts = set_attribute_actions(a, first_id);
    let listeners = values_of_kind(a.value, ValueKind::Listener);
    lemma_listener_actions_kinds(a.name, first_id, listeners.len());
    let t = plain[0] == AttributeValueV::Simple(ValueV::Bool(true));
    assert(first_is_true(plain) == t);
    assert("true"@ =~= seq!['t', 'r', 'u', 'e']);
    assert("false"@ =~= seq!['f', 'a', 'l', 's', 'e']);
    let head = plain_actions(a.name, join(plain_texts(plain), seq![' ']), plain);
    let calls = values_of_kind(a.value, ValueKind::FunctionCall);
    let calls_part = match merged_text(plain_texts(calls)) {
        Some(t) => if a.name == "inner_html"@ {
            seq![DomActionV::SetInnerHtml(t)]
        } else {
            Seq::empty()
        },
        None => Seq::empty(),
    };
    let tail = listener_actions(a.name, first_id, listeners.len());
    assert(acts == head + calls_part + tail);
    assert(head.len() == 2);
    assert forall|i: int| 0 <= i < acts.len() implies {
        &&& (#[trigger] acts[i]) is SetOpen ==> a.name == "open"@
        &&& acts[i] is SetChecked ==> a.name == "checked"@
        &&& acts[i] is SetDisabled ==> a.name == "disabled"@
        &&& !(acts[i] is SetValue)
    } by {
        if i < 2 {
            assert(acts[i] == head[i]);
        } else if i < 2 + calls_part.len() {
            assert(acts[i] == calls_part[i - 2]);
        } else {
            assert(acts[i] == tail[i - 2 - calls_part.len()]);
        }
    }
}

/// Removing an attribute resets the property of the same name first: `value` to
/// the empty text, `open`, `checked` and `disabled` to `false`; then the attribute
/// is removed. Other attributes are only removed.
pub proof fn lemma_removal_resets_property(name: Seq<char>)
    ensures
        name == "value"@ ==> remove_attribute_actions(name) == seq![
            DomActionV::SetValue(Seq::empty()),
            DomActionV::RemoveAttribute { name },
        ],
        name == "open"@ ==> remove_attribute_actions(name) == seq![
            DomActionV::SetOpen(false),
            DomActionV::RemoveAttribute { name },
        ],
        name == "checked"@ ==> remove_attribute_actions(name) == seq![
            DomActionV::SetChecked(false),
            DomActionV::RemoveAttribute { name },
        ],
        name == "disabled"@ ==> remove_attribute_actions(name) == seq![
            DomActionV::SetDisabled(false),
            DomActionV::RemoveAttribute { name },
        ],
        name != "value"@ && name != "open"@ && name != "checked"@ && name != "disabled"@
            ==> remove_attribute_actions(name) == seq![DomActionV::RemoveAttribute { name }],
{
    reveal_strlit("value");
    reveal_strlit("open");
    reveal_strlit("checked");
    reveal_strlit("disabled");
    assert("value"@.len() == 5 && "open"@.len() == 4 && "checked"@.len() == 7 && "disabled"@.len() == 8);
    assert(seq![DomActionV::SetValue(Seq::empty())] + seq![DomActionV::RemoveAttribute { name }] =~= seq![
        DomActionV::SetValue(Seq::empty()),
        DomActionV::RemoveAttribute { name },
    ]);
    assert(seq![DomActionV::SetOpen(false)] + seq![DomActionV::RemoveAttribute { name }] =~= seq![
        DomActionV::SetOpen(false),
        DomActionV::RemoveAttribute { name },
    ]);
    assert(seq![DomActionV::SetChecked(false)] + seq![DomActionV::RemoveAttribute { name }] =~= seq![
        DomActionV::SetChecked(false),
        DomActionV::RemoveAttribute { name },
    ]);
    assert(seq![DomActionV::SetDisabled(false)] + seq![DomActionV::RemoveAttribute { name }] =~= seq![
        DomActionV::SetDisabled(false),
        DomActionV::RemoveAttribute { name },
    ]);
    assert(Seq::<DomActionV>::empty() + seq![DomActionV::RemoveAttribute { name }] =~= seq![
        DomActionV::RemoveAttribute { name },
    ]);
}

} // verus!

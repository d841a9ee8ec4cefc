//! Mapping the messages of the listeners of a tree, so that a component's view can
//! stand in the view of its parent.
use vstd::prelude::*;
use crate::attribute::{
    Attribute, AttributeV, AttributeValue, AttributeValueV, attrs_mapped, attrs_view, avs_view,
    listener_mapped, listener_refs, listeners_in, value_listener, values_mapped,
};
use crate::callback::{
    Callback, ensures_of, lemma_from_fn_relations, maps_of, requires_of, takes_of,
};
use crate::events::Listener;
use crate::node::{Element, ElementV, Node, NodeV, lemma_nodes_view, node_view, nodes_view};

verus! {

/// The listeners of some attributes, one attribute after the other.
pub open spec fn all_listeners<MSG>(attrs: Seq<Attribute<MSG>>) -> Seq<Listener<MSG>>
    decreases attrs.len(),
{
    if attrs.len() == 0 {
        Seq::empty()
    } else {
        all_listeners(attrs.drop_last()) + listeners_in(attrs.last().value@)
    }
}

/// Whether `m` is the tree `n` with each listener replaced by what a mapper (what it
/// takes, and what it makes of it) makes of it: same shape, and at each place a
/// listener whose outputs are the mapper's outputs on those of the listener of `n`.
pub open spec fn node_mapped<MSG, MSG2>(
    n: &Node<MSG>,
    m: &Node<MSG2>,
    takes: spec_fn(MSG) -> bool,
    maps: spec_fn(MSG, MSG2) -> bool,
) -> bool
    decreases n,
{
    match n {
        Node::Element(e) => match m {
            Node::Element(f) => element_mapped(e, f, takes, maps),
            _ => false,
        },
        Node::Leaf(_) => m is Leaf,
        Node::NodeList(ns) => match m {
            Node::NodeList(ms) => nodes_mapped(ns@, ms@, takes, maps),
            _ => false,
        },
        Node::Fragment(ns) => match m {
            Node::Fragment(ms) => nodes_mapped(ns@, ms@, takes, maps),
            _ => false,
        },
    }
}

/// [`node_mapped`] for an element: its attributes and its children.
pub open spec fn element_mapped<MSG, MSG2>(
    e: &Element<MSG>,
    f: &Element<MSG2>,
    takes: spec_fn(MSG) -> bool,
    maps: spec_fn(MSG, MSG2) -> bool,
) -> bool
    decreases e,
{
    attrs_mapped(e.attrs@, f.attrs@, takes, maps) && nodes_mapped(e.children@, f.children@, takes, maps)
}

/// [`node_mapped`] for the nodes at the same places of two sequences.
pub open spec fn nodes_mapped<MSG, MSG2>(
    ns: Seq<Node<MSG>>,
    ms: Seq<Node<MSG2>>,
    takes: spec_fn(MSG) -> bool,
    maps: spec_fn(MSG, MSG2) -> bool,
) -> bool
    decreases ns,
{
    if ns.len() == 0 {
        ms.len() == 0
    } else {
        &&& ms.len() > 0
        &&& nodes_mapped(ns.drop_last(), ms.drop_last(), takes, maps)
        &&& node_mapped(&ns.last(), &ms.last(), takes, maps)
    }
}

/// [`nodes_mapped`] holds when each node of one sequence maps to the node at the
/// same place of the other.
proof fn lemma_nodes_mapped<MSG, MSG2>(
    ns: Seq<Node<MSG>>,
    ms: Seq<Node<MSG2>>,
    takes: spec_fn(MSG) -> bool,
    maps: spec_fn(MSG, MSG2) -> bool,
)
    requires
        ns.len() == ms.len(),
        forall|i: int| 0 <= i < ns.len() ==> #[trigger] node_mapped(&ns[i], &ms[i], takes, maps),
    ensures
        nodes_mapped(ns, ms, takes, maps),
    decreases ns.len(),
{
    if ns.len() > 0 {
        let dn = ns.drop_last();
        let dm = ms.drop_last();
        assert forall|i: int| 0 <= i < dn.len() implies #[trigger] node_mapped(&dn[i], &dm[i], takes, maps) by {
            assert(dn[i] == ns[i]);
            assert(dm[i] == ms[i]);
        }
        lemma_nodes_mapped(dn, dm, takes, maps);
        assert(node_mapped(&ns[ns.len() - 1], &ms[ms.len() - 1], takes, maps));
    }
}

/// Mapping the messages of the listeners of a node.
pub trait NodeMapMsg<MSG>: View<V = NodeV> {
    /// This node, as a node.
    spec fn node_of(&self) -> Node<MSG>;

    /// This node with the messages of its listeners mapped by `cb`.
    fn map_msg<F: Fn(MSG) -> MSG2 + Clone + 'static, MSG2: 'static>(self, cb: F) -> (r: Node<MSG2>)
        ensures
            r@ == self@,
            node_mapped(&self.node_of(), &r, requires_of(cb), ensures_of(cb)),
    ;

    /// This node with the messages of its listeners fed to `cb`.
    fn map_callback<MSG2: 'static>(self, cb: Callback<MSG, MSG2>) -> (r: Node<MSG2>)
        ensures
            r@ == self@,
            node_mapped(&self.node_of(), &r, takes_of(cb), maps_of(cb)),
    ;

    /// The listeners of the attributes of an element node, in order; none for other
    /// nodes.
    fn get_callbacks(&self) -> (r: Vec<&Listener<MSG>>)
        ensures
            listener_refs(r@) == self.listeners_of_node(),
    ;

    /// The listeners of the attributes of an element node, in order.
    spec fn listeners_of_node(&self) -> Seq<Listener<MSG>>;
}

/// Mapping the messages of the listeners of an element.
pub trait ElementMapMsg<MSG>: View<V = ElementV> {
    /// This element, as an element.
    spec fn element_of(&self) -> Element<MSG>;

    /// This element with the messages of its listeners mapped by `cb`.
    fn map_msg<F: Fn(MSG) -> MSG2 + Clone + 'static, MSG2: 'static>(self, cb: F) -> (r: Element<MSG2>)
        ensures
            r@ == self@,
            element_mapped(&self.element_of(), &r, requires_of(cb), ensures_of(cb)),
    ;

    /// This element with the messages of its listeners fed to `cb`.
    fn map_callback<MSG2: 'static>(self, cb: Callback<MSG, MSG2>) -> (r: Element<MSG2>)
        ensures
            r@ == self@,
            element_mapped(&self.element_of(), &r, takes_of(cb), maps_of(cb)),
    ;
}

/// Mapping the messages of the listeners of an attribute.
pub trait AttributeMapMsg<MSG>: View<V = AttributeV> {
    /// The values of this attribute.
    spec fn values_of(&self) -> Seq<AttributeValue<MSG>>;

    /// This attribute with the messages of its listeners mapped by `cb`.
    fn map_msg<F: Fn(MSG) -> MSG2 + Clone + 'static, MSG2: 'static>(self, cb: F) -> (r: Attribute<MSG2>)
        ensures
            r@ == self@,
            values_mapped(self.values_of(), r.value@, requires_of(cb), ensures_of(cb)),
    ;

    /// This attribute with the messages of its listeners fed to `cb`.
    fn map_callback<MSG2: 'static>(self, cb: Callback<MSG, MSG2>) -> (r: Attribute<MSG2>)
        ensures
            r@ == self@,
            values_mapped(self.values_of(), r.value@, takes_of(cb), maps_of(cb)),
    ;

    /// The listeners among the values of this attribute, in order.
    fn get_callback(&self) -> (r: Vec<&Listener<MSG>>)
        ensures
            listener_refs(r@) == self.listeners_of_attribute(),
    ;

    /// The listeners among the values of this attribute, in order.
    spec fn listeners_of_attribute(&self) -> Seq<Listener<MSG>>;
}

impl<MSG: 'static> AttributeMapMsg<MSG> for Attribute<MSG> {
    open spec fn values_of(&self) -> Seq<AttributeValue<MSG>> {
        self.value@
    }

    open spec fn listeners_of_attribute(&self) -> Seq<Listener<MSG>> {
        listeners_in(self.value@)
    }

    fn map_msg<F: Fn(MSG) -> MSG2 + Clone + 'static, MSG2: 'static>(self, cb: F) -> (r: Attribute<MSG2>) {
        Attribute::map_msg(self, cb)
    }

    fn map_callback<MSG2: 'static>(self, cb: Callback<MSG, MSG2>) -> (r: Attribute<MSG2>) {
        attribute_map_callback(self, cb)
    }

    fn get_callback(&self) -> (r: Vec<&Listener<MSG>>) {
        Attribute::get_callback(self)
    }
}

/// Mapping the messages of an attribute value that is a listener.
pub trait AttValueMapMsg<MSG>: View<V = AttributeValueV> {
    /// This value with the messages of its listener fed to `cb`.
    fn map_callback<MSG2: 'static>(self, cb: Callback<MSG, MSG2>) -> (r: AttributeValue<MSG2>)
        ensures
            r@ == self@,
            listener_mapped(self.listener_of(), r, takes_of(cb), maps_of(cb)),
    ;

    /// The listener, if this value is one.
    fn get_callback(&self) -> (r: Option<&Listener<MSG>>)
        ensures
            r is Some <==> self@ is EventListener,
            r matches Some(l) ==> self.listener_of() == Some(*l),
    ;

    /// The listener, if this value is one.
    spec fn listener_of(&self) -> Option<Listener<MSG>>;

    /// Whether this value is a listener.
    fn is_callback(&self) -> (r: bool)
        ensures
            r == (self@ is EventListener),
    ;
}

impl<MSG: 'static> AttValueMapMsg<MSG> for AttributeValue<MSG> {
    open spec fn listener_of(&self) -> Option<Listener<MSG>> {
        value_listener(*self)
    }

    fn map_callback<MSG2: 'static>(self, cb: Callback<MSG, MSG2>) -> (r: AttributeValue<MSG2>) {
        match self {
            AttributeValue::FunctionCall(this) => AttributeValue::FunctionCall(this),
            AttributeValue::Simple(this) => AttributeValue::Simple(this),
            AttributeValue::Style(this) => AttributeValue::Style(this),
            AttributeValue::EventListener(this) => AttributeValue::EventListener(this.map_callback(cb)),
            AttributeValue::Empty => AttributeValue::Empty,
        }
    }

    fn get_callback(&self) -> (r: Option<&Listener<MSG>>) {
        match self {
            AttributeValue::EventListener(l) => Some(l),
            _ => None,
        }
    }

    fn is_callback(&self) -> (r: bool) {
        match self {
            AttributeValue::EventListener(_) => true,
            _ => false,
        }
    }
}

/// This attribute with the messages of its listeners fed to `cb`.
pub fn attribute_map_callback<MSG: 'static, MSG2: 'static>(
    attr: Attribute<MSG>,
    cb: Callback<MSG, MSG2>,
) -> (r: Attribute<MSG2>)
    ensures
        r@ == attr@,
        values_mapped(attr.value@, r.value@, takes_of(cb), maps_of(cb)),
{
    let Attribute { namespace, name, value } = attr;
    let mut out: Vec<AttributeValue<MSG2>> = Vec::new();
    let mut rest = value;
    let ghost vals = rest@;
    let ghost all = avs_view(rest@);
    while rest.len() > 0
        invariant
            out@.len() + rest@.len() == all.len(),
            vals.len() == all.len(),
            vals == attr.value@,
            forall|j: int| 0 <= j < out@.len() ==> #[trigger] out@[j]@ == all[j],
            forall|j: int| 0 <= j < rest@.len() ==> #[trigger] rest@[j]@ == all[out@.len() + j],
            forall|j: int| 0 <= j < rest@.len() ==> #[trigger] rest@[j] == vals[out@.len() + j],
            forall|j: int|
                0 <= j < out@.len() ==> #[trigger] listener_mapped(
                    value_listener(vals[j]),
                    out@[j],
                    takes_of(cb),
                    maps_of(cb),
                ),
        decreases rest@.len(),
    {
        let v = rest.remove(0);
        let ghost k = out@.len() as int;
        assert(v == vals[k]);
        let mapped = v.map_callback(cb.duplicate());
        out.push(mapped);
    }
    assert(avs_view(out@) =~= all);
    Attribute { namespace, name, value: out }
}

/// The attributes with the messages of their listeners fed to `cb`.
fn map_attrs_callback<MSG: 'static, MSG2: 'static>(
    attrs: Vec<Attribute<MSG>>,
    cb: &Callback<MSG, MSG2>,
) -> (r: Vec<Attribute<MSG2>>)
    ensures
        attrs_view(r@) == attrs_view(attrs@),
        attrs_mapped(attrs@, r@, takes_of(*cb), maps_of(*cb)),
{
    let ghost all = attrs_view(attrs@);
    let ghost orig = attrs@;
    let mut out: Vec<Attribute<MSG2>> = Vec::new();
    let mut rest = attrs;
    while rest.len() > 0
        invariant
            out@.len() + rest@.len() == all.len(),
            orig.len() == all.len(),
            forall|j: int| 0 <= j < out@.len() ==> #[trigger] out@[j]@ == all[j],
            forall|j: int| 0 <= j < rest@.len() ==> #[trigger] rest@[j]@ == all[out@.len() + j],
            forall|j: int| 0 <= j < rest@.len() ==> #[trigger] rest@[j] == orig[out@.len() + j],
            forall|j: int|
                0 <= j < out@.len() ==> #[trigger] values_mapped(
                    orig[j].value@,
                    out@[j].value@,
                    takes_of(*cb),
                    maps_of(*cb),
                ),
        decreases rest@.len(),
    {
        let a = rest.remove(0);
        let ghost k = out@.len() as int;
        assert(a == orig[k]);
        out.push(attribute_map_callback(a, cb.duplicate()));
    }
    assert(attrs_view(out@) =~= all);
    out
}

/// A node with the messages of its listeners mapped.
fn map_node<MSG: 'static, MSG2: 'static>(
    node: Node<MSG>,
    mapper: &Callback<MSG, MSG2>,
) -> (r: Node<MSG2>)
    ensures
        r@ == node@,
        node_mapped(&node, &r, takes_of(*mapper), maps_of(*mapper)),
    decreases node, 0nat,
{
    match node {
        Node::Element(element) => Node::Element(map_element(element, mapper)),
        Node::Leaf(leaf) => Node::Leaf(leaf),
        Node::Fragment(nodes) => {
            let mapped = map_nodes(nodes, mapper);
            Node::Fragment(mapped)
        },
        Node::NodeList(nodes) => {
            let mapped = map_nodes(nodes, mapper);
            Node::NodeList(mapped)
        },
    }
}

/// Nodes with the messages of their listeners mapped.
#[verifier::loop_isolation(false)]
fn map_nodes<MSG: 'static, MSG2: 'static>(
    nodes: Vec<Node<MSG>>,
    mapper: &Callback<MSG, MSG2>,
) -> (r: Vec<Node<MSG2>>)
    ensures
        nodes_view(r@) == nodes_view(nodes@),
        nodes_mapped(nodes@, r@, takes_of(*mapper), maps_of(*mapper)),
    decreases nodes, 1nat,
{
    let ghost all = nodes_view(nodes@);
    proof {
        lemma_nodes_view(nodes@);
    }
    let mut out: Vec<Node<MSG2>> = Vec::new();
    let mut rest = nodes;
    let ghost mut done: int = 0;
    while rest.len() > 0
        invariant
            0 <= done <= all.len(),
            done + rest@.len() == all.len(),
            out@.len() == done,
            forall|j: int| 0 <= j < out@.len() ==> #[trigger] node_view(&out@[j]) == all[j],
            forall|j: int| 0 <= j < rest@.len() ==> #[trigger] rest@[j] == nodes@[done + j],
            forall|j: int|
                0 <= j < out@.len() ==> #[trigger] node_mapped(
                    &nodes@[j],
                    &out@[j],
                    takes_of(*mapper),
                    maps_of(*mapper),
                ),
        decreases rest@.len(),
    {
        let n = rest.remove(0);
        assert(n == nodes@[done]);
        assert(node_view(&n) == all[done]);
        let m = map_node(n, mapper);
        out.push(m);
        proof {
            done = done + 1;
        }
    }
    proof {
        lemma_nodes_view(out@);
    }
    assert(nodes_view(out@) =~= all);
    assert(out@.len() == nodes@.len());
    assert(forall|i: int| 0 <= i < nodes@.len() ==> #[trigger] node_mapped(
        &nodes@[i],
        &out@[i],
        takes_of(*mapper),
        maps_of(*mapper),
    ));
    proof {
        lemma_nodes_mapped(nodes@, out@, takes_of(*mapper), maps_of(*mapper));
    }
    out
}

/// An element with the messages of its listeners mapped.
fn map_element<MSG: 'static, MSG2: 'static>(
    element: Element<MSG>,
    mapper: &Callback<MSG, MSG2>,
) -> (r: Element<MSG2>)
    ensures
        r@ == element@,
        element_mapped(&element, &r, takes_of(*mapper), maps_of(*mapper)),
    decreases element, 2nat,
{
    let Element { namespace, tag, attrs, children, self_closing } = element;
    let attrs = map_attrs_callback(attrs, mapper);
    let children = map_nodes(children, mapper);
    Element { namespace, tag, attrs, children, self_closing }
}

impl<MSG: 'static> NodeMapMsg<MSG> for Node<MSG> {
    open spec fn node_of(&self) -> Node<MSG> {
        *self
    }

    open spec fn listeners_of_node(&self) -> Seq<Listener<MSG>> {
        match self {
            Node::Element(e) => all_listeners(e.attrs@),
            _ => Seq::empty(),
        }
    }

    fn map_msg<F: Fn(MSG) -> MSG2 + Clone + 'static, MSG2: 'static>(self, cb: F) -> (r: Node<MSG2>) {
        let ghost f = cb;
        let mapper = Callback::from_fn(cb);
        proof {
            lemma_from_fn_relations(mapper, f);
        }
        self.map_callback(mapper)
    }

    fn map_callback<MSG2: 'static>(self, cb: Callback<MSG, MSG2>) -> (r: Node<MSG2>) {
        map_node(self, &cb)
    }

    fn get_callbacks(&self) -> (r: Vec<&Listener<MSG>>) {
        let mut callbacks: Vec<&Listener<MSG>> = Vec::new();
        match self {
            Node::Element(element) => {
                let ghost av = element.attrs@;
                let mut i: usize = 0;
                while i < element.attrs.len()
                    invariant
                        i <= element.attrs@.len(),
                        av == element.attrs@,
                        listener_refs(callbacks@) == all_listeners(av.take(i as int)),
                    decreases element.attrs@.len() - i,
                {
                    let mut more = element.attrs[i].get_callback();
                    let ghost before = callbacks@;
                    let ghost added = more@;
                    assert(av.take(i + 1).drop_last() =~= av.take(i as int));
                    assert(av.take(i + 1).last() == element.attrs@[i as int]);
                    callbacks.append(&mut more);
                    assert(listener_refs(callbacks@) =~= listener_refs(before) + listener_refs(added));
                    i = i + 1;
                }
                assert(av.take(element.attrs@.len() as int) =~= av);
            },
            _ => {},
        }
        callbacks
    }
}

impl<MSG: 'static> ElementMapMsg<MSG> for Element<MSG> {
    open spec fn element_of(&self) -> Element<MSG> {
        *self
    }

    fn map_msg<F: Fn(MSG) -> MSG2 + Clone + 'static, MSG2: 'static>(self, cb: F) -> (r: Element<MSG2>) {
        let ghost f = cb;
        let mapper = Callback::from_fn(cb);
        proof {
            lemma_from_fn_relations(mapper, f);
        }
        self.map_callback(mapper)
    }

    fn map_callback<MSG2: 'static>(self, cb: Callback<MSG, MSG2>) -> (r: Element<MSG2>) {
        map_element(self, &cb)
    }
}

} // verus!

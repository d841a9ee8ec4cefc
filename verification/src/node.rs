//! The virtual dom tree: leaves, elements and nodes.
use vstd::prelude::*;
use vstd::std_specs::cmp::PartialEqSpecImpl;
use crate::attribute::{
    Attribute, AttributeV, AttributeValue, AttributeValueV, attrs_view, avs_view,
    av_refs_view, values_named, attributes_same,
};
use crate::text::str_eq;
use crate::value::Value;

verus! {

/// A leaf of the tree: text, html that is trusted as it is, a comment or a doctype.
#[derive(PartialEq, Debug, Clone)]
pub enum Leaf {
    /// Text variant of a virtual node
    Text(String),
    /// A safe html variant
    SafeHtml(String),
    /// A comment node
    Comment(String),
    /// doctype: html, math, svg
    DocType(String),
}

/// The model of a [`Leaf`].
pub enum LeafV {
    Text(Seq<char>),
    SafeHtml(Seq<char>),
    Comment(Seq<char>),
    DocType(Seq<char>),
}

impl View for Leaf {
    type V = LeafV;

    open spec fn view(&self) -> LeafV {
        match self {
            Leaf::Text(s) => LeafV::Text(s@),
            Leaf::SafeHtml(s) => LeafV::SafeHtml(s@),
            Leaf::Comment(s) => LeafV::Comment(s@),
            Leaf::DocType(s) => LeafV::DocType(s@),
        }
    }
}

impl Leaf {
    /// Whether this is a text leaf.
    pub fn is_text(&self) -> (r: bool)
        ensures
            r == (self@ is Text),
    {
        match self {
            Leaf::Text(_) => true,
            _ => false,
        }
    }

    /// Whether this is a safe html leaf.
    pub fn is_safe_html(&self) -> (r: bool)
        ensures
            r == (self@ is SafeHtml),
    {
        match self {
            Leaf::SafeHtml(_) => true,
            _ => false,
        }
    }

    /// The text, if this is a text leaf.
    pub fn as_text(&self) -> (r: Option<&str>)
        ensures
            match self@ {
                LeafV::Text(t) => r matches Some(s) && s@ == t,
                _ => r is None,
            },
    {
        match self {
            Leaf::Text(text) => Some(text.as_str()),
            _ => None,
        }
    }

    /// The html, if this is a safe html leaf.
    pub fn as_safe_html(&self) -> (r: Option<&str>)
        ensures
            match self@ {
                LeafV::SafeHtml(t) => r matches Some(s) && s@ == t,
                _ => r is None,
            },
    {
        match self {
            Leaf::SafeHtml(html) => Some(html.as_str()),
            _ => None,
        }
    }
}

/// A node of the tree.
#[verifier::reject_recursive_types(MSG)]
pub enum Node<MSG> {
    /// an element, with attributes and children
    Element(Element<MSG>),
    /// a leaf
    Leaf(Leaf),
    /// a list of nodes that an element takes as children of its own
    NodeList(Vec<Node<MSG>>),
    /// a list of nodes kept together
    Fragment(Vec<Node<MSG>>),
}

/// An element: an optional namespace, a tag, attributes and children.
#[verifier::reject_recursive_types(MSG)]
pub struct Element<MSG> {
    /// namespace of this element, svg elements have namespace
    pub namespace: Option<&'static str>,
    /// the element tag, such as div, a, button
    pub tag: &'static str,
    /// attributes for this element
    pub attrs: Vec<Attribute<MSG>>,
    /// children elements of this element
    pub children: Vec<Node<MSG>>,
    /// is the element has a self closing tag
    pub self_closing: bool,
}

/// The model of a [`Node`].
pub enum NodeV {
    Element(ElementV),
    Leaf(LeafV),
    NodeList(Seq<NodeV>),
    Fragment(Seq<NodeV>),
}

/// The model of an [`Element`].
pub struct ElementV {
    pub namespace: Option<Seq<char>>,
    pub tag: Seq<char>,
    pub attrs: Seq<AttributeV>,
    pub children: Seq<NodeV>,
    pub self_closing: bool,
}

/// The model of a node.
pub open spec fn node_view<MSG>(n: &Node<MSG>) -> NodeV
    decreases n,
{
    match n {
        Node::Element(e) => NodeV::Element(element_view(e)),
        Node::Leaf(l) => NodeV::Leaf(l@),
        Node::NodeList(ns) => NodeV::NodeList(nodes_view(ns@)),
        Node::Fragment(ns) => NodeV::Fragment(nodes_view(ns@)),
    }
}

/// The model of an element.
pub open spec fn element_view<MSG>(e: &Element<MSG>) -> ElementV
    decreases e,
{
    ElementV {
        namespace: match e.namespace {
            Some(s) => Some(s@),
            None => None,
        },
        tag: e.tag@,
        attrs: attrs_view(e.attrs@),
        children: nodes_view(e.children@),
        self_closing: e.self_closing,
    }
}

/// The models of a sequence of nodes.
pub open spec fn nodes_view<MSG>(s: Seq<Node<MSG>>) -> Seq<NodeV>
    decreases s,
{
    Seq::new(
        s.len(),
        |i: int|
            if 0 <= i < s.len() {
                node_view(&s[i])
            } else {
                NodeV::Leaf(LeafV::Text(Seq::empty()))
            },
    )
}

/// Indexing the models of a sequence of nodes gives the model of the node there.
pub proof fn lemma_nodes_view<MSG>(s: Seq<Node<MSG>>)
    ensures
        nodes_view(s).len() == s.len(),
        forall|k: int| 0 <= k < s.len() ==> #[trigger] nodes_view(s)[k] == node_view(&s[k]),
{
}

impl<MSG> View for Node<MSG> {
    type V = NodeV;

    open spec fn view(&self) -> NodeV {
        node_view(self)
    }
}

impl<MSG> View for Element<MSG> {
    type V = ElementV;

    open spec fn view(&self) -> ElementV {
        element_view(self)
    }
}

/// Whether a node is a text leaf.
pub open spec fn is_text_node(n: NodeV) -> bool {
    n matches NodeV::Leaf(LeafV::Text(_))
}

/// The children that an element keeps of `children`: the nodes of a node list take
/// its place, in order; other nodes stay as they are.
pub open spec fn unroll(children: Seq<NodeV>) -> Seq<NodeV>
    decreases children.len(),
{
    if children.len() == 0 {
        Seq::empty()
    } else {
        unroll(children.drop_last()) + match children.last() {
            NodeV::NodeList(ns) => ns,
            other => seq![other],
        }
    }
}

/// Moves the nodes of `children` into `out`, unrolling node lists.
fn unroll_into<MSG>(out: &mut Vec<Node<MSG>>, children: Vec<Node<MSG>>)
    ensures
        nodes_view(final(out)@) == nodes_view(old(out)@) + unroll(nodes_view(children@)),
{
    let ghost all = nodes_view(children@);
    let ghost start = nodes_view(out@);
    let mut rest = children;
    let ghost mut done: int = 0;
    proof {
        lemma_nodes_view(children@);
        assert(unroll(all.take(0)) =~= Seq::<NodeV>::empty());
        assert(start + unroll(all.take(0)) =~= start);
    }
    while rest.len() > 0
        invariant
            0 <= done <= all.len(),
            done + rest@.len() == all.len(),
            all == nodes_view(children@),
            all.len() == children@.len(),
            forall|j: int| 0 <= j < rest@.len() ==> #[trigger] node_view(&rest@[j]) == all[done + j],
            nodes_view(out@) == start + unroll(all.take(done)),
        decreases rest@.len(),
    {
        proof {
            lemma_nodes_view(out@);
        }
        let child = rest.remove(0);
        let ghost cv = node_view(&child);
        assert(cv == all[done]);
        assert(all.take(done + 1).drop_last() =~= all.take(done));
        assert(all.take(done + 1).last() == cv);
        let ghost before = out@;
        match child {
            Node::NodeList(mut list) => {
                let ghost lv = list@;
                out.append(&mut list);
                proof {
                    lemma_nodes_view(out@);
                    lemma_nodes_view(before);
                    lemma_nodes_view(lv);
                    assert(cv == NodeV::NodeList(nodes_view(lv)));
                    assert(nodes_view(out@) =~= nodes_view(before) + nodes_view(lv));
                }
            },
            other => {
                out.push(other);
                proof {
                    lemma_nodes_view(out@);
                    lemma_nodes_view(before);
                    assert(nodes_view(out@) =~= nodes_view(before).push(cv));
                }
            },
        }
        proof {
            done = done + 1;
            assert(nodes_view(out@) =~= start + unroll(all.take(done)));
        }
    }
    assert(all.take(done) =~= all);
}

impl<MSG> Element<MSG> {
    /// An element; the nodes of the node lists among `children` take their place.
    pub fn new(
        namespace: Option<&'static str>,
        tag: &'static str,
        attrs: Vec<Attribute<MSG>>,
        children: Vec<Node<MSG>>,
        self_closing: bool,
    ) -> (r: Self)
        ensures
            r@ == (ElementV {
                namespace: match namespace {
                    Some(s) => Some(s@),
                    None => None,
                },
                tag: tag@,
                attrs: attrs_view(attrs@),
                children: unroll(nodes_view(children@)),
                self_closing,
            }),
    {
        let mut unrolled: Vec<Node<MSG>> = Vec::new();
        proof {
            assert(nodes_view(unrolled@) =~= Seq::<NodeV>::empty());
        }
        unroll_into(&mut unrolled, children);
        assert(nodes_view(unrolled@) =~= unroll(nodes_view(children@)));
        Element { namespace, tag, attrs, children: unrolled, self_closing }
    }

    /// Adds attributes after the existing ones.
    pub fn add_attributes(&mut self, attrs: Vec<Attribute<MSG>>)
        ensures
            final(self)@ == (ElementV { attrs: old(self)@.attrs + attrs_view(attrs@), ..old(self)@ }),
    {
        let mut attrs = attrs;
        let ghost before = self.attrs@;
        let ghost added = attrs@;
        self.attrs.append(&mut attrs);
        assert(attrs_view(self.attrs@) =~= attrs_view(before) + attrs_view(added));
    }

    /// Adds children after the existing ones.
    pub fn add_children(&mut self, children: Vec<Node<MSG>>)
        ensures
            final(self)@ == (ElementV {
                children: old(self)@.children + nodes_view(children@),
                ..old(self)@
            }),
    {
        let mut children = children;
        let ghost before = self.children@;
        let ghost added = children@;
        self.children.append(&mut children);
        proof {
            lemma_nodes_view(self.children@);
            lemma_nodes_view(before);
            lemma_nodes_view(added);
            assert(nodes_view(self.children@) =~= nodes_view(before) + nodes_view(added));
        }
    }

    /// The children of this element.
    pub fn children(&self) -> (r: &[Node<MSG>])
        ensures
            nodes_view(r@) == self@.children,
    {
        self.children.as_slice()
    }

    /// The attributes of this element.
    pub fn attributes(&self) -> (r: &[Attribute<MSG>])
        ensures
            attrs_view(r@) == self@.attrs,
    {
        self.attrs.as_slice()
    }

    /// The tag of this element.
    pub fn tag(&self) -> (r: &&'static str)
        ensures
            (*r)@ == self@.tag,
    {
        &self.tag
    }

    /// The namespace of this element.
    pub fn namespace(&self) -> (r: Option<&&'static str>)
        ensures
            match r {
                Some(n) => self@.namespace == Some((*n)@),
                None => self@.namespace is None,
            },
    {
        self.namespace.as_ref()
    }

    /// The values of the attributes named `name`, in order; `None` when there are none.
    pub fn attribute_value(&self, name: &'static str) -> (r: Option<Vec<&AttributeValue<MSG>>>)
        ensures
            match r {
                Some(vs) => av_refs_view(vs@) == values_named(self@.attrs, name@)
                    && vs@.len() > 0,
                None => values_named(self@.attrs, name@).len() == 0,
            },
    {
        let ghost av = attrs_view(self.attrs@);
        let mut result: Vec<&AttributeValue<MSG>> = Vec::new();
        let mut i: usize = 0;
        while i < self.attrs.len()
            invariant
                i <= self.attrs@.len(),
                av == attrs_view(self.attrs@),
                av_refs_view(result@) == values_named(av.take(i as int), name@),
            decreases self.attrs@.len() - i,
        {
            let att = &self.attrs[i];
            assert(av.take(i + 1).drop_last() =~= av.take(i as int));
            assert(av.take(i + 1).last() == att@);
            if str_eq(att.name, name) {
                let mut j: usize = 0;
                let ghost start = result@;
                while j < att.value.len()
                    invariant
                        j <= att.value@.len(),
                        av_refs_view(result@) == av_refs_view(start) + avs_view(att.value@).take(
                            j as int,
                        ),
                    decreases att.value@.len() - j,
                {
                    let ghost prev = result@;
                    result.push(&att.value[j]);
                    proof {
                        let vs = avs_view(att.value@);
                        assert(vs.take(j + 1) =~= vs.take(j as int).push(att.value@[j as int]@));
                        assert(av_refs_view(result@) =~= av_refs_view(prev).push(
                            att.value@[j as int]@,
                        ));
                    }
                    j = j + 1;
                }
                assert(avs_view(att.value@).take(att.value@.len() as int) =~= avs_view(att.value@));
            }
            i = i + 1;
        }
        assert(av.take(self.attrs@.len() as int) =~= av);
        if result.len() == 0 {
            None
        } else {
            Some(result)
        }
    }

    /// The first value of the attribute `name`, if it is a simple value.
    pub fn get_value(&self, name: &'static str) -> (r: Option<&Value>)
        ensures
            match first_simple(values_named(self@.attrs, name@)) {
                Some(v) => r matches Some(x) && x@ == v,
                None => r is None,
            },
    {
        match self.attribute_value(name) {
            Some(values) => values[0].get_simple(),
            None => None,
        }
    }

    /// The first value of the `key` attribute, if it is a simple value.
    pub fn get_key(&self) -> (r: Option<&Value>)
        ensures
            match first_simple(values_named(self@.attrs, "key"@)) {
                Some(v) => r matches Some(x) && x@ == v,
                None => r is None,
            },
    {
        self.get_value("key")
    }

    /// Whether the first value of the `focus` attribute is `true`.
    pub fn is_focused(&self) -> (r: bool)
        ensures
            r == (first_simple(values_named(self@.attrs, "focus"@)) == Some(
                crate::value::ValueV::Bool(true),
            )),
    {
        match self.get_value("focus") {
            Some(v) => match v.as_bool() {
                Some(b) => b,
                None => false,
            },
            None => false,
        }
    }
}

/// The first of some attribute values, if it is a simple value.
pub open spec fn first_simple(vals: Seq<AttributeValueV>) -> Option<crate::value::ValueV> {
    if vals.len() > 0 {
        match vals[0] {
            AttributeValueV::Simple(v) => Some(v),
            _ => None,
        }
    } else {
        None
    }
}

/// Asks of a node what kind of leaf it is.
pub trait NodeTrait: View<V = NodeV> {
    /// Whether this is a text node.
    fn is_text(&self) -> (r: bool)
        ensures
            r == (self@ matches NodeV::Leaf(LeafV::Text(_))),
    ;

    /// Whether this is a safe html node.
    fn is_safe_html(&self) -> (r: bool)
        ensures
            r == (self@ matches NodeV::Leaf(LeafV::SafeHtml(_))),
    ;

    /// The text, if this is a text node.
    fn as_text(&self) -> (r: Option<&str>)
        ensures
            match self@ {
                NodeV::Leaf(LeafV::Text(t)) => r matches Some(s) && s@ == t,
                _ => r is None,
            },
    ;

    /// The html, if this is a safe html node.
    fn as_safe_html(&self) -> (r: Option<&str>)
        ensures
            match self@ {
                NodeV::Leaf(LeafV::SafeHtml(t)) => r matches Some(s) && s@ == t,
                _ => r is None,
            },
    ;
}

impl<MSG> NodeTrait for Node<MSG> {
    fn is_text(&self) -> (r: bool) {
        match self {
            Node::Leaf(leaf) => leaf.is_text(),
            _ => false,
        }
    }

    fn is_safe_html(&self) -> (r: bool) {
        match self {
            Node::Leaf(leaf) => leaf.is_safe_html(),
            _ => false,
        }
    }

    fn as_text(&self) -> (r: Option<&str>) {
        match self {
            Node::Leaf(leaf) => leaf.as_text(),
            _ => None,
        }
    }

    fn as_safe_html(&self) -> (r: Option<&str>) {
        match self {
            Node::Leaf(leaf) => leaf.as_safe_html(),
            _ => None,
        }
    }
}

impl<MSG> Node<MSG> {
    /// Whether this is an element.
    pub fn is_element(&self) -> (r: bool)
        ensures
            r == (self@ is Element),
    {
        match self {
            Node::Element(_) => true,
            _ => false,
        }
    }

    /// Whether this is a leaf.
    pub fn is_leaf(&self) -> (r: bool)
        ensures
            r == (self@ is Leaf),
    {
        match self {
            Node::Leaf(_) => true,
            _ => false,
        }
    }

    /// Whether this is a fragment.
    pub fn is_fragment(&self) -> (r: bool)
        ensures
            r == (self@ is Fragment),
    {
        match self {
            Node::Fragment(_) => true,
            _ => false,
        }
    }

    /// The leaf, if this is a leaf.
    pub fn leaf(&self) -> (r: Option<&Leaf>)
        ensures
            match self@ {
                NodeV::Leaf(l) => r matches Some(x) && x@ == l,
                _ => r is None,
            },
    {
        match self {
            Node::Leaf(leaf) => Some(leaf),
            _ => None,
        }
    }

    /// The element, if this is an element.
    pub fn element_ref(&self) -> (r: Option<&Element<MSG>>)
        ensures
            match self@ {
                NodeV::Element(e) => r matches Some(x) && x@ == e,
                _ => r is None,
            },
    {
        match self {
            Node::Element(element) => Some(element),
            _ => None,
        }
    }

    /// The element, if this is an element, taking this node.
    pub fn take_element(self) -> (r: Option<Element<MSG>>)
        ensures
            match self@ {
                NodeV::Element(e) => r matches Some(x) && x@ == e,
                _ => r is None,
            },
    {
        match self {
            Node::Element(element) => Some(element),
            _ => None,
        }
    }

    /// This element with `children` added after its own; a node that is not an
    /// element cannot take children.
    pub fn add_children(self, children: Vec<Node<MSG>>) -> (r: Self)
        requires
            self@ is Element,
        ensures
            r@ == NodeV::Element(ElementV {
                children: self@->Element_0.children + nodes_view(children@),
                ..self@->Element_0
            }),
    {
        match self {
            Node::Element(mut element) => {
                element.add_children(children);
                Node::Element(element)
            },
            _ => self,
        }
    }

    /// This element with `attributes` added after its own; a node that is not an
    /// element cannot take attributes.
    pub fn add_attributes(self, attributes: Vec<Attribute<MSG>>) -> (r: Self)
        requires
            self@ is Element,
        ensures
            r@ == NodeV::Element(ElementV {
                attrs: self@->Element_0.attrs + attrs_view(attributes@),
                ..self@->Element_0
            }),
    {
        match self {
            Node::Element(mut element) => {
                element.add_attributes(attributes);
                Node::Element(element)
            },
            _ => self,
        }
    }

    /// The attributes, if this is an element.
    pub fn attributes(&self) -> (r: Option<&[Attribute<MSG>]>)
        ensures
            match self@ {
                NodeV::Element(e) => r matches Some(a) && attrs_view(a@) == e.attrs,
                _ => r is None,
            },
    {
        match self {
            Node::Element(element) => Some(element.attributes()),
            _ => None,
        }
    }

    /// The tag, if this is an element.
    pub fn tag(&self) -> (r: Option<&&'static str>)
        ensures
            match self@ {
                NodeV::Element(e) => r matches Some(t) && (*t)@ == e.tag,
                _ => r is None,
            },
    {
        match self {
            Node::Element(element) => Some(element.tag()),
            _ => None,
        }
    }

    /// The children of an element; nothing for other nodes.
    pub fn children(&self) -> (r: &[Node<MSG>])
        ensures
            nodes_view(r@) == match self@ {
                NodeV::Element(e) => e.children,
                _ => Seq::empty(),
            },
    {
        match self {
            Node::Element(element) => element.children(),
            _ => {
                let r: &[Node<MSG>] = &[];
                assert(nodes_view(r@) =~= Seq::<NodeV>::empty());
                r
            },
        }
    }

    /// The number of children of an element; zero for other nodes.
    pub fn children_count(&self) -> (r: usize)
        ensures
            r == match self@ {
                NodeV::Element(e) => e.children.len(),
                _ => 0,
            },
    {
        let children = self.children();
        proof {
            lemma_nodes_view(children@);
        }
        children.len()
    }

    /// The values of the attributes named `name` of an element, in order; `None` when
    /// there are none or this is not an element.
    pub fn attribute_value(&self, name: &'static str) -> (r: Option<Vec<&AttributeValue<MSG>>>)
        ensures
            match self@ {
                NodeV::Element(e) => match r {
                    Some(vs) => av_refs_view(vs@) == values_named(e.attrs, name@) && vs@.len()
                        > 0,
                    None => values_named(e.attrs, name@).len() == 0,
                },
                _ => r is None,
            },
    {
        match self {
            Node::Element(element) => element.attribute_value(name),
            _ => None,
        }
    }

    /// The first value of the attribute `name` of an element, if it is a simple value.
    pub fn get_value(&self, name: &'static str) -> (r: Option<&Value>)
        ensures
            match self@ {
                NodeV::Element(e) => match first_simple(values_named(e.attrs, name@)) {
                    Some(v) => r matches Some(x) && x@ == v,
                    None => r is None,
                },
                _ => r is None,
            },
    {
        match self {
            Node::Element(element) => element.get_value(name),
            _ => None,
        }
    }

    /// The first value of the `key` attribute of an element, if it is a simple value.
    pub fn get_key(&self) -> (r: Option<&Value>)
        ensures
            match self@ {
                NodeV::Element(e) => match first_simple(values_named(e.attrs, "key"@)) {
                    Some(v) => r matches Some(x) && x@ == v,
                    None => r is None,
                },
                _ => r is None,
            },
    {
        self.get_value("key")
    }

    /// Whether this is an element whose first value of the `focus` attribute is `true`.
    pub fn is_focused(&self) -> (r: bool)
        ensures
            r == (self@ matches NodeV::Element(e) && first_simple(values_named(e.attrs, "focus"@))
                == Some(crate::value::ValueV::Bool(true))),
    {
        match self {
            Node::Element(element) => element.is_focused(),
            _ => false,
        }
    }
}

/// The number of nodes of a tree: the node itself and, for an element, the nodes of
/// the trees of its children.
pub open spec fn count_nodes(n: NodeV) -> nat
    decreases n, 1nat,
{
    match n {
        NodeV::Element(e) => 1 + sum_counts(e.children),
        _ => 1,
    }
}

/// The numbers of nodes of some trees, added up.
pub open spec fn sum_counts(ns: Seq<NodeV>) -> nat
    decreases ns, 0nat,
{
    if ns.len() == 0 {
        0
    } else {
        sum_counts(ns.subrange(0, ns.len() - 1)) + count_nodes(ns[ns.len() - 1])
    }
}

/// The number of nodes of a tree, counting this node.
#[verifier::loop_isolation(false)]
fn count_tree<MSG>(node: &Node<MSG>) -> (r: usize)
    requires
        count_nodes(node@) <= usize::MAX,
    ensures
        r == count_nodes(node@),
    decreases node,
{
    match node {
        Node::Element(element) => {
            let ghost cs = nodes_view(element.children@);
            proof {
                lemma_nodes_view(element.children@);
            }
            let mut total: usize = 0;
            let mut i: usize = 0;
            while i < element.children.len()
                invariant
                    i <= element.children@.len(),
                    cs == nodes_view(element.children@),
                    cs.len() == element.children@.len(),
                    total == sum_counts(cs.subrange(0, i as int)),
                    1 + sum_counts(cs) <= usize::MAX,
                decreases element.children@.len() - i,
            {
                proof {
                    lemma_sum_counts_prefix(cs, i as int + 1);
                    assert(cs.subrange(0, i + 1).subrange(0, i as int) =~= cs.subrange(0, i as int));
                    assert(cs.subrange(0, i + 1)[i as int] == cs[i as int]);
                    assert(cs[i as int] == node_view(&element.children@[i as int]));
                }
                let c = count_tree(&element.children[i]);
                total = total + c;
                i = i + 1;
            }
            assert(cs.subrange(0, cs.len() as int) =~= cs);
            total + 1
        },
        _ => 1,
    }
}

/// The count of a prefix of some trees is at most the count of all of them.
proof fn lemma_sum_counts_prefix(ns: Seq<NodeV>, k: int)
    requires
        0 <= k <= ns.len(),
    ensures
        sum_counts(ns.subrange(0, k)) <= sum_counts(ns),
        k > 0 ==> sum_counts(ns.subrange(0, k - 1)) + count_nodes(ns[k - 1]) <= sum_counts(ns),
    decreases ns.len(),
{
    if k < ns.len() {
        let d = ns.subrange(0, ns.len() - 1);
        lemma_sum_counts_prefix(d, k);
        assert(d.subrange(0, k) =~= ns.subrange(0, k));
        if k > 0 {
            assert(d.subrange(0, k - 1) =~= ns.subrange(0, k - 1));
            assert(d[k - 1] == ns[k - 1]);
        }
    } else {
        assert(ns.subrange(0, k) =~= ns);
        if k > 0 {
            assert(ns.subrange(0, k).subrange(0, k - 1) =~= ns.subrange(0, k - 1));
        }
    }
}

impl<MSG> Node<MSG> {
    /// The number of nodes of this tree, counting this node; only the children of
    /// elements are counted.
    pub fn node_count(&self) -> (r: usize)
        requires
            count_nodes(self@) <= usize::MAX,
        ensures
            r == count_nodes(self@),
    {
        count_tree(self)
    }

    /// The number of nodes below this node.
    pub fn descendant_node_count(&self) -> (r: usize)
        requires
            count_nodes(self@) <= usize::MAX,
        ensures
            r == count_nodes(self@) - 1,
    {
        count_tree(self) - 1
    }
}

/// An element node without a namespace that is not self closing.
pub fn element<MSG>(tag: &'static str, attrs: Vec<Attribute<MSG>>, children: Vec<Node<MSG>>) -> (r:
    Node<MSG>)
    ensures
        r@ == NodeV::Element(
            ElementV {
                namespace: None,
                tag: tag@,
                attrs: attrs_view(attrs@),
                children: unroll(nodes_view(children@)),
                self_closing: false,
            },
        ),
{
    element_ns(None, tag, attrs, children, false)
}

/// An element node; the nodes of the node lists among `children` take their place.
pub fn element_ns<MSG>(
    namespace: Option<&'static str>,
    tag: &'static str,
    attrs: Vec<Attribute<MSG>>,
    children: Vec<Node<MSG>>,
    self_closing: bool,
) -> (r: Node<MSG>)
    ensures
        r@ == NodeV::Element(
            ElementV {
                namespace: match namespace {
                    Some(s) => Some(s@),
                    None => None,
                },
                tag: tag@,
                attrs: attrs_view(attrs@),
                children: unroll(nodes_view(children@)),
                self_closing,
            },
        ),
{
    Node::Element(Element::new(namespace, tag, attrs, children, self_closing))
}

/// A leaf node.
pub fn leaf<MSG>(content: Leaf) -> (r: Node<MSG>)
    ensures
        r@ == NodeV::Leaf(content@),
{
    Node::Leaf(content)
}

/// A node list of `nodes`.
pub fn node_list<MSG>(nodes: Vec<Node<MSG>>) -> (r: Node<MSG>)
    ensures
        r@ == NodeV::NodeList(nodes_view(nodes@)),
{
    Node::NodeList(nodes)
}

/// A fragment of `nodes`.
pub fn fragment<MSG>(nodes: Vec<Node<MSG>>) -> (r: Node<MSG>)
    ensures
        r@ == NodeV::Fragment(nodes_view(nodes@)),
{
    Node::Fragment(nodes)
}

// ----------------------------------------------------------------------------
// Equality
// ----------------------------------------------------------------------------
impl Leaf {
    /// Whether two leaves are of the same kind with the same text.
    pub fn same_as(&self, other: &Leaf) -> (r: bool)
        ensures
            r == (self@ == other@),
    {
        match (self, other) {
            (Leaf::Text(a), Leaf::Text(b)) => str_eq(a.as_str(), b.as_str()),
            (Leaf::SafeHtml(a), Leaf::SafeHtml(b)) => str_eq(a.as_str(), b.as_str()),
            (Leaf::Comment(a), Leaf::Comment(b)) => str_eq(a.as_str(), b.as_str()),
            (Leaf::DocType(a), Leaf::DocType(b)) => str_eq(a.as_str(), b.as_str()),
            _ => false,
        }
    }
}

/// Whether two nodes are equal: the same kind with equal contents.
#[verifier::loop_isolation(false)]
pub fn node_same<MSG>(a: &Node<MSG>, b: &Node<MSG>) -> (r: bool)
    ensures
        r == (a@ == b@),
    decreases a, 0nat,
{
    match (a, b) {
        (Node::Element(x), Node::Element(y)) => element_same(x, y),
        (Node::Leaf(x), Node::Leaf(y)) => x.same_as(y),
        (Node::NodeList(x), Node::NodeList(y)) => nodes_same(x, y),
        (Node::Fragment(x), Node::Fragment(y)) => nodes_same(x, y),
        _ => false,
    }
}

/// Whether two lists of nodes are pairwise equal.
#[verifier::loop_isolation(false)]
pub fn nodes_same<MSG>(a: &Vec<Node<MSG>>, b: &Vec<Node<MSG>>) -> (r: bool)
    ensures
        r == (nodes_view(a@) == nodes_view(b@)),
    decreases a, 1nat,
{
    proof {
        lemma_nodes_view(a@);
        lemma_nodes_view(b@);
    }
    if a.len() != b.len() {
        assert(nodes_view(a@).len() != nodes_view(b@).len());
        return false;
    }
    let mut i: usize = 0;
    while i < a.len()
        invariant
            a@.len() == b@.len(),
            i <= a@.len(),
            forall|j: int| 0 <= j < i ==> #[trigger] node_view(&a@[j]) == node_view(&b@[j]),
        decreases a@.len() - i,
    {
        if !node_same(&a[i], &b[i]) {
            assert(nodes_view(a@)[i as int] != nodes_view(b@)[i as int]);
            return false;
        }
        i = i + 1;
    }
    assert(nodes_view(a@) =~= nodes_view(b@));
    true
}

/// Whether two elements have the same namespace, tag, attributes, children and
/// self closing flag.
pub fn element_same<MSG>(a: &Element<MSG>, b: &Element<MSG>) -> (r: bool)
    ensures
        r == (a@ == b@),
    decreases a, 2nat,
{
    let same_namespace = match (a.namespace, b.namespace) {
        (Some(x), Some(y)) => str_eq(x, y),
        (None, None) => true,
        _ => false,
    };
    same_namespace && str_eq(a.tag, b.tag) && a.self_closing == b.self_closing && attributes_same(
        &a.attrs,
        &b.attrs,
    ) && nodes_same(&a.children, &b.children)
}

/// Two nodes are equal when their models are.
impl<MSG> PartialEq for Node<MSG> {
    fn eq(&self, other: &Self) -> (r: bool) {
        node_same(self, other)
    }
}

impl<MSG> PartialEqSpecImpl for Node<MSG> {
    open spec fn obeys_eq_spec() -> bool {
        true
    }

    open spec fn eq_spec(&self, other: &Node<MSG>) -> bool {
        self@ == other@
    }
}

/// Two elements are equal when their models are.
impl<MSG> PartialEq for Element<MSG> {
    fn eq(&self, other: &Self) -> (r: bool) {
        element_same(self, other)
    }
}

impl<MSG> PartialEqSpecImpl for Element<MSG> {
    open spec fn obeys_eq_spec() -> bool {
        true
    }

    open spec fn eq_spec(&self, other: &Element<MSG>) -> bool {
        self@ == other@
    }
}

} // verus!

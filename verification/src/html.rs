//! Building html nodes: elements that keep text siblings apart, leaves, and the
//! common html tags.
use vstd::prelude::*;
use crate::attribute::{Attribute, attrs_view};
use crate::node::{
    Element, ElementV, Leaf, LeafV, Node, NodeTrait, NodeV, is_text_node, lemma_nodes_view,
    node_view, nodes_view, unroll,
};
use crate::value::{ToValue, value_text};

verus! {

/// The comment that keeps two text siblings apart.
pub open spec fn separator_comment() -> NodeV {
    NodeV::Leaf(LeafV::Comment("separator"@))
}

/// `children` with a separator comment after each text node that has a next sibling,
/// so that the browser does not merge two neighbouring texts.
pub open spec fn separated(children: Seq<NodeV>) -> Seq<NodeV>
    decreases children.len(),
{
    if children.len() == 0 {
        Seq::empty()
    } else if children.len() >= 2 && is_text_node(children[children.len() - 2]) {
        separated(children.drop_last()).push(separator_comment()).push(children.last())
    } else {
        separated(children.drop_last()).push(children.last())
    }
}

/// Keeping texts apart: in the children with separators, no text is directly
/// followed by another text, the last child stays last, and the separators are the
/// only nodes added.
pub proof fn lemma_separated_law(children: Seq<NodeV>)
    ensures
        forall|i: int|
            0 <= i < separated(children).len() - 1 ==> is_text_node(#[trigger] separated(children)[i])
                ==> !is_text_node(separated(children)[i + 1]),
        children.len() > 0 ==> separated(children).len() > 0 && separated(children).last()
            == children.last(),
        separated(children).len() >= children.len(),
    decreases children.len(),
{
    if children.len() > 0 {
        let d = children.drop_last();
        lemma_separated_law(d);
        let p = separated(d);
        let s = separated(children);
        if children.len() >= 2 && is_text_node(children[children.len() - 2]) {
            assert(s == p.push(separator_comment()).push(children.last()));
            assert forall|i: int| 0 <= i < s.len() - 1 && is_text_node(#[trigger] s[i]) implies !is_text_node(s[i + 1]) by {
                if i < p.len() - 1 {
                    assert(s[i] == p[i]);
                    assert(s[i + 1] == p[i + 1]);
                } else if i == p.len() - 1 {
                    assert(s[i + 1] == separator_comment());
                } else {
                    assert(s[i] == separator_comment());
                }
            }
        } else {
            assert(s == p.push(children.last()));
            assert forall|i: int| 0 <= i < s.len() - 1 && is_text_node(#[trigger] s[i]) implies !is_text_node(s[i + 1]) by {
                if i < p.len() - 1 {
                    assert(s[i] == p[i]);
                    assert(s[i + 1] == p[i + 1]);
                } else {
                    assert(s[i] == p.last());
                    assert(p.last() == d.last());
                    assert(d.last() == children[children.len() - 2]);
                }
            }
        }
    }
}

/// The text that a value passed to a leaf builder becomes.
pub open spec fn text_of<S: ToValue>(s: S) -> Seq<char> {
    value_text(s.value_spec())
}

/// An element node; a separator comment is put after each text child that has a
/// next sibling, and the nodes of node lists among the children take their place.
pub fn html_element<MSG>(
    namespace: Option<&'static str>,
    tag: &'static str,
    attrs: Vec<Attribute<MSG>>,
    children: Vec<Node<MSG>>,
    self_closing: bool,
) -> (r: Node<MSG>)
    ensures
        r@ == NodeV::Element(
            ElementV {
                namespace: match namespace {
                    Some(s) => Some(s@),
                    None => None,
                },
                tag: tag@,
                attrs: attrs_view(attrs@),
                children: unroll(separated(nodes_view(children@))),
                self_closing,
            },
        ),
{
    let ghost all = nodes_view(children@);
    let mut corrected: Vec<Node<MSG>> = Vec::new();
    let mut rest = children;
    let ghost mut done: int = 0;
    proof {
        lemma_nodes_view(children@);
        assert(nodes_view(corrected@) =~= separated(all.take(0)));
    }
    while rest.len() > 0
        invariant
            0 <= done <= all.len(),
            done + rest@.len() == all.len(),
            all == nodes_view(children@),
            all.len() == children@.len(),
            forall|j: int| 0 <= j < rest@.len() ==> #[trigger] node_view(&rest@[j]) == all[done + j],
            nodes_view(corrected@) == separated(all.take(done)),
            done > 0 ==> corrected@.len() > 0 && node_view(&corrected@.last()) == all[done - 1],
        decreases rest@.len(),
    {
        proof {
            lemma_nodes_view(corrected@);
        }
        let child = rest.remove(0);
        let ghost cv = node_view(&child);
        let ghost before = corrected@;
        assert(cv == all[done]);
        let ghost t = all.take(done + 1);
        assert(t.drop_last() =~= all.take(done));
        assert(t.last() == cv);
        if corrected.len() > 0 && corrected[corrected.len() - 1].is_text() {
            corrected.push(comment("separator"));
            proof {
                reveal_strlit("separator");
                assert(t[t.len() - 2] == all[done - 1]);
            }
        } else {
            proof {
                if done > 0 {
                    assert(t[t.len() - 2] == all[done - 1]);
                }
            }
        }
        corrected.push(child);
        proof {
            lemma_nodes_view(corrected@);
            lemma_nodes_view(before);
            done = done + 1;
            assert(nodes_view(corrected@) =~= separated(all.take(done)));
        }
    }
    assert(all.take(done) =~= all);
    Node::Element(Element::new(namespace, tag, attrs, corrected, self_closing))
}

/// `node` when `flag` holds, else an empty `span`.
pub fn view_if<MSG>(flag: bool, node: Node<MSG>) -> (r: Node<MSG>)
    ensures
        r@ == if flag {
            node@
        } else {
            html_node("span"@, Seq::empty(), Seq::empty(), false)
        },
{
    if flag {
        node
    } else {
        let attrs: Vec<Attribute<MSG>> = Vec::new();
        let children: Vec<Node<MSG>> = Vec::new();
        assert(attrs_view(attrs@) =~= Seq::empty());
        assert(nodes_view(children@) =~= Seq::empty());
        span(attrs, children)
    }
}

/// A text node of the displayed text of `s`.
pub fn text<S: ToValue, MSG>(s: S) -> (r: Node<MSG>)
    ensures
        r@ == NodeV::Leaf(LeafV::Text(text_of(s))),
{
    Node::Leaf(Leaf::Text(s.to_value().to_string()))
}

/// A node of html that the renderer writes as it is; it is not sanitized.
pub fn safe_html<S: ToValue, MSG>(s: S) -> (r: Node<MSG>)
    ensures
        r@ == NodeV::Leaf(LeafV::SafeHtml(text_of(s))),
{
    Node::Leaf(Leaf::SafeHtml(s.to_value().to_string()))
}

/// A comment node.
pub fn comment<S: ToValue, MSG>(s: S) -> (r: Node<MSG>)
    ensures
        r@ == NodeV::Leaf(LeafV::Comment(text_of(s))),
{
    Node::Leaf(Leaf::Comment(s.to_value().to_string()))
}

/// A fragment of `nodes`.
pub fn fragment<MSG>(nodes: Vec<Node<MSG>>) -> (r: Node<MSG>)
    ensures
        r@ == NodeV::Fragment(nodes_view(nodes@)),
{
    Node::Fragment(nodes)
}

/// A doctype node.
pub fn doctype<S: ToValue, MSG>(s: S) -> (r: Node<MSG>)
    ensures
        r@ == NodeV::Leaf(LeafV::DocType(text_of(s))),
{
    Node::Leaf(Leaf::DocType(s.to_value().to_string()))
}

/// A node list of `nodes`: an element takes them as children of its own.
pub fn node_list<MSG>(nodes: Vec<Node<MSG>>) -> (r: Node<MSG>)
    ensures
        r@ == NodeV::NodeList(nodes_view(nodes@)),
{
    Node::NodeList(nodes)
}

/// The model of an html element node without namespace.
pub open spec fn html_node(
    tag: Seq<char>,
    attrs: Seq<crate::attribute::AttributeV>,
    children: Seq<NodeV>,
    self_closing: bool,
) -> NodeV {
    NodeV::Element(
        ElementV {
            namespace: None,
            tag,
            attrs,
            children: unroll(separated(children)),
            self_closing,
        },
    )
}

/// Creates an html `div` element.
pub fn div<MSG>(attrs: Vec<Attribute<MSG>>, children: Vec<Node<MSG>>) -> (r: Node<MSG>)
    ensures
        r@ == html_node("div"@, attrs_view(attrs@), nodes_view(children@), false),
{
    html_element(None, "div", attrs, children, false)
}

/// Creates an html `span` element.
pub fn span<MSG>(attrs: Vec<Attribute<MSG>>, children: Vec<Node<MSG>>) -> (r: Node<MSG>)
    ensures
        r@ == html_node("span"@, attrs_view(attrs@), nodes_view(children@), false),
{
    html_element(None, "span", attrs, children, false)
}

/// Creates an html `p` element.
pub fn p<MSG>(attrs: Vec<Attribute<MSG>>, children: Vec<Node<MSG>>) -> (r: Node<MSG>)
    ensures
        r@ == html_node("p"@, attrs_view(attrs@), nodes_view(children@), false),
{
    html_element(None, "p", attrs, children, false)
}

/// Creates an html `h1` element.
pub fn h1<MSG>(attrs: Vec<Attribute<MSG>>, children: Vec<Node<MSG>>) -> (r: Node<MSG>)
    ensures
        r@ == html_node("h1"@, attrs_view(attrs@), nodes_view(children@), false),
{
    html_element(None, "h1", attrs, children, false)
}

/// Creates an html `button` element.
pub fn button<MSG>(attrs: Vec<Attribute<MSG>>, children: Vec<Node<MSG>>) -> (r: Node<MSG>)
    ensures
        r@ == html_node("button"@, attrs_view(attrs@), nodes_view(children@), false),
{
    html_element(None, "button", attrs, children, false)
}

/// Creates an html `ul` element.
pub fn ul<MSG>(attrs: Vec<Attribute<MSG>>, children: Vec<Node<MSG>>) -> (r: Node<MSG>)
    ensures
        r@ == html_node("ul"@, attrs_view(attrs@), nodes_view(children@), false),
{
    html_element(None, "ul", attrs, children, false)
}

/// Creates an html `li` element.
pub fn li<MSG>(attrs: Vec<Attribute<MSG>>, children: Vec<Node<MSG>>) -> (r: Node<MSG>)
    ensures
        r@ == html_node("li"@, attrs_view(attrs@), nodes_view(children@), false),
{
    html_element(None, "li", attrs, children, false)
}

/// Creates an html `input` element, which is self closing.
pub fn input<MSG>(attrs: Vec<Attribute<MSG>>, children: Vec<Node<MSG>>) -> (r: Node<MSG>)
    ensures
        r@ == html_node("input"@, attrs_view(attrs@), nodes_view(children@), true),
{
    html_element(None, "input", attrs, children, true)
}

/// Creates an html `br` element, which is self closing.
pub fn br<MSG>(attrs: Vec<Attribute<MSG>>, children: Vec<Node<MSG>>) -> (r: Node<MSG>)
    ensures
        r@ == html_node("br"@, attrs_view(attrs@), nodes_view(children@), true),
{
    html_element(None, "br", attrs, children, true)
}

} // verus!

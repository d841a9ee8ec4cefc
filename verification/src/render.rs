//! Rendering the virtual dom to html text.
use vstd::prelude::*;
use crate::attribute::{
    Attribute, AttributeV, AttributeValue, AttributeValueV, ValueKind, attr_refs_view, attrs_view,
    merge_attributes_of_same_name, merge_plain_attributes_values, merge_spec,
    merge_styles_attributes_values, merged_text, partition_callbacks_from_plain_styles_and_func_calls,
    plain_texts, style_texts, values_of_kind,
};
use crate::node::{
    Element, ElementV, Leaf, LeafV, Node, NodeTrait, NodeV, is_text_node, lemma_nodes_view,
    node_view, nodes_view,
};
use crate::chars::{concat, lemma_concat_push};
use crate::text::{join, lemma_join_push, push_char, push_str, spaces, str_eq};
use crate::value::ValueV;

verus! {

/// The error type of writing to a buffer, from std (`core::fmt::Error`). The `Render`
/// methods return `std::fmt::Result` with it as the error; rendering into a `String`
/// never fails, so their contracts state that they return `Ok`.
#[verifier::external_type_specification]
#[verifier::external_body]
pub struct ExFmtError(std::fmt::Error);

/// What is written before a line at `indent`: a new line and two spaces per level,
/// or nothing in compressed output.
pub open spec fn indent_text(indent: nat, compressed: bool) -> Seq<char> {
    if compressed {
        Seq::empty()
    } else {
        seq!['\n'] + spaces(2 * indent)
    }
}

/// The html of a leaf.
pub open spec fn leaf_html(l: LeafV) -> Seq<char> {
    match l {
        LeafV::Text(t) => t,
        LeafV::SafeHtml(h) => h,
        LeafV::Comment(c) => "<!--"@ + c + "-->"@,
        LeafV::DocType(d) => "<!doctype "@ + d + ">"@,
    }
}

/// Whether an attribute is one that states the state of its element by being there:
/// it is left out when its value is not `true`.
pub open spec fn is_boolean_attribute(name: Seq<char>) -> bool {
    name == "open"@ || name == "checked"@ || name == "disabled"@
}

/// `name="text"`.
pub open spec fn quoted(name: Seq<char>, text: Seq<char>) -> Seq<char> {
    name + "=\""@ + text + "\""@
}

/// The html of an attribute: its simple values joined by spaces, then its styles;
/// nothing for a boolean attribute whose first simple value is not `true`.
pub open spec fn attribute_html(a: AttributeV) -> Seq<char> {
    let plain = values_of_kind(a.value, ValueKind::Plain);
    let styles = values_of_kind(a.value, ValueKind::Style);
    let bool_value = plain.len() > 0 && plain[0] == AttributeValueV::Simple(ValueV::Bool(true));
    if is_boolean_attribute(a.name) && !bool_value {
        Seq::empty()
    } else {
        (match merged_text(plain_texts(plain)) {
            Some(t) => quoted(a.name, t),
            None => Seq::empty(),
        }) + (match merged_text(style_texts(styles)) {
            Some(t) => quoted(a.name, t),
            None => Seq::empty(),
        })
    }
}

/// The html of the attributes of an element, each after a space; attributes with
/// an empty name are left out.
pub open spec fn attrs_html(attrs: Seq<AttributeV>) -> Seq<char>
    decreases attrs.len(),
{
    if attrs.len() == 0 {
        Seq::empty()
    } else if attrs.last().name.len() > 0 {
        attrs_html(attrs.drop_last()) + seq![' '] + attribute_html(attrs.last())
    } else {
        attrs_html(attrs.drop_last())
    }
}

/// The html that the `inner_html` attributes set: the texts of their function calls.
pub open spec fn inner_html_texts(attrs: Seq<AttributeV>) -> Seq<Seq<char>>
    decreases attrs.len(),
{
    if attrs.len() == 0 {
        Seq::empty()
    } else {
        let rest = inner_html_texts(attrs.drop_last());
        let a = attrs.last();
        if a.name == "inner_html"@ {
            match merged_text(plain_texts(values_of_kind(a.value, ValueKind::FunctionCall))) {
                Some(t) => rest.push(t),
                None => rest,
            }
        } else {
            rest
        }
    }
}

/// The html of a node rendered at `indent`.
pub open spec fn render_node(n: NodeV, indent: nat, compressed: bool) -> Seq<char>
    decreases n, 0nat,
{
    match n {
        NodeV::Element(e) => render_element(e, indent, compressed),
        NodeV::Leaf(l) => leaf_html(l),
        NodeV::NodeList(ns) => concat(rendered_items(ns, indent, compressed)),
        NodeV::Fragment(ns) => join(rendered_items(ns, indent, compressed), indent_text(indent, compressed)),
    }
}

/// The html of each of some nodes rendered at `indent`.
pub open spec fn rendered_items(ns: Seq<NodeV>, indent: nat, compressed: bool) -> Seq<Seq<char>>
    decreases ns, 0nat,
{
    Seq::new(
        ns.len(),
        |i: int|
            if 0 <= i < ns.len() {
                render_node(ns[i], indent, compressed)
            } else {
                Seq::empty()
            },
    )
}

/// The html of each child at `indent`, on a line of its own.
pub open spec fn child_items(children: Seq<NodeV>, indent: nat, compressed: bool) -> Seq<Seq<char>>
    decreases children, 0nat,
{
    Seq::new(
        children.len(),
        |i: int|
            if 0 <= i < children.len() {
                indent_text(indent, compressed) + render_node(children[i], indent, compressed)
            } else {
                Seq::empty()
            },
    )
}

/// Whether an element has a lone text child, which is written without a new line.
pub open spec fn has_lone_text_child(e: ElementV) -> bool {
    e.children.len() == 1 && is_text_node(e.children[0])
}

/// The open tag of an element with its merged attributes.
pub open spec fn open_tag_html(e: ElementV, merged: Seq<AttributeV>) -> Seq<char> {
    "<"@ + e.tag + attrs_html(merged) + if e.self_closing {
        "/>"@
    } else {
        ">"@
    }
}

/// The children of an element rendered at `indent`: a lone text child inline, other
/// children each on a line of its own one level deeper, followed by a line at
/// `indent`.
pub open spec fn body_html(e: ElementV, indent: nat, compressed: bool) -> Seq<char>
    decreases e, 0nat,
{
    if has_lone_text_child(e) {
        render_node(e.children[0], indent, compressed)
    } else if e.children.len() > 0 {
        concat(child_items(e.children, indent + 1, compressed)) + indent_text(indent, compressed)
    } else {
        Seq::empty()
    }
}

/// The inner html that the merged attributes set and the closing tag.
pub open spec fn close_html(e: ElementV, merged: Seq<AttributeV>) -> Seq<char> {
    join(inner_html_texts(merged), seq![' ']) + if !e.self_closing {
        "</"@ + e.tag + ">"@
    } else {
        Seq::empty()
    }
}

/// The html of an element rendered at `indent`: the open tag with the merged
/// attributes, the children, the inner html and the closing tag.
pub open spec fn render_element(e: ElementV, indent: nat, compressed: bool) -> Seq<char>
    decreases e, 1nat,
{
    open_tag_html(e, merge_spec(e.attrs)) + body_html(e, indent, compressed) + close_html(
        e,
        merge_spec(e.attrs),
    )
}

/// Whether the indent of every node of the tree fits in a `usize` when the tree is
/// rendered at `indent`.
pub open spec fn render_fits(n: NodeV, indent: nat) -> bool
    decreases n,
{
    indent <= usize::MAX && match n {
        NodeV::Element(e) => forall|i: int|
            0 <= i < e.children.len() ==> render_fits(#[trigger] e.children[i], indent + 1),
        NodeV::NodeList(ns) => forall|i: int| 0 <= i < ns.len() ==> render_fits(#[trigger] ns[i], indent),
        NodeV::Fragment(ns) => forall|i: int| 0 <= i < ns.len() ==> render_fits(#[trigger] ns[i], indent),
        NodeV::Leaf(_) => true,
    }
}

/// The items of a node list or fragment that fits fit at the same indent.
proof fn lemma_items_fit(n: NodeV, indent: nat)
    requires
        render_fits(n, indent),
    ensures
        n matches NodeV::NodeList(ns) ==> forall|j: int| 0 <= j < ns.len() ==> render_fits(#[trigger] ns[j], indent),
        n matches NodeV::Fragment(ns) ==> forall|j: int| 0 <= j < ns.len() ==> render_fits(#[trigger] ns[j], indent),
{
}

/// Appends the indent text.
fn write_indent(buffer: &mut String, indent: usize, compressed: bool)
    ensures
        final(buffer)@ == old(buffer)@ + indent_text(indent as nat, compressed),
{
    if !compressed {
        push_char(buffer, '\n');
        let mut k: usize = 0;
        while k < indent
            invariant
                k <= indent,
                buffer@ == old(buffer)@ + seq!['\n'] + spaces(2 * k as nat),
            decreases indent - k,
        {
            push_char(buffer, ' ');
            push_char(buffer, ' ');
            k = k + 1;
            assert(buffer@ =~= old(buffer)@ + seq!['\n'] + spaces(2 * k as nat));
        }
        assert(buffer@ =~= old(buffer)@ + indent_text(indent as nat, compressed));
    } else {
        assert(buffer@ =~= old(buffer)@ + indent_text(indent as nat, compressed));
    }
}

/// Appends the html of a leaf.
fn write_leaf(leaf: &Leaf, buffer: &mut String)
    ensures
        final(buffer)@ == old(buffer)@ + leaf_html(leaf@),
{
    match leaf {
        Leaf::Text(text) => push_str(buffer, text.as_str()),
        Leaf::SafeHtml(html) => push_str(buffer, html.as_str()),
        Leaf::Comment(comment) => {
            push_str(buffer, "<!--");
            push_str(buffer, comment.as_str());
            push_str(buffer, "-->");
            assert(buffer@ =~= old(buffer)@ + leaf_html(leaf@));
        },
        Leaf::DocType(doctype) => {
            push_str(buffer, "<!doctype ");
            push_str(buffer, doctype.as_str());
            push_str(buffer, ">");
            assert(buffer@ =~= old(buffer)@ + leaf_html(leaf@));
        },
    }
}

/// Appends `name="text"`.
fn write_quoted(buffer: &mut String, name: &str, text: &str)
    ensures
        final(buffer)@ == old(buffer)@ + quoted(name@, text@),
{
    push_str(buffer, name);
    push_str(buffer, "=\"");
    push_str(buffer, text);
    push_str(buffer, "\"");
    assert(buffer@ =~= old(buffer)@ + quoted(name@, text@));
}

/// Appends the html of an attribute.
fn write_attribute<MSG>(attr: &Attribute<MSG>, buffer: &mut String)
    ensures
        final(buffer)@ == old(buffer)@ + attribute_html(attr@),
{
    let segregated = partition_callbacks_from_plain_styles_and_func_calls(attr);
    let plain_values = segregated.plain_values;
    let styles = segregated.styles;
    let ghost plain = values_of_kind(attr@.value, ValueKind::Plain);
    let ghost style_vals = values_of_kind(attr@.value, ValueKind::Style);
    let bool_value: bool = if plain_values.len() > 0 {
        match plain_values[0].get_simple() {
            Some(v) => match v.as_bool() {
                Some(b) => b,
                None => false,
            },
            None => false,
        }
    } else {
        false
    };
    proof {
        if plain_values@.len() > 0 {
            assert(plain[0] == plain_values@[0]@);
        }
    }
    assert(bool_value == (plain.len() > 0 && plain[0] == AttributeValueV::Simple(
        ValueV::Bool(true),
    )));
    let is_boolean = str_eq(attr.name, "open") || str_eq(attr.name, "checked") || str_eq(
        attr.name,
        "disabled",
    );
    if !(is_boolean && !bool_value) {
        let ghost start = buffer@;
        match merge_plain_attributes_values(plain_values.as_slice()) {
            Some(merged) => write_quoted(buffer, attr.name, merged.as_str()),
            None => {},
        }
        let ghost mid = buffer@;
        match merge_styles_attributes_values(styles.as_slice()) {
            Some(merged) => write_quoted(buffer, attr.name, merged.as_str()),
            None => {},
        }
        assert(buffer@ =~= old(buffer)@ + attribute_html(attr@));
    } else {
        assert(buffer@ =~= old(buffer)@ + attribute_html(attr@));
    }
}

/// Appends the html of the attributes of an element, each after a space.
fn write_attributes<MSG>(attrs: &Vec<Attribute<MSG>>, buffer: &mut String)
    ensures
        final(buffer)@ == old(buffer)@ + attrs_html(attrs_view(attrs@)),
{
    let ghost av = attrs_view(attrs@);
    let mut i: usize = 0;
    while i < attrs.len()
        invariant
            i <= attrs@.len(),
            av == attrs_view(attrs@),
            buffer@ == old(buffer)@ + attrs_html(av.take(i as int)),
        decreases attrs@.len() - i,
    {
        let attr = &attrs[i];
        assert(av.take(i + 1).drop_last() =~= av.take(i as int));
        assert(av.take(i + 1).last() == attr@);
        if attr.name.unicode_len() > 0 {
            push_char(buffer, ' ');
            write_attribute(attr, buffer);
        }
        i = i + 1;
        assert(buffer@ =~= old(buffer)@ + attrs_html(av.take(i as int)));
    }
    assert(av.take(attrs@.len() as int) =~= av);
}

/// The html that the `inner_html` attributes set, joined by spaces.
#[verifier::rlimit(50)]
pub fn extract_inner_html<MSG>(merged_attributes: &[Attribute<MSG>]) -> (r: String)
    ensures
        r@ == join(inner_html_texts(attrs_view(merged_attributes@)), seq![' ']),
{
    let ghost av = attrs_view(merged_attributes@);
    let mut buffer = String::new();
    let mut count: usize = 0;
    let mut i: usize = 0;
    while i < merged_attributes.len()
        invariant
            i <= merged_attributes@.len(),
            av == attrs_view(merged_attributes@),
            count == inner_html_texts(av.take(i as int)).len(),
            count <= i,
            buffer@ == join(inner_html_texts(av.take(i as int)), seq![' ']),
        decreases merged_attributes@.len() - i,
    {
        let attr = &merged_attributes[i];
        let ghost before = inner_html_texts(av.take(i as int));
        assert(av.take(i + 1).drop_last() =~= av.take(i as int));
        assert(av.take(i + 1).last() == attr@);
        let segregated = partition_callbacks_from_plain_styles_and_func_calls(attr);
        if str_eq(attr.name, "inner_html") {
            match merge_plain_attributes_values(segregated.function_calls.as_slice()) {
                Some(text) => {
                    proof {
                        if count > 0 {
                            lemma_join_push(before, seq![' '], text@);
                        } else {
                            assert(join(before.push(text@), seq![' ']) =~= text@);
                        }
                    }
                    if count > 0 {
                        push_char(&mut buffer, ' ');
                    }
                    push_str(&mut buffer, text.as_str());
                    count = count + 1;
                    assert(buffer@ =~= join(before.push(text@), seq![' ']));
                },
                None => {},
            }
        }
        i = i + 1;
    }
    assert(av.take(merged_attributes@.len() as int) =~= av);
    buffer
}

/// Appends the html of a node rendered at `indent`.
#[verifier::loop_isolation(false)]
fn write_node<MSG>(node: &Node<MSG>, buffer: &mut String, indent: usize, compressed: bool)
    requires
        render_fits(node@, indent as nat),
    ensures
        final(buffer)@ == old(buffer)@ + render_node(node@, indent as nat, compressed),
    decreases node, 0nat,
{
    match node {
        Node::Element(element) => write_element(element, buffer, indent, compressed),
        Node::Leaf(leaf) => write_leaf(leaf, buffer),
        Node::NodeList(node_list) => {
            assert(node@ == NodeV::NodeList(nodes_view(node_list@)));
            proof {
                lemma_items_fit(node@, indent as nat);
            }
            let ghost items = rendered_items(nodes_view(node_list@), indent as nat, compressed);
            proof {
                lemma_nodes_view(node_list@);
            }
            assert(forall|j: int| 0 <= j < node_list@.len() ==> render_fits(#[trigger] nodes_view(node_list@)[j], indent as nat));
            let mut i: usize = 0;
            while i < node_list.len()
                invariant
                    i <= node_list@.len(),
                    forall|j: int| 0 <= j < node_list@.len() ==> render_fits(#[trigger] nodes_view(node_list@)[j], indent as nat),
                    buffer@ == old(buffer)@ + concat(items.take(i as int)),
                decreases node_list@.len() - i,
            {
                assert(render_fits(nodes_view(node_list@)[i as int], indent as nat));
                write_node(&node_list[i], buffer, indent, compressed);
                proof {
                    assert(items.take(i + 1) =~= items.take(i as int).push(items[i as int]));
                    lemma_concat_push(items.take(i as int), items[i as int]);
                }
                i = i + 1;
            }
            assert(items.take(node_list@.len() as int) =~= items);
        },
        Node::Fragment(fragment) => {
            assert(node@ == NodeV::Fragment(nodes_view(fragment@)));
            proof {
                lemma_items_fit(node@, indent as nat);
            }
            let ghost sep = indent_text(indent as nat, compressed);
            let ghost items = rendered_items(nodes_view(fragment@), indent as nat, compressed);
            proof {
                lemma_nodes_view(fragment@);
            }
            assert(forall|j: int| 0 <= j < fragment@.len() ==> render_fits(#[trigger] nodes_view(fragment@)[j], indent as nat));
            let mut i: usize = 0;
            while i < fragment.len()
                invariant
                    i <= fragment@.len(),
                    forall|j: int| 0 <= j < fragment@.len() ==> render_fits(#[trigger] nodes_view(fragment@)[j], indent as nat),
                    buffer@ == old(buffer)@ + join(items.take(i as int), sep),
                decreases fragment@.len() - i,
            {
                assert(render_fits(nodes_view(fragment@)[i as int], indent as nat));
                let ghost before = buffer@;
                if i > 0 {
                    write_indent(buffer, indent, compressed);
                }
                write_node(&fragment[i], buffer, indent, compressed);
                proof {
                    assert(items.take(i + 1) =~= items.take(i as int).push(items[i as int]));
                    if i > 0 {
                        lemma_join_push(items.take(i as int), sep, items[i as int]);
                    } else {
                        assert(join(items.take(1), sep) =~= items[0]);
                    }
                }
                i = i + 1;
                assert(buffer@ =~= old(buffer)@ + join(items.take(i as int), sep));
            }
            assert(items.take(fragment@.len() as int) =~= items);
        },
    }
}

/// Appends the children of an element, each on a line of its own at `indent`.
#[verifier::loop_isolation(false)]
#[verifier::rlimit(50)]
fn write_children<MSG>(children: &Vec<Node<MSG>>, buffer: &mut String, indent: usize, compressed: bool)
    requires
        forall|i: int| 0 <= i < children@.len() ==> render_fits(#[trigger] nodes_view(children@)[i], indent as nat),
    ensures
        final(buffer)@ == old(buffer)@ + concat(child_items(nodes_view(children@), indent as nat, compressed)),
    decreases children, 0nat,
{
    let ghost items = child_items(nodes_view(children@), indent as nat, compressed);
    proof {
        lemma_nodes_view(children@);
    }
    let mut i: usize = 0;
    while i < children.len()
        invariant
            i <= children@.len(),
            buffer@ == old(buffer)@ + concat(items.take(i as int)),
        decreases children@.len() - i,
    {
        assert(render_fits(nodes_view(children@)[i as int], indent as nat));
        let ghost before = buffer@;
        write_indent(buffer, indent, compressed);
        write_node(&children[i], buffer, indent, compressed);
        proof {
            assert(buffer@ =~= before + items[i as int]);
            assert(items.take(i + 1) =~= items.take(i as int).push(items[i as int]));
            lemma_concat_push(items.take(i as int), items[i as int]);
        }
        i = i + 1;
    }
    assert(items.take(children@.len() as int) =~= items);
}

/// The attributes of an element with the values of those of the same name merged.
fn merged_attributes<MSG>(element: &Element<MSG>) -> (r: Vec<Attribute<MSG>>)
    ensures
        attrs_view(r@) == merge_spec(element@.attrs),
{
    let ghost av = attrs_view(element.attrs@);
    let mut refs: Vec<&Attribute<MSG>> = Vec::new();
    let mut i: usize = 0;
    while i < element.attrs.len()
        invariant
            i <= element.attrs@.len(),
            av == attrs_view(element.attrs@),
            attr_refs_view(refs@) == av.take(i as int),
        decreases element.attrs@.len() - i,
    {
        let ghost prev = refs@;
        refs.push(&element.attrs[i]);
        proof {
            assert(av[i as int] == element.attrs@[i as int]@);
            assert(attr_refs_view(refs@) =~= attr_refs_view(prev).push(av[i as int]));
            assert(av.take(i + 1) =~= av.take(i as int).push(av[i as int]));
        }
        i = i + 1;
    }
    assert(av.take(element.attrs@.len() as int) =~= av);
    merge_attributes_of_same_name(refs.as_slice())
}

/// Appends the children of an element rendered at `indent`.
fn write_body<MSG>(element: &Element<MSG>, buffer: &mut String, indent: usize, compressed: bool)
    requires
        render_fits(NodeV::Element(element@), indent as nat),
    ensures
        final(buffer)@ == old(buffer)@ + body_html(element@, indent as nat, compressed),
    decreases element, 0nat,
{
    let ghost e = element@;
    proof {
        lemma_nodes_view(element.children@);
    }
    let n = element.children.len();
    let lone = n == 1 && element.children[0].is_text();
    assert(lone == has_lone_text_child(e));
    if lone {
        assert(render_fits(e.children[0], indent as nat + 1));
        write_node(&element.children[0], buffer, indent, compressed);
    } else if n > 0 {
        assert(render_fits(e.children[0], indent as nat + 1));
        write_children(&element.children, buffer, indent + 1, compressed);
        write_indent(buffer, indent, compressed);
        assert(buffer@ =~= old(buffer)@ + body_html(e, indent as nat, compressed));
    } else {
        assert(buffer@ =~= old(buffer)@ + body_html(e, indent as nat, compressed));
    }
}

/// Appends the html of an element rendered at `indent`.
fn write_element<MSG>(element: &Element<MSG>, buffer: &mut String, indent: usize, compressed: bool)
    requires
        render_fits(NodeV::Element(element@), indent as nat),
    ensures
        final(buffer)@ == old(buffer)@ + render_element(element@, indent as nat, compressed),
    decreases element, 1nat,
{
    let ghost e = element@;
    let merged = merged_attributes(element);
    let ghost m = attrs_view(merged@);
    push_str(buffer, "<");
    push_str(buffer, element.tag);
    write_attributes(&merged, buffer);
    if element.self_closing {
        push_str(buffer, "/>");
    } else {
        push_str(buffer, ">");
    }
    assert(buffer@ =~= old(buffer)@ + open_tag_html(e, m));
    let ghost after_open = buffer@;
    write_body(element, buffer, indent, compressed);
    let ghost after_body = buffer@;
    let inner_html = extract_inner_html(merged.as_slice());
    push_str(buffer, inner_html.as_str());
    if !element.self_closing {
        push_str(buffer, "</");
        push_str(buffer, element.tag);
        push_str(buffer, ">");
    }
    assert(buffer@ =~= after_body + close_html(e, m));
    assert(buffer@ =~= old(buffer)@ + render_element(e, indent as nat, compressed));
}

/// Rendering to html text.
pub trait Render {
    /// The html of `self` rendered at `indent`.
    spec fn rendered(&self, indent: nat, compressed: bool) -> Seq<char>;

    /// Whether the indents of `self` rendered at `indent` fit in a `usize`.
    spec fn fits(&self, indent: nat) -> bool;

    /// Renders with new lines and indents.
    fn render(&self, buffer: &mut String) -> (r: std::fmt::Result)
        requires
            self.fits(0),
        ensures
            r is Ok,
            final(buffer)@ == old(buffer)@ + self.rendered(0, false),
    {
        self.render_with_indent(buffer, 0, false)
    }

    /// Renders without new lines and indents.
    fn render_compressed(&self, buffer: &mut String) -> (r: std::fmt::Result)
        requires
            self.fits(0),
        ensures
            r is Ok,
            final(buffer)@ == old(buffer)@ + self.rendered(0, true),
    {
        self.render_with_indent(buffer, 0, true)
    }

    /// Renders at `indent`.
    fn render_with_indent(&self, buffer: &mut String, indent: usize, compressed: bool) -> (r:
        std::fmt::Result)
        requires
            self.fits(indent as nat),
        ensures
            r is Ok,
            final(buffer)@ == old(buffer)@ + self.rendered(indent as nat, compressed),
    ;

    /// The compressed html.
    fn render_to_string(&self) -> (r: String)
        requires
            self.fits(0),
        ensures
            r@ == self.rendered(0, true),
    {
        let mut buffer = String::new();
        let _ = self.render_compressed(&mut buffer);
        assert(buffer@ =~= self.rendered(0, true));
        buffer
    }

    /// The html with new lines and indents.
    fn render_to_string_pretty(&self) -> (r: String)
        requires
            self.fits(0),
        ensures
            r@ == self.rendered(0, false),
    {
        let mut buffer = String::new();
        let _ = self.render(&mut buffer);
        assert(buffer@ =~= self.rendered(0, false));
        buffer
    }

    /// Appends a new line and the indent of `indent`, unless `compressed`.
    fn maybe_indent(&self, buffer: &mut String, indent: usize, compressed: bool) -> (r:
        std::fmt::Result)
        ensures
            r is Ok,
            final(buffer)@ == old(buffer)@ + indent_text(indent as nat, compressed),
    {
        write_indent(buffer, indent, compressed);
        Ok(())
    }
}

impl<MSG> Render for Node<MSG> {
    open spec fn rendered(&self, indent: nat, compressed: bool) -> Seq<char> {
        render_node(self@, indent, compressed)
    }

    open spec fn fits(&self, indent: nat) -> bool {
        render_fits(self@, indent)
    }

    fn render_with_indent(&self, buffer: &mut String, indent: usize, compressed: bool) -> (r:
        std::fmt::Result) {
        write_node(self, buffer, indent, compressed);
        Ok(())
    }
}

impl<MSG> Render for Element<MSG> {
    open spec fn rendered(&self, indent: nat, compressed: bool) -> Seq<char> {
        render_element(self@, indent, compressed)
    }

    open spec fn fits(&self, indent: nat) -> bool {
        render_fits(NodeV::Element(self@), indent)
    }

    fn render_with_indent(&self, buffer: &mut String, indent: usize, compressed: bool) -> (r:
        std::fmt::Result) {
        write_element(self, buffer, indent, compressed);
        Ok(())
    }
}

impl Render for Leaf {
    open spec fn rendered(&self, indent: nat, compressed: bool) -> Seq<char> {
        leaf_html(self@)
    }

    open spec fn fits(&self, indent: nat) -> bool {
        true
    }

    fn render_with_indent(&self, buffer: &mut String, indent: usize, compressed: bool) -> (r:
        std::fmt::Result) {
        write_leaf(self, buffer);
        Ok(())
    }
}

impl<MSG> Render for Attribute<MSG> {
    open spec fn rendered(&self, indent: nat, compressed: bool) -> Seq<char> {
        attribute_html(self@)
    }

    open spec fn fits(&self, indent: nat) -> bool {
        true
    }

    fn render_with_indent(&self, buffer: &mut String, indent: usize, compressed: bool) -> (r:
        std::fmt::Result) {
        write_attribute(self, buffer);
        Ok(())
    }
}

// ----------------------------------------------------------------------------
// Laws of rendering
// ----------------------------------------------------------------------------
/// The attributes `open`, `checked` and `disabled` render to nothing unless their
/// first simple value is `true`: a boolean attribute is there only when it holds.
pub proof fn lemma_false_boolean_attribute_is_left_out(a: AttributeV)
    requires
        a.name == "open"@ || a.name == "checked"@ || a.name == "disabled"@,
        !(values_of_kind(a.value, ValueKind::Plain).len() > 0 && values_of_kind(a.value, ValueKind::Plain)[0]
            == AttributeValueV::Simple(ValueV::Bool(true))),
    ensures
        attribute_html(a) == Seq::<char>::empty(),
{
}

/// A doctype renders as `<!doctype `, its text, then `>`; a comment as `<!--`, its
/// text, then `-->`; a text or safe html leaf as its text itself; at any indent,
/// compressed or not.
pub proof fn lemma_leaf_markup(d: Seq<char>, indent: nat, compressed: bool)
    ensures
        render_node(NodeV::Leaf(LeafV::DocType(d)), indent, compressed) == seq!['<', '!', 'd', 'o', 'c', 't', 'y', 'p', 'e', ' '] + d + seq!['>'],
        render_node(NodeV::Leaf(LeafV::Comment(d)), indent, compressed) == seq!['<', '!', '-', '-'] + d + seq!['-', '-', '>'],
        render_node(NodeV::Leaf(LeafV::Text(d)), indent, compressed) == d,
        render_node(NodeV::Leaf(LeafV::SafeHtml(d)), indent, compressed) == d,
{
    reveal_strlit("<!doctype ");
    reveal_strlit(">");
    reveal_strlit("<!--");
    reveal_strlit("-->");
    assert("<!doctype "@ =~= seq!['<', '!', 'd', 'o', 'c', 't', 'y', 'p', 'e', ' ']);
    assert(">"@ =~= seq!['>']);
    assert("<!--"@ =~= seq!['<', '!', '-', '-']);
    assert("-->"@ =~= seq!['-', '-', '>']);
}

} // verus!

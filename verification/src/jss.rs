//! Css from json: each entry of a json object is a selector with its style
//! properties; class selectors can be put in a namespace.
use vstd::prelude::*;
use crate::attribute::{Attribute, AttributeV, AttributeValueV};
use crate::chars::{
    concat, lemma_concat_push, lemma_split_len, pieces_view, split, split_chars, trim,
    trim_chars, trim_start_char, trim_start_matches_char, chars_of, push_chars,
};
use crate::html_attributes::{class, class_values, classes_flag, flagged_texts};
use crate::text::{join, lemma_join_push, int_text, nat_text, push_char, push_int, push_nat, push_str, spaces};
use crate::value::{ToValue, ValueV, value_text};

verus! {

/// A json number as css is written from it.
pub enum JsonNumber {
    /// a number that is not negative
    PosInt(u64),
    /// a negative number
    NegInt(i64),
    /// a number with a fraction or an exponent, held as the text that json writes for it
    Float(String),
}

/// A json value; the entries of an object keep their order.
pub enum Json {
    Null,
    Bool(bool),
    Number(JsonNumber),
    String(String),
    Array(Vec<Json>),
    Object(Vec<(String, Json)>),
}

/// The model of a [`Json`] value; a number is known by its text.
pub enum JsonV {
    Null,
    Bool(bool),
    Number(Seq<char>),
    Str(Seq<char>),
    Array(Seq<JsonV>),
    Object(Seq<(Seq<char>, JsonV)>),
}

/// The text of a json number.
pub open spec fn number_text(n: &JsonNumber) -> Seq<char> {
    match n {
        JsonNumber::PosInt(x) => nat_text(*x as nat),
        JsonNumber::NegInt(x) => int_text(*x as int),
        JsonNumber::Float(t) => t@,
    }
}

/// The model of a json value.
pub open spec fn json_view(j: &Json) -> JsonV
    decreases j,
{
    match j {
        Json::Null => JsonV::Null,
        Json::Bool(b) => JsonV::Bool(*b),
        Json::Number(n) => JsonV::Number(number_text(n)),
        Json::String(s) => JsonV::Str(s@),
        Json::Array(items) => JsonV::Array(jsons_view(items@)),
        Json::Object(entries) => JsonV::Object(entries_view(entries@)),
    }
}

/// The models of a sequence of json values.
pub open spec fn jsons_view(s: Seq<Json>) -> Seq<JsonV>
    decreases s,
{
    Seq::new(
        s.len(),
        |i: int|
            if 0 <= i < s.len() {
                json_view(&s[i])
            } else {
                JsonV::Null
            },
    )
}

/// The models of the entries of a json object.
pub open spec fn entries_view(s: Seq<(String, Json)>) -> Seq<(Seq<char>, JsonV)>
    decreases s,
{
    Seq::new(
        s.len(),
        |i: int|
            if 0 <= i < s.len() {
                (s[i].0@, json_view(&s[i].1))
            } else {
                (Seq::empty(), JsonV::Null)
            },
    )
}

/// Indexing the models of entries gives the model of the entry there.
pub proof fn lemma_entries_view(s: Seq<(String, Json)>)
    ensures
        entries_view(s).len() == s.len(),
        forall|k: int|
            0 <= k < s.len() ==> #[trigger] entries_view(s)[k] == (s[k].0@, json_view(&s[k].1)),
{
}

impl View for Json {
    type V = JsonV;

    open spec fn view(&self) -> JsonV {
        json_view(self)
    }
}

// ----------------------------------------------------------------------------
// Namespaced selectors and class names
// ----------------------------------------------------------------------------
/// The classes of a compound class selector such as `.a.b` in the namespace.
pub open spec fn dots_ns(ns: Seq<char>, cs: Seq<char>) -> Seq<char> {
    let d = split(trim_start_char(cs, '.'), '.');
    concat(Seq::new(d.len(), |k: int| seq!['.'] + ns + "__"@ + d[k]))
}

/// A list of class selectors such as `a,.b` in the namespace.
pub open spec fn group_ns(ns: Seq<char>, cn: Seq<char>) -> Seq<char> {
    let g = split(cn, ',');
    join(Seq::new(g.len(), |k: int| dots_ns(ns, g[k])), seq![','])
}

/// One space separated part of a selector: put in the namespace when it is a class
/// selector, kept as it is otherwise.
pub open spec fn part_ns(ns: Seq<char>, part: Seq<char>) -> Seq<char> {
    let p = trim(part);
    if p.len() > 0 && p[0] == '.' {
        group_ns(ns, trim_start_char(p, '.'))
    } else {
        p
    }
}

/// A selector with its class selectors put in the namespace; the selector `.` alone
/// is the namespace itself.
pub open spec fn selector_ns(ns: Seq<char>, sel: Seq<char>) -> Seq<char> {
    let t = trim(sel);
    if t == seq!['.'] {
        seq!['.'] + ns
    } else {
        let parts = split(t, ' ');
        join(Seq::new(parts.len(), |k: int| part_ns(ns, parts[k])), seq![' '])
    }
}

/// Space separated class names put in the namespace; no class name is the
/// namespace itself.
pub open spec fn class_ns(ns: Seq<char>, names: Seq<char>) -> Seq<char> {
    let t = trim(names);
    if t.len() == 0 {
        ns
    } else {
        let parts = split(t, ' ');
        join(Seq::new(parts.len(), |k: int| ns + "__"@ + trim(parts[k])), seq![' '])
    }
}

/// Appends the classes of a compound class selector in the namespace.
fn write_dots(buffer: &mut String, ns: &str, cs: &Vec<char>)
    ensures
        final(buffer)@ == old(buffer)@ + dots_ns(ns@, cs@),
{
    let trimmed = trim_start_matches_char(cs, '.');
    let d = split_chars(&trimmed, '.');
    let ghost dv = pieces_view(d@);
    let ghost items = Seq::new(dv.len(), |k: int| seq!['.'] + ns@ + "__"@ + dv[k]);
    let mut k: usize = 0;
    while k < d.len()
        invariant
            k <= d@.len(),
            dv == pieces_view(d@),
            dv == split(trim_start_char(cs@, '.'), '.'),
            items == Seq::new(dv.len(), |k: int| seq!['.'] + ns@ + "__"@ + dv[k]),
            buffer@ == old(buffer)@ + concat(items.take(k as int)),
        decreases d@.len() - k,
    {
        let ghost before = buffer@;
        push_char(buffer, '.');
        push_str(buffer, ns);
        push_str(buffer, "__");
        push_chars(buffer, &d[k]);
        proof {
            assert(buffer@ =~= before + items[k as int]);
            assert(items.take(k + 1) =~= items.take(k as int).push(items[k as int]));
            lemma_concat_push(items.take(k as int), items[k as int]);
        }
        k = k + 1;
    }
    assert(items.take(d@.len() as int) =~= items);
}

/// Appends one part of a selector, put in the namespace when it is a class selector.
fn write_part(buffer: &mut String, ns: &str, part: &Vec<char>)
    ensures
        final(buffer)@ == old(buffer)@ + part_ns(ns@, part@),
{
    let p = trim_chars(part);
    if p.len() > 0 && p[0] == '.' {
        let class_name = trim_start_matches_char(&p, '.');
        let groups = split_chars(&class_name, ',');
        let ghost gv = pieces_view(groups@);
        let ghost items = Seq::new(gv.len(), |k: int| dots_ns(ns@, gv[k]));
        proof {
            lemma_split_len(class_name@, ',');
        }
        let mut k: usize = 0;
        while k < groups.len()
            invariant
                k <= groups@.len(),
                gv == pieces_view(groups@),
                items == Seq::new(gv.len(), |k: int| dots_ns(ns@, gv[k])),
                buffer@ == old(buffer)@ + join(items.take(k as int), seq![',']),
            decreases groups@.len() - k,
        {
            let ghost before = buffer@;
            if k > 0 {
                push_char(buffer, ',');
            }
            write_dots(buffer, ns, &groups[k]);
            proof {
                assert(items.take(k + 1) =~= items.take(k as int).push(items[k as int]));
                if k > 0 {
                    lemma_join_push(items.take(k as int), seq![','], items[k as int]);
                } else {
                    assert(join(items.take(1), seq![',']) =~= items[0]);
                }
            }
            k = k + 1;
            assert(buffer@ =~= old(buffer)@ + join(items.take(k as int), seq![',']));
        }
        assert(items.take(groups@.len() as int) =~= items);
    } else {
        push_chars(buffer, &p);
    }
}

/// Puts the class selectors of a selector in the namespace: `.a .b` becomes
/// `.ns__a .ns__b`; element selectors stay as they are; the selector `.` alone
/// becomes `.ns`.
pub fn selector_namespaced<N: ToValue, S: ToValue>(namespace: N, selector_classes: S) -> (r: String)
    ensures
        r@ == selector_ns(value_text(namespace.value_spec()), value_text(selector_classes.value_spec())),
{
    let ns = namespace.to_value().to_string();
    let selector = selector_classes.to_value().to_string();
    selector_namespaced_str(ns.as_str(), selector.as_str())
}

/// [`selector_namespaced`] on string slices.
fn selector_namespaced_str(ns: &str, selector: &str) -> (r: String)
    ensures
        r@ == selector_ns(ns@, selector@),
{
    let chars = chars_of(selector);
    let t = trim_chars(&chars);
    let mut buffer = String::new();
    if t.len() == 1 && t[0] == '.' {
        assert(t@ =~= seq!['.']);
        push_char(&mut buffer, '.');
        push_str(&mut buffer, ns);
        assert(buffer@ =~= seq!['.'] + ns@);
    } else {
        assert(t@ != seq!['.']);
        let parts = split_chars(&t, ' ');
        let ghost pv = pieces_view(parts@);
        let ghost items = Seq::new(pv.len(), |k: int| part_ns(ns@, pv[k]));
        let mut k: usize = 0;
        while k < parts.len()
            invariant
                k <= parts@.len(),
                pv == pieces_view(parts@),
                items == Seq::new(pv.len(), |k: int| part_ns(ns@, pv[k])),
                buffer@ == join(items.take(k as int), seq![' ']),
            decreases parts@.len() - k,
        {
            if k > 0 {
                push_char(&mut buffer, ' ');
            }
            write_part(&mut buffer, ns, &parts[k]);
            proof {
                assert(items.take(k + 1) =~= items.take(k as int).push(items[k as int]));
                if k > 0 {
                    lemma_join_push(items.take(k as int), seq![' '], items[k as int]);
                } else {
                    assert(join(items.take(1), seq![' ']) =~= items[0]);
                }
            }
            k = k + 1;
            assert(buffer@ =~= join(items.take(k as int), seq![' ']));
        }
        assert(items.take(parts@.len() as int) =~= items);
    }
    buffer
}

/// Puts space separated class names in the namespace: `a b` becomes `ns__a ns__b`;
/// no class name gives the namespace itself.
fn class_namespaced_str<N: ToValue, C: ToValue>(namespace: N, class_names: C) -> (r: String)
    ensures
        r@ == class_ns(value_text(namespace.value_spec()), value_text(class_names.value_spec())),
{
    let ns = namespace.to_value().to_string();
    let names = class_names.to_value().to_string();
    class_ns_of(ns.as_str(), names.as_str())
}

/// [`class_namespaced_str`] on string slices.
fn class_ns_of(ns: &str, names: &str) -> (r: String)
    ensures
        r@ == class_ns(ns@, names@),
{
    let chars = chars_of(names);
    let t = trim_chars(&chars);
    if t.len() == 0 {
        return String::from_str(ns);
    }
    let parts = split_chars(&t, ' ');
    let ghost pv = pieces_view(parts@);
    let ghost items = Seq::new(pv.len(), |k: int| ns@ + "__"@ + trim(pv[k]));
    let mut buffer = String::new();
    let mut k: usize = 0;
    while k < parts.len()
        invariant
            k <= parts@.len(),
            pv == pieces_view(parts@),
            items == Seq::new(pv.len(), |k: int| ns@ + "__"@ + trim(pv[k])),
            buffer@ == join(items.take(k as int), seq![' ']),
        decreases parts@.len() - k,
    {
        if k > 0 {
            push_char(&mut buffer, ' ');
        }
        push_str(&mut buffer, ns);
        push_str(&mut buffer, "__");
        let part = trim_chars(&parts[k]);
        push_chars(&mut buffer, &part);
        proof {
            assert(items.take(k + 1) =~= items.take(k as int).push(items[k as int]));
            if k > 0 {
                lemma_join_push(items.take(k as int), seq![' '], items[k as int]);
            } else {
                assert(join(items.take(1), seq![' ']) =~= items[0]);
            }
        }
        k = k + 1;
        assert(buffer@ =~= join(items.take(k as int), seq![' ']));
    }
    assert(items.take(parts@.len() as int) =~= items);
    buffer
}

/// The `class` attribute of the class names put in the namespace.
pub fn class_namespaced<N: ToValue, C: ToValue, MSG>(namespace: N, class_names: C) -> (r: Attribute<
    MSG,
>)
    ensures
        r@ == (AttributeV {
            namespace: None,
            name: "class"@,
            value: seq![
                AttributeValueV::Simple(
                    ValueV::Text(
                        class_ns(
                            value_text(namespace.value_spec()),
                            value_text(class_names.value_spec()),
                        ),
                    ),
                ),
            ],
        }),
{
    class(class_namespaced_str(namespace, class_names))
}

/// The class names whose flag is set, put in the namespace, in order.
pub open spec fn flagged_ns<V: ToValue>(ns: Seq<char>, pairs: Seq<(V, bool)>) -> Seq<Seq<char>>
    decreases pairs.len(),
{
    if pairs.len() == 0 {
        Seq::empty()
    } else if pairs.last().1 {
        flagged_ns(ns, pairs.drop_last()).push(class_ns(ns, value_text(pairs.last().0.value_spec())))
    } else {
        flagged_ns(ns, pairs.drop_last())
    }
}

/// The `class` attribute of the class names whose flag is set, each put in the
/// namespace.
pub fn classes_namespaced_flag<N: ToValue, V: ToValue, MSG>(namespace: N, pair: Vec<(V, bool)>) -> (r:
    Attribute<MSG>)
    ensures
        r@ == (AttributeV {
            namespace: None,
            name: "class"@,
            value: class_values(flagged_ns(value_text(namespace.value_spec()), pair@)),
        }),
{
    let ns = namespace.to_value().to_string();
    let ghost nsv = ns@;
    let ghost all = pair@;
    let mut transformed: Vec<(String, bool)> = Vec::new();
    let mut rest = pair;
    let ghost mut done: int = 0;
    while rest.len() > 0
        invariant
            0 <= done <= all.len(),
            done + rest@.len() == all.len(),
            forall|j: int| 0 <= j < rest@.len() ==> #[trigger] rest@[j] == all[done + j],
            nsv == ns@,
            flagged_texts(transformed@) == flagged_ns(nsv, all.take(done)),
        decreases rest@.len(),
    {
        let (class_name, flag) = rest.remove(0);
        let ghost before = transformed@;
        assert(all.take(done + 1).drop_last() =~= all.take(done));
        assert(all.take(done + 1).last() == (class_name, flag));
        let name_text = class_name.to_value().to_string();
        let text = class_ns_of(ns.as_str(), name_text.as_str());
        transformed.push((text, flag));
        proof {
            assert(transformed@.drop_last() =~= before);
            done = done + 1;
        }
    }
    assert(all.take(done) =~= all);
    classes_flag(transformed)
}

// ----------------------------------------------------------------------------
// Css from json
// ----------------------------------------------------------------------------
/// The indent of a css line: four spaces per level, or nothing.
pub open spec fn indent_css(n: nat, use_indents: bool) -> Seq<char> {
    if use_indents {
        spaces(4 * n)
    } else {
        Seq::empty()
    }
}

/// A new line, or nothing.
pub open spec fn new_line(use_indents: bool) -> Seq<char> {
    if use_indents {
        seq!['\n']
    } else {
        Seq::empty()
    }
}

/// The text of a property value.
pub open spec fn scalar_text(v: JsonV) -> Seq<char> {
    match v {
        JsonV::Str(s) => s,
        JsonV::Number(t) => t,
        JsonV::Bool(b) => if b {
            "true"@
        } else {
            "false"@
        },
        _ => Seq::empty(),
    }
}

/// A selector, put in the namespace when there is one.
pub open spec fn selector_text(ns: Option<Seq<char>>, classes: Seq<char>) -> Seq<char> {
    match ns {
        Some(n) => selector_ns(n, classes),
        None => classes,
    }
}

/// The css of the entries of an object at `indent`, separated by new lines.
pub open spec fn css_map_text(
    indent: nat,
    ns: Option<Seq<char>>,
    map: Seq<(Seq<char>, JsonV)>,
    use_indents: bool,
) -> Seq<char>
    decreases map, 1nat,
{
    join(entries_css(indent, ns, map, use_indents), new_line(use_indents))
}

/// The css of each entry of an object at `indent`.
pub open spec fn entries_css(
    indent: nat,
    ns: Option<Seq<char>>,
    map: Seq<(Seq<char>, JsonV)>,
    use_indents: bool,
) -> Seq<Seq<char>>
    decreases map, 0nat,
{
    Seq::new(
        map.len(),
        |i: int|
            if 0 <= i < map.len() {
                entry_css(indent, ns, map[i], use_indents)
            } else {
                Seq::empty()
            },
    )
}

/// The css of one entry: the selector, its properties, and the closing brace.
pub open spec fn entry_css(
    indent: nat,
    ns: Option<Seq<char>>,
    entry: (Seq<char>, JsonV),
    use_indents: bool,
) -> Seq<char>
    decreases entry, 0nat,
{
    indent_css(indent, use_indents) + selector_text(ns, entry.0) + (if use_indents {
        " {\n"@
    } else {
        Seq::empty()
    }) + props_css(indent, ns, entry.1, use_indents) + indent_css(indent, use_indents) + seq!['}']
}

/// The css of the properties of an entry: each property in turn (see
/// [`prop_css`]). A value that is not an object has no properties.
pub open spec fn props_css(
    indent: nat,
    ns: Option<Seq<char>>,
    style_properties: JsonV,
    use_indents: bool,
) -> Seq<char>
    decreases style_properties, 0nat,
{
    match style_properties {
        JsonV::Object(props) => concat(props_items(indent, ns, props, use_indents)),
        _ => Seq::empty(),
    }
}

/// The css of each property of an object.
pub open spec fn props_items(
    indent: nat,
    ns: Option<Seq<char>>,
    props: Seq<(Seq<char>, JsonV)>,
    use_indents: bool,
) -> Seq<Seq<char>>
    decreases props, 3nat,
{
    Seq::new(props.len(), |j: int| prop_css(indent, ns, props, j, use_indents))
}

/// The css of the property `j` of an object: a property whose value is an object
/// writes the css of the whole object holding it one level deeper; another property
/// writes `name: value;`.
pub open spec fn prop_css(
    indent: nat,
    ns: Option<Seq<char>>,
    props: Seq<(Seq<char>, JsonV)>,
    j: int,
    use_indents: bool,
) -> Seq<char>
    decreases props, 2nat,
{
    if 0 <= j < props.len() {
        if props[j].1 is Object {
            css_map_text(indent + 1, ns, props, use_indents) + new_line(use_indents)
        } else {
            indent_css(indent + 1, use_indents) + props[j].0 + ": "@ + scalar_text(props[j].1) + seq![
                ';',
            ] + new_line(use_indents)
        }
    } else {
        Seq::empty()
    }
}

/// Whether the css of an object can be written from `indent`: every property value
/// is a string, a number, a bool or an object, and the indents fit in a `usize`.
pub open spec fn css_writable(map: Seq<(Seq<char>, JsonV)>, indent: nat) -> bool
    decreases map,
{
    indent <= usize::MAX && forall|i: int| 0 <= i < map.len() ==> entry_writable(#[trigger] map[i], indent)
}

/// Whether the css of an entry can be written from `indent`.
pub open spec fn entry_writable(entry: (Seq<char>, JsonV), indent: nat) -> bool
    decreases entry,
{
    match entry.1 {
        JsonV::Object(props) => (props.len() > 0 ==> indent < usize::MAX) && forall|j: int|
            0 <= j < props.len() ==> if (#[trigger] props[j]).1 is Object {
                css_writable(props, indent + 1)
            } else {
                props[j].1 is Str || props[j].1 is Number || props[j].1 is Bool
            },
        _ => true,
    }
}

/// The entries of a writable object are writable.
proof fn lemma_entries_writable(map: Seq<(Seq<char>, JsonV)>, indent: nat)
    requires
        css_writable(map, indent),
    ensures
        indent <= usize::MAX,
        forall|i: int| 0 <= i < map.len() ==> entry_writable(#[trigger] map[i], indent),
{
}

/// The properties of a writable entry are writable.
proof fn lemma_props_writable(entry: (Seq<char>, JsonV), indent: nat)
    requires
        entry_writable(entry, indent),
    ensures
        entry.1 matches JsonV::Object(props) ==> (props.len() > 0 ==> indent < usize::MAX),
        entry.1 matches JsonV::Object(props) ==> forall|j: int|
            0 <= j < props.len() ==> if (#[trigger] props[j]).1 is Object {
                css_writable(props, indent + 1)
            } else {
                props[j].1 is Str || props[j].1 is Number || props[j].1 is Bool
            },
{
}

/// Whether the css of the entries of an object can be written from `indent`.
pub fn css_map_writable(css_map: &Vec<(String, Json)>, indent: usize) -> (r: bool)
    ensures
        r == css_writable(entries_view(css_map@), indent as nat),
    decreases css_map,
{
    let ghost mv = entries_view(css_map@);
    proof {
        lemma_entries_view(css_map@);
    }
    let mut i: usize = 0;
    while i < css_map.len()
        invariant
            i <= css_map@.len(),
            mv == entries_view(css_map@),
            mv.len() == css_map@.len(),
            forall|k: int| 0 <= k < mv.len() ==> #[trigger] mv[k] == (css_map@[k].0@, css_map@[k].1@),
            forall|k: int| 0 <= k < i ==> entry_writable(#[trigger] mv[k], indent as nat),
        decreases css_map@.len() - i,
    {
        if !entry_writable_exec(&css_map[i], indent) {
            assert(!entry_writable(mv[i as int], indent as nat));
            return false;
        }
        i = i + 1;
    }
    true
}

/// Whether the css of an entry can be written from `indent`.
fn entry_writable_exec(entry: &(String, Json), indent: usize) -> (r: bool)
    ensures
        r == entry_writable((entry.0@, entry.1@), indent as nat),
    decreases entry,
{
    props_writable_exec(&entry.1, indent)
}

/// Whether the css of the properties of an entry can be written from `indent`.
#[verifier::loop_isolation(false)]
fn props_writable_exec(style_properties: &Json, indent: usize) -> (r: bool)
    ensures
        r == entry_writable((Seq::empty(), style_properties@), indent as nat),
    decreases style_properties,
{
    match style_properties {
        Json::Object(props) => {
            let ghost pv = entries_view(props@);
            proof {
                lemma_entries_view(props@);
            }
            assert(style_properties@ == JsonV::Object(pv));
            if props.len() > 0 && indent == usize::MAX {
                return false;
            }
            let mut j: usize = 0;
            while j < props.len()
                invariant
                    j <= props@.len(),
                    pv == entries_view(props@),
                    pv.len() == props@.len(),
                    style_properties@ == JsonV::Object(pv),
                    props@.len() > 0 ==> indent < usize::MAX,
                    forall|k: int| 0 <= k < pv.len() ==> #[trigger] pv[k] == (props@[k].0@, props@[k].1@),
                    forall|k: int|
                        0 <= k < j ==> if (#[trigger] pv[k]).1 is Object {
                            css_writable(pv, indent as nat + 1)
                        } else {
                            pv[k].1 is Str || pv[k].1 is Number || pv[k].1 is Bool
                        },
                decreases props@.len() - j,
            {
                let ghost pj = pv[j as int];
                match &props[j].1 {
                    Json::Object(_) => {
                        if !css_map_writable(props, indent + 1) {
                            assert(!(if pj.1 is Object {
                                css_writable(pv, indent as nat + 1)
                            } else {
                                pj.1 is Str || pj.1 is Number || pj.1 is Bool
                            }));
                            return false;
                        }
                    },
                    Json::String(_) | Json::Number(_) | Json::Bool(_) => {},
                    _ => {
                        assert(!(pj.1 is Object) && !(pj.1 is Str || pj.1 is Number || pj.1 is Bool));
                        return false;
                    },
                }
                j = j + 1;
            }
            true
        },
        _ => true,
    }
}

/// Appends the indent of a css line.
fn write_indent_css(buffer: &mut String, n: usize, use_indents: bool)
    ensures
        final(buffer)@ == old(buffer)@ + indent_css(n as nat, use_indents),
{
    if use_indents {
        let mut k: usize = 0;
        while k < n
            invariant
                k <= n,
                buffer@ == old(buffer)@ + spaces(4 * k as nat),
            decreases n - k,
        {
            push_str(buffer, "    ");
            proof {
                reveal_strlit("    ");
            }
            k = k + 1;
            assert(buffer@ =~= old(buffer)@ + spaces(4 * k as nat));
        }
    } else {
        assert(buffer@ =~= old(buffer)@ + indent_css(n as nat, use_indents));
    }
}

/// The model of an optional namespace.
pub open spec fn opt_ns(ns: Option<&str>) -> Option<Seq<char>> {
    match ns {
        Some(n) => Some(n@),
        None => None,
    }
}

/// Appends the text of a property value that is a string, a number or a bool.
fn write_scalar(buffer: &mut String, value: &Json)
    requires
        value@ is Str || value@ is Number || value@ is Bool,
    ensures
        final(buffer)@ == old(buffer)@ + scalar_text(value@),
{
    match value {
        Json::String(s) => push_str(buffer, s.as_str()),
        Json::Number(JsonNumber::PosInt(x)) => push_nat(buffer, *x as u128),
        Json::Number(JsonNumber::NegInt(x)) => push_int(buffer, *x as i128),
        Json::Number(JsonNumber::Float(t)) => push_str(buffer, t.as_str()),
        Json::Bool(b) => {
            if *b {
                push_str(buffer, "true");
            } else {
                push_str(buffer, "false");
            }
        },
        _ => {},
    }
}

/// Appends the css of the property `j` of an object.
fn write_prop(
    buffer: &mut String,
    indent: usize,
    namespace: Option<&str>,
    props: &Vec<(String, Json)>,
    j: usize,
    use_indents: bool,
)
    requires
        j < props@.len(),
        indent < usize::MAX,
        entries_view(props@)[j as int].1 is Object ==> css_writable(
            entries_view(props@),
            indent as nat + 1,
        ),
        !(entries_view(props@)[j as int].1 is Object) ==> (entries_view(props@)[j as int].1 is Str
            || entries_view(props@)[j as int].1 is Number || entries_view(props@)[j as int].1 is Bool),
    ensures
        final(buffer)@ == old(buffer)@ + prop_css(
            indent as nat,
            opt_ns(namespace),
            entries_view(props@),
            j as int,
            use_indents,
        ),
    decreases props, 2nat,
{
    let ghost pv = entries_view(props@);
    proof {
        lemma_entries_view(props@);
    }
    let value = &props[j].1;
    assert(pv[j as int] == (props@[j as int].0@, value@));
    match value {
        Json::Object(_) => {
            let sub = process_css_map(indent + 1, namespace, props, use_indents);
            push_str(buffer, sub.as_str());
            if use_indents {
                push_char(buffer, '\n');
            }
        },
        _ => {
            write_indent_css(buffer, indent + 1, use_indents);
            push_str(buffer, props[j].0.as_str());
            push_str(buffer, ": ");
            write_scalar(buffer, value);
            push_char(buffer, ';');
            if use_indents {
                push_char(buffer, '\n');
            }
        },
    }
    assert(buffer@ =~= old(buffer)@ + prop_css(
        indent as nat,
        opt_ns(namespace),
        pv,
        j as int,
        use_indents,
    ));
}

/// Appends the css of the properties of an entry.
#[verifier::loop_isolation(false)]
fn write_props(
    buffer: &mut String,
    indent: usize,
    namespace: Option<&str>,
    style_properties: &Json,
    use_indents: bool,
)
    requires
        entry_writable((Seq::empty(), style_properties@), indent as nat),
    ensures
        final(buffer)@ == old(buffer)@ + props_css(indent as nat, opt_ns(namespace), style_properties@, use_indents),
    decreases style_properties, 0nat,
{
    match style_properties {
        Json::Object(props) => {
            let ghost pv = entries_view(props@);
            let ghost ns = opt_ns(namespace);
            proof {
                lemma_entries_view(props@);
                lemma_props_writable((Seq::empty(), style_properties@), indent as nat);
            }
            let ghost items = props_items(indent as nat, ns, pv, use_indents);
            assert(style_properties@ == JsonV::Object(pv));
            let mut j: usize = 0;
            while j < props.len()
                invariant
                    j <= props@.len(),
                    buffer@ == old(buffer)@ + concat(items.take(j as int)),
                decreases props@.len() - j,
            {
                let ghost before = buffer@;
                write_prop(buffer, indent, namespace, props, j, use_indents);
                proof {
                    assert(items[j as int] == prop_css(indent as nat, ns, pv, j as int, use_indents));
                    assert(items.take(j + 1) =~= items.take(j as int).push(items[j as int]));
                    lemma_concat_push(items.take(j as int), items[j as int]);
                }
                j = j + 1;
            }
            assert(items.take(props@.len() as int) =~= items);
        },
        _ => {},
    }
}

/// Appends the css of one entry.
fn write_entry(
    buffer: &mut String,
    indent: usize,
    namespace: Option<&str>,
    entry: &(String, Json),
    use_indents: bool,
)
    requires
        entry_writable((entry.0@, entry.1@), indent as nat),
    ensures
        final(buffer)@ == old(buffer)@ + entry_css(indent as nat, opt_ns(namespace), (entry.0@, entry.1@), use_indents),
    decreases entry, 0nat,
{
    write_indent_css(buffer, indent, use_indents);
    match namespace {
        Some(ns) => {
            let selector = selector_namespaced_str(ns, entry.0.as_str());
            push_str(buffer, selector.as_str());
        },
        None => push_str(buffer, entry.0.as_str()),
    }
    if use_indents {
        push_str(buffer, " {\n");
    }
    let ghost head = indent_css(indent as nat, use_indents) + selector_text(opt_ns(namespace), entry.0@) + (if use_indents {
        " {\n"@
    } else {
        Seq::empty()
    });
    assert(buffer@ =~= old(buffer)@ + head);
    let ghost mid = buffer@;
    write_props(buffer, indent, namespace, &entry.1, use_indents);
    let ghost body = props_css(indent as nat, opt_ns(namespace), entry.1@, use_indents);
    assert(buffer@ == mid + body);
    write_indent_css(buffer, indent, use_indents);
    push_char(buffer, '}');
    let ghost tail = indent_css(indent as nat, use_indents) + seq!['}'];
    assert(buffer@ =~= old(buffer)@ + head + body + tail);
    assert(entry_css(indent as nat, opt_ns(namespace), (entry.0@, entry.1@), use_indents) == head + body + tail);
}

/// The css of the entries of an object at `indent`.
#[verifier::rlimit(40)]
pub fn process_css_map(
    indent: usize,
    namespace: Option<&str>,
    css_map: &Vec<(String, Json)>,
    use_indents: bool,
) -> (r: String)
    requires
        css_writable(entries_view(css_map@), indent as nat),
    ensures
        r@ == css_map_text(indent as nat, opt_ns(namespace), entries_view(css_map@), use_indents),
    decreases css_map, 1nat,
{
    let ghost mv = entries_view(css_map@);
    let ghost sep = new_line(use_indents);
    let ghost items = entries_css(indent as nat, opt_ns(namespace), mv, use_indents);
    proof {
        lemma_entries_view(css_map@);
        lemma_entries_writable(mv, indent as nat);
    }
    let mut buffer = String::new();
    let mut i: usize = 0;
    while i < css_map.len()
        invariant
            i <= css_map@.len(),
            mv == entries_view(css_map@),
            mv.len() == css_map@.len(),
            forall|k: int| 0 <= k < mv.len() ==> entry_writable(#[trigger] mv[k], indent as nat),
            forall|k: int| 0 <= k < mv.len() ==> #[trigger] mv[k] == (css_map@[k].0@, css_map@[k].1@),
            items == entries_css(indent as nat, opt_ns(namespace), mv, use_indents),
            sep == new_line(use_indents),
            buffer@ == join(items.take(i as int), sep),
        decreases css_map@.len() - i,
    {
        let ghost before = buffer@;
        if i > 0 && use_indents {
            push_char(&mut buffer, '\n');
        }
        assert(entry_writable(mv[i as int], indent as nat));
        write_entry(&mut buffer, indent, namespace, &css_map[i], use_indents);
        proof {
            assert(items.take(i + 1) =~= items.take(i as int).push(items[i as int]));
            if i > 0 {
                lemma_join_push(items.take(i as int), sep, items[i as int]);
            } else {
                assert(join(items.take(1), sep) =~= items[0]);
            }
        }
        i = i + 1;
        assert(buffer@ =~= join(items.take(i as int), sep));
    }
    assert(items.take(css_map@.len() as int) =~= items);
    buffer
}

/// The css of a json object, its class selectors put in the namespace if there is
/// one; nothing for a json value that is not an object.
pub fn process_css(namespace: Option<&str>, json: &Json, use_indents: bool) -> (r: String)
    requires
        json@ matches JsonV::Object(m) ==> css_writable(m, 0),
    ensures
        r@ == match json@ {
            JsonV::Object(m) => css_map_text(0, opt_ns(namespace), m, use_indents),
            _ => Seq::empty(),
        },
{
    match json {
        Json::Object(css) => process_css_map(0, namespace, css, use_indents),
        _ => String::new(),
    }
}

/// The css of a json object, with new lines and indents.
pub fn jss(json: &Json) -> (r: String)
    requires
        json@ matches JsonV::Object(m) ==> css_writable(m, 0),
    ensures
        r@ == match json@ {
            JsonV::Object(m) => css_map_text(0, None, m, true),
            _ => Seq::empty(),
        },
{
    process_css(None, json, true)
}

/// The css of a json object with its class selectors put in `namespace`, with new
/// lines and indents.
pub fn jss_ns(namespace: &str, json: &Json) -> (r: String)
    requires
        json@ matches JsonV::Object(m) ==> css_writable(m, 0),
    ensures
        r@ == match json@ {
            JsonV::Object(m) => css_map_text(0, Some(namespace@), m, true),
            _ => Seq::empty(),
        },
{
    process_css(Some(namespace), json, true)
}

} // verus!

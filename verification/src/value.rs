//! Primitive values that html attributes and styles can hold.
use vstd::prelude::*;
use vstd::std_specs::cmp::PartialEqSpecImpl;
use crate::text::{join, lemma_join_push, int_text, nat_text, push_str, push_char, push_int, push_nat, str_eq};

verus! {

/// Wraps the primitive variants used as values in html, such as
/// `checked(bool)`, `name(String)` or `tab_index(i32)`.
pub enum Value {
    /// bool value
    Bool(bool),
    /// &'static str value
    Str(&'static str),
    /// String value
    String(String),
    /// a vec of values
    Vec(Vec<Value>),
    /// u8 value
    U8(u8),
    /// u16 value
    U16(u16),
    /// u32 value
    U32(u32),
    /// u64 value
    U64(u64),
    /// usize value
    Usize(usize),
    /// u128 value
    U128(u128),
    /// i8 value
    I8(i8),
    /// i16 value
    I16(i16),
    /// i32 value
    I32(i32),
    /// i64 value
    I64(i64),
    /// i128 value
    I128(i128),
    /// isize value
    Isize(isize),
}

/// The mathematical model of a [`Value`]: both string variants become `Text`.
pub enum ValueV {
    Bool(bool),
    Text(Seq<char>),
    List(Seq<ValueV>),
    U8(u8),
    U16(u16),
    U32(u32),
    U64(u64),
    Usize(usize),
    U128(u128),
    I8(i8),
    I16(i16),
    I32(i32),
    I64(i64),
    I128(i128),
    Isize(isize),
}

/// The model of a value.
pub open spec fn value_view(v: &Value) -> ValueV
    decreases v,
{
    match v {
        Value::Bool(b) => ValueV::Bool(*b),
        Value::Str(s) => ValueV::Text(s@),
        Value::String(s) => ValueV::Text(s@),
        Value::Vec(vs) => ValueV::List(values_view(vs@)),
        Value::U8(x) => ValueV::U8(*x),
        Value::U16(x) => ValueV::U16(*x),
        Value::U32(x) => ValueV::U32(*x),
        Value::U64(x) => ValueV::U64(*x),
        Value::Usize(x) => ValueV::Usize(*x),
        Value::U128(x) => ValueV::U128(*x),
        Value::I8(x) => ValueV::I8(*x),
        Value::I16(x) => ValueV::I16(*x),
        Value::I32(x) => ValueV::I32(*x),
        Value::I64(x) => ValueV::I64(*x),
        Value::I128(x) => ValueV::I128(*x),
        Value::Isize(x) => ValueV::Isize(*x),
    }
}

/// The models of a sequence of values.
pub open spec fn values_view(vs: Seq<Value>) -> Seq<ValueV>
    decreases vs,
{
    Seq::new(
        vs.len(),
        |i: int|
            if 0 <= i < vs.len() {
                value_view(&vs[i])
            } else {
                ValueV::Bool(false)
            },
    )
}

/// Indexing the models of a sequence of values gives the model of the value there.
pub proof fn lemma_values_view(vs: Seq<Value>)
    ensures
        values_view(vs).len() == vs.len(),
        forall|k: int| 0 <= k < vs.len() ==> #[trigger] values_view(vs)[k] == value_view(&vs[k]),
{
}

/// Two sequences of values whose items have pairwise equal models have equal models.
pub proof fn lemma_values_view_eq(a: Seq<Value>, b: Seq<Value>)
    requires
        a.len() == b.len(),
        forall|k: int| 0 <= k < a.len() ==> value_view(&a[k]) == value_view(&b[k]),
    ensures
        values_view(a) == values_view(b),
{
    lemma_values_view(a);
    lemma_values_view(b);
    assert(values_view(a) =~= values_view(b));
}

impl View for Value {
    type V = ValueV;

    open spec fn view(&self) -> ValueV {
        value_view(self)
    }
}

/// The text that a value displays as; a list shows its items separated by a space.
pub open spec fn value_text(v: ValueV) -> Seq<char>
    decreases v,
{
    match v {
        ValueV::Bool(b) => if b {
            seq!['t', 'r', 'u', 'e']
        } else {
            seq!['f', 'a', 'l', 's', 'e']
        },
        ValueV::Text(t) => t,
        ValueV::List(vs) => join(list_texts(vs), seq![' ']),
        ValueV::U8(x) => int_text(x as int),
        ValueV::U16(x) => int_text(x as int),
        ValueV::U32(x) => int_text(x as int),
        ValueV::U64(x) => int_text(x as int),
        ValueV::Usize(x) => int_text(x as int),
        ValueV::U128(x) => int_text(x as int),
        ValueV::I8(x) => int_text(x as int),
        ValueV::I16(x) => int_text(x as int),
        ValueV::I32(x) => int_text(x as int),
        ValueV::I64(x) => int_text(x as int),
        ValueV::I128(x) => int_text(x as int),
        ValueV::Isize(x) => int_text(x as int),
    }
}

/// The texts of the items of a list value.
pub open spec fn list_texts(vs: Seq<ValueV>) -> Seq<Seq<char>>
    decreases vs,
{
    Seq::new(
        vs.len(),
        |i: int|
            if 0 <= i < vs.len() {
                value_text(vs[i])
            } else {
                Seq::empty()
            },
    )
}

/// The number that a numeric value stands for, if it is numeric.
pub open spec fn value_number(v: ValueV) -> Option<int> {
    match v {
        ValueV::U8(x) => Some(x as int),
        ValueV::U16(x) => Some(x as int),
        ValueV::U32(x) => Some(x as int),
        ValueV::U64(x) => Some(x as int),
        ValueV::Usize(x) => Some(x as int),
        ValueV::U128(x) => Some(x as int),
        ValueV::I8(x) => Some(x as int),
        ValueV::I16(x) => Some(x as int),
        ValueV::I32(x) => Some(x as int),
        ValueV::I64(x) => Some(x as int),
        ValueV::I128(x) => Some(x as int),
        ValueV::Isize(x) => Some(x as int),
        _ => None,
    }
}

impl Value {
    /// Returns the text if this value is a `Str` or `String` variant.
    /// Other variants are not converted.
    pub fn as_str(&self) -> (r: Option<&str>)
        ensures
            r matches Some(s) ==> self@ == ValueV::Text(s@),
            r is None ==> !(self@ is Text),
    {
        match self {
            Value::String(v) => Some(v.as_str()),
            Value::Str(v) => Some(*v),
            _ => None,
        }
    }

    /// Returns the bool if this is a `Bool` variant.
    pub fn as_bool(&self) -> (r: Option<bool>)
        ensures
            r == (match self@ {
                ValueV::Bool(b) => Some(b),
                _ => None,
            }),
    {
        match self {
            Value::Bool(v) => Some(*v),
            _ => None,
        }
    }

    /// Converts a numeric value to `i32`, truncating to its low 32 bits as `as` does.
    pub fn as_i32(&self) -> (r: Option<i32>)
        ensures
            r == (match value_number(self@) {
                Some(n) => Some(n as i32),
                None => None,
            }),
    {
        match self {
            Value::U8(v) => Some(*v as i32),
            Value::U16(v) => Some(*v as i32),
            Value::U32(v) => Some(*v as i32),
            Value::U64(v) => Some(*v as i32),
            Value::U128(v) => Some(*v as i32),
            Value::Usize(v) => Some(*v as i32),
            Value::I8(v) => Some(*v as i32),
            Value::I16(v) => Some(*v as i32),
            Value::I32(v) => Some(*v),
            Value::I64(v) => Some(*v as i32),
            Value::I128(v) => Some(*v as i32),
            Value::Isize(v) => Some(*v as i32),
            _ => None,
        }
    }

    /// A copy of this value with the same model.
    #[verifier::loop_isolation(false)]
    pub fn duplicate(&self) -> (r: Value)
        ensures
            r@ == self@,
        decreases self,
    {
        match self {
            Value::Bool(v) => Value::Bool(*v),
            Value::Str(v) => Value::Str(*v),
            Value::String(v) => Value::String(v.clone()),
            Value::Vec(vs) => {
                let mut out: Vec<Value> = Vec::new();
                let mut i: usize = 0;
                while i < vs.len()
                    invariant
                        i <= vs@.len(),
                        out@.len() == i,
                        forall|j: int| 0 <= j < i ==> #[trigger] value_view(&out@[j]) == value_view(&vs@[j]),
                    decreases vs@.len() - i,
                {
                    out.push(vs[i].duplicate());
                    i = i + 1;
                }
                let ghost out_view = out@;
                let r = Value::Vec(out);
                assert(r@ == self@) by {
                    lemma_values_view_eq(out_view, vs@);
                }
                r
            },
            Value::U8(v) => Value::U8(*v),
            Value::U16(v) => Value::U16(*v),
            Value::U32(v) => Value::U32(*v),
            Value::U64(v) => Value::U64(*v),
            Value::Usize(v) => Value::Usize(*v),
            Value::U128(v) => Value::U128(*v),
            Value::I8(v) => Value::I8(*v),
            Value::I16(v) => Value::I16(*v),
            Value::I32(v) => Value::I32(*v),
            Value::I64(v) => Value::I64(*v),
            Value::I128(v) => Value::I128(*v),
            Value::Isize(v) => Value::Isize(*v),
        }
    }

    /// If this is a `Vec` variant, appends the new value;
    /// otherwise turns this value into a `Vec` of itself followed by the new value.
    pub fn append(&mut self, new_value: Value)
        ensures
            final(self)@ == (match old(self)@ {
                ValueV::List(vs) => ValueV::List(vs.push(new_value@)),
                _ => ValueV::List(seq![old(self)@, new_value@]),
            }),
    {
        if let Value::Vec(values) = self {
            let ghost before = values@;
            values.push(new_value);
            assert(values_view(values@) =~= values_view(before).push(new_value@));
        } else {
            let first = self.duplicate();
            let mut items: Vec<Value> = Vec::new();
            items.push(first);
            items.push(new_value);
            *self = Value::Vec(items);
            assert(values_view(items@) =~= seq![old(self)@, new_value@]);
        }
    }

    /// Appends the displayed text of this value to `buffer`.
    #[verifier::loop_isolation(false)]
    pub fn write_text(&self, buffer: &mut String)
        ensures
            final(buffer)@ == old(buffer)@ + value_text(self@),
        decreases self,
    {
        match self {
            Value::Bool(b) => {
                assert(self@ == ValueV::Bool(*b));
                if *b {
                    push_str(buffer, "true");
                    proof {
                        reveal_strlit("true");
                        assert(buffer@ =~= old(buffer)@ + seq!['t', 'r', 'u', 'e']);
                        assert(value_text(ValueV::Bool(true)) == seq!['t', 'r', 'u', 'e']);
                        assert(value_text(self@) == seq!['t', 'r', 'u', 'e']);
                    }
                } else {
                    push_str(buffer, "false");
                    proof {
                        reveal_strlit("false");
                        assert(buffer@ =~= old(buffer)@ + seq!['f', 'a', 'l', 's', 'e']);
                        assert(value_text(self@) == seq!['f', 'a', 'l', 's', 'e']);
                    }
                }
            },
            Value::Str(s) => push_str(buffer, s),
            Value::String(s) => push_str(buffer, s.as_str()),
            Value::Vec(vs) => {
                let ghost texts = list_texts(values_view(vs@));
                let mut i: usize = 0;
                while i < vs.len()
                    invariant
                        i <= vs@.len(),
                        texts == list_texts(values_view(vs@)),
                        buffer@ == old(buffer)@ + join(texts.take(i as int), seq![' ']),
                    decreases vs@.len() - i,
                {
                    proof {
                        assert(texts[i as int] == value_text(value_view(&vs@[i as int])));
                        assert(texts.take(i + 1) =~= texts.take(i as int).push(texts[i as int]));
                        if i > 0 {
                            lemma_join_push(texts.take(i as int), seq![' '], texts[i as int]);
                        } else {
                            assert(join(texts.take(1), seq![' ']) =~= texts[0]);
                        }
                    }
                    if i > 0 {
                        push_char(buffer, ' ');
                    }
                    vs[i].write_text(buffer);
                    i = i + 1;
                    assert(buffer@ =~= old(buffer)@ + join(texts.take(i as int), seq![' ']));
                }
                assert(texts.take(vs@.len() as int) =~= texts);
            },
            Value::U8(x) => push_int(buffer, *x as i128),
            Value::U16(x) => push_int(buffer, *x as i128),
            Value::U32(x) => push_int(buffer, *x as i128),
            Value::U64(x) => push_int(buffer, *x as i128),
            Value::Usize(x) => push_int(buffer, *x as i128),
            Value::U128(x) => {
                push_nat(buffer, *x);
                assert(int_text(*x as int) == nat_text(*x as nat));
            },
            Value::I8(x) => push_int(buffer, *x as i128),
            Value::I16(x) => push_int(buffer, *x as i128),
            Value::I32(x) => push_int(buffer, *x as i128),
            Value::I64(x) => push_int(buffer, *x as i128),
            Value::I128(x) => push_int(buffer, *x),
            Value::Isize(x) => push_int(buffer, *x as i128),
        }
    }

    /// The displayed text of this value.
    pub fn to_string(&self) -> (r: String)
        ensures
            r@ == value_text(self@),
    {
        let mut s = String::new();
        self.write_text(&mut s);
        assert(s@ =~= value_text(self@));
        s
    }
}

impl Value {
    /// Whether two values have the same model (see the `PartialEq` impl).
    #[verifier::loop_isolation(false)]
    pub fn same_as(&self, other: &Value) -> (r: bool)
        ensures
            r == (self@ == other@),
        decreases self,
    {
        match (self, other) {
            (Value::Bool(a), Value::Bool(b)) => *a == *b,
            (Value::Str(_), _) | (Value::String(_), _) => {
                let a = self.as_str();
                let b = other.as_str();
                match (a, b) {
                    (Some(x), Some(y)) => str_eq(x, y),
                    _ => false,
                }
            },
            (Value::Vec(a), Value::Vec(b)) => {
                if a.len() != b.len() {
                    assert(values_view(a@).len() != values_view(b@).len());
                    return false;
                }
                let mut i: usize = 0;
                while i < a.len()
                    invariant
                        a@.len() == b@.len(),
                        i <= a@.len(),
                        forall|j: int| 0 <= j < i ==> #[trigger] value_view(&a@[j]) == value_view(&b@[j]),
                    decreases a@.len() - i,
                {
                    if !a[i].same_as(&b[i]) {
                        assert(values_view(a@)[i as int] != values_view(b@)[i as int]);
                        return false;
                    }
                    i = i + 1;
                }
                proof { lemma_values_view_eq(a@, b@); }
                true
            },
            (Value::U8(a), Value::U8(b)) => *a == *b,
            (Value::U16(a), Value::U16(b)) => *a == *b,
            (Value::U32(a), Value::U32(b)) => *a == *b,
            (Value::U64(a), Value::U64(b)) => *a == *b,
            (Value::Usize(a), Value::Usize(b)) => *a == *b,
            (Value::U128(a), Value::U128(b)) => *a == *b,
            (Value::I8(a), Value::I8(b)) => *a == *b,
            (Value::I16(a), Value::I16(b)) => *a == *b,
            (Value::I32(a), Value::I32(b)) => *a == *b,
            (Value::I64(a), Value::I64(b)) => *a == *b,
            (Value::I128(a), Value::I128(b)) => *a == *b,
            (Value::Isize(a), Value::Isize(b)) => *a == *b,
            _ => false,
        }
    }
}

/// Two values are equal when their models are: the same variant holding the same
/// number or flag, two texts (of either string variant) with the same characters,
/// or two lists of pairwise equal values.
impl PartialEq for Value {
    fn eq(&self, other: &Self) -> (r: bool) {
        self.same_as(other)
    }
}

impl PartialEqSpecImpl for Value {
    open spec fn obeys_eq_spec() -> bool {
        true
    }

    open spec fn eq_spec(&self, other: &Value) -> bool {
        self@ == other@
    }
}

/// Things that can become a [`Value`]: the integers, `bool`, strings and values.
pub trait ToValue {
    /// The model of the value that `self` becomes.
    spec fn value_spec(&self) -> ValueV;

    /// The value that `self` becomes.
    fn to_value(self) -> (r: Value)
        ensures
            r@ == self.value_spec(),
    ;
}

impl ToValue for Value {
    open spec fn value_spec(&self) -> ValueV {
        self@
    }

    fn to_value(self) -> (r: Value) {
        self
    }
}

impl ToValue for bool {
    open spec fn value_spec(&self) -> ValueV {
        ValueV::Bool(*self)
    }

    fn to_value(self) -> (r: Value) {
        Value::Bool(self)
    }
}

impl ToValue for &'static str {
    open spec fn value_spec(&self) -> ValueV {
        ValueV::Text(self@)
    }

    fn to_value(self) -> (r: Value) {
        Value::Str(self)
    }
}

impl ToValue for String {
    open spec fn value_spec(&self) -> ValueV {
        ValueV::Text(self@)
    }

    fn to_value(self) -> (r: Value) {
        Value::String(self)
    }
}

impl ToValue for u8 {
    open spec fn value_spec(&self) -> ValueV {
        ValueV::U8(*self)
    }

    fn to_value(self) -> (r: Value) {
        Value::U8(self)
    }
}

impl ToValue for u16 {
    open spec fn value_spec(&self) -> ValueV {
        ValueV::U16(*self)
    }

    fn to_value(self) -> (r: Value) {
        Value::U16(self)
    }
}

impl ToValue for u32 {
    open spec fn value_spec(&self) -> ValueV {
        ValueV::U32(*self)
    }

    fn to_value(self) -> (r: Value) {
        Value::U32(self)
    }
}

impl ToValue for u64 {
    open spec fn value_spec(&self) -> ValueV {
        ValueV::U64(*self)
    }

    fn to_value(self) -> (r: Value) {
        Value::U64(self)
    }
}

impl ToValue for usize {
    open spec fn value_spec(&self) -> ValueV {
        ValueV::Usize(*self)
    }

    fn to_value(self) -> (r: Value) {
        Value::Usize(self)
    }
}

impl ToValue for u128 {
    open spec fn value_spec(&self) -> ValueV {
        ValueV::U128(*self)
    }

    fn to_value(self) -> (r: Value) {
        Value::U128(self)
    }
}

impl ToValue for i8 {
    open spec fn value_spec(&self) -> ValueV {
        ValueV::I8(*self)
    }

    fn to_value(self) -> (r: Value) {
        Value::I8(self)
    }
}

impl ToValue for i16 {
    open spec fn value_spec(&self) -> ValueV {
        ValueV::I16(*self)
    }

    fn to_value(self) -> (r: Value) {
        Value::I16(self)
    }
}

impl ToValue for i32 {
    open spec fn value_spec(&self) -> ValueV {
        ValueV::I32(*self)
    }

    fn to_value(self) -> (r: Value) {
        Value::I32(self)
    }
}

impl ToValue for i64 {
    open spec fn value_spec(&self) -> ValueV {
        ValueV::I64(*self)
    }

    fn to_value(self) -> (r: Value) {
        Value::I64(self)
    }
}

impl ToValue for i128 {
    open spec fn value_spec(&self) -> ValueV {
        ValueV::I128(*self)
    }

    fn to_value(self) -> (r: Value) {
        Value::I128(self)
    }
}

impl ToValue for isize {
    open spec fn value_spec(&self) -> ValueV {
        ValueV::Isize(*self)
    }

    fn to_value(self) -> (r: Value) {
        Value::Isize(self)
    }
}

} // verus!

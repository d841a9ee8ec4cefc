//! Callbacks: closures that can be stored in the virtual dom and called later,
//! such as the event listeners attached to an element.
use vstd::prelude::*;
use vstd::std_specs::cmp::PartialEqSpecImpl;
use vstd::std_specs::convert::FromSpecImpl;
use std::rc::Rc;

verus! {

/// A closure shared by reference counting.
///
/// Verus cannot hold a `dyn Fn` in a verified type, so this type is opaque to the
/// verifier; [`Callback`] records beside it what the closure requires and ensures.
#[verifier::external_body]
#[verifier::reject_recursive_types(IN)]
#[verifier::reject_recursive_types(OUT)]
struct SharedFn<IN, OUT> {
    func: Rc<dyn Fn(IN) -> OUT>,
}

/// Puts a closure behind a reference count (std `Rc::new`). The result is opaque.
#[verifier::external_body]
fn share<IN, OUT, F: Fn(IN) -> OUT + 'static>(func: F) -> SharedFn<IN, OUT> {
    SharedFn { func: Rc::new(func) }
}

/// Another handle to the same closure (std `Rc::clone`). The result is opaque.
#[verifier::external_body]
fn share_again<IN, OUT>(shared: &SharedFn<IN, OUT>) -> SharedFn<IN, OUT> {
    SharedFn { func: Rc::clone(&shared.func) }
}

/// A shared closure from `IN` to `OUT`, with what it requires of an input and what it
/// ensures of an output. Only the constructors of this module set them: the
/// recorded relations are those of the closure that was wrapped, and a handle made
/// by [`Callback::duplicate`] shares closure and relations.
#[verifier::reject_recursive_types(IN)]
#[verifier::reject_recursive_types(OUT)]
pub struct Callback<IN, OUT> {
    func: SharedFn<IN, OUT>,
    pre: Ghost<spec_fn(IN) -> bool>,
    post: Ghost<spec_fn(IN, OUT) -> bool>,
}

impl<IN, OUT> Callback<IN, OUT> {
    /// Whether the closure may be called with `input` (its precondition).
    pub closed spec fn accepts(&self, input: IN) -> bool {
        (self.pre@)(input)
    }

    /// Whether the closure may give `output` for `input` (its postcondition).
    pub closed spec fn gives(&self, input: IN, output: OUT) -> bool {
        (self.post@)(input, output)
    }

    /// Calls the closure with `input` (std `Fn::call` through the `Rc`). Its
    /// contract: on an input that the closure's precondition admits, the output is one
    /// that its postcondition admits; these are the relations that the constructor
    /// recorded for the closure it wrapped.
    #[verifier::external_body]
    pub fn emit(&self, input: IN) -> (r: OUT)
        requires
            self.accepts(input),
        ensures
            self.gives(input, r),
    {
        (self.func.func)(input)
    }

    /// Another handle to the same closure.
    pub fn duplicate(&self) -> (r: Self)
        ensures
            forall|x: IN| #[trigger] r.accepts(x) == self.accepts(x),
            forall|x: IN, y: OUT| #[trigger] r.gives(x, y) == self.gives(x, y),
            takes_of(r) == takes_of(*self),
            maps_of(r) == maps_of(*self),
    {
        let r = Callback { func: share_again(&self.func), pre: Ghost(self.pre@), post: Ghost(self.post@) };
        assert(takes_of(r) =~= takes_of(*self));
        assert(maps_of(r) =~= maps_of(*self));
        r
    }
}

impl<IN, OUT> Callback<IN, OUT> {
    /// Wraps a closure: the callback requires and ensures what the closure does.
    pub fn from_fn<F: Fn(IN) -> OUT + 'static>(func: F) -> (r: Self)
        ensures
            forall|x: IN| #[trigger] r.accepts(x) == func.requires((x,)),
            forall|x: IN, y: OUT| #[trigger] r.gives(x, y) == func.ensures((x,), y),
    {
        let ghost pre = |x: IN| func.requires((x,));
        let ghost post = |x: IN, y: OUT| func.ensures((x,), y);
        Callback { func: share(func), pre: Ghost(pre), post: Ghost(post) }
    }
}

/// What a callback accepts, as a predicate.
pub open spec fn takes_of<A, B>(c: Callback<A, B>) -> spec_fn(A) -> bool {
    |o: A| c.accepts(o)
}

/// What a callback gives for an input, as a relation.
pub open spec fn maps_of<A, B>(c: Callback<A, B>) -> spec_fn(A, B) -> bool {
    |o: A, z: B| c.gives(o, z)
}

/// What a closure requires of its argument, as a predicate.
pub open spec fn requires_of<A, B, F: Fn(A) -> B>(f: F) -> spec_fn(A) -> bool {
    |o: A| f.requires((o,))
}

/// What a closure ensures of its result, as a relation.
pub open spec fn ensures_of<A, B, F: Fn(A) -> B>(f: F) -> spec_fn(A, B) -> bool {
    |o: A, z: B| f.ensures((o,), z)
}

/// A callback wrapping a closure takes and gives what the closure does.
pub proof fn lemma_from_fn_relations<A, B, F: Fn(A) -> B>(c: Callback<A, B>, f: F)
    requires
        forall|x: A| #[trigger] c.accepts(x) == f.requires((x,)),
        forall|x: A, y: B| #[trigger] c.gives(x, y) == f.ensures((x,), y),
    ensures
        takes_of(c) == requires_of(f),
        maps_of(c) == ensures_of(f),
{
    assert(takes_of(c) =~= requires_of(f));
    assert(maps_of(c) =~= ensures_of(f));
}

/// What mapping the outputs of `l` by a mapper (what it takes, and what it makes of
/// what it takes) gives `m`: when the mapper takes every output, `m` accepts every
/// input that `l` accepts; and every output of `m` is what the mapper makes of an
/// output of `l` for the same input.
pub open spec fn callback_mapped<IN, OUT, OUT2>(
    l: Callback<IN, OUT>,
    m: Callback<IN, OUT2>,
    takes: spec_fn(OUT) -> bool,
    maps: spec_fn(OUT, OUT2) -> bool,
) -> bool {
    &&& (forall|o: OUT| #[trigger] takes(o)) ==> (forall|x: IN| l.accepts(x) ==> #[trigger] m.accepts(x))
    &&& forall|x: IN, z: OUT2| #[trigger] m.gives(x, z) ==> exists|y: OUT| l.gives(x, y) && maps(y, z)
}

impl<IN: 'static, OUT: 'static> Callback<IN, OUT> {
    /// A callback that feeds the output of this one to `cb`: on an input that this
    /// callback accepts (and when `cb` accepts every output), it gives `cb`'s output
    /// on one of this callback's outputs.
    pub fn map_msg<F: Fn(OUT) -> OUT2 + Clone + 'static, OUT2: 'static>(self, cb: F) -> (r: Callback<
        IN,
        OUT2,
    >)
        ensures
            callback_mapped(self, r, |o: OUT| cb.requires((o,)), |o: OUT, z: OUT2| cb.ensures((o,), z)),
    {
        let this = self;
        let ghost first = this;
        let ghost takes = |o: OUT| cb.requires((o,));
        let ghost maps = |o: OUT, z: OUT2| cb.ensures((o,), z);
        let composed = move |input: IN| -> (z: OUT2)
            requires
                first.accepts(input),
                forall|o: OUT| #[trigger] takes(o),
            ensures
                exists|y: OUT| first.gives(input, y) && maps(y, z),
        {
            let y = this.emit(input);
            let ghost yv = y;
            assert(takes(yv));
            let z = cb(y);
            assert(first.gives(input, yv) && maps(yv, z));
            z
        };
        let r = Callback::from_fn(composed);
        assert forall|x: IN, z: OUT2| #[trigger] r.gives(x, z) implies exists|y: OUT| first.gives(x, y)
            && cb.ensures((y,), z) by {
            assert(composed.ensures((x,), z));
        }
        r
    }

    /// A callback that feeds the output of this one to the callback `cb`: on an input
    /// that this callback accepts (and when `cb` accepts every output), it gives
    /// `cb`'s output on one of this callback's outputs.
    pub fn map_callback<MSG2: 'static>(self, cb: Callback<OUT, MSG2>) -> (r: Callback<IN, MSG2>)
        ensures
            callback_mapped(self, r, |o: OUT| cb.accepts(o), |o: OUT, z: MSG2| cb.gives(o, z)),
    {
        let this = self;
        let next = cb;
        let ghost first = this;
        let ghost takes = |o: OUT| cb.accepts(o);
        let ghost maps = |o: OUT, z: MSG2| cb.gives(o, z);
        let composed = move |input: IN| -> (z: MSG2)
            requires
                first.accepts(input),
                forall|o: OUT| #[trigger] takes(o),
            ensures
                exists|y: OUT| first.gives(input, y) && maps(y, z),
        {
            let y = this.emit(input);
            let ghost yv = y;
            assert(takes(yv));
            let z = next.emit(y);
            assert(first.gives(input, yv) && maps(yv, z));
            z
        };
        let r = Callback::from_fn(composed);
        assert forall|x: IN, z: MSG2| #[trigger] r.gives(x, z) implies exists|y: OUT| first.gives(x, y)
            && maps(y, z) by {
            assert(composed.ensures((x,), z));
        }
        r
    }
}

/// A callback of a closure. `From::from` cannot carry the relations that
/// [`Callback::from_fn`] states, so nothing is stated of its result here.
impl<IN, OUT, F: Fn(IN) -> OUT + 'static> From<F> for Callback<IN, OUT> {
    fn from(func: F) -> (r: Self) {
        Callback::from_fn(func)
    }
}

impl<IN, OUT, F: Fn(IN) -> OUT + 'static> FromSpecImpl<F> for Callback<IN, OUT> {
    open spec fn obeys_from_spec() -> bool {
        false
    }

    open spec fn from_spec(v: F) -> Self {
        vstd::pervasive::arbitrary()
    }
}

impl<IN, OUT> Clone for Callback<IN, OUT> {
    fn clone(&self) -> Self {
        self.duplicate()
    }
}

/// Two callbacks of the same input and output types are equal: closures cannot be
/// compared, so callbacks are told apart only by those two types (as the type-id
/// comparison of event callbacks does). Comparing by the identity of the shared
/// closure instead would make the result depend on where it was allocated.
impl<IN, OUT> PartialEq for Callback<IN, OUT> {
    fn eq(&self, other: &Self) -> (r: bool) {
        true
    }
}

impl<IN, OUT> PartialEqSpecImpl for Callback<IN, OUT> {
    open spec fn obeys_eq_spec() -> bool {
        true
    }

    open spec fn eq_spec(&self, other: &Self) -> bool {
        true
    }
}

} // verus!

//! Effects of an update of a component: messages for the component itself on its
//! next update, and messages for the parent component.
use vstd::prelude::*;
use crate::modifier::{Modifier, ModifierV, default_modifier};

verus! {

/// The messages that an update of a component gives: `local` ones, which the
/// component itself updates with next, and `external` ones, for its parent.
pub struct Effects<MSG, XMSG> {
    /// Messages that will be executed locally in the Component
    pub local: Vec<MSG>,
    /// effects that will be executed on the parent Component which instantiate
    /// this component
    pub external: Vec<XMSG>,
    /// the settings of these effects
    pub modifier: Modifier,
}

/// The local messages of a sequence of effects, one after the other.
pub open spec fn all_local<MSG, XMSG>(effects: Seq<Effects<MSG, XMSG>>) -> Seq<MSG>
    decreases effects.len(),
{
    if effects.len() == 0 {
        Seq::empty()
    } else {
        all_local(effects.drop_last()) + effects.last().local@
    }
}

/// The external messages of a sequence of effects, one after the other.
pub open spec fn all_external<MSG, XMSG>(effects: Seq<Effects<MSG, XMSG>>) -> Seq<XMSG>
    decreases effects.len(),
{
    if effects.len() == 0 {
        Seq::empty()
    } else {
        all_external(effects.drop_last()) + effects.last().external@
    }
}

impl<MSG, XMSG> Effects<MSG, XMSG> {
    /// Effects of `local` and `external` messages, with the default settings.
    pub fn new(local: Vec<MSG>, external: Vec<XMSG>) -> (r: Self)
        ensures
            r.local@ == local@,
            r.external@ == external@,
            r.modifier@ == default_modifier(),
    {
        Effects { local, external, modifier: Modifier::default() }
    }

    /// The local and the external messages.
    pub fn unzip(self) -> (r: (Vec<MSG>, Vec<XMSG>))
        ensures
            r.0@ == self.local@,
            r.1@ == self.external@,
    {
        let Effects { local, external, modifier: _ } = self;
        (local, external)
    }

    /// Effects of `local` messages only.
    pub fn with_local(local: Vec<MSG>) -> (r: Self)
        ensures
            r.local@ == local@,
            r.external@.len() == 0,
            r.modifier@ == default_modifier(),
    {
        Effects { local, external: Vec::new(), modifier: Modifier::default() }
    }

    /// Effects of `external` messages only.
    pub fn with_external(external: Vec<XMSG>) -> (r: Self)
        ensures
            r.local@.len() == 0,
            r.external@ == external@,
            r.modifier@ == default_modifier(),
    {
        Effects { local: Vec::new(), external, modifier: Modifier::default() }
    }

    /// No messages.
    pub fn none() -> (r: Self)
        ensures
            r.local@.len() == 0,
            r.external@.len() == 0,
            r.modifier@ == default_modifier(),
    {
        Effects { local: Vec::new(), external: Vec::new(), modifier: Modifier::default() }
    }

    /// These effects with the local messages mapped by `f`; the external messages stay.
    pub fn map_msg<F: Fn(MSG) -> MSG2, MSG2>(self, f: F) -> (r: Effects<MSG2, XMSG>)
        requires
            forall|i: int| 0 <= i < self.local@.len() ==> f.requires((self.local@[i],)),
        ensures
            r.local@.len() == self.local@.len(),
            forall|i: int| 0 <= i < self.local@.len() ==> f.ensures((self.local@[i],), #[trigger] r.local@[i]),
            r.external@ == self.external@,
            r.modifier@ == self.modifier@,
    {
        let Effects { local, external, modifier } = self;
        let mapped = map_all(local, &f);
        Effects { local: mapped, external, modifier }
    }

    /// These effects with the external messages mapped by `f`; the local messages stay.
    pub fn map_external<F: Fn(XMSG) -> XMSG2, XMSG2>(self, f: F) -> (r: Effects<MSG, XMSG2>)
        requires
            forall|i: int| 0 <= i < self.external@.len() ==> f.requires((self.external@[i],)),
        ensures
            r.local@ == self.local@,
            r.external@.len() == self.external@.len(),
            forall|i: int|
                0 <= i < self.external@.len() ==> f.ensures((self.external@[i],), #[trigger] r.external@[i]),
            r.modifier@ == self.modifier@,
    {
        let Effects { local, external, modifier } = self;
        let mapped = map_all(external, &f);
        Effects { local, external: mapped, modifier }
    }

    /// Effects of local messages only: the external messages, followed by the local
    /// ones mapped by `f`.
    pub fn localize<F: Fn(MSG) -> XMSG>(self, f: F) -> (r: Effects<XMSG, ()>)
        requires
            forall|i: int| 0 <= i < self.local@.len() ==> f.requires((self.local@[i],)),
        ensures
            r.local@.len() == self.external@.len() + self.local@.len(),
            forall|i: int| 0 <= i < self.external@.len() ==> #[trigger] r.local@[i] == self.external@[i],
            forall|i: int|
                0 <= i < self.local@.len() ==> f.ensures(
                    (self.local@[i],),
                    #[trigger] r.local@[self.external@.len() + i],
                ),
            r.external@.len() == 0,
            r.modifier@ == self.modifier@,
    {
        let Effects { local, external, modifier } = self;
        let mut all = external;
        let mut mapped = map_all(local, &f);
        all.append(&mut mapped);
        Effects { local: all, external: Vec::new(), modifier }
    }

    /// These effects with `local` messages added after the local ones.
    pub fn append_local(self, local: Vec<MSG>) -> (r: Self)
        ensures
            r.local@ == self.local@ + local@,
            r.external@ == self.external@,
            r.modifier@ == self.modifier@,
    {
        let mut s = self;
        let mut local = local;
        s.local.append(&mut local);
        s
    }

    /// These effects without an update of the view.
    pub fn no_render(self) -> (r: Self)
        ensures
            r.local@ == self.local@,
            r.external@ == self.external@,
            r.modifier@ == (ModifierV { should_update_view: false, ..self.modifier@ }),
    {
        let mut s = self;
        s.modifier.should_update_view = false;
        s
    }

    /// These effects logging measurements.
    pub fn measure(self) -> (r: Self)
        ensures
            r.local@ == self.local@,
            r.external@ == self.external@,
            r.modifier@ == (ModifierV { log_measurements: true, ..self.modifier@ }),
    {
        let mut s = self;
        s.modifier.log_measurements = true;
        s
    }

    /// The local messages of all the effects, and their external messages, each in
    /// order, with the default settings.
    pub fn merge_all(all_effects: Vec<Self>) -> (r: Self)
        ensures
            r.local@ == all_local(all_effects@),
            r.external@ == all_external(all_effects@),
            r.modifier@ == default_modifier(),
    {
        let ghost all = all_effects@;
        let mut local: Vec<MSG> = Vec::new();
        let mut external: Vec<XMSG> = Vec::new();
        let mut rest = all_effects;
        let ghost mut done: int = 0;
        assert(all.take(0) =~= Seq::<Self>::empty());
        while rest.len() > 0
            invariant
                0 <= done <= all.len(),
                done + rest@.len() == all.len(),
                forall|j: int| 0 <= j < rest@.len() ==> #[trigger] rest@[j] == all[done + j],
                local@ == all_local(all.take(done)),
                external@ == all_external(all.take(done)),
            decreases rest@.len(),
        {
            let mut effect = rest.remove(0);
            let ghost e = effect;
            assert(e == all[done]);
            assert(all.take(done + 1).drop_last() =~= all.take(done));
            assert(all.take(done + 1).last() == e);
            local.append(&mut effect.local);
            external.append(&mut effect.external);
            proof {
                done = done + 1;
            }
        }
        assert(all.take(done) =~= all);
        Effects::new(local, external)
    }

    /// These effects with `local` and `external` messages added after theirs.
    pub fn extend(self, local: Vec<MSG>, external: Vec<XMSG>) -> (r: Self)
        ensures
            r.local@ == self.local@ + local@,
            r.external@ == self.external@ + external@,
            r.modifier@ == self.modifier@,
    {
        let mut s = self;
        let mut local = local;
        let mut external = external;
        s.local.append(&mut local);
        s.external.append(&mut external);
        s
    }
}

/// The items mapped by `f`, in order.
fn map_all<A, B, F: Fn(A) -> B>(items: Vec<A>, f: &F) -> (r: Vec<B>)
    requires
        forall|i: int| 0 <= i < items@.len() ==> f.requires((items@[i],)),
    ensures
        r@.len() == items@.len(),
        forall|i: int| 0 <= i < items@.len() ==> f.ensures((items@[i],), #[trigger] r@[i]),
{
    let ghost all = items@;
    let mut out: Vec<B> = Vec::new();
    let mut rest = items;
    while rest.len() > 0
        invariant
            out@.len() + rest@.len() == all.len(),
            forall|j: int| 0 <= j < rest@.len() ==> #[trigger] rest@[j] == all[out@.len() + j],
            forall|i: int| 0 <= i < all.len() ==> f.requires((all[i],)),
            forall|i: int| 0 <= i < out@.len() ==> f.ensures((all[i],), #[trigger] out@[i]),
        decreases rest@.len(),
    {
        let item = rest.remove(0);
        assert(item == all[out@.len() as int]);
        let mapped = f(item);
        out.push(mapped);
    }
    out
}

} // verus!

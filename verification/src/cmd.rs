//! Commands that the program runs after an update: closures that receive the
//! dispatcher, batched together with their settings.
use vstd::prelude::*;
use crate::effects::{Effects, all_local};
use crate::modifier::{Modifier, ModifierV, default_modifier};
use vstd::std_specs::convert::FromSpecImpl;

verus! {

/// A closure that runs once, boxed.
///
/// Verus cannot hold a `dyn FnOnce` in a verified type, so this type is opaque to the
/// verifier; [`Command`] records beside it what the closure requires and ensures.
#[verifier::external_body]
#[verifier::reject_recursive_types(DSP)]
struct OnceFn<DSP> {
    func: Box<dyn FnOnce(DSP)>,
}

/// Boxes a closure (std `Box::new`). The result is opaque.
#[verifier::external_body]
fn boxed<DSP, F: FnOnce(DSP) + 'static>(f: F) -> OnceFn<DSP> {
    OnceFn { func: Box::new(f) }
}

/// A closure that runs once with the dispatcher, with what it requires of the
/// dispatcher and what it ensures once it has run. Only [`Command::from_fn`] sets
/// them: they are the relations of the closure that it boxed.
#[verifier::reject_recursive_types(DSP)]
pub struct Command<DSP> {
    func: OnceFn<DSP>,
    pre: Ghost<spec_fn(DSP) -> bool>,
    post: Ghost<spec_fn(DSP) -> bool>,
}

impl<DSP> Command<DSP> {
    /// Whether the closure may run with `program` (its precondition).
    pub closed spec fn accepts(&self, program: DSP) -> bool {
        (self.pre@)(program)
    }

    /// The closure's postcondition for `program`: what holds once it ran.
    pub closed spec fn completes(&self, program: DSP) -> bool {
        (self.post@)(program)
    }

    /// Runs the closure with `program` (std `FnOnce::call_once` through the `Box`).
    /// It asks for a dispatcher that the closure's precondition admits (the relation
    /// that [`Command::from_fn`] recorded for the closure it boxed); the call returns
    /// nothing, so its contract states nothing afterwards.
    #[verifier::external_body]
    pub fn call(self, program: DSP)
        requires
            self.accepts(program),
    {
        (self.func.func)(program)
    }
}

impl<DSP: 'static> Command<DSP> {
    /// Boxes a closure: the command requires and ensures what the closure does.
    pub fn from_fn<F: FnOnce(DSP) + 'static>(f: F) -> (r: Self)
        ensures
            forall|d: DSP| #[trigger] r.accepts(d) == f.requires((d,)),
            forall|d: DSP| #[trigger] r.completes(d) == f.ensures((d,), ()),
    {
        let ghost pre = |d: DSP| f.requires((d,));
        let ghost post = |d: DSP| f.ensures((d,), ());
        Command { func: boxed(f), pre: Ghost(pre), post: Ghost(post) }
    }
}

/// Dispatching messages to the program that runs the update loop. An implementation
/// states, through [`Dispatch::dispatched_all`], what having dispatched some messages
/// means for it.
pub trait Dispatch<MSG> {
    /// Whether the messages `msgs` were dispatched to this program, in their order; an
    /// implementation that is verified gives it.
    open spec fn dispatched_all(&self, msgs: Seq<MSG>) -> bool {
        vstd::pervasive::arbitrary()
    }

    /// Dispatches one message.
    fn dispatch(&self, msg: MSG)
        ensures
            self.dispatched_all(seq![msg]),
    ;

    /// Dispatches several messages, in order.
    fn dispatch_multiple(&self, msgs: Vec<MSG>)
        ensures
            self.dispatched_all(msgs@),
    ;
}

/// Commands to be run by the program, with their settings.
#[verifier::reject_recursive_types(DSP)]
pub struct Cmd<DSP> {
    /// the closures that are run when this command is emitted, in order
    pub commands: Vec<Command<DSP>>,
    /// the settings of this command
    pub modifier: Modifier,
}

/// The commands of a sequence of commands, one after the other.
pub open spec fn all_commands<DSP>(cmds: Seq<Cmd<DSP>>) -> Seq<Command<DSP>>
    decreases cmds.len(),
{
    if cmds.len() == 0 {
        Seq::empty()
    } else {
        all_commands(cmds.drop_last()) + cmds.last().commands@
    }
}

/// Whether one of some commands updates the view.
pub open spec fn any_updates_view<DSP>(cmds: Seq<Cmd<DSP>>) -> bool {
    exists|i: int| 0 <= i < cmds.len() && (#[trigger] cmds[i]).modifier.should_update_view
}

/// Whether one of some commands logs measurements.
pub open spec fn any_logs<DSP>(cmds: Seq<Cmd<DSP>>) -> bool {
    exists|i: int| 0 <= i < cmds.len() && (#[trigger] cmds[i]).modifier.log_measurements
}

impl<DSP> Cmd<DSP> {
    /// No command, with the default settings.
    pub fn none() -> (r: Self)
        ensures
            r.commands@.len() == 0,
            r.modifier@ == default_modifier(),
    {
        Cmd { commands: Vec::new(), modifier: Modifier::default() }
    }

    /// All the commands of `cmds`, in order; the view is updated if one of them
    /// updates it, measurements are logged if one of them logs them, and there is no
    /// measurement name.
    pub fn batch(cmds: Vec<Self>) -> (r: Self)
        ensures
            r.commands@ == all_commands(cmds@),
            r.modifier@ == (ModifierV {
                should_update_view: any_updates_view(cmds@),
                log_measurements: any_logs(cmds@),
                measurement_name: Seq::empty(),
            }),
    {
        let mut r = Cmd::none();
        r.modifier.should_update_view = false;
        r.append(cmds);
        r
    }

    /// Adds one command after the commands of this one.
    pub fn push(&mut self, cmd: Self)
        ensures
            final(self).commands@ == old(self).commands@ + cmd.commands@,
            final(self).modifier@ == (ModifierV {
                should_update_view: old(self).modifier.should_update_view
                    || cmd.modifier.should_update_view,
                log_measurements: old(self).modifier.log_measurements || cmd.modifier.log_measurements,
                ..old(self).modifier@
            }),
    {
        let ghost c = cmd;
        let mut cmds: Vec<Self> = Vec::new();
        cmds.push(cmd);
        self.append(cmds);
        proof {
            assert(seq![c].drop_last() =~= Seq::<Cmd<DSP>>::empty());
            assert(all_commands(seq![c]) == all_commands(Seq::<Cmd<DSP>>::empty()) + c.commands@);
            assert(all_commands(seq![c]) =~= c.commands@);
            if c.modifier.should_update_view {
                assert(seq![c][0] == c);
            }
            if c.modifier.log_measurements {
                assert(seq![c][0] == c);
            }
        }
    }

    /// Adds the commands of `cmds` after those of this one; the view is updated if
    /// this or one of them updates it, measurements are logged if this or one of them
    /// logs them; the measurement name stays.
    pub fn append(&mut self, cmds: Vec<Self>)
        ensures
            final(self).commands@ == old(self).commands@ + all_commands(cmds@),
            final(self).modifier@ == (ModifierV {
                should_update_view: old(self).modifier.should_update_view || any_updates_view(cmds@),
                log_measurements: old(self).modifier.log_measurements || any_logs(cmds@),
                ..old(self).modifier@
            }),
    {
        let ghost all = cmds@;
        let mut rest = cmds;
        let ghost mut done: int = 0;
        assert(all.take(0) =~= Seq::<Cmd<DSP>>::empty());
        while rest.len() > 0
            invariant
                0 <= done <= all.len(),
                done + rest@.len() == all.len(),
                forall|j: int| 0 <= j < rest@.len() ==> #[trigger] rest@[j] == all[done + j],
                self.commands@ == old(self).commands@ + all_commands(all.take(done)),
                self.modifier@ == (ModifierV {
                    should_update_view: old(self).modifier.should_update_view || any_updates_view(
                        all.take(done),
                    ),
                    log_measurements: old(self).modifier.log_measurements || any_logs(all.take(done)),
                    ..old(self).modifier@
                }),
            decreases rest@.len(),
        {
            let mut cmd = rest.remove(0);
            let ghost c = cmd;
            assert(c == all[done]);
            let ghost prefix = all.take(done);
            let ghost next = all.take(done + 1);
            assert(next.drop_last() =~= prefix);
            assert(next.last() == c);
            assert(next =~= prefix.push(c));
            if cmd.modifier.should_update_view {
                self.modifier.should_update_view = true;
            }
            if cmd.modifier.log_measurements {
                self.modifier.log_measurements = true;
            }
            let ghost before = self.commands@;
            self.commands.append(&mut cmd.commands);
            proof {
                assert(self.commands@ =~= before + c.commands@);
                assert(any_updates_view(next) == (any_updates_view(prefix) || c.modifier.should_update_view)) by {
                    if c.modifier.should_update_view {
                        assert(next[done] == c);
                    }
                    if any_updates_view(prefix) {
                        let k = choose|k: int| 0 <= k < prefix.len() && (#[trigger] prefix[k]).modifier.should_update_view;
                        assert(next[k] == prefix[k]);
                    }
                    if any_updates_view(next) {
                        let k = choose|k: int| 0 <= k < next.len() && (#[trigger] next[k]).modifier.should_update_view;
                        if k < done {
                            assert(prefix[k] == next[k]);
                        }
                    }
                }
                assert(any_logs(next) == (any_logs(prefix) || c.modifier.log_measurements)) by {
                    if c.modifier.log_measurements {
                        assert(next[done] == c);
                    }
                    if any_logs(prefix) {
                        let k = choose|k: int| 0 <= k < prefix.len() && (#[trigger] prefix[k]).modifier.log_measurements;
                        assert(next[k] == prefix[k]);
                    }
                    if any_logs(next) {
                        let k = choose|k: int| 0 <= k < next.len() && (#[trigger] next[k]).modifier.log_measurements;
                        if k < done {
                            assert(prefix[k] == next[k]);
                        }
                    }
                }
                done = done + 1;
            }
        }
        assert(all.take(done) =~= all);
    }

    /// This command with `should_update_view` as the setting of whether the view is
    /// updated.
    pub fn should_update_view(self, should_update_view: bool) -> (r: Self)
        ensures
            r.commands@ == self.commands@,
            r.modifier@ == (ModifierV { should_update_view, ..self.modifier@ }),
    {
        let mut s = self;
        s.modifier.should_update_view = should_update_view;
        s
    }

    /// This command without an update of the view.
    pub fn no_render(self) -> (r: Self)
        ensures
            r.commands@ == self.commands@,
            r.modifier@ == (ModifierV { should_update_view: false, ..self.modifier@ }),
    {
        let mut s = self;
        s.modifier.should_update_view = false;
        s
    }

    /// This command logging its measurements.
    pub fn measure(self) -> (r: Self)
        ensures
            r.commands@ == self.commands@,
            r.modifier@ == (ModifierV { log_measurements: true, ..self.modifier@ }),
    {
        let mut s = self;
        s.modifier.log_measurements = true;
        s
    }

    /// This command logging its measurements under `name`.
    pub fn measure_with_name(self, name: &str) -> (r: Self)
        ensures
            r.commands@ == self.commands@,
            r.modifier@ == (ModifierV {
                log_measurements: true,
                measurement_name: name@,
                ..self.modifier@
            }),
    {
        let mut s = self.measure();
        s.modifier.measurement_name = String::from_str(name);
        s
    }
}

impl<DSP: 'static> Cmd<DSP> {
    /// A command of one closure, with the default settings.
    pub fn new<F: FnOnce(DSP) + 'static>(f: F) -> (r: Self)
        ensures
            r.commands@.len() == 1,
            forall|d: DSP| #[trigger] r.commands@[0].accepts(d) == f.requires((d,)),
            forall|d: DSP| #[trigger] r.commands@[0].completes(d) == f.ensures((d,), ()),
            r.modifier@ == default_modifier(),
    {
        let mut commands: Vec<Command<DSP>> = Vec::new();
        commands.push(Command::from_fn(f));
        Cmd { commands, modifier: Modifier::default() }
    }
}

impl<DSP: Clone + 'static> Cmd<DSP> {
    /// Runs the commands in order, each with a clone of `program`; each command must
    /// accept any dispatcher, as the clones are not known.
    pub fn emit(self, program: &DSP)
        requires
            forall|i: int, d: DSP| 0 <= i < self.commands@.len() ==> #[trigger] self.commands@[i].accepts(d),
    {
        let mut rest = self.commands;
        let ghost all = rest@;
        let ghost mut done: int = 0;
        while rest.len() > 0
            invariant
                0 <= done <= all.len(),
                rest@ == all.subrange(done, all.len() as int),
                forall|i: int, d: DSP| 0 <= i < all.len() ==> #[trigger] all[i].accepts(d),
            decreases rest@.len(),
        {
            let command = rest.remove(0);
            assert(command == all[done]);
            command.call(program.clone());
            proof {
                assert(rest@ =~= all.subrange(done + 1, all.len() as int));
                done = done + 1;
            }
        }
    }

    /// A command that dispatches the messages of `msg_list`, in order; it runs with
    /// any dispatcher, and once it ran the dispatcher has dispatched them all.
    pub fn batch_msg<MSG: 'static>(msg_list: Vec<MSG>) -> (r: Self) where DSP: Dispatch<MSG>
        ensures
            r.commands@.len() == 1,
            forall|d: DSP| #[trigger] r.commands@[0].accepts(d),
            forall|d: DSP| #[trigger] r.commands@[0].completes(d) ==> d.dispatched_all(msg_list@),
            r.modifier@ == default_modifier(),
    {
        let ghost msgs = msg_list@;
        let send = move |program: DSP|
            ensures
                program.dispatched_all(msgs),
        {
            program.dispatch_multiple(msg_list);
        };
        Cmd::new(send)
    }
}

/// The command of effects that have only local messages: it dispatches them, in
/// order, with the settings of the effects.
impl<DSP: Dispatch<MSG> + Clone + 'static, MSG: 'static> From<Effects<MSG, ()>> for Cmd<DSP> {
    fn from(effects: Effects<MSG, ()>) -> (r: Self)
        ensures
            r.commands@.len() == 1,
            forall|d: DSP| #[trigger] r.commands@[0].accepts(d),
            forall|d: DSP| #[trigger] r.commands@[0].completes(d) ==> d.dispatched_all(effects.local@),
            r.modifier@ == effects.modifier@,
    {
        let Effects { local, external: _, modifier } = effects;
        let mut cmd = Cmd::batch_msg(local);
        cmd.modifier = modifier;
        cmd
    }
}

impl<DSP: Dispatch<MSG> + Clone + 'static, MSG: 'static> FromSpecImpl<Effects<MSG, ()>> for Cmd<DSP> {
    open spec fn obeys_from_spec() -> bool {
        false
    }

    open spec fn from_spec(v: Effects<MSG, ()>) -> Self {
        vstd::pervasive::arbitrary()
    }
}

/// The command of a list of effects that have only local messages: it dispatches
/// the local messages of all of them, in order, with the default settings.
impl<DSP: Dispatch<MSG> + Clone + 'static, MSG: 'static> From<Vec<Effects<MSG, ()>>> for Cmd<DSP> {
    fn from(effects: Vec<Effects<MSG, ()>>) -> (r: Self)
        ensures
            r.commands@.len() == 1,
            forall|d: DSP| #[trigger] r.commands@[0].accepts(d),
            forall|d: DSP| #[trigger] r.commands@[0].completes(d) ==> d.dispatched_all(all_local(effects@)),
            r.modifier@ == default_modifier(),
    {
        let merged = Effects::merge_all(effects);
        let Effects { local, external: _, modifier } = merged;
        let mut cmd = Cmd::batch_msg(local);
        cmd.modifier = modifier;
        cmd
    }
}

impl<DSP: Dispatch<MSG> + Clone + 'static, MSG: 'static> FromSpecImpl<Vec<Effects<MSG, ()>>> for Cmd<DSP> {
    open spec fn obeys_from_spec() -> bool {
        false
    }

    open spec fn from_spec(v: Vec<Effects<MSG, ()>>) -> Self {
        vstd::pervasive::arbitrary()
    }
}

} // verus!

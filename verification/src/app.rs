//! The application and the state of its update loop: the messages waiting to be
//! applied, and the commands that their updates gave, waiting to be run.
use vstd::prelude::*;
use std::collections::VecDeque;
use crate::chars::concat;
use crate::cmd::{Cmd, all_commands, any_logs, any_updates_view};
use crate::modifier::{ModifierV, default_modifier};
use crate::node::{Node, NodeV};
use crate::text::push_str;

verus! {

/// The number of closures of a command and the model of its settings.
pub open spec fn cmd_shape<DSP>(c: Cmd<DSP>) -> (nat, ModifierV) {
    (c.commands@.len(), c.modifier@)
}

/// The application after updates with each of `msgs`, in order.
pub open spec fn updated_with_all<APP: Application<MSG>, MSG>(app: APP, msgs: Seq<MSG>) -> APP
    decreases msgs.len(),
{
    if msgs.len() == 0 {
        app
    } else {
        updated_with_all(app, msgs.drop_last()).updated(msgs.last())
    }
}

/// An application: the root component of a program.
///
/// An implementation states what its view and its update do through the spec
/// functions below; the methods that have a default state what the default does.
pub trait Application<MSG>: Sized {
    /// The state of the application after an update with `msg`; an implementation
    /// that is verified gives it.
    open spec fn updated(&self, msg: MSG) -> Self {
        vstd::pervasive::arbitrary()
    }

    /// The number of closures and the settings of the command of an update with
    /// `msg`; an implementation that is verified gives it.
    open spec fn update_cmd(&self, msg: MSG) -> (nat, ModifierV) {
        vstd::pervasive::arbitrary()
    }

    /// The model of the view of the application; an implementation that is verified
    /// gives it.
    open spec fn view_spec(&self) -> NodeV {
        vstd::pervasive::arbitrary()
    }

    /// Called once the program is mounted; no command unless given.
    fn init(&mut self) -> (r: Cmd<Self>)
        default_ensures
            *final(self) == *old(self),
            cmd_shape(r) == (0nat, default_modifier()),
    {
        Cmd::none()
    }

    /// Updates the application with a message.
    fn update(&mut self, msg: MSG) -> (r: Cmd<Self>)
        ensures
            *final(self) == old(self).updated(msg),
            cmd_shape(r) == old(self).update_cmd(msg),
    ;

    /// The view of the application.
    fn view(&self) -> (r: Node<MSG>)
        ensures
            r@ == self.view_spec(),
    ;

    /// The css of the application, mounted once; none unless given.
    fn stylesheet() -> (r: Vec<String>)
        default_ensures
            r@.len() == 0,
    {
        Vec::new()
    }

    /// The css of the application that follows its state; none unless given.
    fn style(&self) -> (r: Vec<String>)
        default_ensures
            r@.len() == 0,
    {
        Vec::new()
    }
}

/// How the root node of an application is mounted.
#[derive(Clone, Copy)]
pub enum MountAction {
    /// append the root node to the mount node
    Append,
    /// remove the children of the mount node, then append the root node
    ClearAppend,
    /// replace the mount node with the root node
    Replace,
}

/// Where the root node of an application is mounted.
#[derive(Clone, Copy)]
pub enum MountTarget {
    /// in the mount node
    MountNode,
    /// in the shadow root of the mount node
    ShadowRoot,
}

/// The texts of a sequence of strings.
pub open spec fn texts_view(v: Seq<String>) -> Seq<Seq<char>> {
    v.map_values(|s: String| s@)
}

/// Css texts put one after the other.
pub fn join_styles(styles: Vec<String>) -> (r: String)
    ensures
        r@ == concat(texts_view(styles@)),
{
    let ghost tv = texts_view(styles@);
    let mut buffer = String::new();
    let mut i: usize = 0;
    while i < styles.len()
        invariant
            i <= styles@.len(),
            tv == texts_view(styles@),
            buffer@ == concat(tv.take(i as int)),
        decreases styles@.len() - i,
    {
        push_str(&mut buffer, styles[i].as_str());
        assert(tv.take(i + 1).drop_last() =~= tv.take(i as int));
        i = i + 1;
    }
    assert(tv.take(styles@.len() as int) =~= tv);
    buffer
}

/// The state of the update loop of a program run on a server: the application, its
/// current view, the messages waiting to be applied in order, and the commands their
/// updates gave.
#[verifier::reject_recursive_types(MSG)]
#[verifier::reject_recursive_types(APP)]
pub struct ServerContext<APP, MSG> {
    /// the application
    pub app: APP,
    /// the current view
    pub current_vdom: Node<MSG>,
    /// the messages not yet applied, oldest first
    pub pending_msgs: VecDeque<MSG>,
    /// the commands not yet run, oldest first
    pub pending_cmds: VecDeque<Cmd<APP>>,
}

impl<APP: Application<MSG>, MSG> ServerContext<APP, MSG> {
    /// The state of an application whose view is its current view, with nothing
    /// pending.
    pub fn new(app: APP) -> (r: Self)
        ensures
            r.app == app,
            r.current_vdom@ == app.view_spec(),
            r.pending_msgs@.len() == 0,
            r.pending_cmds@.len() == 0,
    {
        let view = app.view();
        ServerContext {
            app,
            current_vdom: view,
            pending_msgs: VecDeque::new(),
            pending_cmds: VecDeque::new(),
        }
    }

    /// The commands of the initialization of the application.
    pub fn init_app(&mut self) -> (r: Cmd<APP>)
        ensures
            exists|m: &mut APP|
                *m == old(self).app && *final(m) == final(self).app && call_ensures(APP::init, (m,), r),
            final(self).current_vdom == old(self).current_vdom,
            final(self).pending_msgs@ == old(self).pending_msgs@,
            final(self).pending_cmds@ == old(self).pending_cmds@,
    {
        self.app.init()
    }

    /// The view of the application.
    pub fn view(&self) -> (r: Node<MSG>)
        ensures
            r@ == self.app.view_spec(),
    {
        self.app.view()
    }

    /// The css of the application that follows its state, put together.
    pub fn dynamic_style(&self) -> (r: String)
        ensures
            exists|v: Vec<String>| call_ensures(APP::style, (&self.app,), v) && r@ == concat(texts_view(v@)),
    {
        join_styles(self.app.style())
    }

    /// The css of the application, put together.
    pub fn static_style(&self) -> (r: String)
        ensures
            exists|v: Vec<String>| call_ensures(APP::stylesheet, (), v) && r@ == concat(texts_view(v@)),
    {
        join_styles(APP::stylesheet())
    }

    /// Replaces the current view.
    pub fn set_current_dom(&mut self, new_vdom: Node<MSG>)
        ensures
            final(self).current_vdom == new_vdom,
            final(self).app == old(self).app,
            final(self).pending_msgs@ == old(self).pending_msgs@,
            final(self).pending_cmds@ == old(self).pending_cmds@,
    {
        self.current_vdom = new_vdom;
    }

    /// Adds messages after the pending ones.
    pub fn dispatch_multiple(&mut self, msgs: Vec<MSG>)
        ensures
            final(self).pending_msgs@ == old(self).pending_msgs@ + msgs@,
            final(self).app == old(self).app,
            final(self).current_vdom == old(self).current_vdom,
            final(self).pending_cmds@ == old(self).pending_cmds@,
    {
        let ghost start = self.pending_msgs@;
        let ghost all = msgs@;
        let mut rest = msgs;
        let ghost mut done: int = 0;
        while rest.len() > 0
            invariant
                0 <= done <= all.len(),
                done + rest@.len() == all.len(),
                forall|j: int| 0 <= j < rest@.len() ==> #[trigger] rest@[j] == all[done + j],
                self.pending_msgs@ == start + all.take(done),
                self.app == old(self).app,
                self.current_vdom == old(self).current_vdom,
                self.pending_cmds@ == old(self).pending_cmds@,
            decreases rest@.len(),
        {
            let msg = rest.remove(0);
            self.pending_msgs.push_back(msg);
            proof {
                assert(all.take(done + 1) =~= all.take(done).push(all[done]));
                done = done + 1;
            }
        }
        assert(all.take(done) =~= all);
    }

    /// Updates the application with a message.
    pub fn update(&mut self, msg: MSG) -> (r: Cmd<APP>)
        ensures
            final(self).app == old(self).app.updated(msg),
            cmd_shape(r) == old(self).app.update_cmd(msg),
            final(self).pending_msgs@ == old(self).pending_msgs@,
            final(self).pending_cmds@ == old(self).pending_cmds@,
            final(self).current_vdom == old(self).current_vdom,
    {
        self.app.update(msg)
    }

    /// Whether messages are waiting to be applied.
    pub fn has_pending_msgs(&self) -> (r: bool)
        ensures
            r == (self.pending_msgs@.len() > 0),
    {
        self.pending_msgs.len() > 0
    }

    /// Applies the oldest pending message, if there is one, and keeps the command
    /// that the update gave after the pending ones; whether there was one.
    pub fn dispatch_pending_msg(&mut self) -> (r: bool)
        ensures
            server_dispatch_step(*old(self), *final(self), r),
            r == (old(self).pending_msgs@.len() > 0),
            r ==> final(self).pending_msgs@ == old(self).pending_msgs@.drop_first()
                && final(self).pending_cmds@.len() == old(self).pending_cmds@.len() + 1
                && final(self).pending_cmds@.drop_last() == old(self).pending_cmds@,
            r ==> final(self).app == old(self).app.updated(old(self).pending_msgs@[0])
                && cmd_shape(final(self).pending_cmds@.last()) == old(self).app.update_cmd(
                old(self).pending_msgs@[0],
            ),
            !r ==> final(self).pending_msgs@ == old(self).pending_msgs@ && final(self).pending_cmds@
                == old(self).pending_cmds@ && final(self).app == old(self).app,
            final(self).current_vdom == old(self).current_vdom,
    {
        match self.pending_msgs.pop_front() {
            Some(pending_msg) => {
                let cmd = self.update(pending_msg);
                let ghost before = self.pending_cmds@;
                self.pending_cmds.push_back(cmd);
                assert(self.pending_cmds@.drop_last() =~= before);
                assert(old(self).pending_msgs@.drop_first() =~= old(self).pending_msgs@.subrange(
                    1,
                    old(self).pending_msgs@.len() as int,
                ));
                true
            },
            None => false,
        }
    }

    /// All the pending commands batched into one, oldest first; none stays pending.
    pub fn batch_pending_cmds(&mut self) -> (r: Cmd<APP>)
        ensures
            r.commands@ == all_commands(old(self).pending_cmds@),
            r.modifier@ == (ModifierV {
                should_update_view: any_updates_view(old(self).pending_cmds@),
                log_measurements: any_logs(old(self).pending_cmds@),
                measurement_name: Seq::empty(),
            }),
            final(self).pending_cmds@.len() == 0,
            final(self).pending_msgs@ == old(self).pending_msgs@,
            final(self).app == old(self).app,
            final(self).current_vdom == old(self).current_vdom,
    {
        let mut all_cmd: Vec<Cmd<APP>> = Vec::new();
        let ghost start = self.pending_cmds@;
        loop
            invariant
                all_cmd@ + self.pending_cmds@ == start,
                self.pending_msgs@ == old(self).pending_msgs@,
                self.app == old(self).app,
                self.current_vdom == old(self).current_vdom,
                start == old(self).pending_cmds@,
            ensures
                all_cmd@ == start,
                self.pending_cmds@.len() == 0,
                self.pending_msgs@ == old(self).pending_msgs@,
                self.app == old(self).app,
                self.current_vdom == old(self).current_vdom,
            decreases self.pending_cmds@.len(),
        {
            let ghost before = all_cmd@;
            let ghost queue = self.pending_cmds@;
            match self.pending_cmds.pop_front() {
                Some(cmd) => {
                    all_cmd.push(cmd);
                    assert(all_cmd@ + self.pending_cmds@ =~= before + queue);
                },
                None => {
                    assert(all_cmd@ =~= start);
                    break;
                },
            }
        }
        Cmd::batch(all_cmd)
    }
}

/// What one dispatch of the oldest pending message does to the state of a server
/// program, and what it returns: whether there was a message; if so it is taken off,
/// the application is updated with it and the command of that update comes after
/// the pending ones; if not nothing changes; the current view stays.
pub open spec fn server_dispatch_step<APP: Application<MSG>, MSG>(
    before: ServerContext<APP, MSG>,
    after: ServerContext<APP, MSG>,
    r: bool,
) -> bool {
    &&& r == (before.pending_msgs@.len() > 0)
    &&& r ==> {
        &&& after.pending_msgs@ == before.pending_msgs@.drop_first()
        &&& after.app == before.app.updated(before.pending_msgs@[0])
        &&& after.pending_cmds@.len() == before.pending_cmds@.len() + 1
        &&& after.pending_cmds@.drop_last() == before.pending_cmds@
        &&& cmd_shape(after.pending_cmds@.last()) == before.app.update_cmd(before.pending_msgs@[0])
    }
    &&& !r ==> after.pending_msgs@ == before.pending_msgs@ && after.pending_cmds@
        == before.pending_cmds@ && after.app == before.app
    &&& after.current_vdom == before.current_vdom
}

/// The first `k` of a run of dispatches from `states[0]`, while messages remain.
proof fn lemma_server_dispatch_prefix<APP: Application<MSG>, MSG>(
    states: Seq<ServerContext<APP, MSG>>,
    results: Seq<bool>,
    k: int,
)
    requires
        states.len() == results.len() + 1,
        forall|j: int| 0 <= j < results.len() ==> server_dispatch_step(states[j], states[j + 1], #[trigger] results[j]),
        0 <= k <= states[0].pending_msgs@.len(),
        k < states.len(),
    ensures
        forall|j: int| 0 <= j < k ==> #[trigger] results[j],
        states[k].pending_msgs@ == states[0].pending_msgs@.subrange(k, states[0].pending_msgs@.len() as int),
        states[k].app == updated_with_all(states[0].app, states[0].pending_msgs@.take(k)),
        states[k].pending_cmds@.len() == states[0].pending_cmds@.len() + k,
        states[k].pending_cmds@.subrange(0, states[0].pending_cmds@.len() as int) == states[0].pending_cmds@,
        forall|i: int|
            0 <= i < k ==> cmd_shape(#[trigger] states[k].pending_cmds@[states[0].pending_cmds@.len() + i])
                == updated_with_all(states[0].app, states[0].pending_msgs@.take(i)).update_cmd(
                states[0].pending_msgs@[i],
            ),
        states[k].current_vdom == states[0].current_vdom,
    decreases k,
{
    let q = states[0].pending_msgs@;
    let c0 = states[0].pending_cmds@;
    if k == 0 {
        assert(q.subrange(0, q.len() as int) =~= q);
        assert(q.take(0) =~= Seq::<MSG>::empty());
        assert(c0.subrange(0, c0.len() as int) =~= c0);
    } else {
        lemma_server_dispatch_prefix(states, results, k - 1);
        let b = states[k - 1];
        let a = states[k];
        assert(server_dispatch_step(b, a, results[k - 1]));
        assert(b.pending_msgs@.len() > 0);
        assert(b.pending_msgs@[0] == q[k - 1]);
        assert(q.take(k).drop_last() =~= q.take(k - 1));
        assert(q.take(k).last() == q[k - 1]);
        assert(a.pending_msgs@ =~= q.subrange(k, q.len() as int));
        assert(a.pending_cmds@.subrange(0, c0.len() as int) =~= b.pending_cmds@.subrange(0, c0.len() as int));
        assert forall|i: int| 0 <= i < k implies cmd_shape(
            #[trigger] a.pending_cmds@[c0.len() + i],
        ) == updated_with_all(states[0].app, q.take(i)).update_cmd(q[i]) by {
            if i < k - 1 {
                assert(a.pending_cmds@[c0.len() + i] == b.pending_cmds@[c0.len() + i]);
            } else {
                assert(a.pending_cmds@[c0.len() + i] == a.pending_cmds@.last());
            }
        }
        assert forall|j: int| 0 <= j < k implies #[trigger] results[j] by {
            if j == k - 1 {
                assert(server_dispatch_step(states[j], states[j + 1], results[j]));
            }
        }
    }
}

/// A run of dispatches on a server program: from a state with the messages `q`
/// pending and the commands `cs`, the first `q.len()` dispatches each return `true`,
/// updating the application with the messages of `q` in order and keeping the command
/// of each update after `cs`; the next one returns `false` and changes nothing.
pub proof fn lemma_server_dispatch_run<APP: Application<MSG>, MSG>(
    states: Seq<ServerContext<APP, MSG>>,
    results: Seq<bool>,
)
    requires
        states.len() == results.len() + 1,
        results.len() == states[0].pending_msgs@.len() + 1,
        forall|j: int| 0 <= j < results.len() ==> server_dispatch_step(states[j], states[j + 1], #[trigger] results[j]),
    ensures
        forall|j: int| 0 <= j < states[0].pending_msgs@.len() ==> #[trigger] results[j],
        !results.last(),
        states.last().pending_msgs@.len() == 0,
        states.last().app == updated_with_all(states[0].app, states[0].pending_msgs@),
        states.last().pending_cmds@.len() == states[0].pending_cmds@.len() + states[0].pending_msgs@.len(),
        states.last().pending_cmds@.subrange(0, states[0].pending_cmds@.len() as int) == states[0].pending_cmds@,
        forall|i: int|
            0 <= i < states[0].pending_msgs@.len() ==> cmd_shape(
                #[trigger] states.last().pending_cmds@[states[0].pending_cmds@.len() + i],
            ) == updated_with_all(states[0].app, states[0].pending_msgs@.take(i)).update_cmd(
                states[0].pending_msgs@[i],
            ),
        states.last().pending_msgs@ == states[results.len() - 1].pending_msgs@,
        states.last().pending_cmds@ == states[results.len() - 1].pending_cmds@,
        states.last().app == states[results.len() - 1].app,
        states.last().current_vdom == states[0].current_vdom,
{
    let n = states[0].pending_msgs@.len() as int;
    lemma_server_dispatch_prefix(states, results, n);
    let q = states[0].pending_msgs@;
    assert(q.take(n) =~= q);
    assert(server_dispatch_step(states[n], states[n + 1], results[n]));
    assert(states[n].pending_msgs@ =~= q.subrange(n, n));
    assert(states.last() == states[n + 1]);
    assert(results.last() == results[n]);
}

/// The state of the update loop of a program run in the browser: the application,
/// its current view, the messages waiting to be applied in order, and the commands
/// their updates gave.
#[verifier::reject_recursive_types(MSG)]
#[verifier::reject_recursive_types(APP)]
pub struct AppContext<APP, MSG> {
    /// the application
    pub app: APP,
    /// the current view
    pub current_vdom: Node<MSG>,
    /// the messages not yet applied, oldest first
    pub pending_msgs: VecDeque<MSG>,
    /// the commands not yet run, oldest first
    pub pending_cmds: VecDeque<Cmd<APP>>,
}

impl<APP: Application<MSG>, MSG> AppContext<APP, MSG> {
    /// The state of an application whose view is its current view, with nothing
    /// pending.
    pub fn new(app: APP) -> (r: Self)
        ensures
            r.app == app,
            r.current_vdom@ == app.view_spec(),
            r.pending_msgs@.len() == 0,
            r.pending_cmds@.len() == 0,
    {
        let view = app.view();
        AppContext {
            app,
            current_vdom: view,
            pending_msgs: VecDeque::new(),
            pending_cmds: VecDeque::new(),
        }
    }

    /// The commands of the initialization of the application.
    pub fn init_app(&mut self) -> (r: Cmd<APP>)
        ensures
            exists|m: &mut APP|
                *m == old(self).app && *final(m) == final(self).app && call_ensures(APP::init, (m,), r),
            final(self).current_vdom == old(self).current_vdom,
            final(self).pending_msgs@ == old(self).pending_msgs@,
            final(self).pending_cmds@ == old(self).pending_cmds@,
    {
        self.app.init()
    }

    /// The view of the application.
    pub fn view(&self) -> (r: Node<MSG>)
        ensures
            r@ == self.app.view_spec(),
    {
        self.app.view()
    }

    /// The css of the application that follows its state, put together.
    pub fn dynamic_style(&self) -> (r: String)
        ensures
            exists|v: Vec<String>| call_ensures(APP::style, (&self.app,), v) && r@ == concat(texts_view(v@)),
    {
        join_styles(self.app.style())
    }

    /// The css of the application, put together.
    pub fn static_style(&self) -> (r: String)
        ensures
            exists|v: Vec<String>| call_ensures(APP::stylesheet, (), v) && r@ == concat(texts_view(v@)),
    {
        join_styles(APP::stylesheet())
    }

    /// Replaces the current view.
    pub fn set_current_dom(&mut self, new_vdom: Node<MSG>)
        ensures
            final(self).current_vdom == new_vdom,
            final(self).app == old(self).app,
            final(self).pending_msgs@ == old(self).pending_msgs@,
            final(self).pending_cmds@ == old(self).pending_cmds@,
    {
        self.current_vdom = new_vdom;
    }

    /// The current view.
    pub fn current_vdom(&self) -> (r: &Node<MSG>)
        ensures
            *r == self.current_vdom,
    {
        &self.current_vdom
    }

    /// Adds messages after the pending ones.
    pub fn push_msgs(&mut self, msgs: Vec<MSG>)
        ensures
            final(self).pending_msgs@ == old(self).pending_msgs@ + msgs@,
            final(self).app == old(self).app,
            final(self).current_vdom == old(self).current_vdom,
            final(self).pending_cmds@ == old(self).pending_cmds@,
    {
        let ghost start = self.pending_msgs@;
        let ghost all = msgs@;
        let mut rest = msgs;
        let ghost mut done: int = 0;
        while rest.len() > 0
            invariant
                0 <= done <= all.len(),
                done + rest@.len() == all.len(),
                forall|j: int| 0 <= j < rest@.len() ==> #[trigger] rest@[j] == all[done + j],
                self.pending_msgs@ == start + all.take(done),
                self.app == old(self).app,
                self.current_vdom == old(self).current_vdom,
                self.pending_cmds@ == old(self).pending_cmds@,
            decreases rest@.len(),
        {
            let msg = rest.remove(0);
            self.pending_msgs.push_back(msg);
            proof {
                assert(all.take(done + 1) =~= all.take(done).push(all[done]));
                done = done + 1;
            }
        }
        assert(all.take(done) =~= all);
    }

    /// Updates the application with a message.
    pub fn update_app(&mut self, msg: MSG) -> (r: Cmd<APP>)
        ensures
            final(self).app == old(self).app.updated(msg),
            cmd_shape(r) == old(self).app.update_cmd(msg),
            final(self).pending_msgs@ == old(self).pending_msgs@,
            final(self).pending_cmds@ == old(self).pending_cmds@,
            final(self).current_vdom == old(self).current_vdom,
    {
        self.app.update(msg)
    }

    /// Whether messages are waiting to be applied.
    pub fn has_pending_msgs(&self) -> (r: bool)
        ensures
            r == (self.pending_msgs@.len() > 0),
    {
        self.pending_msgs.len() > 0
    }

    /// Applies the oldest pending message, if there is one, and keeps the command
    /// that the update gave after the pending ones; whether there was one.
    pub fn dispatch_pending_msg(&mut self) -> (r: bool)
        ensures
            r == (old(self).pending_msgs@.len() > 0),
            r ==> final(self).pending_msgs@ == old(self).pending_msgs@.drop_first()
                && final(self).pending_cmds@.len() == old(self).pending_cmds@.len() + 1
                && final(self).pending_cmds@.drop_last() == old(self).pending_cmds@,
            r ==> final(self).app == old(self).app.updated(old(self).pending_msgs@[0])
                && cmd_shape(final(self).pending_cmds@.last()) == old(self).app.update_cmd(
                old(self).pending_msgs@[0],
            ),
            !r ==> final(self).pending_msgs@ == old(self).pending_msgs@ && final(self).pending_cmds@
                == old(self).pending_cmds@ && final(self).app == old(self).app,
            final(self).current_vdom == old(self).current_vdom,
    {
        let pending_msg = self.pending_msgs.pop_front();
        match pending_msg {
            Some(msg) => {
                let cmd = self.update_app(msg);
                let ghost before = self.pending_cmds@;
                self.pending_cmds.push_back(cmd);
                assert(self.pending_cmds@.drop_last() =~= before);
                assert(old(self).pending_msgs@.drop_first() =~= old(self).pending_msgs@.subrange(
                    1,
                    old(self).pending_msgs@.len() as int,
                ));
                true
            },
            None => false,
        }
    }

    /// Applies all the pending messages, oldest first, keeping the command of each
    /// update after the pending commands.
    pub fn dispatch_pending_msgs(&mut self)
        ensures
            final(self).pending_msgs@.len() == 0,
            final(self).app == updated_with_all(old(self).app, old(self).pending_msgs@),
            final(self).pending_cmds@.len() == old(self).pending_cmds@.len() + old(self).pending_msgs@.len(),
            final(self).pending_cmds@.subrange(0, old(self).pending_cmds@.len() as int) == old(self).pending_cmds@,
            forall|i: int|
                0 <= i < old(self).pending_msgs@.len() ==> cmd_shape(
                    #[trigger] final(self).pending_cmds@[old(self).pending_cmds@.len() + i],
                ) == updated_with_all(old(self).app, old(self).pending_msgs@.take(i)).update_cmd(
                    old(self).pending_msgs@[i],
                ),
            final(self).current_vdom == old(self).current_vdom,
    {
        let ghost msgs = self.pending_msgs@;
        let ghost cmds = self.pending_cmds@;
        let ghost app0 = self.app;
        let ghost mut done: int = 0;
        loop
            invariant
                0 <= done <= msgs.len(),
                msgs == old(self).pending_msgs@,
                cmds == old(self).pending_cmds@,
                app0 == old(self).app,
                self.pending_msgs@ == msgs.subrange(done, msgs.len() as int),
                self.app == updated_with_all(app0, msgs.take(done)),
                self.pending_cmds@.len() == cmds.len() + done,
                self.pending_cmds@.subrange(0, cmds.len() as int) == cmds,
                forall|i: int|
                    0 <= i < done ==> cmd_shape(#[trigger] self.pending_cmds@[cmds.len() + i])
                        == updated_with_all(app0, msgs.take(i)).update_cmd(msgs[i]),
                self.current_vdom == old(self).current_vdom,
            ensures
                done == msgs.len(),
                self.pending_msgs@.len() == 0,
                self.app == updated_with_all(app0, msgs.take(done)),
                self.pending_cmds@.len() == cmds.len() + done,
                self.pending_cmds@.subrange(0, cmds.len() as int) == cmds,
                forall|i: int|
                    0 <= i < done ==> cmd_shape(#[trigger] self.pending_cmds@[cmds.len() + i])
                        == updated_with_all(app0, msgs.take(i)).update_cmd(msgs[i]),
                self.current_vdom == old(self).current_vdom,
            decreases self.pending_msgs@.len(),
        {
            let ghost cmds_before = self.pending_cmds@;
            let ghost app_before = self.app;
            if !self.dispatch_pending_msg() {
                break;
            }
            proof {
                assert(msgs.subrange(done, msgs.len() as int)[0] == msgs[done]);
                assert(msgs.take(done + 1).drop_last() =~= msgs.take(done));
                assert(msgs.take(done + 1).last() == msgs[done]);
                assert(self.pending_cmds@.drop_last() == cmds_before);
                assert forall|i: int| 0 <= i < done + 1 implies cmd_shape(
                    #[trigger] self.pending_cmds@[cmds.len() + i],
                ) == updated_with_all(app0, msgs.take(i)).update_cmd(msgs[i]) by {
                    if i < done {
                        assert(self.pending_cmds@[cmds.len() + i] == cmds_before[cmds.len() + i]);
                    } else {
                        assert(self.pending_cmds@[cmds.len() + i] == self.pending_cmds@.last());
                    }
                }
                assert(self.pending_cmds@.subrange(0, cmds.len() as int) =~= cmds_before.subrange(
                    0,
                    cmds.len() as int,
                ));
                assert(self.pending_msgs@ =~= msgs.subrange(done + 1, msgs.len() as int));
                done = done + 1;
            }
        }
        assert(msgs.take(done) =~= msgs);
    }

    /// One turn of the update loop: every pending message is applied, oldest first,
    /// then all the pending commands are batched into one; also whether the view is to
    /// be updated, which is so when one of the batched commands asks for it: one that
    /// was pending before, or the command of one of the updates.
    pub fn dispatch_inner(&mut self) -> (r: (Cmd<APP>, bool))
        ensures
            final(self).pending_msgs@.len() == 0,
            final(self).pending_cmds@.len() == 0,
            final(self).app == updated_with_all(old(self).app, old(self).pending_msgs@),
            final(self).current_vdom == old(self).current_vdom,
            r.1 == r.0.modifier.should_update_view,
            r.1 == (any_updates_view(old(self).pending_cmds@) || exists|i: int|
                0 <= i < old(self).pending_msgs@.len() && (#[trigger] updated_with_all(
                    old(self).app,
                    old(self).pending_msgs@.take(i),
                ).update_cmd(old(self).pending_msgs@[i])).1.should_update_view),
    {
        let ghost cmds0 = self.pending_cmds@;
        let ghost msgs0 = self.pending_msgs@;
        let ghost app0 = self.app;
        self.dispatch_pending_msgs();
        let ghost all = self.pending_cmds@;
        let cmd = self.batch_pending_cmds();
        let update_view = cmd.modifier.should_update_view;
        proof {
            if any_updates_view(all) {
                let k = choose|k: int| 0 <= k < all.len() && (#[trigger] all[k]).modifier.should_update_view;
                if k < cmds0.len() {
                    assert(all.subrange(0, cmds0.len() as int)[k] == all[k]);
                    assert(cmds0[k].modifier.should_update_view);
                } else {
                    let i = k - cmds0.len();
                    assert(cmd_shape(all[cmds0.len() + i]) == updated_with_all(app0, msgs0.take(i)).update_cmd(
                        msgs0[i],
                    ));
                }
            }
            if any_updates_view(cmds0) {
                let k = choose|k: int| 0 <= k < cmds0.len() && (#[trigger] cmds0[k]).modifier.should_update_view;
                assert(all.subrange(0, cmds0.len() as int)[k] == all[k]);
                assert(all[k].modifier.should_update_view);
            }
            if exists|i: int| 0 <= i < msgs0.len() && (#[trigger] updated_with_all(app0, msgs0.take(i)).update_cmd(
                msgs0[i],
            )).1.should_update_view {
                let i = choose|i: int| 0 <= i < msgs0.len() && (#[trigger] updated_with_all(
                    app0,
                    msgs0.take(i),
                ).update_cmd(msgs0[i])).1.should_update_view;
                assert(cmd_shape(all[cmds0.len() + i]) == updated_with_all(app0, msgs0.take(i)).update_cmd(
                    msgs0[i],
                ));
                assert(all[cmds0.len() + i].modifier.should_update_view);
            }
        }
        (cmd, update_view)
    }

    /// All the pending commands batched into one, oldest first; none stays pending.
    pub fn batch_pending_cmds(&mut self) -> (r: Cmd<APP>)
        ensures
            r.commands@ == all_commands(old(self).pending_cmds@),
            r.modifier@ == (ModifierV {
                should_update_view: any_updates_view(old(self).pending_cmds@),
                log_measurements: any_logs(old(self).pending_cmds@),
                measurement_name: Seq::empty(),
            }),
            final(self).pending_cmds@.len() == 0,
            final(self).pending_msgs@ == old(self).pending_msgs@,
            final(self).app == old(self).app,
            final(self).current_vdom == old(self).current_vdom,
    {
        let mut all_cmd: Vec<Cmd<APP>> = Vec::new();
        let ghost start = self.pending_cmds@;
        loop
            invariant
                all_cmd@ + self.pending_cmds@ == start,
                self.pending_msgs@ == old(self).pending_msgs@,
                self.app == old(self).app,
                self.current_vdom == old(self).current_vdom,
                start == old(self).pending_cmds@,
            ensures
                all_cmd@ == start,
                self.pending_cmds@.len() == 0,
                self.pending_msgs@ == old(self).pending_msgs@,
                self.app == old(self).app,
                self.current_vdom == old(self).current_vdom,
            decreases self.pending_cmds@.len(),
        {
            let ghost before = all_cmd@;
            let ghost queue = self.pending_cmds@;
            match self.pending_cmds.pop_front() {
                Some(cmd) => {
                    all_cmd.push(cmd);
                    assert(all_cmd@ + self.pending_cmds@ =~= before + queue);
                },
                None => {
                    assert(all_cmd@ =~= start);
                    break;
                },
            }
        }
        Cmd::batch(all_cmd)
    }
}

} // verus!

use sauron_core::app::{join_styles, AppContext, Application, ServerContext};
use sauron_core::cmd::Cmd;
use sauron_core::effects::Effects;
use sauron_core::html::{div, text};
use sauron_core::modifier::Modifier;
use sauron_core::node::Node;
use sauron_core::prediff::{diff_if, PreDiff};
use sauron_core::render::Render;
use sauron_core::tree_path::TreePath;

#[test]
fn batch_keeps_order_and_flags() {
    let a: Cmd<u32> = Cmd::new(|_p: u32| {});
    let b: Cmd<u32> = Cmd::new(|_p: u32| {}).no_render().measure();
    let c: Cmd<u32> = Cmd::none().no_render();
    let batched = Cmd::batch(vec![a, b, c]);
    assert_eq!(batched.commands.len(), 2);
    assert!(batched.modifier.should_update_view);
    assert!(batched.modifier.log_measurements);
    assert_eq!(batched.modifier.measurement_name, "");

    let quiet = Cmd::batch(vec![Cmd::<u32>::none().no_render()]);
    assert!(!quiet.modifier.should_update_view);
}

#[test]
fn measure_with_name_sets_name() {
    let cmd: Cmd<u32> = Cmd::none().measure_with_name("render");
    assert!(cmd.modifier.log_measurements);
    assert_eq!(cmd.modifier.measurement_name, "render");
    let mut first: Cmd<u32> = Cmd::none().no_render();
    first.push(Cmd::none());
    assert!(first.modifier.should_update_view);
}

#[test]
fn modifier_coalesce_sets_flags_and_name() {
    let mut m = Modifier::default();
    m.should_update_view = false;
    let other = Modifier { should_update_view: false, log_measurements: true, measurement_name: "x".to_string() };
    m.coalesce(&other);
    assert!(!m.should_update_view);
    assert!(m.log_measurements);
    assert_eq!(m.measurement_name, "x");
    let unnamed = Modifier { should_update_view: true, log_measurements: false, measurement_name: String::new() };
    m.coalesce(&unnamed);
    assert!(m.should_update_view);
    assert_eq!(m.measurement_name, "x");
}

#[test]
fn effects_localize_and_merge() {
    let e: Effects<u8, u32> = Effects::new(vec![1, 2], vec![10]);
    let local = e.localize(|m: u8| m as u32 * 100);
    assert_eq!(local.local, vec![10, 100, 200]);
    assert!(local.external.is_empty());

    let merged = Effects::merge_all(vec![
        Effects::<u8, u8>::new(vec![1], vec![2]),
        Effects::new(vec![3], vec![4]).no_render(),
    ]);
    assert_eq!(merged.local, vec![1, 3]);
    assert_eq!(merged.external, vec![2, 4]);
    assert!(merged.modifier.should_update_view);

    let mapped = Effects::<u8, u8>::with_local(vec![1, 2]).map_msg(|m: u8| m + 1);
    assert_eq!(mapped.local, vec![2, 3]);
    let extended = Effects::<u8, u8>::none().extend(vec![7], vec![8]).append_local(vec![9]);
    let (l, x) = extended.unzip();
    assert_eq!(l, vec![7, 9]);
    assert_eq!(x, vec![8]);
}

#[test]
fn prediff_paths_of_flagged_nodes() {
    let tree = vec![diff_if(false, vec![diff_if(true, vec![]), diff_if(false, vec![diff_if(true, vec![])])])];
    let paths = PreDiff::traverse(&tree);
    assert_eq!(paths, vec![TreePath::new(vec![0]), TreePath::new(vec![1, 0])]);

    let several = vec![diff_if(true, vec![]), PreDiff::none(), diff_if(true, vec![])];
    assert_eq!(PreDiff::traverse(&several), vec![TreePath::new(vec![0]), TreePath::new(vec![2])]);
}

struct Counter {
    count: u32,
}

impl Application<u32> for Counter {
    fn update(&mut self, msg: u32) -> Cmd<Self> {
        self.count += msg;
        Cmd::none()
    }

    fn view(&self) -> Node<u32> {
        div(vec![], vec![text(self.count)])
    }

    fn stylesheet() -> Vec<String> {
        vec!["a{}".to_string(), "b{}".to_string()]
    }
}

#[test]
fn server_context_applies_messages_in_order() {
    let mut ctx = ServerContext::new(Counter { count: 0 });
    assert!(!ctx.has_pending_msgs());
    ctx.dispatch_multiple(vec![1, 2, 3]);
    assert!(ctx.has_pending_msgs());
    assert!(ctx.dispatch_pending_msg());
    assert_eq!(ctx.app.count, 1);
    assert!(ctx.dispatch_pending_msg());
    assert!(ctx.dispatch_pending_msg());
    assert!(!ctx.dispatch_pending_msg());
    assert_eq!(ctx.app.count, 6);
    assert_eq!(ctx.pending_cmds.len(), 3);
    let batched = ctx.batch_pending_cmds();
    assert!(ctx.pending_cmds.is_empty());
    assert!(batched.commands.is_empty());
    assert_eq!(ctx.view().render_to_string(), "<div>6</div>");
    assert_eq!(ctx.static_style(), "a{}b{}");
    assert_eq!(join_styles(vec![]), "");
}

#[test]
fn app_context_dispatches_all_pending() {
    let mut ctx = AppContext::new(Counter { count: 1 });
    ctx.push_msgs(vec![2, 3]);
    ctx.dispatch_pending_msgs();
    assert!(!ctx.has_pending_msgs());
    assert_eq!(ctx.app.count, 6);
    assert_eq!(ctx.pending_cmds.len(), 2);
    let view = ctx.view();
    assert_eq!(view.node_count(), 2);
    assert_eq!(view.descendant_node_count(), 1);
    ctx.set_current_dom(view);
    assert_eq!(ctx.current_vdom().render_to_string(), "<div>6</div>");
}

#[test]
fn app_context_turn_updates_the_view_when_asked() {
    let mut ctx = AppContext::new(Counter { count: 0 });
    ctx.push_msgs(vec![1, 2]);
    let (cmd, update_view) = ctx.dispatch_inner();
    assert_eq!(ctx.app.count, 3);
    assert!(!ctx.has_pending_msgs());
    assert!(ctx.pending_cmds.is_empty());
    assert!(cmd.commands.is_empty());
    assert!(update_view);
    let (_, nothing_to_update) = ctx.dispatch_inner();
    assert!(!nothing_to_update);
}

#[test]
fn cmd_new_runs_the_given_closure() {
    let seen = std::rc::Rc::new(std::cell::Cell::new(0u32));
    let inside = seen.clone();
    let cmd: Cmd<u32> = Cmd::new(move |d: u32| inside.set(d + 1));
    assert_eq!(cmd.commands.len(), 1);
    cmd.emit(&41);
    assert_eq!(seen.get(), 42);
}

#[derive(Clone)]
struct Recorder {
    seen: std::rc::Rc<std::cell::RefCell<Vec<u32>>>,
}

impl sauron_core::cmd::Dispatch<u32> for Recorder {
    fn dispatch(&self, msg: u32) {
        self.seen.borrow_mut().push(msg);
    }

    fn dispatch_multiple(&self, msgs: Vec<u32>) {
        self.seen.borrow_mut().extend(msgs);
    }
}

#[test]
fn batch_msg_dispatches_the_messages_in_order() {
    let rec = Recorder { seen: std::rc::Rc::new(std::cell::RefCell::new(vec![])) };
    let cmd: Cmd<Recorder> = Cmd::batch_msg(vec![3, 1, 2]);
    assert_eq!(cmd.commands.len(), 1);
    assert!(cmd.modifier.should_update_view);
    cmd.emit(&rec);
    assert_eq!(*rec.seen.borrow(), vec![3, 1, 2]);
}

#[test]
fn effects_become_a_command_that_dispatches_their_local_messages() {
    let rec = Recorder { seen: std::rc::Rc::new(std::cell::RefCell::new(vec![])) };
    let mut effects: Effects<u32, ()> = Effects::with_local(vec![7, 8]);
    effects.modifier.should_update_view = false;
    let cmd: Cmd<Recorder> = Cmd::from(effects);
    assert!(!cmd.modifier.should_update_view);
    cmd.emit(&rec);
    let list: Vec<Effects<u32, ()>> = vec![Effects::with_local(vec![1]), Effects::with_local(vec![2, 3])];
    let cmd2: Cmd<Recorder> = Cmd::from(list);
    assert!(cmd2.modifier.should_update_view);
    cmd2.emit(&rec);
    assert_eq!(*rec.seen.borrow(), vec![7, 8, 1, 2, 3]);
}

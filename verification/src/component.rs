//! What components, containers and views implement: an update that gives effects,
//! and a view.
use vstd::prelude::*;
use crate::effects::Effects;
use crate::node::Node;

verus! {

/// A component has a view and can update itself: the update gives effects, local
/// messages for its next update and external messages for the component that
/// mounts it.
pub trait Component<MSG, XMSG> {
    /// Updates the model of this component.
    fn update(&mut self, msg: MSG) -> Effects<MSG, XMSG>;

    /// The view of the component.
    fn view(&self) -> Node<MSG>;

    /// The css style of the component; none unless given.
    fn style(&self) -> (r: String)
        default_ensures
            vstd::view::View::view(&r) == Seq::<char>::empty(),
    {
        String::new()
    }

    /// The id of the component, if it has one.
    fn get_component_id(&self) -> (r: Option<&String>)
        default_ensures
            r is None,
    {
        None
    }
}

/// A container shows the children that its parent component gives it; it can update
/// itself but cannot listen to the events of its children.
pub trait Container<MSG, XMSG> {
    /// Updates the model of this container.
    fn update(&mut self, msg: MSG) -> Effects<MSG, XMSG>;

    /// The view of the container, around `content`.
    fn view(&self, content: Vec<Node<XMSG>>) -> Node<MSG>;

    /// The css style of the container; none unless given.
    fn style(&self) -> (r: String)
        default_ensures
            vstd::view::View::view(&r) == Seq::<char>::empty(),
    {
        String::new()
    }

    /// Adds a child.
    fn append_child(&mut self, child: Node<XMSG>);
}

/// A view can update itself but has no effect on the component that uses it.
pub trait View<MSG> {
    /// Updates the model of this view.
    fn update(&mut self, msg: MSG) -> Effects<MSG, ()>;

    /// The view.
    fn view(&self) -> Node<MSG>;

    /// The css style of the view; none unless given.
    fn style(&self) -> (r: String)
        default_ensures
            vstd::view::View::view(&r) == Seq::<char>::empty(),
    {
        String::new()
    }
}

} // verus!

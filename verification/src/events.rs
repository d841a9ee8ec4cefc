//! Events that event listeners receive.
use vstd::prelude::*;
use crate::callback::Callback;

verus! {

/// A browser event, known to the library by the handle under which the host keeps it.
pub struct WebEvent {
    /// the host's handle of the browser event
    pub handle: u64,
}

/// An event fired when a virtual node is mounted: `target_node` is the host's handle
/// of the actual dom node where the virtual node was created.
pub struct MountEvent {
    /// the host's handle of the dom node
    pub target_node: u64,
}

/// An input event, with the value of the input element.
pub struct InputEvent {
    /// the input value
    pub value: String,
    /// the browser event
    pub event: WebEvent,
}

impl InputEvent {
    /// An input event of `value` and `event`.
    pub fn new(value: String, event: WebEvent) -> (r: Self)
        ensures
            r.value@ == value@,
            r.event == event,
    {
        InputEvent { value, event }
    }
}

/// The events that listeners receive.
pub enum Event {
    /// a browser event
    WebEvent(WebEvent),
    /// the mounting of a node
    MountEvent(MountEvent),
}

impl Event {
    /// The browser event, if this is one.
    pub fn as_web(self) -> (r: Option<WebEvent>)
        ensures
            r == (match self {
                Event::WebEvent(e) => Some(e),
                _ => None,
            }),
    {
        match self {
            Event::WebEvent(web_event) => Some(web_event),
            _ => None,
        }
    }
}

/// A callback on an event.
pub type Listener<MSG> = Callback<Event, MSG>;

/// The attribute that listens to the event `event_name` with the closure `f`: its one
/// value is a listener that requires and ensures what `f` does.
pub fn on<F: Fn(Event) -> MSG + 'static, MSG: 'static>(event_name: &'static str, f: F) -> (r:
    crate::attribute::Attribute<MSG>)
    ensures
        r@ == (crate::attribute::AttributeV {
            namespace: None,
            name: event_name@,
            value: seq![crate::attribute::AttributeValueV::EventListener],
        }),
        r.value@.len() == 1,
        r.value@[0] matches crate::attribute::AttributeValue::EventListener(l) && (forall|x: Event|
            #[trigger] l.accepts(x) == f.requires((x,))) && (forall|x: Event, y: MSG|
            #[trigger] l.gives(x, y) == f.ensures((x,), y)),
{
    let listener = Callback::from_fn(f);
    let value = vec![crate::attribute::AttributeValue::EventListener(listener)];
    let r = crate::attribute::Attribute { namespace: None, name: event_name, value };
    assert(r@.value =~= seq![crate::attribute::AttributeValueV::EventListener]);
    r
}

} // verus!

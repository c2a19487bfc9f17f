//! Events, the keys they are dispatched under, and the handlers registered
//! for them.

use crate::applet::Applet;
use crate::board::Api;
use vstd::prelude::*;

pub mod button;
pub mod radio;
pub mod timer;
pub mod usb;

verus! {

/// Something that the hardware reported, with what it carries.
pub enum Event<B: Api> {
    /// A button changed state.
    Button(button::Event<B>),
    /// The radio has a packet.
    Radio(radio::Event),
    /// A timer fired.
    Timer(timer::Event<B>),
    /// The USB serial port is ready.
    Usb(usb::Event),
}

/// The part of an event that selects its handler.
pub enum Key<B: Api> {
    /// Events of one button.
    Button(button::Key<B>),
    /// Events of the radio.
    Radio(radio::Key),
    /// Events of one timer.
    Timer(timer::Key<B>),
    /// Events of the USB serial port.
    Usb(usb::Key),
}

/// An event as plain values.
pub ghost enum EventView {
    /// Button `button` is now pressed, or released.
    Button { button: nat, pressed: bool },
    /// The radio has a packet.
    Radio(radio::Event),
    /// Timer `timer` fired.
    Timer { timer: nat },
    /// The USB serial port is ready.
    Usb(usb::Event),
}

/// A key as plain values.
pub ghost enum KeyView {
    /// Events of button `0`.
    Button(nat),
    /// Events of the radio.
    Radio(radio::Key),
    /// Events of timer `0`.
    Timer(nat),
    /// Events of the USB serial port.
    Usb(usb::Key),
}

impl EventView {
    /// The key that the event is dispatched under. Events that differ in
    /// their payload only have the same key.
    pub open spec fn key(self) -> KeyView {
        match self {
            EventView::Button { button, pressed } => KeyView::Button(button),
            EventView::Radio(event) => KeyView::Radio(event.spec_key()),
            EventView::Timer { timer } => KeyView::Timer(timer),
            EventView::Usb(event) => KeyView::Usb(event.spec_key()),
        }
    }

    /// The words that the event adds to the callback's arguments.
    pub open spec fn extra_words(self) -> Seq<u32> {
        match self {
            EventView::Button { button, pressed } => seq![button::extra_word(pressed)],
            _ => Seq::empty(),
        }
    }
}

impl<B: Api> View for Event<B> {
    type V = EventView;

    open spec fn view(&self) -> EventView {
        match self {
            Event::Button(event) => EventView::Button {
                button: event.button.index(),
                pressed: event.pressed,
            },
            Event::Radio(event) => EventView::Radio(*event),
            Event::Timer(event) => EventView::Timer { timer: event.timer.index() },
            Event::Usb(event) => EventView::Usb(*event),
        }
    }
}

impl<B: Api> View for Key<B> {
    type V = KeyView;

    open spec fn view(&self) -> KeyView {
        match self {
            Key::Button(key) => KeyView::Button(key.button.index()),
            Key::Radio(key) => KeyView::Radio(*key),
            Key::Timer(key) => KeyView::Timer(key.timer.index()),
            Key::Usb(key) => KeyView::Usb(*key),
        }
    }
}

impl<B: Api> Event<B> {
    /// A second event that carries the same values.
    pub fn duplicate(&self) -> (r: Self)
        ensures
            r@ == self@,
    {
        match self {
            Event::Button(event) => Event::Button(
                button::Event { button: event.button.duplicate(), pressed: event.pressed },
            ),
            Event::Radio(event) => Event::Radio(*event),
            Event::Timer(event) => Event::Timer(timer::Event { timer: event.timer.duplicate() }),
            Event::Usb(event) => Event::Usb(*event),
        }
    }
}

impl<B: Api> Key<B> {
    /// The key of `event`, computed without consuming it.
    pub fn from(event: &Event<B>) -> (key: Self)
        ensures
            key@ == event@.key(),
    {
        match event {
            Event::Button(event) => Key::Button(event.key()),
            Event::Radio(event) => Key::Radio(event.key()),
            Event::Timer(event) => Key::Timer(event.key()),
            Event::Usb(event) => Key::Usb(event.key()),
        }
    }

    /// Whether two keys select the same handler.
    pub fn same(&self, other: &Self) -> (r: bool)
        ensures
            r == (self@ == other@),
    {
        match (self, other) {
            (Key::Button(a), Key::Button(b)) => a.button.get() == b.button.get(),
            (Key::Radio(a), Key::Radio(b)) => a == b,
            (Key::Timer(a), Key::Timer(b)) => a.timer.get() == b.timer.get(),
            (Key::Usb(a), Key::Usb(b)) => a == b,
            _ => false,
        }
    }

    /// A second key that selects the same handler.
    pub fn duplicate(&self) -> (r: Self)
        ensures
            r@ == self@,
    {
        match self {
            Key::Button(key) => Key::Button(button::Key { button: key.button.duplicate() }),
            Key::Radio(key) => Key::Radio(*key),
            Key::Timer(key) => Key::Timer(timer::Key { timer: key.timer.duplicate() }),
            Key::Usb(key) => Key::Usb(*key),
        }
    }
}

/// An applet instance, as the executor names it.
#[derive(Clone, Copy, Debug, PartialEq, Eq, Structural)]
pub struct InstId {
    /// The number of the instance.
    pub id: usize,
}

/// A callback that an applet instance registered for one key.
pub struct Handler<B: Api> {
    /// The events handled.
    pub key: Key<B>,
    /// The instance that registered the handler.
    pub inst: InstId,
    /// The index of the callback in the instance.
    pub func: u32,
    /// The word handed back to the callback, which the scheduler does not
    /// interpret.
    pub data: u32,
}

/// A handler as plain values.
pub ghost struct HandlerView {
    /// The events handled.
    pub key: KeyView,
    /// The instance that registered the handler.
    pub inst: InstId,
    /// The index of the callback in the instance.
    pub func: u32,
    /// The opaque word of the registration.
    pub data: u32,
}

impl<B: Api> View for Handler<B> {
    type V = HandlerView;

    open spec fn view(&self) -> HandlerView {
        HandlerView { key: self.key@, inst: self.inst, func: self.func, data: self.data }
    }
}

impl<B: Api> Handler<B> {
    /// A second handler that carries the same values.
    pub fn duplicate(&self) -> (r: Self)
        ensures
            r@ == self@,
    {
        Handler { key: self.key.duplicate(), inst: self.inst, func: self.func, data: self.data }
    }

    /// The key that the handler is found by.
    pub fn borrow(&self) -> (key: &Key<B>)
        ensures
            key@ == self@.key,
    {
        &self.key
    }
}

/// A call for the instance executor to make.
pub struct Call {
    /// The instance to run.
    pub inst: InstId,
    /// The index of the callback in the instance.
    pub func: u32,
    /// The export to invoke, which encodes how many words follow the opaque
    /// word.
    pub name: &'static str,
    /// The opaque word of the registration, then the words of the event.
    pub args: Vec<u32>,
}

/// A call as plain values.
pub ghost struct CallView {
    /// The instance to run.
    pub inst: InstId,
    /// The index of the callback in the instance.
    pub func: u32,
    /// The export to invoke.
    pub name: Seq<char>,
    /// The opaque word of the registration, then the words of the event.
    pub args: Seq<u32>,
}

impl View for Call {
    type V = CallView;

    open spec fn view(&self) -> CallView {
        CallView { inst: self.inst, func: self.func, name: self.name@, args: self.args@ }
    }
}

/// The export that takes `extra` words after the opaque word. There is one
/// for no extra word and one for a single extra word, and none beyond.
pub open spec fn export_name(extra: nat) -> Option<Seq<char>> {
    if extra == 0 {
        Some("cb0"@)
    } else if extra == 1 {
        Some("cb1"@)
    } else {
        None
    }
}

/// The call that `event` leads to with the handlers `handlers`: none if no
/// handler is registered for the key of the event, else the callback of
/// that handler with its opaque word followed by the words of the event.
pub open spec fn dispatch(handlers: Map<KeyView, HandlerView>, event: EventView) -> Option<
    CallView,
> {
    if handlers.contains_key(event.key()) {
        let handler = handlers[event.key()];
        match export_name(event.extra_words().len()) {
            Some(name) => Some(
                CallView {
                    inst: handler.inst,
                    func: handler.func,
                    name,
                    args: seq![handler.data] + event.extra_words(),
                },
            ),
            None => None,
        }
    } else {
        None
    }
}

/// Every event adds at most one word, so there is an export for it.
pub proof fn lemma_every_event_has_an_export(event: EventView)
    ensures
        event.extra_words().len() <= 1,
        export_name(event.extra_words().len()) is Some,
{
}

/// Resolves the handler of `event` and builds the call to make. An event
/// without a handler is dropped: the result is `None`.
pub fn process<B: Api>(applet: &Applet<B>, event: Event<B>) -> (r: Option<Call>)
    ensures
        r is Some <==> applet.handlers().contains_key(event@.key()),
        match r {
            Some(call) => Some(call@) == dispatch(applet.handlers(), event@),
            None => dispatch(applet.handlers(), event@) is None,
        },
{
    let key = Key::from(&event);
    let (inst, func, data) = match applet.get(&key) {
        Some(handler) => (handler.inst, handler.func, handler.data),
        None => {
            return None;
        },
    };
    let mut params: Vec<u32> = Vec::new();
    params.push(data);
    match &event {
        Event::Button(event) => button::process(event, &mut params),
        Event::Radio(_) => radio::process(),
        Event::Timer(_) => timer::process(),
        Event::Usb(event) => usb::process(event),
    }
    let name = if params.len() - 1 == 0 {
        "cb0"
    } else {
        "cb1"
    };
    proof {
        assert(params@ =~= seq![data] + event@.extra_words());
    }
    Some(Call { inst, func, name, args: params })
}

} // verus!

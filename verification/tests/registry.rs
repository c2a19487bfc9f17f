use event_scheduler::applet::Applet;
use event_scheduler::board::Id;
use event_scheduler::event::{button, radio, timer, usb, Event, Handler, InstId, Key};
use event_scheduler::runner::Board;

fn button_key(index: usize) -> Key<Board> {
    Key::Button(button::Key { button: Id::new(index).unwrap() })
}

fn button_event(index: usize, pressed: bool) -> Event<Board> {
    Event::Button(button::Event { button: Id::new(index).unwrap(), pressed })
}

fn timer_event(index: usize) -> Event<Board> {
    Event::Timer(timer::Event { timer: Id::new(index).unwrap() })
}

fn handler(key: Key<Board>, func: u32, data: u32) -> Handler<Board> {
    Handler { key, inst: InstId { id: 0 }, func, data }
}

#[test]
fn key_of_an_event_ignores_its_payload() {
    let pressed = Key::from(&button_event(1, true));
    let released = Key::from(&button_event(1, false));
    assert!(pressed.same(&released));
    assert!(!pressed.same(&Key::from(&button_event(2, true))));
    assert!(!pressed.same(&Key::from(&timer_event(1))));
    assert!(matches!(Key::from(&timer_event(3)), Key::Timer(key) if key.timer.get() == 3));
    assert!(matches!(
        Key::<Board>::from(&Event::Radio(radio::Event::Received)),
        Key::Radio(radio::Key::Received)
    ));
    assert!(matches!(Key::<Board>::from(&Event::Usb(usb::Event::Read)), Key::Usb(usb::Key::Read)));
    assert!(matches!(
        Key::<Board>::from(&Event::Usb(usb::Event::Write)),
        Key::Usb(usb::Key::Write)
    ));
}

#[test]
fn registering_twice_keeps_the_later_handler_only() {
    let mut applet = Applet::<Board>::new(8);
    assert!(applet.get(&button_key(0)).is_none());
    applet.register(handler(button_key(0), 10, 100));
    applet.register(handler(button_key(1), 11, 101));
    applet.register(handler(button_key(0), 12, 102));
    let found = applet.get(&button_key(0)).unwrap();
    assert_eq!((found.func, found.data), (12, 102));
    let other = applet.get(&button_key(1)).unwrap();
    assert_eq!((other.func, other.data), (11, 101));
    assert!(applet.unregister(&button_key(0)));
    assert!(applet.get(&button_key(0)).is_none());
    assert!(!applet.unregister(&button_key(0)));
    assert!(applet.get(&button_key(1)).is_some());
}

#[test]
fn unregistering_purges_the_pending_events_of_the_key() {
    let mut applet = Applet::<Board>::new(8);
    applet.register(handler(button_key(2), 1, 2));
    assert!(applet.push(button_event(2, true)).is_ok());
    assert!(applet.push(timer_event(0)).is_ok());
    assert!(applet.push(button_event(2, false)).is_ok());
    assert!(applet.push(button_event(3, true)).is_ok());
    assert!(applet.push(Event::Usb(usb::Event::Write)).is_ok());
    assert_eq!(applet.len(), 5);
    assert!(applet.unregister(&button_key(2)));
    assert_eq!(applet.len(), 3);
    assert!(matches!(applet.pop(), Some(Event::Timer(e)) if e.timer.get() == 0));
    assert!(matches!(applet.pop(), Some(Event::Button(e)) if e.button.get() == 3 && e.pressed));
    assert!(matches!(applet.pop(), Some(Event::Usb(usb::Event::Write))));
    assert!(applet.pop().is_none());
    assert!(applet.is_empty());
}

#[test]
fn full_event_queue_drops_the_newest_event() {
    let mut applet = Applet::<Board>::new(2);
    assert!(applet.push(timer_event(0)).is_ok());
    assert!(applet.push(timer_event(1)).is_ok());
    assert!(matches!(applet.push(timer_event(2)), Err(Event::Timer(e)) if e.timer.get() == 2));
    assert_eq!(applet.len(), 2);
    assert!(matches!(applet.pop(), Some(Event::Timer(e)) if e.timer.get() == 0));
    assert!(matches!(applet.pop(), Some(Event::Timer(e)) if e.timer.get() == 1));
    assert!(applet.pop().is_none());
}

#[test]
fn timer_key_is_a_key_of_the_registry() {
    let key = timer::Key::<Board> { timer: Id::new(2).unwrap() }.into_key();
    assert!(key.same(&Key::from(&timer_event(2))));
    assert!(!key.same(&Key::from(&timer_event(1))));
    assert!(!key.same(&button_key(2)));
}

#[test]
fn borrowed_key_is_the_key_of_the_handler() {
    let h = handler(button_key(3), 5, 6);
    assert!(h.borrow().same(&button_key(3)));
    let copy = h.duplicate();
    assert_eq!((copy.inst, copy.func, copy.data), (InstId { id: 0 }, 5, 6));
}

#[test]
fn unregistering_an_instance_removes_all_its_handlers_and_their_events() {
    let mut applet = Applet::<Board>::new(8);
    let first = InstId { id: 1 };
    let second = InstId { id: 2 };
    applet.register(Handler { key: button_key(0), inst: first, func: 1, data: 1 });
    applet.register(Handler { key: button_key(1), inst: second, func: 2, data: 2 });
    applet.register(Handler { key: Key::Usb(usb::Key::Read), inst: first, func: 3, data: 3 });
    applet.register(Handler { key: button_key(2), inst: second, func: 4, data: 4 });
    applet.register(Handler { key: button_key(2), inst: first, func: 5, data: 5 });
    assert!(applet.push(button_event(0, true)).is_ok());
    assert!(applet.push(button_event(1, true)).is_ok());
    assert!(applet.push(Event::Usb(usb::Event::Read)).is_ok());
    assert!(applet.push(timer_event(3)).is_ok());
    assert!(applet.push(button_event(2, false)).is_ok());
    assert!(applet.push(Event::Usb(usb::Event::Write)).is_ok());
    applet.unregister_all(first);
    assert!(applet.get(&button_key(0)).is_none());
    assert!(applet.get(&Key::Usb(usb::Key::Read)).is_none());
    assert!(applet.get(&button_key(2)).is_none());
    assert_eq!(applet.get(&button_key(1)).unwrap().func, 2);
    assert_eq!(applet.len(), 3);
    assert!(matches!(applet.pop(), Some(Event::Button(e)) if e.button.get() == 1));
    assert!(matches!(applet.pop(), Some(Event::Timer(e)) if e.timer.get() == 3));
    assert!(matches!(applet.pop(), Some(Event::Usb(usb::Event::Write))));
    assert!(applet.pop().is_none());
    applet.unregister_all(first);
    assert_eq!(applet.get(&button_key(1)).unwrap().func, 2);
}

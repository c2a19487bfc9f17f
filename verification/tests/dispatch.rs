use event_scheduler::applet::Applet;
use event_scheduler::board::{BoardError, Id};
use event_scheduler::call::{button_register, button_unregister, radio_register, radio_unregister};
use event_scheduler::event::{button, process, radio, timer, usb, Event, Handler, InstId, Key};
use event_scheduler::runner::Board;
use event_scheduler::scheduler::{step, Step};

fn button_event(index: usize, pressed: bool) -> Event<Board> {
    Event::Button(button::Event { button: Id::new(index).unwrap(), pressed })
}

#[test]
fn button_event_is_dispatched_with_one_extra_word() {
    let mut applet = Applet::<Board>::new(4);
    button_register(&mut applet, InstId { id: 3 }, 1, 40, 0xdead).unwrap();
    let call = process(&applet, button_event(1, true)).unwrap();
    assert_eq!(call.inst, InstId { id: 3 });
    assert_eq!(call.func, 40);
    assert_eq!(call.name, "cb1");
    assert_eq!(call.args, vec![0xdead, 1]);
    let call = process(&applet, button_event(1, false)).unwrap();
    assert_eq!(call.name, "cb1");
    assert_eq!(call.args, vec![0xdead, 0]);
}

#[test]
fn events_without_payload_are_dispatched_with_the_data_word_only() {
    let mut applet = Applet::<Board>::new(4);
    radio_register(&mut applet, InstId { id: 1 }, 7, 70);
    applet.register(Handler {
        key: Key::Timer(timer::Key { timer: Id::new(2).unwrap() }),
        inst: InstId { id: 1 },
        func: 8,
        data: 80,
    });
    applet.register(Handler {
        key: Key::Usb(usb::Key::Read),
        inst: InstId { id: 1 },
        func: 9,
        data: 90,
    });
    let call = process(&applet, Event::Radio(radio::Event::Received)).unwrap();
    assert_eq!((call.func, call.name, call.args), (7, "cb0", vec![70]));
    let call =
        process(&applet, Event::Timer(timer::Event { timer: Id::new(2).unwrap() })).unwrap();
    assert_eq!((call.func, call.name, call.args), (8, "cb0", vec![80]));
    let call = process(&applet, Event::Usb(usb::Event::Read)).unwrap();
    assert_eq!((call.func, call.name, call.args), (9, "cb0", vec![90]));
    assert!(process(&applet, Event::Usb(usb::Event::Write)).is_none());
}

#[test]
fn event_without_handler_is_dropped() {
    let mut applet = Applet::<Board>::new(4);
    assert!(process(&applet, button_event(0, true)).is_none());
    assert!(applet.push(button_event(0, true)).is_ok());
    assert!(matches!(step(&mut applet), Step::Missing));
    assert!(applet.is_empty());
    assert!(matches!(step(&mut applet), Step::Wait));
}

#[test]
fn steps_follow_the_order_of_the_queue() {
    let mut applet = Applet::<Board>::new(4);
    button_register(&mut applet, InstId { id: 0 }, 0, 1, 10).unwrap();
    radio_register(&mut applet, InstId { id: 0 }, 2, 20);
    assert!(applet.push(Event::Radio(radio::Event::Received)).is_ok());
    assert!(applet.push(button_event(0, true)).is_ok());
    assert!(applet.push(Event::Radio(radio::Event::Received)).is_ok());
    assert!(matches!(step(&mut applet), Step::Invoke(call) if call.func == 2 && call.name == "cb0"));
    assert!(matches!(step(&mut applet), Step::Invoke(call) if call.func == 1 && call.args == [10, 1]));
    assert!(matches!(step(&mut applet), Step::Invoke(call) if call.func == 2 && call.args == [20]));
    assert!(matches!(step(&mut applet), Step::Wait));
}

#[test]
fn unregistered_handler_is_not_invoked_again() {
    let mut applet = Applet::<Board>::new(4);
    button_register(&mut applet, InstId { id: 0 }, 2, 1, 10).unwrap();
    radio_register(&mut applet, InstId { id: 0 }, 2, 20);
    assert!(applet.push(button_event(2, true)).is_ok());
    assert!(applet.push(Event::Radio(radio::Event::Received)).is_ok());
    assert!(applet.push(button_event(2, false)).is_ok());
    button_unregister(&mut applet, 2).unwrap();
    assert_eq!(applet.len(), 1);
    assert!(matches!(step(&mut applet), Step::Invoke(call) if call.func == 2));
    assert!(matches!(step(&mut applet), Step::Wait));
    assert!(applet.push(button_event(2, true)).is_ok());
    assert!(matches!(step(&mut applet), Step::Missing));
    radio_unregister(&mut applet);
    assert!(process(&applet, Event::Radio(radio::Event::Received)).is_none());
}

#[test]
fn registration_for_a_missing_button_is_refused() {
    let mut applet = Applet::<Board>::new(4);
    assert_eq!(button_register(&mut applet, InstId { id: 0 }, 4, 1, 2), Err(BoardError::InvalidId));
    assert_eq!(button_unregister(&mut applet, 9), Err(BoardError::InvalidId));
    assert_eq!(button_register(&mut applet, InstId { id: 0 }, 3, 1, 2), Ok(()));
    assert_eq!(button_unregister(&mut applet, 3), Ok(()));
}

use event_scheduler::applet::Applet;
use event_scheduler::call::{button_register, radio_register};
use event_scheduler::event::{radio as radio_event, usb, Event, InstId};
use event_scheduler::runner::radio::{
    Metadata, Packets, Received, TrackerScanCallback, MAX_PACKETS,
};
use event_scheduler::runner::{gpiote, radio, radio_timer, timer, usbd, Board, Rearm};
use event_scheduler::scheduler::{step, Step};

fn metadata(channel: u8) -> Metadata {
    Metadata { timestamp: Some(1000), channel, rssi: Some(-60), pdu_type: Some(2) }
}

#[test]
fn press_of_one_button_invokes_its_handler_only() {
    let mut applet = Applet::<Board>::new(8);
    button_register(&mut applet, InstId { id: 5 }, 2, 77, 0xabcd).unwrap();
    let dropped = gpiote(&mut applet, &vec![None, None, Some(true), None]);
    assert_eq!(dropped, 0);
    assert_eq!(applet.len(), 1);
    match step(&mut applet) {
        Step::Invoke(call) => {
            assert_eq!(call.inst, InstId { id: 5 });
            assert_eq!(call.func, 77);
            assert_eq!(call.name, "cb1");
            assert_eq!(call.args, vec![0xabcd, 1]);
        }
        _ => panic!("the handler of button 2 is invoked"),
    }
    assert!(matches!(step(&mut applet), Step::Wait));
}

#[test]
fn buttons_that_triggered_together_are_queued_by_index() {
    let mut applet = Applet::<Board>::new(8);
    assert_eq!(gpiote(&mut applet, &vec![Some(false), None, Some(true), Some(true)]), 0);
    assert!(matches!(applet.pop(), Some(Event::Button(e)) if e.button.get() == 0 && !e.pressed));
    assert!(matches!(applet.pop(), Some(Event::Button(e)) if e.button.get() == 2 && e.pressed));
    assert!(matches!(applet.pop(), Some(Event::Button(e)) if e.button.get() == 3 && e.pressed));
    assert!(applet.pop().is_none());
    assert_eq!(gpiote(&mut applet, &vec![None, None, None, None]), 0);
    assert_eq!(gpiote(&mut applet, &Vec::new()), 0);
    assert!(applet.is_empty());
}

#[test]
fn button_events_that_find_the_queue_full_are_counted() {
    let mut applet = Applet::<Board>::new(2);
    assert_eq!(gpiote(&mut applet, &vec![Some(true), Some(true), Some(false), Some(true)]), 2);
    assert!(matches!(applet.pop(), Some(Event::Button(e)) if e.button.get() == 0));
    assert!(matches!(applet.pop(), Some(Event::Button(e)) if e.button.get() == 1));
    assert!(applet.pop().is_none());
}

#[test]
fn only_a_completed_packet_raises_an_event() {
    let mut applet = Applet::<Board>::new(8);
    let mut packets = Packets::new();
    let mut scan = TrackerScanCallback::new();
    radio_register(&mut applet, InstId { id: 0 }, 1, 2);
    assert_eq!(radio(&mut applet, &mut scan, &mut packets, false), Received::Nothing);
    assert_eq!(radio(&mut applet, &mut scan, &mut packets, true), Received::Nothing);
    assert_eq!(radio(&mut applet, &mut scan, &mut packets, true), Received::Nothing);
    assert_eq!(applet.len(), 0);
    assert_eq!(packets.len(), 0);
    scan.beacon([1, 2, 3, 4, 5, 6], &vec![vec![2, 1, 6]], metadata(37));
    assert_eq!(radio(&mut applet, &mut scan, &mut packets, true), Received::Queued { notified: true });
    assert_eq!(applet.len(), 1);
    assert_eq!(packets.len(), 1);
    assert!(matches!(applet.pop(), Some(Event::Radio(radio_event::Event::Received))));
    assert!(applet.pop().is_none());
    let packet = packets.read().unwrap();
    assert_eq!(packet.addr(), &[1, 2, 3, 4, 5, 6]);
    assert_eq!(packet.data(), &vec![2, 1, 6]);
    assert!(packets.read().is_none());
}

#[test]
fn packet_stays_in_the_slot_until_a_reception_ends() {
    let mut applet = Applet::<Board>::new(8);
    let mut packets = Packets::new();
    let mut scan = TrackerScanCallback::new();
    scan.beacon([0; 6], &Vec::new(), metadata(0));
    assert_eq!(radio(&mut applet, &mut scan, &mut packets, false), Received::Nothing);
    assert!(scan.is_pending());
    assert_eq!(packets.len(), 0);
    assert_eq!(radio(&mut applet, &mut scan, &mut packets, true), Received::Queued { notified: true });
    assert!(!scan.is_pending());
}

#[test]
fn eleventh_packet_is_dropped_and_the_ten_before_it_kept() {
    let mut applet = Applet::<Board>::new(32);
    let mut packets = Packets::new();
    let mut scan = TrackerScanCallback::new();
    for i in 0..MAX_PACKETS {
        scan.beacon([i as u8; 6], &vec![vec![i as u8]], metadata(1));
        assert_eq!(radio(&mut applet, &mut scan, &mut packets, true), Received::Queued { notified: true });
    }
    scan.beacon([99; 6], &vec![vec![99]], metadata(1));
    assert_eq!(radio(&mut applet, &mut scan, &mut packets, true), Received::Dropped);
    assert!(!scan.is_pending());
    assert_eq!(packets.len(), 10);
    assert_eq!(applet.len(), 10);
    for i in 0..MAX_PACKETS {
        let packet = packets.read().unwrap();
        assert_eq!(packet.addr(), &[i as u8; 6]);
        assert_eq!(packet.data(), &vec![i as u8]);
    }
    assert!(packets.read().is_none());
}

#[test]
fn packet_is_queued_even_if_its_event_is_not() {
    let mut applet = Applet::<Board>::new(0);
    let mut packets = Packets::new();
    let mut scan = TrackerScanCallback::new();
    scan.beacon([0; 6], &Vec::new(), metadata(0));
    assert_eq!(radio(&mut applet, &mut scan, &mut packets, true), Received::Queued { notified: false });
    assert_eq!(packets.len(), 1);
    assert!(applet.is_empty());
}

#[test]
fn radio_timer_rearms_only_when_it_fired() {
    assert_eq!(radio_timer(false), Rearm::Keep);
    assert_eq!(radio_timer(true), Rearm::Update);
}

#[test]
fn timer_interrupt_queues_the_event_of_its_timer() {
    let mut applet = Applet::<Board>::new(2);
    assert_eq!(timer(&mut applet, 3).get(), 3);
    assert_eq!(timer(&mut applet, 0).get(), 0);
    assert_eq!(timer(&mut applet, 1).get(), 1);
    assert!(matches!(applet.pop(), Some(Event::Timer(e)) if e.timer.get() == 3));
    assert!(matches!(applet.pop(), Some(Event::Timer(e)) if e.timer.get() == 0));
    assert!(applet.pop().is_none());
}

#[test]
fn usb_events_are_queued_in_the_order_polled() {
    let mut applet = Applet::<Board>::new(3);
    assert_eq!(usbd(&mut applet, &vec![usb::Event::Read, usb::Event::Write]), 0);
    assert_eq!(usbd(&mut applet, &vec![usb::Event::Write, usb::Event::Read]), 1);
    assert_eq!(usbd(&mut applet, &Vec::new()), 0);
    assert!(matches!(applet.pop(), Some(Event::Usb(usb::Event::Read))));
    assert!(matches!(applet.pop(), Some(Event::Usb(usb::Event::Write))));
    assert!(matches!(applet.pop(), Some(Event::Usb(usb::Event::Write))));
    assert!(applet.pop().is_none());
}

#[test]
fn events_of_different_interrupts_share_one_order() {
    let mut applet = Applet::<Board>::new(8);
    timer(&mut applet, 1);
    gpiote(&mut applet, &vec![None, Some(true)]);
    usbd(&mut applet, &vec![usb::Event::Read]);
    timer(&mut applet, 0);
    assert!(matches!(applet.pop(), Some(Event::Timer(e)) if e.timer.get() == 1));
    assert!(matches!(applet.pop(), Some(Event::Button(e)) if e.button.get() == 1));
    assert!(matches!(applet.pop(), Some(Event::Usb(usb::Event::Read))));
    assert!(matches!(applet.pop(), Some(Event::Timer(e)) if e.timer.get() == 0));
}

//! The interrupt side of a Nordic board: what each interrupt source adds to
//! the event queue.

use crate::applet::Applet;
use crate::board::{Api, Id, Support};
use crate::event::{button, timer as timer_event, usb as usb_event, Event, EventView};
use crate::event::radio as radio_event;
use crate::queue::{lemma_push_all_then_push, push_all_spec, push_spec};
use crate::runner::radio::{Packets, Received, TrackerScanCallback, MAX_PACKETS};
use vstd::prelude::*;

pub mod radio;
pub mod usb;

verus! {

/// The Nordic boards that the runner supports.
pub enum Board {
    /// The nRF52833 development kit.
    Nrf52833,
    /// The nRF52840 development kit.
    Nrf52840,
}

/// The four buttons of the development kits.
pub struct Buttons;

/// The four timers that the development kits leave to applets.
pub struct Timers;

impl Support for Buttons {
    open spec fn count() -> nat {
        4
    }

    fn support() -> (n: usize) {
        4
    }
}

impl Support for Timers {
    open spec fn count() -> nat {
        4
    }

    fn support() -> (n: usize) {
        4
    }
}

impl Api for Board {
    type Button = Buttons;

    type Timer = Timers;
}

/// The button events of one interrupt. `samples` holds one entry for each
/// button, in the order of their indices: `None` for a button whose channel
/// did not trigger, else whether its pin reads low, which is pressed.
pub open spec fn button_events(samples: Seq<Option<bool>>) -> Seq<EventView>
    decreases samples.len(),
{
    if samples.len() == 0 {
        Seq::empty()
    } else {
        let front = button_events(samples.drop_last());
        match samples.last() {
            Some(pressed) => front.push(
                EventView::Button { button: (samples.len() - 1) as nat, pressed },
            ),
            None => front,
        }
    }
}

/// The events of the USB serial port as events of the board.
pub open spec fn usb_events(polled: Seq<usb_event::Event>) -> Seq<EventView> {
    polled.map_values(|event: usb_event::Event| EventView::Usb(event))
}

/// One interrupt raises at most one event for each button.
pub proof fn lemma_button_events_len(samples: Seq<Option<bool>>)
    ensures
        button_events(samples).len() <= samples.len(),
    decreases samples.len(),
{
    if samples.len() > 0 {
        lemma_button_events_len(samples.drop_last());
    }
}

/// The GPIO interrupt: queues one event for each button that triggered, in
/// the order of the buttons. Returns how many of them found the queue full.
pub fn gpiote<B: Api>(applet: &mut Applet<B>, samples: &Vec<Option<bool>>) -> (dropped: usize)
    requires
        samples@.len() <= B::Button::count(),
    ensures
        old(applet).inv() ==> final(applet).inv(),
        final(applet).capacity() == old(applet).capacity(),
        final(applet).handlers() == old(applet).handlers(),
        final(applet).pending() == push_all_spec(
            old(applet).pending(),
            old(applet).capacity(),
            button_events(samples@),
        ),
        dropped == old(applet).pending().len() + button_events(samples@).len() - final(applet).pending().len(),
{
    let mut dropped: usize = 0;
    let mut i: usize = 0;
    proof {
        assert(samples@.take(0) =~= Seq::<Option<bool>>::empty());
    }
    while i < samples.len()
        invariant
            i <= samples.len(),
            samples@.len() <= B::Button::count(),
            old(applet).inv() ==> applet.inv(),
            applet.capacity() == old(applet).capacity(),
            applet.handlers() == old(applet).handlers(),
            applet.pending() == push_all_spec(
                old(applet).pending(),
                old(applet).capacity(),
                button_events(samples@.take(i as int)),
            ),
            dropped == old(applet).pending().len() + button_events(
                samples@.take(i as int),
            ).len() - applet.pending().len(),
            dropped <= i,
        decreases samples.len() - i,
    {
        proof {
            assert(samples@.take(i + 1).drop_last() =~= samples@.take(i as int));
            lemma_button_events_len(samples@.take(i as int));
        }
        if let Some(pressed) = samples[i] {
            let id = Id::<B::Button>::new(i).unwrap();
            let event = Event::Button(button::Event { button: id, pressed });
            proof {
                lemma_push_all_then_push(
                    old(applet).pending(),
                    old(applet).capacity(),
                    button_events(samples@.take(i as int)),
                    event@,
                );
            }
            if applet.push(event).is_err() {
                dropped += 1;
            }
        }
        i += 1;
    }
    proof {
        assert(samples@.take(i as int) =~= samples@);
    }
    dropped
}

/// The radio interrupt. `decoded` says whether the scanner took the
/// interrupt as the end of a reception. Only then is the slot of `scan`
/// looked at, and a packet found there is moved to the packet queue, with
/// one event to announce it. A packet that finds the packet queue full is
/// dropped and announced by no event.
pub fn radio<B: Api>(
    applet: &mut Applet<B>,
    scan: &mut TrackerScanCallback,
    packets: &mut Packets,
    decoded: bool,
) -> (r: Received)
    requires
        old(packets).inv(),
    ensures
        final(packets).inv(),
        old(applet).inv() ==> final(applet).inv(),
        final(applet).capacity() == old(applet).capacity(),
        final(applet).handlers() == old(applet).handlers(),
        !decoded || old(scan).slot() is None ==> {
            &&& r == Received::Nothing
            &&& final(scan).slot() == old(scan).slot()
            &&& final(packets).queued() == old(packets).queued()
            &&& final(applet).pending() == old(applet).pending()
        },
        decoded && old(scan).slot() is Some && old(packets).queued().len() < MAX_PACKETS ==> {
            &&& r == Received::Queued {
                notified: old(applet).pending().len() < old(applet).capacity(),
            }
            &&& final(scan).slot() is None
            &&& final(packets).queued() == old(packets).queued().push(old(scan).slot()->0)
            &&& final(applet).pending() == push_spec(
                old(applet).pending(),
                old(applet).capacity(),
                EventView::Radio(radio_event::Event::Received),
            )
        },
        decoded && old(scan).slot() is Some && old(packets).queued().len() >= MAX_PACKETS ==> {
            &&& r == Received::Dropped
            &&& final(scan).slot() is None
            &&& final(packets).queued() == old(packets).queued()
            &&& final(applet).pending() == old(applet).pending()
        },
{
    if !decoded {
        return Received::Nothing;
    }
    match scan.take() {
        None => Received::Nothing,
        Some(packet) => {
            if packets.len() < MAX_PACKETS {
                let _ = packets.enqueue(packet);
                let notified = applet.push(Event::Radio(radio_event::Event::Received)).is_ok();
                Received::Queued { notified }
            } else {
                Received::Dropped
            }
        },
    }
}

/// What the interrupt of the radio timer asks for.
#[derive(Clone, Copy, Debug, PartialEq, Eq, Structural)]
pub enum Rearm {
    /// The timer did not fire: leave radio and timer as they are.
    Keep,
    /// The timer fired: clear it, ask the scanner for its next command, and
    /// configure receiver and timer as the command says.
    Update,
}

/// The interrupt of the radio timer, which re-arms the receiver when the
/// timer has fired. It raises no event.
pub fn radio_timer(pending: bool) -> (r: Rearm)
    ensures
        r == if pending {
            Rearm::Update
        } else {
            Rearm::Keep
        },
{
    if !pending {
        return Rearm::Keep;
    }
    Rearm::Update
}

/// The interrupt of timer `index`: queues its event and hands out the
/// identifier of the timer to tick.
pub fn timer<B: Api>(applet: &mut Applet<B>, index: usize) -> (id: Id<B::Timer>)
    requires
        (index as nat) < B::Timer::count(),
    ensures
        id.index() == index as nat,
        old(applet).inv() ==> final(applet).inv(),
        final(applet).capacity() == old(applet).capacity(),
        final(applet).handlers() == old(applet).handlers(),
        final(applet).pending() == push_spec(
            old(applet).pending(),
            old(applet).capacity(),
            EventView::Timer { timer: index as nat },
        ),
{
    let id = Id::<B::Timer>::new(index).unwrap();
    let _ = applet.push(Event::Timer(timer_event::Event { timer: id.duplicate() }));
    id
}

/// The USB interrupt: queues the events that the serial port reported, in
/// their order. Returns how many of them found the queue full.
pub fn usbd<B: Api>(applet: &mut Applet<B>, polled: &Vec<usb_event::Event>) -> (dropped: usize)
    ensures
        old(applet).inv() ==> final(applet).inv(),
        final(applet).capacity() == old(applet).capacity(),
        final(applet).handlers() == old(applet).handlers(),
        final(applet).pending() == push_all_spec(
            old(applet).pending(),
            old(applet).capacity(),
            usb_events(polled@),
        ),
        dropped == old(applet).pending().len() + polled@.len() - final(applet).pending().len(),
{
    let mut dropped: usize = 0;
    let mut i: usize = 0;
    proof {
        assert(usb_events(polled@.take(0)) =~= Seq::<EventView>::empty());
    }
    while i < polled.len()
        invariant
            i <= polled.len(),
            old(applet).inv() ==> applet.inv(),
            applet.capacity() == old(applet).capacity(),
            applet.handlers() == old(applet).handlers(),
            applet.pending() == push_all_spec(
                old(applet).pending(),
                old(applet).capacity(),
                usb_events(polled@.take(i as int)),
            ),
            dropped == old(applet).pending().len() + i - applet.pending().len(),
            dropped <= i,
        decreases polled.len() - i,
    {
        let event = Event::Usb(polled[i]);
        proof {
            assert(usb_events(polled@.take(i + 1)) =~= usb_events(polled@.take(i as int)).push(
                event@,
            ));
            lemma_push_all_then_push(
                old(applet).pending(),
                old(applet).capacity(),
                usb_events(polled@.take(i as int)),
                event@,
            );
        }
        if applet.push(event).is_err() {
            dropped += 1;
        }
        i += 1;
    }
    proof {
        assert(polled@.take(i as int) =~= polled@);
    }
    dropped
}

} // verus!

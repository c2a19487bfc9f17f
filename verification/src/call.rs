//! What applets ask of the scheduler: to install and to remove handlers.
//!
//! An index that names no instance of the capability is refused before the
//! registry is touched.

use crate::applet::{purged, Applet};
use crate::board::{Api, BoardError, Id, Support};
use crate::event::{button, radio, Handler, HandlerView, InstId, Key, KeyView};
use vstd::prelude::*;

verus! {

/// Installs the handler of `inst` for the events of button `button`.
pub fn button_register<B: Api>(
    applet: &mut Applet<B>,
    inst: InstId,
    button: usize,
    handler_func: u32,
    handler_data: u32,
) -> (r: Result<(), BoardError>)
    ensures
        old(applet).inv() ==> final(applet).inv(),
        final(applet).capacity() == old(applet).capacity(),
        final(applet).pending() == old(applet).pending(),
        r is Ok <==> (button as nat) < B::Button::count(),
        r is Ok ==> final(applet).handlers() == old(applet).handlers().insert(
            KeyView::Button(button as nat),
            HandlerView {
                key: KeyView::Button(button as nat),
                inst,
                func: handler_func,
                data: handler_data,
            },
        ),
        r is Err ==> r == Err::<(), BoardError>(BoardError::InvalidId) && final(applet).handlers() == old(applet).handlers(),
{
    let id = match Id::<B::Button>::new(button) {
        Ok(id) => id,
        Err(e) => {
            return Err(e);
        },
    };
    let key = Key::Button(button::Key { button: id });
    applet.register(Handler { key, inst, func: handler_func, data: handler_data });
    Ok(())
}

/// Removes the handler for the events of button `button`, and the pending
/// events of that button with it.
pub fn button_unregister<B: Api>(applet: &mut Applet<B>, button: usize) -> (r: Result<
    (),
    BoardError,
>)
    requires
        old(applet).inv(),
    ensures
        final(applet).inv(),
        final(applet).capacity() == old(applet).capacity(),
        r is Ok <==> (button as nat) < B::Button::count(),
        r is Ok ==> {
            &&& final(applet).handlers() == old(applet).handlers().remove(
                KeyView::Button(button as nat),
            )
            &&& final(applet).pending() == purged(
                old(applet).pending(),
                KeyView::Button(button as nat),
            )
        },
        r is Err ==> {
            &&& r == Err::<(), BoardError>(BoardError::InvalidId)
            &&& final(applet).handlers() == old(applet).handlers()
            &&& final(applet).pending() == old(applet).pending()
        },
{
    let id = match Id::<B::Button>::new(button) {
        Ok(id) => id,
        Err(e) => {
            return Err(e);
        },
    };
    let key = Key::Button(button::Key { button: id });
    applet.unregister(&key);
    Ok(())
}

/// Installs the handler of `inst` for received packets.
pub fn radio_register<B: Api>(
    applet: &mut Applet<B>,
    inst: InstId,
    handler_func: u32,
    handler_data: u32,
)
    ensures
        old(applet).inv() ==> final(applet).inv(),
        final(applet).capacity() == old(applet).capacity(),
        final(applet).pending() == old(applet).pending(),
        final(applet).handlers() == old(applet).handlers().insert(
            KeyView::Radio(radio::Key::Received),
            HandlerView {
                key: KeyView::Radio(radio::Key::Received),
                inst,
                func: handler_func,
                data: handler_data,
            },
        ),
{
    let key = Key::Radio(radio::Key::Received);
    applet.register(Handler { key, inst, func: handler_func, data: handler_data });
}

/// Removes the handler for received packets, and the pending events that
/// announce packets with it.
pub fn radio_unregister<B: Api>(applet: &mut Applet<B>)
    requires
        old(applet).inv(),
    ensures
        final(applet).inv(),
        final(applet).capacity() == old(applet).capacity(),
        final(applet).handlers() == old(applet).handlers().remove(
            KeyView::Radio(radio::Key::Received),
        ),
        final(applet).pending() == purged(
            old(applet).pending(),
            KeyView::Radio(radio::Key::Received),
        ),
{
    let key = Key::Radio(radio::Key::Received);
    applet.unregister(&key);
}

} // verus!

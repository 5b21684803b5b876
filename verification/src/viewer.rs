//! What the viewer does on each event: the pan offset that scrolling
//! accumulates, and when to redraw or to leave.

use vstd::prelude::*;
use crate::coordinate::Coordinate;

verus! {

/// An event of the window, reduced to what the viewer acts on.
#[derive(Clone, Copy, Debug, PartialEq, Eq, Structural)]
pub enum Event {
    /// The window asks for a fresh frame.
    RedrawRequested,
    /// A pointer button was pressed or released.
    PointerPress,
    /// The scroll device moved by `dx` and `dy` pixels.
    Scroll { dx: isize, dy: isize },
    /// Escape was pressed, or the window is to be closed.
    QuitRequested,
    /// The surface did not take the last frame.
    PresentFailed,
    /// Any other event.
    Other,
}

/// What the event loop is to do next.
#[derive(Clone, Copy, Debug, PartialEq, Eq, Structural)]
pub enum Action {
    /// Wait for the next event.
    Wait,
    /// Ask the window for a redraw.
    RequestRedraw,
    /// Render a frame and present it.
    Redraw,
    /// Leave the event loop.
    Exit,
}

/// The pan offset after the scroll device moved by `dx` and `dy`: the text
/// moves left as the device scrolls right, and down as it scrolls down.
pub open spec fn scrolled(pan: Coordinate, dx: isize, dy: isize) -> (int, int) {
    (pan.x - dx, pan.y + dy)
}

/// Whether the pan offset after a scroll is a coordinate.
pub open spec fn scroll_in_range(pan: Coordinate, dx: isize, dy: isize) -> bool {
    &&& isize::MIN <= pan.x - dx <= isize::MAX
    &&& isize::MIN <= pan.y + dy <= isize::MAX
}

/// The pan offset after `event`: a scroll moves it, every other event
/// leaves it as it is.
pub open spec fn pan_after(pan: Coordinate, event: Event) -> (int, int) {
    match event {
        Event::Scroll { dx, dy } => scrolled(pan, dx, dy),
        _ => (pan.x as int, pan.y as int),
    }
}

/// What the event loop does after `event`.
pub open spec fn action_after(event: Event) -> Action {
    match event {
        Event::RedrawRequested => Action::Redraw,
        Event::PointerPress => Action::RequestRedraw,
        Event::Scroll { .. } => Action::RequestRedraw,
        Event::QuitRequested => Action::Exit,
        Event::PresentFailed => Action::Exit,
        Event::Other => Action::Wait,
    }
}

/// Takes one event: returns the pan offset after it and what the event loop
/// is to do next.
pub fn handle_event(pan: Coordinate, event: Event) -> (next: (Coordinate, Action))
    requires
        event matches Event::Scroll { dx, dy } ==> scroll_in_range(pan, dx, dy),
    ensures
        (next.0.x as int, next.0.y as int) == pan_after(pan, event),
        next.1 == action_after(event),
{
    match event {
        Event::RedrawRequested => (pan, Action::Redraw),
        Event::PointerPress => (pan, Action::RequestRedraw),
        Event::Scroll { dx, dy } => (
            Coordinate { x: pan.x - dx, y: pan.y + dy },
            Action::RequestRedraw,
        ),
        Event::QuitRequested => (pan, Action::Exit),
        Event::PresentFailed => (pan, Action::Exit),
        Event::Other => (pan, Action::Wait),
    }
}

/// Whether a scroll by `dx` and `dy` keeps the pan offset a coordinate.
pub fn can_scroll(pan: Coordinate, dx: isize, dy: isize) -> (fits: bool)
    ensures
        fits == scroll_in_range(pan, dx, dy),
{
    pan.x.checked_sub(dx).is_some() && pan.y.checked_add(dy).is_some()
}

} // verus!

//! Routing of window events between the overlay, the window and the orbit
//! camera.
use vstd::prelude::*;

verus! {

/// A pointer button.
#[derive(Clone, Copy, Debug, PartialEq, Eq, Structural)]
pub enum PointerButton {
    Left,
    Middle,
    Right,
    Other,
}

/// A window event, with what the routing decision reads of it. Pointer
/// positions and scroll amounts stay with the caller.
#[derive(Clone, Copy, Debug, PartialEq, Eq, Structural)]
pub enum WindowInput {
    Resized { width: u32, height: u32 },
    CloseRequested,
    RedrawRequested,
    CursorMoved,
    Button { button: PointerButton, pressed: bool },
    Scrolled,
    Other,
}

/// What to do with an event.
#[derive(Clone, Copy, Debug, PartialEq, Eq, Structural)]
pub enum InputAction {
    /// Nothing.
    Ignore,
    /// Resize the surface, depth target and projection.
    Resize { width: u32, height: u32 },
    /// Leave the event loop.
    Exit,
    /// Ask the window for a redraw.
    RequestRedraw,
    /// Only record the new pointer position.
    TrackPointer,
    /// Turn the orbit camera by the pointer's motion, then record the position.
    Orbit,
    /// Move the orbit camera in or out by the scroll amount.
    Zoom,
}

/// The button that drags the camera.
pub open spec fn is_drag_button(button: PointerButton) -> bool {
    button == PointerButton::Middle
}

/// The action for `event` while dragging is `dragging`. An event that the
/// overlay consumed is not used for the camera or the window.
pub open spec fn route_spec(dragging: bool, consumed: bool, event: WindowInput) -> InputAction {
    if consumed {
        InputAction::Ignore
    } else {
        match event {
            WindowInput::Resized { width, height } => InputAction::Resize { width, height },
            WindowInput::CloseRequested => InputAction::Exit,
            WindowInput::RedrawRequested => InputAction::RequestRedraw,
            WindowInput::CursorMoved => if dragging {
                InputAction::Orbit
            } else {
                InputAction::TrackPointer
            },
            WindowInput::Scrolled => InputAction::Zoom,
            _ => InputAction::Ignore,
        }
    }
}

/// Whether dragging after `event`.
pub open spec fn dragging_after(dragging: bool, consumed: bool, event: WindowInput) -> bool {
    if consumed {
        dragging
    } else {
        match event {
            WindowInput::Button { button, pressed } => if is_drag_button(button) {
                pressed
            } else {
                dragging
            },
            _ => dragging,
        }
    }
}

/// The input state of the orbit camera: whether the drag button is held.
pub struct InputState {
    pub dragging: bool,
}

impl InputState {
    /// No button held.
    pub fn new() -> (r: InputState)
        ensures
            !r.dragging,
    {
        InputState { dragging: false }
    }

    /// Routes one window event; `consumed` tells whether the overlay took it.
    pub fn route(&mut self, consumed: bool, event: WindowInput) -> (action: InputAction)
        ensures
            action == route_spec(old(self).dragging, consumed, event),
            final(self).dragging == dragging_after(old(self).dragging, consumed, event),
    {
        if consumed {
            return InputAction::Ignore;
        }
        match event {
            WindowInput::Resized { width, height } => InputAction::Resize { width, height },
            WindowInput::CloseRequested => InputAction::Exit,
            WindowInput::RedrawRequested => InputAction::RequestRedraw,
            WindowInput::CursorMoved => if self.dragging {
                InputAction::Orbit
            } else {
                InputAction::TrackPointer
            },
            WindowInput::Button { button, pressed } => {
                if let PointerButton::Middle = button {
                    self.dragging = pressed;
                }
                InputAction::Ignore
            },
            WindowInput::Scrolled => InputAction::Zoom,
            WindowInput::Other => InputAction::Ignore,
        }
    }
}

} // verus!

//! Decisions of the interactive loop: which action each input event asks for.
//!
//! The loop that reads events, moves the viewport and redraws lives with the
//! terminal; it hands each event to `next_action` and performs the action.
use vstd::prelude::*;

verus! {

/// The key that ends the session.
pub const QUIT_KEY: char = 'q';

/// A key press, with the keys that the loop tells apart.
#[derive(Clone, Copy, Debug, PartialEq, Eq, Structural)]
pub enum KeyInput {
    Char(char),
    Up,
    Down,
    Left,
    Right,
    Other,
}

/// A pointer button.
#[derive(Clone, Copy, Debug, PartialEq, Eq, Structural)]
pub enum PointerButton {
    Left,
    Right,
    Other,
}

/// One input event.
#[derive(Clone, Copy, Debug, PartialEq, Eq, Structural)]
pub enum InputEvent {
    Key(KeyInput),
    /// A pointer button pressed over grid cell `(x, y)`.
    Press(PointerButton, u16, u16),
    Other,
}

/// The direction in which the view moves by one pan step.
#[derive(Clone, Copy, Debug, PartialEq, Eq, Structural)]
pub enum PanDirection {
    /// Toward smaller real parts.
    Left,
    /// Toward larger real parts.
    Right,
    /// Toward smaller imaginary parts (the top row of the grid).
    Up,
    /// Toward larger imaginary parts.
    Down,
}

/// Which of the two zoom factors applies.
#[derive(Clone, Copy, Debug, PartialEq, Eq, Structural)]
pub enum ZoomKind {
    In,
    Out,
}

/// What the loop does with one event.
#[derive(Clone, Copy, Debug, PartialEq, Eq, Structural)]
pub enum Action {
    /// End the session.
    Quit,
    /// Shift the viewport's origin by one pan step, then redraw.
    Pan(PanDirection),
    /// Keep the viewport and redraw.
    Redraw,
    /// Zoom about grid cell `(x, y)`, then redraw.
    Zoom(ZoomKind, u16, u16),
    /// Do nothing.
    Ignore,
}

/// The action that an event asks for: the quit key ends the session, an
/// arrow key pans the view, any other key redraws it unchanged, a press of
/// the left button zooms in and of any other button zooms out about the
/// pressed cell, and every other event is ignored.
pub fn next_action(event: InputEvent) -> (action: Action)
    ensures
        event == InputEvent::Key(KeyInput::Char(QUIT_KEY)) ==> action == Action::Quit,
        event == InputEvent::Key(KeyInput::Left) ==> action == Action::Pan(PanDirection::Left),
        event == InputEvent::Key(KeyInput::Right) ==> action == Action::Pan(PanDirection::Right),
        event == InputEvent::Key(KeyInput::Up) ==> action == Action::Pan(PanDirection::Up),
        event == InputEvent::Key(KeyInput::Down) ==> action == Action::Pan(PanDirection::Down),
        event == InputEvent::Key(KeyInput::Other) ==> action == Action::Redraw,
        forall|c: char|
            c != QUIT_KEY && event == InputEvent::Key(KeyInput::Char(c)) ==> action
                == Action::Redraw,
        forall|x: u16, y: u16|
            event == InputEvent::Press(PointerButton::Left, x, y) ==> action == Action::Zoom(
                ZoomKind::In,
                x,
                y,
            ),
        forall|b: PointerButton, x: u16, y: u16|
            b != PointerButton::Left && event == InputEvent::Press(b, x, y) ==> action
                == Action::Zoom(ZoomKind::Out, x, y),
        event == InputEvent::Other ==> action == Action::Ignore,
{
    match event {
        InputEvent::Key(key) => match key {
            KeyInput::Char(c) => if c == QUIT_KEY {
                Action::Quit
            } else {
                Action::Redraw
            },
            KeyInput::Left => Action::Pan(PanDirection::Left),
            KeyInput::Right => Action::Pan(PanDirection::Right),
            KeyInput::Up => Action::Pan(PanDirection::Up),
            KeyInput::Down => Action::Pan(PanDirection::Down),
            KeyInput::Other => Action::Redraw,
        },
        InputEvent::Press(button, x, y) => match button {
            PointerButton::Left => Action::Zoom(ZoomKind::In, x, y),
            _ => Action::Zoom(ZoomKind::Out, x, y),
        },
        InputEvent::Other => Action::Ignore,
    }
}

} // verus!

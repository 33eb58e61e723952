//! Which mouse buttons are held, and the input request that each mouse
//! command becomes.
use vstd::prelude::*;
use crate::protocol::{MouseButton, MouseEvent};

verus! {

/// The buttons held down: idle, left, right or both.
#[derive(Clone, Copy, Debug, Default, PartialEq, Eq, Structural)]
pub struct ButtonState {
    pub left: bool,
    pub right: bool,
}

/// Kind of a pointer input request.
#[derive(Clone, Copy, Debug, PartialEq, Eq, Structural)]
pub enum PointerKind {
    Moved,
    Pressed,
    Released,
}

/// A pointer input request for the browser.
#[derive(Clone, Copy, Debug, PartialEq, Eq, Structural)]
pub struct PointerInput {
    pub kind: PointerKind,
    pub x: u32,
    pub y: u32,
    /// The button pressed or released, or the one held during a move.
    pub button: Option<MouseButton>,
    /// Held buttons as a mask: 1 for left, 2 for right.
    pub buttons: u32,
    /// 1 for a press or a release, none for a move.
    pub click_count: Option<u32>,
}

/// The state after `e`: a press holds its button, a release lets it go, a
/// move changes nothing.
pub open spec fn next_state(s: ButtonState, e: MouseEvent) -> ButtonState {
    match e {
        MouseEvent::Move => s,
        MouseEvent::Pressed(MouseButton::Left) => ButtonState { left: true, ..s },
        MouseEvent::Pressed(MouseButton::Right) => ButtonState { right: true, ..s },
        MouseEvent::Released(MouseButton::Left) => ButtonState { left: false, ..s },
        MouseEvent::Released(MouseButton::Right) => ButtonState { right: false, ..s },
    }
}

pub open spec fn mask_of(s: ButtonState) -> u32 {
    if s.left && s.right {
        3
    } else if s.left {
        1
    } else if s.right {
        2
    } else {
        0
    }
}

/// The button a move reports: left where it is held, else right where it is
/// held, else none.
pub open spec fn held_button(s: ButtonState) -> Option<MouseButton> {
    if s.left {
        Some(MouseButton::Left)
    } else if s.right {
        Some(MouseButton::Right)
    } else {
        None
    }
}

/// The request for `e` at (`x`, `y`), given the state after `e`.
pub open spec fn input_for(s: ButtonState, x: u32, y: u32, e: MouseEvent) -> PointerInput {
    match e {
        MouseEvent::Move => PointerInput {
            kind: PointerKind::Moved,
            x,
            y,
            button: held_button(s),
            buttons: mask_of(s),
            click_count: None,
        },
        MouseEvent::Pressed(b) => PointerInput {
            kind: PointerKind::Pressed,
            x,
            y,
            button: Some(b),
            buttons: mask_of(s),
            click_count: Some(1),
        },
        MouseEvent::Released(b) => PointerInput {
            kind: PointerKind::Released,
            x,
            y,
            button: Some(b),
            buttons: mask_of(s),
            click_count: Some(1),
        },
    }
}

impl ButtonState {
    pub fn new() -> (r: Self)
        ensures
            !r.left && !r.right,
    {
        ButtonState { left: false, right: false }
    }

    /// Held buttons as a mask: 1 for left, 2 for right.
    pub fn mask(&self) -> (r: u32)
        ensures
            r == mask_of(*self),
    {
        (if self.left { 1u32 } else { 0u32 }) + (if self.right { 2u32 } else { 0u32 })
    }

    /// Applies `event` and returns the input request it becomes.
    pub fn apply(&mut self, x: u32, y: u32, event: MouseEvent) -> (r: PointerInput)
        ensures
            *final(self) == next_state(*old(self), event),
            r == input_for(*final(self), x, y, event),
    {
        match event {
            MouseEvent::Pressed(MouseButton::Left) => self.left = true,
            MouseEvent::Pressed(MouseButton::Right) => self.right = true,
            MouseEvent::Released(MouseButton::Left) => self.left = false,
            MouseEvent::Released(MouseButton::Right) => self.right = false,
            MouseEvent::Move => {},
        }
        let buttons = self.mask();
        match event {
            MouseEvent::Move => {
                let button = if self.left {
                    Some(MouseButton::Left)
                } else if self.right {
                    Some(MouseButton::Right)
                } else {
                    None
                };
                PointerInput { kind: PointerKind::Moved, x, y, button, buttons, click_count: None }
            },
            MouseEvent::Pressed(b) => PointerInput {
                kind: PointerKind::Pressed,
                x,
                y,
                button: Some(b),
                buttons,
                click_count: Some(1),
            },
            MouseEvent::Released(b) => PointerInput {
                kind: PointerKind::Released,
                x,
                y,
                button: Some(b),
                buttons,
                click_count: Some(1),
            },
        }
    }
}

/// A press followed by a move reports the pressed button as held.
pub proof fn lemma_move_reports_pressed(s: ButtonState, b: MouseButton, x: u32, y: u32)
    requires
        !s.left && !s.right,
    ensures
        input_for(
            next_state(next_state(s, MouseEvent::Pressed(b)), MouseEvent::Move),
            x,
            y,
            MouseEvent::Move,
        ).button == Some(b),
{
}

/// With both buttons pressed and the left one released again, a move reports
/// the right button as held.
pub proof fn lemma_move_reports_remaining_right(s: ButtonState, x: u32, y: u32)
    ensures
        ({
            let s1 = next_state(s, MouseEvent::Pressed(MouseButton::Left));
            let s2 = next_state(s1, MouseEvent::Pressed(MouseButton::Right));
            let s3 = next_state(s2, MouseEvent::Released(MouseButton::Left));
            input_for(next_state(s3, MouseEvent::Move), x, y, MouseEvent::Move).button == Some(
                MouseButton::Right,
            )
        }),
{
}

/// A release of a button that is not held leaves the state as it was.
pub proof fn lemma_release_unheld_is_noop(s: ButtonState, b: MouseButton)
    requires
        b == MouseButton::Left ==> !s.left,
        b == MouseButton::Right ==> !s.right,
    ensures
        next_state(s, MouseEvent::Released(b)) == s,
{
}

} // verus!

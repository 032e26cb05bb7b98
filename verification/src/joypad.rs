//! The joypad register model: button latches, the select lines written
//! through 0xff00, and the active-low composition read back from it.

use vstd::prelude::*;

verus! {

#[derive(Clone, Copy, Debug, PartialEq, Eq, Structural)]
pub enum Button {
    Up,
    Right,
    Down,
    Left,
    A,
    B,
    Select,
    Start,
}

#[derive(Clone, Copy, Debug, PartialEq, Eq, Structural)]
pub struct Joypad {
    pub up: bool,
    pub right: bool,
    pub down: bool,
    pub left: bool,
    pub a: bool,
    pub b: bool,
    pub select: bool,
    pub start: bool,
    pub is_dpad_type: bool,
    pub is_button_type: bool,
    pub joypad_register_flipped: u8,
}

/// The latch a button name addresses.
pub open spec fn joy_button(j: Joypad, button: Button) -> bool {
    match button {
        Button::Up => j.up,
        Button::Right => j.right,
        Button::Down => j.down,
        Button::Left => j.left,
        Button::A => j.a,
        Button::B => j.b,
        Button::Select => j.select,
        Button::Start => j.start,
    }
}

/// The joypad with one button latch replaced.
pub open spec fn joy_with(j: Joypad, button: Button, v: bool) -> Joypad {
    match button {
        Button::Up => Joypad { up: v, ..j },
        Button::Right => Joypad { right: v, ..j },
        Button::Down => Joypad { down: v, ..j },
        Button::Left => Joypad { left: v, ..j },
        Button::A => Joypad { a: v, ..j },
        Button::B => Joypad { b: v, ..j },
        Button::Select => Joypad { select: v, ..j },
        Button::Start => Joypad { start: v, ..j },
    }
}

/// Whether a button is on the directional pad (as opposed to the
/// action/button group).
pub open spec fn joy_is_dpad(button: Button) -> bool {
    match button {
        Button::Up => true,
        Button::Right => true,
        Button::Down => true,
        Button::Left => true,
        _ => false,
    }
}

/// What a write to 0xff00 does: the value is stored bit-flipped, and
/// bits 4 and 5 of the flipped value select the d-pad and button
/// groups for polling.
pub open spec fn joy_update(j: Joypad, value: u8) -> Joypad {
    let flipped = value ^ 0xff;
    Joypad {
        joypad_register_flipped: flipped,
        is_dpad_type: flipped & 0b10000 > 0,
        is_button_type: flipped & 0b100000 > 0,
        ..j
    }
}

/// What a read of 0xff00 returns: the selected group's buttons in bits
/// 0-3, active-low, the upper nibble forced to ones, and the whole
/// low nibble forced to ones when neither group is selected.
pub open spec fn joy_state(j: Joypad) -> u8 {
    let r0 = j.joypad_register_flipped;
    let r = if j.is_dpad_type {
        let r1 = if j.up { r0 & 0b11111011 } else { r0 | 0b100 };
        let r2 = if j.right { r1 & 0b11111110 } else { r1 | 0b1 };
        let r3 = if j.down { r2 & 0b11110111 } else { r2 | 0b1000 };
        if j.left {
            r3 & 0b11111101
        } else {
            r3 | 0b10
        }
    } else if j.is_button_type {
        let r1 = if j.a { r0 & 0b11111110 } else { r0 | 0b1 };
        let r2 = if j.b { r1 & 0b11111101 } else { r1 | 0b10 };
        let r3 = if j.select { r2 & 0b11111011 } else { r2 | 0b100 };
        if j.start {
            r3 & 0b11110111
        } else {
            r3 | 0b1000
        }
    } else {
        r0 | 0x0f
    };
    r | 0xf0
}

/// Whether newly pressing `button` raises the joypad interrupt: it must
/// have been released, and its group must be the one selected for
/// polling.
pub open spec fn joy_press_requests(j: Joypad, button: Button) -> bool {
    &&& !joy_button(j, button)
    &&& if joy_is_dpad(button) {
        j.is_dpad_type
    } else {
        j.is_button_type
    }
}

/// One button of a full state update: pressed buttons are latched (and
/// may request an interrupt); released ones are cleared.
pub open spec fn joy_apply(j: Joypad, button: Button, on: bool) -> (Joypad, bool) {
    if on {
        (joy_with(j, button, true), joy_press_requests(j, button))
    } else {
        (joy_with(j, button, false), false)
    }
}

/// A full state update, button by button in a fixed order; the
/// interrupt is requested if any newly pressed button's group is
/// selected.
pub open spec fn joy_set_all(
    j: Joypad,
    up: bool,
    right: bool,
    down: bool,
    left: bool,
    a: bool,
    b: bool,
    select: bool,
    start: bool,
) -> (Joypad, bool) {
    let s1 = joy_apply(j, Button::Up, up);
    let s2 = joy_apply(s1.0, Button::Right, right);
    let s3 = joy_apply(s2.0, Button::Down, down);
    let s4 = joy_apply(s3.0, Button::Left, left);
    let s5 = joy_apply(s4.0, Button::A, a);
    let s6 = joy_apply(s5.0, Button::B, b);
    let s7 = joy_apply(s6.0, Button::Select, select);
    let s8 = joy_apply(s7.0, Button::Start, start);
    (s8.0, s1.1 || s2.1 || s3.1 || s4.1 || s5.1 || s6.1 || s7.1 || s8.1)
}

/// The power-on joypad state: nothing pressed, nothing selected.
pub open spec fn joy_init() -> Joypad {
    Joypad {
        up: false,
        right: false,
        down: false,
        left: false,
        a: false,
        b: false,
        select: false,
        start: false,
        is_dpad_type: false,
        is_button_type: false,
        joypad_register_flipped: 0,
    }
}

impl Joypad {
    pub fn new() -> (j: Joypad)
        ensures
            j == joy_init(),
            j == (Joypad {
                up: false,
                right: false,
                down: false,
                left: false,
                a: false,
                b: false,
                select: false,
                start: false,
                is_dpad_type: false,
                is_button_type: false,
                joypad_register_flipped: 0,
            }),
    {
        Joypad {
            up: false,
            right: false,
            down: false,
            left: false,
            a: false,
            b: false,
            select: false,
            start: false,
            is_dpad_type: false,
            is_button_type: false,
            joypad_register_flipped: 0,
        }
    }

    pub fn update_joypad(&mut self, value: u8)
        ensures
            *final(self) == joy_update(*old(self), value),
    {
        self.joypad_register_flipped = value ^ 0xff;
        self.is_dpad_type = self.joypad_register_flipped & 0b10000 > 0;
        self.is_button_type = self.joypad_register_flipped & 0b100000 > 0;
    }

    /// Latches the state of all eight buttons; returns whether the
    /// joypad interrupt should be requested (some newly pressed button
    /// belongs to the group selected for polling).
    pub fn set_joypad_state(
        &mut self,
        up: bool,
        right: bool,
        down: bool,
        left: bool,
        a: bool,
        b: bool,
        select: bool,
        start: bool,
    ) -> (request_interrupt: bool)
        ensures
            (*final(self), request_interrupt) == joy_set_all(
                *old(self),
                up,
                right,
                down,
                left,
                a,
                b,
                select,
                start,
            ),
    {
        let mut request_interrupt = false;
        if up {
            request_interrupt = self.press_button(Button::Up) || request_interrupt;
        } else {
            self.release_button(Button::Up);
        }
        if right {
            request_interrupt = self.press_button(Button::Right) || request_interrupt;
        } else {
            self.release_button(Button::Right);
        }
        if down {
            request_interrupt = self.press_button(Button::Down) || request_interrupt;
        } else {
            self.release_button(Button::Down);
        }
        if left {
            request_interrupt = self.press_button(Button::Left) || request_interrupt;
        } else {
            self.release_button(Button::Left);
        }
        if a {
            request_interrupt = self.press_button(Button::A) || request_interrupt;
        } else {
            self.release_button(Button::A);
        }
        if b {
            request_interrupt = self.press_button(Button::B) || request_interrupt;
        } else {
            self.release_button(Button::B);
        }
        if select {
            request_interrupt = self.press_button(Button::Select) || request_interrupt;
        } else {
            self.release_button(Button::Select);
        }
        if start {
            request_interrupt = self.press_button(Button::Start) || request_interrupt;
        } else {
            self.release_button(Button::Start);
        }
        request_interrupt
    }

    pub fn get_joypad_state(&self) -> (r: u8)
        ensures
            r == joy_state(*self),
    {
        let mut register = self.joypad_register_flipped;
        if self.is_dpad_type {
            if self.up {
                register = register & 0b11111011;
            } else {
                register = register | 0b100;
            }
            if self.right {
                register = register & 0b11111110;
            } else {
                register = register | 0b1;
            }
            if self.down {
                register = register & 0b11110111;
            } else {
                register = register | 0b1000;
            }
            if self.left {
                register = register & 0b11111101;
            } else {
                register = register | 0b10;
            }
        } else if self.is_button_type {
            if self.a {
                register = register & 0b11111110;
            } else {
                register = register | 0b1;
            }
            if self.b {
                register = register & 0b11111101;
            } else {
                register = register | 0b10;
            }
            if self.select {
                register = register & 0b11111011;
            } else {
                register = register | 0b100;
            }
            if self.start {
                register = register & 0b11110111;
            } else {
                register = register | 0b1000;
            }
        }
        if !self.is_dpad_type && !self.is_button_type {
            register = register | 0x0f;
        }
        register = register | 0xf0;
        register
    }

    pub fn press_button(&mut self, button: Button) -> (request: bool)
        ensures
            *final(self) == joy_with(*old(self), button, true),
            request == joy_press_requests(*old(self), button),
    {
        let was_pressed = self.get_button_state(button);
        self.set_button_state(button, true);
        if was_pressed {
            return false;
        }
        let is_dpad_button = match button {
            Button::Up | Button::Right | Button::Down | Button::Left => true,
            _ => false,
        };
        if is_dpad_button {
            self.is_dpad_type
        } else {
            self.is_button_type
        }
    }

    pub fn release_button(&mut self, button: Button)
        ensures
            *final(self) == joy_with(*old(self), button, false),
    {
        self.set_button_state(button, false)
    }

    pub fn get_button_state(&self, button: Button) -> (r: bool)
        ensures
            r == joy_button(*self, button),
    {
        match button {
            Button::Up => self.up,
            Button::Right => self.right,
            Button::Down => self.down,
            Button::Left => self.left,
            Button::A => self.a,
            Button::B => self.b,
            Button::Select => self.select,
            Button::Start => self.start,
        }
    }

    pub fn set_button_state(&mut self, button: Button, is_pressed: bool)
        ensures
            *final(self) == joy_with(*old(self), button, is_pressed),
    {
        match button {
            Button::Up => self.up = is_pressed,
            Button::Right => self.right = is_pressed,
            Button::Down => self.down = is_pressed,
            Button::Left => self.left = is_pressed,
            Button::A => self.a = is_pressed,
            Button::B => self.b = is_pressed,
            Button::Select => self.select = is_pressed,
            Button::Start => self.start = is_pressed,
        }
    }
}

} // verus!

//! Input for the host's desktop, in the terms of the operating system.

use crate::protocol::{ControlPayload, PointerButton};
use crate::wire;
use vstd::prelude::*;

verus! {

/// The mouse moved.
pub const MOUSEEVENTF_MOVE: u32 = 0x0001;

/// The left button went down.
pub const MOUSEEVENTF_LEFTDOWN: u32 = 0x0002;

/// The left button went up.
pub const MOUSEEVENTF_LEFTUP: u32 = 0x0004;

/// The right button went down.
pub const MOUSEEVENTF_RIGHTDOWN: u32 = 0x0008;

/// The right button went up.
pub const MOUSEEVENTF_RIGHTUP: u32 = 0x0010;

/// The middle button went down.
pub const MOUSEEVENTF_MIDDLEDOWN: u32 = 0x0020;

/// The middle button went up.
pub const MOUSEEVENTF_MIDDLEUP: u32 = 0x0040;

/// The wheel was turned.
pub const MOUSEEVENTF_WHEEL: u32 = 0x0800;

/// The position is absolute.
pub const MOUSEEVENTF_ABSOLUTE: u32 = 0x8000;

/// The key went up.
pub const KEYEVENTF_KEYUP: u32 = 0x0002;

/// One notch of the wheel.
pub const WHEEL_DELTA: i32 = 120;

/// An event for the operating system.
#[derive(Clone, Copy, PartialEq, Eq, Structural, Debug)]
pub enum SystemInput {
    /// A mouse event: position, data of the wheel and flags.
    Mouse { dx: i32, dy: i32, mouse_data: u32, flags: u32 },
    /// A keyboard event: virtual key code and flags.
    Key { key: u16, flags: u32 },
}

/// The flag of a button that goes down or up; the extra buttons have none.
pub open spec fn button_flag(button: PointerButton, pressed: bool) -> u32 {
    match button {
        PointerButton::Primary => if pressed {
            MOUSEEVENTF_LEFTDOWN
        } else {
            MOUSEEVENTF_LEFTUP
        },
        PointerButton::Secondary => if pressed {
            MOUSEEVENTF_RIGHTDOWN
        } else {
            MOUSEEVENTF_RIGHTUP
        },
        PointerButton::Middle => if pressed {
            MOUSEEVENTF_MIDDLEDOWN
        } else {
            MOUSEEVENTF_MIDDLEUP
        },
        _ => 0,
    }
}

/// Whether the wheel can be turned by so many notches.
pub open spec fn is_scrollable(delta: i32) -> bool {
    i32::MIN <= delta * WHEEL_DELTA <= i32::MAX
}

/// Whether the operating system can be given a payload.
pub open spec fn is_injectable(payload: ControlPayload) -> bool {
    match payload {
        ControlPayload::Scroll { delta } => is_scrollable(delta),
        _ => true,
    }
}

/// The event that stands for a payload.
pub open spec fn system_input(payload: ControlPayload) -> SystemInput {
    match payload {
        ControlPayload::MouseMove { mouse_x, mouse_y } => SystemInput::Mouse {
            dx: wire::i32_from_bits(mouse_x),
            dy: wire::i32_from_bits(mouse_y),
            mouse_data: 0,
            flags: MOUSEEVENTF_ABSOLUTE | MOUSEEVENTF_MOVE,
        },
        ControlPayload::MouseClick { mouse_x, mouse_y, pressed, button } => SystemInput::Mouse {
            dx: wire::i32_from_bits(mouse_x),
            dy: wire::i32_from_bits(mouse_y),
            mouse_data: 0,
            flags: MOUSEEVENTF_ABSOLUTE | MOUSEEVENTF_MOVE | button_flag(button, pressed),
        },
        ControlPayload::Keyboard { pressed, key } => SystemInput::Key {
            key,
            flags: if pressed {
                0
            } else {
                KEYEVENTF_KEYUP
            },
        },
        ControlPayload::Scroll { delta } => SystemInput::Mouse {
            dx: 0,
            dy: 0,
            mouse_data: wire::i32_bits((delta * WHEEL_DELTA) as i32),
            flags: MOUSEEVENTF_WHEEL,
        },
    }
}

/// The signed number with the bit pattern of an unsigned one.
fn signed(bits: u32) -> (value: i32)
    ensures
        value == wire::i32_from_bits(bits),
{
    if bits < 0x8000_0000 {
        bits as i32
    } else {
        (bits as i64 - 0x1_0000_0000) as i32
    }
}

/// The mouse moves to a position.
pub fn send_mouse_move(mouse_x: u32, mouse_y: u32) -> (input: SystemInput)
    ensures
        input == system_input(ControlPayload::MouseMove { mouse_x, mouse_y }),
{
    SystemInput::Mouse {
        dx: signed(mouse_x),
        dy: signed(mouse_y),
        mouse_data: 0,
        flags: MOUSEEVENTF_ABSOLUTE | MOUSEEVENTF_MOVE,
    }
}

/// A mouse button goes down or up at a position.
pub fn send_mouse_click(mouse_x: u32, mouse_y: u32, button: PointerButton, pressed: bool) -> (input:
    SystemInput)
    ensures
        input == system_input(ControlPayload::MouseClick { mouse_x, mouse_y, pressed, button }),
{
    let flag: u32 = match button {
        PointerButton::Primary => if pressed {
            MOUSEEVENTF_LEFTDOWN
        } else {
            MOUSEEVENTF_LEFTUP
        },
        PointerButton::Secondary => if pressed {
            MOUSEEVENTF_RIGHTDOWN
        } else {
            MOUSEEVENTF_RIGHTUP
        },
        PointerButton::Middle => if pressed {
            MOUSEEVENTF_MIDDLEDOWN
        } else {
            MOUSEEVENTF_MIDDLEUP
        },
        _ => 0,
    };
    SystemInput::Mouse {
        dx: signed(mouse_x),
        dy: signed(mouse_y),
        mouse_data: 0,
        flags: MOUSEEVENTF_ABSOLUTE | MOUSEEVENTF_MOVE | flag,
    }
}

/// The wheel is turned: up if `delta` is positive, down if it is negative.
pub fn send_scroll(delta: i32) -> (input: SystemInput)
    requires
        is_scrollable(delta),
    ensures
        input == system_input(ControlPayload::Scroll { delta }),
{
    let notches: i32 = delta * WHEEL_DELTA;
    let mouse_data: u32 = if notches < 0 {
        (notches as i64 + 0x1_0000_0000) as u32
    } else {
        notches as u32
    };
    SystemInput::Mouse { dx: 0, dy: 0, mouse_data, flags: MOUSEEVENTF_WHEEL }
}

/// A key goes down or up.
pub fn send_key(key: u16, pressed: bool) -> (input: SystemInput)
    ensures
        input == system_input(ControlPayload::Keyboard { pressed, key }),
{
    let flags: u32 = if pressed {
        0
    } else {
        KEYEVENTF_KEYUP
    };
    SystemInput::Key { key, flags }
}

/// The event that stands for a payload.
pub fn inject(payload: ControlPayload) -> (input: SystemInput)
    requires
        is_injectable(payload),
    ensures
        input == system_input(payload),
{
    match payload {
        ControlPayload::MouseMove { mouse_x, mouse_y } => send_mouse_move(mouse_x, mouse_y),
        ControlPayload::MouseClick { mouse_x, mouse_y, pressed, button } => send_mouse_click(
            mouse_x,
            mouse_y,
            button,
            pressed,
        ),
        ControlPayload::Keyboard { pressed, key } => send_key(key, pressed),
        ControlPayload::Scroll { delta } => send_scroll(delta),
    }
}

/// A key goes down or up as the payload says, under its own code.
pub proof fn law_keys_go_down_and_up(pressed: bool, key: u16)
    ensures
        system_input(ControlPayload::Keyboard { pressed, key }) == (SystemInput::Key {
            key,
            flags: if pressed {
                0
            } else {
                0x0002
            },
        }),
{
}

/// The mouse goes to the position of the payload. A move presses no button; a
/// click presses or releases the button of the payload and no other, and what
/// presses a button is not what releases it.
pub proof fn law_mouse_goes_where_it_should(
    mouse_x: u32,
    mouse_y: u32,
    pressed: bool,
    button: PointerButton,
)
    requires
        mouse_x < 0x8000_0000,
        mouse_y < 0x8000_0000,
    ensures
        system_input(ControlPayload::MouseMove { mouse_x, mouse_y }) == (SystemInput::Mouse {
            dx: mouse_x as i32,
            dy: mouse_y as i32,
            mouse_data: 0,
            flags: 0x8001,
        }),
        system_input(ControlPayload::MouseClick { mouse_x, mouse_y, pressed, button })
            == (SystemInput::Mouse {
            dx: mouse_x as i32,
            dy: mouse_y as i32,
            mouse_data: 0,
            flags: match (button, pressed) {
                (PointerButton::Primary, true) => 0x8003,
                (PointerButton::Primary, false) => 0x8005,
                (PointerButton::Secondary, true) => 0x8009,
                (PointerButton::Secondary, false) => 0x8011,
                (PointerButton::Middle, true) => 0x8021,
                (PointerButton::Middle, false) => 0x8041,
                _ => 0x8001,
            },
        }),
{
    assert(0x8000u32 | 0x0001u32 == 0x8001u32) by (bit_vector);
    assert(0x8001u32 | 0x0002u32 == 0x8003u32) by (bit_vector);
    assert(0x8001u32 | 0x0004u32 == 0x8005u32) by (bit_vector);
    assert(0x8001u32 | 0x0008u32 == 0x8009u32) by (bit_vector);
    assert(0x8001u32 | 0x0010u32 == 0x8011u32) by (bit_vector);
    assert(0x8001u32 | 0x0020u32 == 0x8021u32) by (bit_vector);
    assert(0x8001u32 | 0x0040u32 == 0x8041u32) by (bit_vector);
    assert(0x8001u32 | 0u32 == 0x8001u32) by (bit_vector);
}

/// The wheel is turned by 120 for each notch, up for positive and down for
/// negative numbers of notches, and the mouse stays where it is.
pub proof fn law_wheel_turns_by_notches(delta: i32)
    requires
        is_scrollable(delta),
    ensures
        ({
            let input = system_input(ControlPayload::Scroll { delta });
            &&& input matches SystemInput::Mouse { dx, dy, mouse_data, flags } && dx == 0 && dy == 0
                && flags == 0x0800 && mouse_data == if delta >= 0 {
                delta * 120
            } else {
                0x1_0000_0000 + delta * 120
            }
        }),
{
}

/// Everything can be handed to the operating system but a turn of the wheel
/// whose notches, 120 units each, do not fit into 32 bits.
pub proof fn law_what_can_be_injected(payload: ControlPayload)
    ensures
        !(payload is Scroll) ==> is_injectable(payload),
        payload matches ControlPayload::Scroll { delta } ==> (is_injectable(payload) <==> -17_895_697
            <= delta <= 17_895_697),
{
}

/// Coordinates beyond the range of signed numbers are taken by their pattern.
pub proof fn law_positions_are_patterns(
    mouse_x: u32,
    mouse_y: u32,
    pressed: bool,
    button: PointerButton,
)
    ensures
        system_input(ControlPayload::MouseMove { mouse_x, mouse_y }) matches SystemInput::Mouse {
            dx,
            dy,
            ..
        } && dx as int % 0x1_0000_0000 == mouse_x && dy as int % 0x1_0000_0000 == mouse_y,
        system_input(
            ControlPayload::MouseClick { mouse_x, mouse_y, pressed, button },
        ) matches SystemInput::Mouse { dx, dy, mouse_data, flags } && dx as int % 0x1_0000_0000
            == mouse_x && dy as int % 0x1_0000_0000 == mouse_y && mouse_data == 0 && flags
            == MOUSEEVENTF_ABSOLUTE | MOUSEEVENTF_MOVE | button_flag(button, pressed),
{
}

} // verus!

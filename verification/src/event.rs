//! Input events: a generic wire form (`Event`, three 64-bit words) and
//! the typed views that encode into it and decode back out of it.

use vstd::prelude::*;

verus! {

/// Wire code of the empty event.
pub const EVENT_NONE: i64 = 0;

/// Wire code of a keyboard event.
pub const EVENT_KEY: i64 = 1;

/// Wire code of a relative pointer-motion event.
pub const EVENT_MOUSE_RELATIVE: i64 = 2;

/// Wire code of a pointer-button event.
pub const EVENT_BUTTON: i64 = 3;

/// Wire code of an absolute pointer-position event.
pub const EVENT_MOUSE_UPDATE: i64 = 4;

/// Wire code of a window-move event.
pub const EVENT_WINDOW_MOVE: i64 = 5;

/// Wire code of a window-resize event.
pub const EVENT_WINDOW_RESIZE: i64 = 6;

/// A decoded event, by kind.
#[derive(Clone, Copy, Debug)]
pub enum EventOption {
    /// A keyboard event.
    Key(KeyEvent),
    /// A relative pointer motion.
    MouseRelative(MouseRelativeEvent),
    /// A pointer-button state.
    Button(ButtonEvent),
    /// A window move request.
    WindowMove(WindowMoveEvent),
    /// A window resize request.
    WindowResize(WindowResizeEvent),
    /// An event whose code this module does not decode.
    Unknown(Event),
    /// The empty event.
    Empty,
}

/// A generic event as carried between the input sources, the window
/// manager and the windows: a kind code and two payload words.
#[derive(Clone, Copy, Debug, PartialEq, Eq, Structural)]
pub struct Event {
    /// Which kind of event this is; one of the `EVENT_` codes.
    pub code: i64,
    /// First payload word.
    pub a: i64,
    /// Second payload word.
    pub b: i64,
}

impl Event {
    /// The empty event.
    pub fn new() -> (r: Event)
        ensures
            r == (Event { code: 0i64, a: 0i64, b: 0i64 }),
    {
        Event { code: 0, a: 0, b: 0 }
    }

    /// The decoded form of this event: key, pointer-motion and button
    /// codes are decoded; every other code is passed through raw.
    pub open spec fn spec_to_option(self) -> EventOption {
        if self.code == EVENT_NONE {
            EventOption::Empty
        } else if self.code == EVENT_KEY {
            EventOption::Key(KeyEvent::spec_from_event(self))
        } else if self.code == EVENT_MOUSE_RELATIVE {
            EventOption::MouseRelative(MouseRelativeEvent::spec_from_event(self))
        } else if self.code == EVENT_BUTTON {
            EventOption::Button(ButtonEvent::spec_from_event(self))
        } else {
            EventOption::Unknown(self)
        }
    }

    /// Decodes the event by its kind code.
    pub fn to_option(self) -> (r: EventOption)
        ensures
            r == self.spec_to_option(),
    {
        match self.code {
            EVENT_NONE => EventOption::Empty,
            EVENT_KEY => EventOption::Key(KeyEvent::from_event(self)),
            EVENT_MOUSE_RELATIVE => EventOption::MouseRelative(
                MouseRelativeEvent::from_event(self),
            ),
            EVENT_BUTTON => EventOption::Button(ButtonEvent::from_event(self)),
            _ => EventOption::Unknown(self),
        }
    }
}

/// `u` is a Unicode scalar value, so exactly one `char` carries it.
pub open spec fn char_code_valid(u: u32) -> bool {
    u < 0xD800 || (0xE000 <= u && u <= 0x10FFFF)
}

/// The character that carries a given Unicode scalar value; which
/// `char` that is cannot be written out here, so the trusted decoder
/// below pins this name instead.
pub uninterp spec fn char_of_code(u: u32) -> char;

/// Relies on char::from_u32 of std: it returns the character with the
/// given code point exactly when that code is a Unicode scalar value
/// (not a surrogate, not above 0x10FFFF), and nothing otherwise.
#[verifier::external_body]
fn char_from_u32(u: u32) -> (r: Option<char>)
    ensures
        r.is_some() <==> char_code_valid(u),
        r matches Some(c) ==> c == char_of_code(u) && c as u32 == u,
{
    char::from_u32(u)
}

/// A keyboard event: the decoded character, the raw scancode and
/// whether the key went down or up.
#[derive(Clone, Copy, Debug, PartialEq, Eq, Structural)]
pub struct KeyEvent {
    /// The character the key produces.
    pub character: char,
    /// The keyboard scancode.
    pub scancode: u8,
    /// True when the key was pressed, false when released.
    pub pressed: bool,
}

impl KeyEvent {
    /// Packs the key into the wire form: the character's code point in
    /// the first word; the scancode in the low byte of the second word
    /// with the pressed flag just above it.
    pub fn to_event(&self) -> (r: Event)
        ensures
            r.code == EVENT_KEY,
            r.a == self.character as i64,
            r.b == self.scancode + (if self.pressed {
                256int
            } else {
                0int
            }),
    {
        Event {
            code: EVENT_KEY,
            a: self.character as i64,
            b: self.scancode as i64 + (if self.pressed {
                256
            } else {
                0
            }),
        }
    }

    /// The decoded form of a key event: an invalid code point falls
    /// back to the nul character; the scancode is the low byte of the
    /// second word, the pressed flag its ninth bit.
    pub open spec fn spec_from_event(event: Event) -> KeyEvent {
        KeyEvent {
            character: KeyEvent::spec_character(event),
            scancode: event.b as u8,
            pressed: (event.b & 256) == 256,
        }
    }

    /// The character a key event carries: the one whose code point is
    /// the first payload word, or nul when that word is no Unicode
    /// scalar value.
    pub open spec fn spec_character(event: Event) -> char {
        if char_code_valid(event.a as u32) {
            char_of_code(event.a as u32)
        } else {
            '\0'
        }
    }

    /// Unpacks a key event from the wire form.
    pub fn from_event(event: Event) -> (r: KeyEvent)
        ensures
            r == KeyEvent::spec_from_event(event),
            r.character as u32 == if char_code_valid(event.a as u32) {
                event.a as u32
            } else {
                0
            },
    {
        let character = match char_from_u32(event.a as u32) {
            Some(c) => c,
            None => '\0',
        };
        KeyEvent { character, scancode: event.b as u8, pressed: (event.b & 256) == 256 }
    }
}

/// A relative pointer motion in device units.
#[derive(Clone, Copy, Debug, PartialEq, Eq, Structural)]
pub struct MouseRelativeEvent {
    /// Horizontal motion, positive to the right.
    pub dx: i32,
    /// Vertical motion in device orientation, positive upward.
    pub dy: i32,
}

impl MouseRelativeEvent {
    /// Packs the motion into the wire form.
    pub fn to_event(&self) -> (r: Event)
        ensures
            r == (Event { code: EVENT_MOUSE_RELATIVE, a: self.dx as i64, b: self.dy as i64 }),
    {
        Event { code: EVENT_MOUSE_RELATIVE, a: self.dx as i64, b: self.dy as i64 }
    }

    /// The decoded form of a pointer-motion event: each payload word
    /// truncated to 32 bits.
    pub open spec fn spec_from_event(event: Event) -> MouseRelativeEvent {
        MouseRelativeEvent { dx: event.a as i32, dy: event.b as i32 }
    }

    /// Unpacks a pointer motion from the wire form.
    pub fn from_event(event: Event) -> (r: MouseRelativeEvent)
        ensures
            r == MouseRelativeEvent::spec_from_event(event),
    {
        MouseRelativeEvent { dx: event.a as i32, dy: event.b as i32 }
    }
}

/// The state of the three pointer buttons.
#[derive(Clone, Copy, Debug, PartialEq, Eq, Structural)]
pub struct ButtonEvent {
    /// Left button held.
    pub left: bool,
    /// Right button held.
    pub right: bool,
    /// Middle button held.
    pub middle: bool,
}

impl ButtonEvent {
    /// Reads the button state from a device status byte: the three
    /// lowest bits carry left, middle and right.
    pub fn new(byte: u8) -> (r: ButtonEvent)
        ensures
            r.left == ((byte & 1) != 0),
            r.middle == ((byte & 2) != 0),
            r.right == ((byte & 4) != 0),
    {
        ButtonEvent { left: byte & 1 != 0, middle: byte & 2 != 0, right: byte & 4 != 0 }
    }

    /// Packs the button state into the wire form: left, middle and
    /// right in the three lowest bits of the first payload word.
    pub fn to_event(&self) -> (r: Event)
        ensures
            r.code == EVENT_BUTTON,
            r.a == (if self.left {
                1int
            } else {
                0int
            }) + (if self.middle {
                2int
            } else {
                0int
            }) + (if self.right {
                4int
            } else {
                0int
            }),
            r.b == 0,
    {
        let a: i64 = (if self.left {
            1
        } else {
            0
        }) + (if self.middle {
            2
        } else {
            0
        }) + (if self.right {
            4
        } else {
            0
        });
        Event { code: EVENT_BUTTON, a, b: 0 }
    }

    /// The decoded form of a button event: each flag read from its own
    /// bit of the first payload word's bitmask.
    pub open spec fn spec_from_event(event: Event) -> ButtonEvent {
        ButtonEvent {
            left: (event.a & 1) != 0,
            middle: (event.a & 2) != 0,
            right: (event.a & 4) != 0,
        }
    }

    /// Unpacks a button event from the wire form.
    pub fn from_event(event: Event) -> (r: ButtonEvent)
        ensures
            r == ButtonEvent::spec_from_event(event),
    {
        ButtonEvent {
            left: event.a & 1 != 0,
            middle: event.a & 2 != 0,
            right: event.a & 4 != 0,
        }
    }
}

/// A button state packed into the wire form decodes back to itself:
/// the bitmask a button event carries loses nothing.
pub proof fn lemma_button_event_round_trip(b: ButtonEvent)
    ensures
        ButtonEvent::spec_from_event(
            Event {
                code: EVENT_BUTTON,
                a: ((if b.left {
                    1int
                } else {
                    0int
                }) + (if b.middle {
                    2int
                } else {
                    0int
                }) + (if b.right {
                    4int
                } else {
                    0int
                })) as i64,
                b: 0,
            },
        ) == b,
{
    let a: i64 = ((if b.left {
        1int
    } else {
        0int
    }) + (if b.middle {
        2int
    } else {
        0int
    }) + (if b.right {
        4int
    } else {
        0int
    })) as i64;
    assert(0 <= a <= 7);
    assert((a & 1 != 0) == (a == 1 || a == 3 || a == 5 || a == 7)) by (bit_vector)
        requires
            0 <= a <= 7,
    ;
    assert((a & 2 != 0) == (a == 2 || a == 3 || a == 6 || a == 7)) by (bit_vector)
        requires
            0 <= a <= 7,
    ;
    assert((a & 4 != 0) == (a == 4 || a == 5 || a == 6 || a == 7)) by (bit_vector)
        requires
            0 <= a <= 7,
    ;
}

/// An absolute pointer position.
#[derive(Clone, Copy, Debug, PartialEq, Eq, Structural)]
pub struct MouseUpdateEvent {
    /// The new pointer x coordinate.
    pub x: i32,
    /// The new pointer y coordinate.
    pub y: i32,
}

impl MouseUpdateEvent {
    /// Packs the position into the wire form.
    pub fn to_event(&self) -> (r: Event)
        ensures
            r == (Event { code: EVENT_MOUSE_UPDATE, a: self.x as i64, b: self.y as i64 }),
    {
        Event { code: EVENT_MOUSE_UPDATE, a: self.x as i64, b: self.y as i64 }
    }

    /// Unpacks a pointer position from the wire form: each payload
    /// word truncated to 32 bits.
    pub fn from_event(event: Event) -> (r: MouseUpdateEvent)
        ensures
            r == (MouseUpdateEvent { x: event.a as i32, y: event.b as i32 }),
    {
        MouseUpdateEvent { x: event.a as i32, y: event.b as i32 }
    }
}

/// A request to move a window to a new position.
#[derive(Clone, Copy, Debug, PartialEq, Eq, Structural)]
pub struct WindowMoveEvent {
    /// The new window x coordinate.
    pub x: i32,
    /// The new window y coordinate.
    pub y: i32,
}

impl WindowMoveEvent {
    /// Packs the move request into the wire form.
    pub fn to_event(&self) -> (r: Event)
        ensures
            r == (Event { code: EVENT_WINDOW_MOVE, a: self.x as i64, b: self.y as i64 }),
    {
        Event { code: EVENT_WINDOW_MOVE, a: self.x as i64, b: self.y as i64 }
    }

    /// Unpacks a move request from the wire form: each payload word
    /// truncated to 32 bits.
    pub fn from_event(event: Event) -> (r: WindowMoveEvent)
        ensures
            r == (WindowMoveEvent { x: event.a as i32, y: event.b as i32 }),
    {
        WindowMoveEvent { x: event.a as i32, y: event.b as i32 }
    }
}

/// A request to resize a window.
#[derive(Clone, Copy, Debug, PartialEq, Eq, Structural)]
pub struct WindowResizeEvent {
    /// The new window width.
    pub width: u32,
    /// The new window height.
    pub height: u32,
}

impl WindowResizeEvent {
    /// Packs the resize request into the wire form.
    pub fn to_event(&self) -> (r: Event)
        ensures
            r == (Event { code: EVENT_WINDOW_RESIZE, a: self.width as i64, b: self.height as i64 }),
    {
        Event { code: EVENT_WINDOW_RESIZE, a: self.width as i64, b: self.height as i64 }
    }

    /// Unpacks a resize request from the wire form: each payload word
    /// truncated to 32 bits.
    pub fn from_event(event: Event) -> (r: WindowResizeEvent)
        ensures
            r == (WindowResizeEvent { width: event.a as u32, height: event.b as u32 }),
    {
        WindowResizeEvent { width: event.a as u32, height: event.b as u32 }
    }
}

} // verus!

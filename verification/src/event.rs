//! Events: the fixed-size records that carry mouse, key, redraw and open
//! notifications, and their conversion to and from the typed forms.
//!
//! An [`Event`] is a code and five machine words.  The code says which
//! typed event the words hold.  An open event carries the address of a
//! zero-terminated string; reading and freeing that memory is the caller's
//! business, and the bytes found there are handed in.

use vstd::prelude::*;

verus! {

/// Escape key
pub const K_ESC: u8 = 0x01;

/// Backspace key
pub const K_BKSP: u8 = 0x0E;

/// Tab key
pub const K_TAB: u8 = 0x0F;

/// Control key
pub const K_CTRL: u8 = 0x1D;

/// Alt key
pub const K_ALT: u8 = 0x38;

/// F1 key
pub const K_F1: u8 = 0x3B;

/// F2 key
pub const K_F2: u8 = 0x3C;

/// F3 key
pub const K_F3: u8 = 0x3D;

/// F4 key
pub const K_F4: u8 = 0x3E;

/// F5 key
pub const K_F5: u8 = 0x3F;

/// F6 key
pub const K_F6: u8 = 0x40;

/// F7 key
pub const K_F7: u8 = 0x41;

/// F8 key
pub const K_F8: u8 = 0x42;

/// F9 key
pub const K_F9: u8 = 0x43;

/// F10 key
pub const K_F10: u8 = 0x44;

/// Home key
pub const K_HOME: u8 = 0x47;

/// Up key
pub const K_UP: u8 = 0x48;

/// Page up key
pub const K_PGUP: u8 = 0x49;

/// Left key
pub const K_LEFT: u8 = 0x4B;

/// Right key
pub const K_RIGHT: u8 = 0x4D;

/// End key
pub const K_END: u8 = 0x4F;

/// Down key
pub const K_DOWN: u8 = 0x50;

/// Page down key
pub const K_PGDN: u8 = 0x51;

/// Delete key
pub const K_DEL: u8 = 0x53;

/// F11 key
pub const K_F11: u8 = 0x57;

/// F12 key
pub const K_F12: u8 = 0x58;

/// Nothing is to be redrawn.
pub const REDRAW_NONE: usize = 0;

/// The cursor is to be redrawn.
pub const REDRAW_CURSOR: usize = 1;

/// Everything is to be redrawn.
pub const REDRAW_ALL: usize = 2;

/// The most bytes that are read of the string behind an open event.
pub const URL_LIMIT: usize = 4096;

/// An event
#[derive(Clone, Copy, Debug, PartialEq, Eq)]
pub struct Event {
    pub code: char,
    pub a: isize,
    pub b: isize,
    pub c: isize,
    pub d: isize,
    pub e: isize,
}

/// A event related to the mouse
#[derive(Clone, Copy, Debug, PartialEq, Eq)]
pub struct MouseEvent {
    /// The x coordinate of the mouse
    pub x: isize,
    /// The y coordinate of the mouse
    pub y: isize,
    /// Was the left button pressed?
    pub left_button: bool,
    /// Was the right button pressed?
    pub right_button: bool,
    /// Was the middle button pressed?
    pub middle_button: bool,
}

/// A key event (such as a pressed key)
#[derive(Clone, Copy, Debug, PartialEq, Eq)]
pub struct KeyEvent {
    /// The character of the key
    pub character: char,
    /// The scancode of the key
    pub scancode: u8,
    /// Was it pressed?
    pub pressed: bool,
}

/// A redraw event
#[derive(Clone, Copy, Debug, PartialEq, Eq)]
pub struct RedrawEvent {
    pub redraw: usize,
}

/// An "open event" (such as an IO request)
#[derive(Debug, PartialEq, Eq)]
pub struct OpenEvent {
    /// The bytes of the URL, without a terminator.
    pub url_string: Vec<u8>,
}

/// An optional event
#[derive(Debug, PartialEq, Eq)]
pub enum EventOption {
    /// A mouse event
    Mouse(MouseEvent),
    /// A key event
    Key(KeyEvent),
    /// A redraw event
    Redraw(RedrawEvent),
    /// A open event
    Open(OpenEvent),
    /// An unknown event
    Unknown(Event),
    /// No event
    NoEvent,
}

/// One for a flag that is set, zero for one that is not.
pub open spec fn spec_flag(set: bool) -> isize {
    if set {
        1
    } else {
        0
    }
}

/// One for a flag that is set, zero for one that is not.
fn flag(set: bool) -> (result: isize)
    ensures
        result == spec_flag(set),
{
    if set {
        1
    } else {
        0
    }
}

/// The character with a given code: none for a surrogate and for a code
/// above 0x10FFFF.
pub open spec fn spec_scalar(code: u32) -> Option<char> {
    if code <= 0xD7FF || (0xE000 <= code && code <= 0x10FFFF) {
        Some(code as char)
    } else {
        None
    }
}

/// Calls `char::from_u32` of the standard library, which gives the
/// character with the given code, and none where the code is no Unicode
/// scalar value: a surrogate, 0xD800 to 0xDFFF, or a code above 0x10FFFF.
#[verifier::external_body]
fn scalar(code: u32) -> (result: Option<char>)
    ensures
        result == spec_scalar(code),
{
    char::from_u32(code)
}

/// Where the string at the start of `memory` ends, searched from `start`:
/// the first position that holds zero, or the limit of 4096 bytes, or the
/// end of the memory, whichever comes first.
pub open spec fn url_end_from(memory: Seq<u8>, start: int) -> int
    decreases memory.len() - start,
{
    if start < 0 || start >= memory.len() || start >= URL_LIMIT || memory[start] == 0 {
        start
    } else {
        url_end_from(memory, start + 1)
    }
}

/// The string at the start of `memory`: the bytes before the first zero,
/// and no more than 4096 of them.
pub open spec fn url_of(memory: Seq<u8>) -> Seq<u8> {
    memory.subrange(0, url_end_from(memory, 0))
}

/// The string ends inside the memory and inside the limit; no byte before
/// its end is zero; and it ends at a zero unless the limit or the end of
/// the memory cut it short.
pub proof fn lemma_url_end(memory: Seq<u8>, start: int)
    requires
        0 <= start <= memory.len(),
        start <= URL_LIMIT,
    ensures
        start <= url_end_from(memory, start) <= memory.len(),
        url_end_from(memory, start) <= URL_LIMIT,
        forall|i: int| start <= i < url_end_from(memory, start) ==> memory[i] != 0,
        url_end_from(memory, start) < memory.len() && url_end_from(memory, start) < URL_LIMIT
            ==> memory[url_end_from(memory, start)] == 0,
    decreases memory.len() - start,
{
    if !(start >= memory.len() || start >= URL_LIMIT || memory[start] == 0) {
        lemma_url_end(memory, start + 1);
    }
}

impl Event {
    /// The null event: code zero and every word zero.
    pub open spec fn null() -> Event {
        Event { code: '\0', a: 0, b: 0, c: 0, d: 0, e: 0 }
    }

    /// Create a null event
    pub fn new() -> (result: Event)
        ensures
            result == Event::null(),
    {
        Event { code: '\0', a: 0, b: 0, c: 0, d: 0, e: 0 }
    }

    /// Convert the event to an optional event.
    ///
    /// The code decides: `m` is a mouse event, `k` a key event, `r` a redraw
    /// event, `o` an open event, zero no event, and anything else is
    /// unknown and handed back whole.  `memory` is what stands at the
    /// address in `a`; it is looked at for an open event only.
    pub fn to_option(self, memory: &[u8]) -> (result: EventOption)
        ensures
            match result {
                EventOption::Mouse(mouse) => self.code == 'm' && mouse == MouseEvent::of(self),
                EventOption::Key(key) => self.code == 'k' && key == KeyEvent::of(self),
                EventOption::Redraw(redraw) => self.code == 'r' && redraw == RedrawEvent::of(self),
                EventOption::Open(open) => self.code == 'o' && open.url_string@ == url_of(memory@),
                EventOption::Unknown(event) => event == self && self.code != 'm' && self.code != 'k'
                    && self.code != 'r' && self.code != 'o' && self.code != '\0',
                EventOption::NoEvent => self.code == '\0',
            },
    {
        if self.code == 'm' {
            EventOption::Mouse(MouseEvent::from_event(self))
        } else if self.code == 'k' {
            EventOption::Key(KeyEvent::from_event(self))
        } else if self.code == 'r' {
            EventOption::Redraw(RedrawEvent::from_event(self))
        } else if self.code == 'o' {
            EventOption::Open(OpenEvent::from_event(self, memory))
        } else if self.code == '\0' {
            EventOption::NoEvent
        } else {
            EventOption::Unknown(self)
        }
    }
}

impl MouseEvent {
    /// The mouse event that the words of an event hold: position in `a` and
    /// `b`, and a button is down where its word is above zero.
    pub open spec fn of(event: Event) -> MouseEvent {
        MouseEvent {
            x: event.a,
            y: event.b,
            left_button: event.c > 0,
            middle_button: event.d > 0,
            right_button: event.e > 0,
        }
    }

    /// The event that holds a mouse event.
    pub open spec fn event_of(self) -> Event {
        Event {
            code: 'm',
            a: self.x,
            b: self.y,
            c: spec_flag(self.left_button),
            d: spec_flag(self.middle_button),
            e: spec_flag(self.right_button),
        }
    }

    /// Convert to an `Event`
    pub fn to_event(&self) -> (result: Event)
        ensures
            result == self.event_of(),
    {
        Event {
            code: 'm',
            a: self.x,
            b: self.y,
            c: flag(self.left_button),
            d: flag(self.middle_button),
            e: flag(self.right_button),
        }
    }

    /// Convert an `Event` to a `MouseEvent`
    pub fn from_event(event: Event) -> (result: MouseEvent)
        ensures
            result == Self::of(event),
    {
        MouseEvent {
            x: event.a,
            y: event.b,
            left_button: event.c > 0,
            middle_button: event.d > 0,
            right_button: event.e > 0,
        }
    }
}

impl KeyEvent {
    /// The key event that the words of an event hold: the character whose
    /// code is the low 32 bits of `a`, or the zero character where those
    /// are no character's code; the low byte of `b` as scancode; pressed
    /// where `c` is above zero.
    pub open spec fn of(event: Event) -> KeyEvent {
        KeyEvent {
            character: match spec_scalar(event.a as u32) {
                Some(character) => character,
                None => '\0',
            },
            scancode: event.b as u8,
            pressed: event.c > 0,
        }
    }

    /// The event that holds a key event.
    pub open spec fn event_of(self) -> Event {
        Event {
            code: 'k',
            a: self.character as isize,
            b: self.scancode as isize,
            c: spec_flag(self.pressed),
            d: 0,
            e: 0,
        }
    }

    /// Convert to an `Event`
    pub fn to_event(&self) -> (result: Event)
        ensures
            result == self.event_of(),
    {
        let code: u32 = self.character as u32;
        Event {
            code: 'k',
            a: code as isize,
            b: self.scancode as isize,
            c: flag(self.pressed),
            d: 0,
            e: 0,
        }
    }

    /// Convert from an `Event`
    pub fn from_event(event: Event) -> (result: KeyEvent)
        ensures
            result == Self::of(event),
    {
        let code: u32 = #[verifier::truncate]
        (event.a as u32);
        let scancode: u8 = #[verifier::truncate]
        (event.b as u8);
        let character: char = match scalar(code) {
            Some(character) => character,
            None => '\0',
        };
        KeyEvent { character, scancode, pressed: event.c > 0 }
    }
}

impl RedrawEvent {
    /// The redraw event that the words of an event hold: `a`, read as an
    /// unsigned word.
    pub open spec fn of(event: Event) -> RedrawEvent {
        RedrawEvent { redraw: event.a as usize }
    }

    /// The event that holds a redraw event.
    pub open spec fn event_of(self) -> Event {
        Event { code: 'r', a: self.redraw as isize, b: 0, c: 0, d: 0, e: 0 }
    }

    /// Convert to an `Event`
    pub fn to_event(&self) -> (result: Event)
        ensures
            result == self.event_of(),
    {
        let word: isize = #[verifier::truncate]
        (self.redraw as isize);
        Event { code: 'r', a: word, b: 0, c: 0, d: 0, e: 0 }
    }

    /// Convert from an `Event`
    pub fn from_event(event: Event) -> (result: RedrawEvent)
        ensures
            result == Self::of(event),
    {
        let redraw: usize = #[verifier::truncate]
        (event.a as usize);
        RedrawEvent { redraw }
    }
}

impl OpenEvent {
    /// The zero-terminated string that is placed in memory for an open
    /// event: the bytes of the URL with one zero byte behind them.
    pub fn c_string(&self) -> (result: Vec<u8>)
        ensures
            result@ == self.url_string@.push(0),
    {
        let mut bytes: Vec<u8> = Vec::new();
        let mut i: usize = 0;
        while i < self.url_string.len()
            invariant
                i <= self.url_string.len(),
                bytes@ == self.url_string@.subrange(0, i as int),
            decreases self.url_string.len() - i,
        {
            bytes.push(self.url_string[i]);
            i += 1;
            assert(bytes@ =~= self.url_string@.subrange(0, i as int));
        }
        bytes.push(0);
        assert(bytes@ =~= self.url_string@.push(0));
        bytes
    }

    /// Convert to an `Event`: the open event whose string stands at the
    /// address `c_str`, where the caller has placed what `c_string` gives.
    pub fn to_event(&self, c_str: isize) -> (result: Event)
        ensures
            result == (Event { code: 'o', a: c_str, b: 0, c: 0, d: 0, e: 0 }),
    {
        Event { code: 'o', a: c_str, b: 0, c: 0, d: 0, e: 0 }
    }

    /// Convert from an `Event`: the open event whose URL is the string at
    /// the start of `memory`, which is what stands at the address in the
    /// event's `a`.  The URL is the bytes before the first zero, and no
    /// more than 4096 of them.
    pub fn from_event(event: Event, memory: &[u8]) -> (result: OpenEvent)
        ensures
            result.url_string@ == url_of(memory@),
            result.url_string@.len() <= URL_LIMIT,
            forall|i: int| 0 <= i < result.url_string@.len() ==> result.url_string@[i] != 0,
    {
        let mut utf8: Vec<u8> = Vec::new();
        let mut i: usize = 0;
        while i < memory.len() && i < URL_LIMIT && memory[i] != 0
            invariant
                i <= memory.len(),
                i <= URL_LIMIT,
                utf8@ == memory@.subrange(0, i as int),
                url_end_from(memory@, 0) == url_end_from(memory@, i as int),
            decreases memory.len() - i,
        {
            utf8.push(memory[i]);
            i += 1;
            assert(utf8@ =~= memory@.subrange(0, i as int));
        }
        proof {
            lemma_url_end(memory@, 0);
        }
        OpenEvent { url_string: utf8 }
    }
}

/// A mouse event comes back from its event as it went in.
pub proof fn lemma_mouse_round_trip(mouse: MouseEvent)
    ensures
        MouseEvent::of(mouse.event_of()) == mouse,
{
}

/// A key event comes back from its event as it went in.
pub proof fn lemma_key_round_trip(key: KeyEvent)
    ensures
        KeyEvent::of(key.event_of()) == key,
{
    let code = key.character as u32;
    let word = key.character as isize;
    assert(word as u32 == code);
    let low = key.scancode as isize;
    assert(low as u8 == key.scancode);
}

/// A redraw event comes back from its event as it went in.
pub proof fn lemma_redraw_round_trip(redraw: RedrawEvent)
    ensures
        RedrawEvent::of(redraw.event_of()) == redraw,
{
    let word = redraw.redraw;
    assert((word as isize) as usize == word) by (bit_vector);
}

} // verus!

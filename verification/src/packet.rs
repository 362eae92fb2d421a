//! The packet decoder: one byte window in, one event or a failure out.
//!
//! The first byte of a window tells what the packet is. With its
//! most-significant bit clear the window is a keystroke: UTF-8 text of exactly
//! one character. With the bit set it is a mouse packet: one byte clicks a
//! button, two bytes move the pointer. The decoder keeps nothing between
//! calls.

use vstd::prelude::*;
use vstd::utf8::*;
use crate::event::Event;
use crate::event::MouseButton;

verus! {

/// The longest window that a packet can fill, and so the size of the buffer
/// that a connection reads into.
pub const MAX_PACKET_LEN: usize = 4;

/// The bit of the first byte that tells a mouse packet from a keystroke.
pub const MOUSE_MARK: u8 = 0x80;

/// The bit that picks the button of a click and the sign of a move.
pub const FLAG: u8 = 0x40;

/// The bits that hold the magnitude of a move.
pub const MAGNITUDE_MASK: u8 = 0x3f;

/// Why a byte window is no packet.
#[derive(Clone, Copy, Debug, PartialEq, Eq, Structural)]
pub enum DecodeError {
    /// The window holds no byte at all.
    Empty,
    /// A keystroke window that is not well-formed UTF-8.
    InvalidUtf8,
    /// A keystroke window whose text is more than one character.
    NotOneCharacter,
    /// A mouse window that is neither a one-byte click nor a two-byte move.
    MouseLength,
}

/// True when `first`, the first byte of a window, marks a mouse packet.
pub open spec fn marks_mouse(first: u8) -> bool {
    first & MOUSE_MARK != 0
}

/// True when bit 0x40 of `byte` is set.
pub open spec fn flagged(byte: u8) -> bool {
    byte & FLAG != 0
}

/// The button that a one-byte mouse packet clicks.
pub open spec fn click_button(byte: u8) -> MouseButton {
    if flagged(byte) {
        MouseButton::Right
    } else {
        MouseButton::Left
    }
}

/// The magnitude that a byte of a move carries in its low six bits.
pub open spec fn magnitude(byte: u8) -> int {
    (byte & MAGNITUDE_MASK) as int
}

/// The signed displacement that a byte of a move stands for: its magnitude,
/// negated when the flag is set.
pub open spec fn delta(byte: u8) -> int {
    if flagged(byte) {
        -magnitude(byte)
    } else {
        magnitude(byte)
    }
}

/// What a window means as a keystroke, whatever its first byte.
pub open spec fn keystroke(window: Seq<u8>) -> Result<Event, DecodeError> {
    if !valid_utf8(window) {
        Err(DecodeError::InvalidUtf8)
    } else if decode_utf8(window).len() != 1 {
        Err(DecodeError::NotOneCharacter)
    } else {
        Ok(Event::KeyPress { character: decode_utf8(window)[0] })
    }
}

/// What a window means as a mouse packet, whatever its first byte.
pub open spec fn mouse(window: Seq<u8>) -> Result<Event, DecodeError> {
    if window.len() == 1 {
        Ok(Event::MouseClick { button: click_button(window[0]) })
    } else if window.len() == 2 {
        Ok(Event::MouseMove { dx: delta(window[0]) as i32, dy: delta(window[1]) as i32 })
    } else {
        Err(DecodeError::MouseLength)
    }
}

/// The meaning of a byte window: the one event it encodes, or why it encodes
/// none.
pub open spec fn decoded(window: Seq<u8>) -> Result<Event, DecodeError> {
    if window.len() == 0 {
        Err(DecodeError::Empty)
    } else if marks_mouse(window[0]) {
        mouse(window)
    } else {
        keystroke(window)
    }
}

/// Tells whether `first` opens a mouse packet.
pub fn is_mouse(first: u8) -> (yes: bool)
    ensures
        yes == marks_mouse(first),
{
    first & MOUSE_MARK != 0
}

/// The button named by the flag of a click byte.
pub fn button_of(byte: u8) -> (button: MouseButton)
    ensures
        button == click_button(byte),
{
    if byte & FLAG != 0 {
        MouseButton::Right
    } else {
        MouseButton::Left
    }
}

/// The displacement carried by one byte of a move.
pub fn delta_of(byte: u8) -> (d: i32)
    ensures
        d == delta(byte),
        -63 <= d <= 63,
{
    let low: u8 = byte & MAGNITUDE_MASK;
    assert(low <= 63) by (bit_vector)
        requires
            low == byte & 0x3f,
    ;
    let size: i32 = low as i32;
    if byte & FLAG != 0 {
        -size
    } else {
        size
    }
}

/// Decodes a window as a keystroke: the text must be well-formed UTF-8 and
/// hold exactly one character.
pub fn decode_keystroke(window: &[u8]) -> (result: Result<Event, DecodeError>)
    ensures
        result == keystroke(window@),
{
    match core::str::from_utf8(window) {
        Ok(text) => {
            if text.unicode_len() == 1 {
                Ok(Event::KeyPress { character: text.get_char(0) })
            } else {
                Err(DecodeError::NotOneCharacter)
            }
        },
        Err(_) => Err(DecodeError::InvalidUtf8),
    }
}

/// Decodes a window as a mouse packet: one byte is a click, two bytes are a
/// move, any other length is refused.
pub fn decode_mouse(window: &[u8]) -> (result: Result<Event, DecodeError>)
    ensures
        result == mouse(window@),
{
    if window.len() == 1 {
        Ok(Event::MouseClick { button: button_of(window[0]) })
    } else if window.len() == 2 {
        Ok(Event::MouseMove { dx: delta_of(window[0]), dy: delta_of(window[1]) })
    } else {
        Err(DecodeError::MouseLength)
    }
}

/// Decodes one byte window into the event it encodes.
pub fn decode(window: &[u8]) -> (result: Result<Event, DecodeError>)
    ensures
        result == decoded(window@),
{
    if window.len() == 0 {
        Err(DecodeError::Empty)
    } else if is_mouse(window[0]) {
        decode_mouse(window)
    } else {
        decode_keystroke(window)
    }
}

/// A window that opens with a keystroke byte holds one character exactly when
/// it is that byte alone, and the character is then the byte's own value.
pub proof fn lemma_keystroke_window(window: Seq<u8>)
    requires
        window.len() > 0,
        !marks_mouse(window[0]),
    ensures
        window.len() == 1 ==> decoded(window) == Ok::<Event, DecodeError>(
            Event::KeyPress { character: window[0] as char },
        ),
        window.len() > 1 ==> decoded(window) is Err,
        window.len() > 1 && valid_utf8(window) ==> decoded(window) == Err::<Event, DecodeError>(
            DecodeError::NotOneCharacter,
        ),
{
    let first = window[0];
    let rest = window.subrange(1, window.len() as int);
    assert(first <= 0x7f && first & 0x7f == first) by (bit_vector)
        requires
            first & 0x80 == 0,
    ;
    assert(valid_first_scalar(window));
    assert(pop_first_scalar(window) == rest);
    assert(valid_utf8(window) == valid_utf8(rest));
    if valid_utf8(window) {
        assert(decode_utf8(window) == seq![decode_first_scalar(window) as char] + decode_utf8(
            rest,
        ));
        if rest.len() > 0 {
            assert(decode_utf8(rest).len() > 0);
        } else {
            assert(decode_utf8(rest).len() == 0);
        }
    }
}

/// Round trip of a keystroke: the UTF-8 encoding of an ASCII character decodes
/// to the press of that character.
pub proof fn lemma_ascii_round_trip(c: char)
    requires
        c as u32 <= 0x7f,
    ensures
        decoded(encode_utf8(seq![c])) == Ok::<Event, DecodeError>(Event::KeyPress { character: c }),
{
    let code = c as u32;
    let window = encode_utf8(seq![c]);
    assert(seq![c].drop_first() =~= Seq::<char>::empty());
    assert(encode_utf8(seq![c].drop_first()) =~= Seq::<u8>::empty());
    assert(window =~= seq![leading_byte_width_1(code)]);
    let first = leading_byte_width_1(code);
    assert(first & 0x80 == 0) by (bit_vector)
        requires
            code <= 0x7f,
            first == (code & 0x7f) as u8,
    ;
    encode_utf8_valid_utf8(seq![c]);
    encode_utf8_decode_utf8(seq![c]);
}

/// A character beyond ASCII does not survive the round trip: its encoding
/// opens with a byte that marks a mouse packet, so it is never read as a
/// keystroke.
pub proof fn lemma_wide_character_reads_as_mouse(c: char)
    requires
        c as u32 > 0x7f,
    ensures
        encode_utf8(seq![c]).len() >= 2,
        marks_mouse(encode_utf8(seq![c])[0]),
        decoded(encode_utf8(seq![c])) == mouse(encode_utf8(seq![c])),
        !(decoded(encode_utf8(seq![c])) matches Ok(Event::KeyPress { .. })),
{
    let code = c as u32;
    let window = encode_utf8(seq![c]);
    assert(seq![c].drop_first() =~= Seq::<char>::empty());
    assert(encode_utf8(seq![c].drop_first()) =~= Seq::<u8>::empty());
    assert(window =~= encode_scalar(code));
    assert((0xC0u8 | ((code >> 6) & 0x1F) as u8) & 0x80 != 0) by (bit_vector);
    assert((0xE0u8 | ((code >> 12) & 0x0F) as u8) & 0x80 != 0) by (bit_vector);
    assert((0xF0u8 | ((code >> 18) & 0x7) as u8) & 0x80 != 0) by (bit_vector);
}

/// A lone mouse byte is a click, and bit 0x40 alone picks the button: clear
/// for the left one, set for the right one.
pub proof fn lemma_click(byte: u8)
    requires
        byte & 0x80 != 0,
    ensures
        byte & 0x40 == 0 ==> decoded(seq![byte]) == Ok::<Event, DecodeError>(
            Event::MouseClick { button: MouseButton::Left },
        ),
        byte & 0x40 != 0 ==> decoded(seq![byte]) == Ok::<Event, DecodeError>(
            Event::MouseClick { button: MouseButton::Right },
        ),
{
}

/// The displacement of a byte lies within 63 of zero, its size is the byte's
/// value modulo 0x40, and bit 0x40 alone gives its sign.
pub proof fn lemma_delta(byte: u8)
    ensures
        0 <= magnitude(byte) <= 63,
        magnitude(byte) == byte % 0x40,
        byte & 0x40 == 0 ==> delta(byte) == magnitude(byte),
        byte & 0x40 != 0 ==> delta(byte) == -magnitude(byte),
        delta(byte) as i32 == delta(byte),
{
    assert(byte & 0x3f <= 63 && byte & 0x3f == byte % 0x40) by (bit_vector);
}

/// A mouse window of two bytes is a move whose two displacements come from
/// the two bytes, each by its own flag and low six bits.
pub proof fn lemma_move(first: u8, second: u8)
    requires
        first & 0x80 != 0,
    ensures
        decoded(seq![first, second]) == Ok::<Event, DecodeError>(
            Event::MouseMove { dx: delta(first) as i32, dy: delta(second) as i32 },
        ),
        -63 <= delta(first) <= 63,
        -63 <= delta(second) <= 63,
        delta(first) as i32 == delta(first),
        delta(second) as i32 == delta(second),
        (delta(first) < 0 ==> first & 0x40 != 0) && (delta(first) > 0 ==> first & 0x40 == 0),
        (delta(second) < 0 ==> second & 0x40 != 0) && (delta(second) > 0 ==> second & 0x40 == 0),
{
    lemma_delta(first);
    lemma_delta(second);
}

/// A keystroke window that is not well-formed UTF-8 yields a failure and no
/// event.
pub proof fn lemma_malformed_keystroke(window: Seq<u8>)
    requires
        window.len() > 0,
        window[0] & 0x80 == 0,
        !valid_utf8(window),
    ensures
        decoded(window) == Err::<Event, DecodeError>(DecodeError::InvalidUtf8),
{
}

/// The decoder knows clicks and moves only: no window decodes to a scroll.
pub proof fn lemma_no_window_scrolls(window: Seq<u8>)
    ensures
        !(decoded(window) matches Ok(Event::MouseScroll { .. })),
{
}

/// A window of more than two bytes never holds an event.
pub proof fn lemma_long_window_fails(window: Seq<u8>)
    requires
        window.len() > 2,
    ensures
        decoded(window) is Err,
{
    if !marks_mouse(window[0]) {
        lemma_keystroke_window(window);
    }
}

} // verus!

use kemo_host::event::{Event, MouseButton};
use kemo_host::packet::{
    button_of, decode, decode_keystroke, decode_mouse, delta_of, is_mouse, DecodeError, FLAG,
    MAGNITUDE_MASK, MAX_PACKET_LEN, MOUSE_MARK,
};

#[test]
fn ascii_characters_round_trip() {
    for code in 0u8..0x80 {
        let c = code as char;
        let mut buffer = [0u8; 4];
        let window = c.encode_utf8(&mut buffer).as_bytes();
        assert_eq!(decode(window), Ok(Event::KeyPress { character: c }));
    }
}

#[test]
fn letter_a_is_a_key_press() {
    assert_eq!(decode(&[0x41]), Ok(Event::KeyPress { character: 'A' }));
}

#[test]
fn nul_byte_is_a_key_press() {
    assert_eq!(decode(&[0x00]), Ok(Event::KeyPress { character: '\0' }));
    assert_eq!(decode(&[0x7f]), Ok(Event::KeyPress { character: '\u{7f}' }));
}

#[test]
fn wide_characters_read_as_mouse_packets() {
    // U+00E9 is C3 A9: a mouse mark, flag set with magnitude 3, then flag clear
    // with magnitude 0x29.
    let mut buffer = [0u8; 4];
    let window = 'é'.encode_utf8(&mut buffer).as_bytes();
    assert_eq!(window, &[0xC3, 0xA9]);
    assert_eq!(decode(window), Ok(Event::MouseMove { dx: -3, dy: 41 }));
    // Three and four byte encodings are mouse windows of a length that means
    // nothing.
    let window = '€'.encode_utf8(&mut buffer).as_bytes();
    assert_eq!(window.len(), 3);
    assert_eq!(decode(window), Err(DecodeError::MouseLength));
    let window = '😀'.encode_utf8(&mut buffer).as_bytes();
    assert_eq!(window.len(), 4);
    assert_eq!(decode(window), Err(DecodeError::MouseLength));
}

#[test]
fn no_character_beyond_ascii_is_a_key_press() {
    for code in 0x80u32..0x3000 {
        if let Some(c) = char::from_u32(code) {
            let mut buffer = [0u8; 4];
            let window = c.encode_utf8(&mut buffer).as_bytes();
            assert!(!matches!(decode(window), Ok(Event::KeyPress { .. })));
        }
    }
}

#[test]
fn lone_mouse_byte_clicks_by_its_flag() {
    for byte in 0x80u8..=0xFF {
        let expected = if byte & 0x40 == 0 { MouseButton::Left } else { MouseButton::Right };
        assert_eq!(decode(&[byte]), Ok(Event::MouseClick { button: expected }));
    }
}

#[test]
fn click_examples() {
    assert_eq!(decode(&[0x80]), Ok(Event::MouseClick { button: MouseButton::Left }));
    assert_eq!(decode(&[0xBF]), Ok(Event::MouseClick { button: MouseButton::Left }));
    assert_eq!(decode(&[0xC0]), Ok(Event::MouseClick { button: MouseButton::Right }));
    assert_eq!(decode(&[0xFF]), Ok(Event::MouseClick { button: MouseButton::Right }));
}

#[test]
fn every_move_has_small_signed_deltas() {
    for first in 0x80u8..=0xFF {
        for second in 0u8..=0xFF {
            match decode(&[first, second]) {
                Ok(Event::MouseMove { dx, dy }) => {
                    assert!((0..=63).contains(&dx.abs()));
                    assert!((0..=63).contains(&dy.abs()));
                    assert_eq!(dx.abs(), i32::from(first % 0x40));
                    assert_eq!(dy.abs(), i32::from(second % 0x40));
                    if first & 0x40 == 0 {
                        assert!(dx >= 0);
                    } else {
                        assert!(dx <= 0);
                    }
                    if second & 0x40 == 0 {
                        assert!(dy >= 0);
                    } else {
                        assert!(dy <= 0);
                    }
                }
                other => panic!("{:?}", other),
            }
        }
    }
}

#[test]
fn magnitude_five_with_either_sign() {
    // Sign clear, magnitude 5 on the first byte.
    assert_eq!(decode(&[0x80 | 5, 0x00]), Ok(Event::MouseMove { dx: 5, dy: 0 }));
    // Sign set, magnitude 5 on the first byte.
    assert_eq!(decode(&[0x80 | 0x40 | 5, 0x00]), Ok(Event::MouseMove { dx: -5, dy: 0 }));
    // The same on the second byte.
    assert_eq!(decode(&[0x80, 5]), Ok(Event::MouseMove { dx: 0, dy: 5 }));
    assert_eq!(decode(&[0x80, 0x40 | 5]), Ok(Event::MouseMove { dx: 0, dy: -5 }));
}

#[test]
fn second_byte_of_a_move_ignores_its_top_bit() {
    assert_eq!(decode(&[0x85, 0x85]), decode(&[0x85, 0x05]));
    assert_eq!(decode(&[0xC5, 0xC5]), Ok(Event::MouseMove { dx: -5, dy: -5 }));
}

#[test]
fn extreme_moves() {
    assert_eq!(decode(&[0xBF, 0x3F]), Ok(Event::MouseMove { dx: 63, dy: 63 }));
    assert_eq!(decode(&[0xFF, 0x7F]), Ok(Event::MouseMove { dx: -63, dy: -63 }));
    assert_eq!(decode(&[0xC0, 0x40]), Ok(Event::MouseMove { dx: 0, dy: 0 }));
}

#[test]
fn delta_of_exact_values() {
    assert_eq!(delta_of(0x00), 0);
    assert_eq!(delta_of(0x05), 5);
    assert_eq!(delta_of(0x45), -5);
    assert_eq!(delta_of(0x3F), 63);
    assert_eq!(delta_of(0x7F), -63);
    assert_eq!(delta_of(0x85), 5);
    assert_eq!(delta_of(0xC5), -5);
}

#[test]
fn button_of_follows_the_flag() {
    assert_eq!(button_of(0x80), MouseButton::Left);
    assert_eq!(button_of(0xC0), MouseButton::Right);
    assert_eq!(button_of(0x00), MouseButton::Left);
    assert_eq!(button_of(0x40), MouseButton::Right);
}

#[test]
fn is_mouse_follows_the_top_bit() {
    for byte in 0u8..=0xFF {
        assert_eq!(is_mouse(byte), byte >= 0x80);
    }
}

#[test]
fn empty_window_is_refused() {
    assert_eq!(decode(&[]), Err(DecodeError::Empty));
}

#[test]
fn malformed_keystroke_is_refused() {
    // A continuation byte with nothing to continue.
    assert_eq!(decode(&[0x41, 0x80]), Err(DecodeError::InvalidUtf8));
    // A two-byte lead cut short.
    assert_eq!(decode(&[0x41, 0xC3]), Err(DecodeError::InvalidUtf8));
    // An overlong encoding and a surrogate.
    assert_eq!(decode(&[0x41, 0xC0, 0x80]), Err(DecodeError::InvalidUtf8));
    assert_eq!(decode(&[0x41, 0xED, 0xA0, 0x80]), Err(DecodeError::InvalidUtf8));
    assert_eq!(decode(&[0x00, 0xFF]), Err(DecodeError::InvalidUtf8));
}

#[test]
fn keystroke_of_several_characters_is_refused() {
    assert_eq!(decode(&[0x41, 0x42]), Err(DecodeError::NotOneCharacter));
    assert_eq!(decode(&[0x41, 0xC3, 0xA9]), Err(DecodeError::NotOneCharacter));
    assert_eq!(decode(&[0x61, 0x62, 0x63, 0x64]), Err(DecodeError::NotOneCharacter));
}

#[test]
fn mouse_window_of_other_lengths_is_refused() {
    assert_eq!(decode(&[0x80, 0x00, 0x00]), Err(DecodeError::MouseLength));
    assert_eq!(decode(&[0xFF, 0x01, 0x02, 0x03]), Err(DecodeError::MouseLength));
}

#[test]
fn windows_longer_than_a_packet_are_refused() {
    assert_eq!(decode(&[0x41, 0x42, 0x43, 0x44, 0x45]), Err(DecodeError::NotOneCharacter));
    assert_eq!(decode(&[0x80, 1, 2, 3, 4]), Err(DecodeError::MouseLength));
}

#[test]
fn no_window_decodes_to_a_scroll() {
    for first in 0u8..=0xFF {
        assert!(!matches!(decode(&[first]), Ok(Event::MouseScroll { .. })));
        for second in 0u8..=0xFF {
            assert!(!matches!(decode(&[first, second]), Ok(Event::MouseScroll { .. })));
        }
    }
}

#[test]
fn keystroke_decoder_reads_the_text() {
    // Taken as a keystroke, a window is decoded as UTF-8 whatever its first
    // byte.
    assert_eq!(decode_keystroke(&[0xC3, 0xA9]), Ok(Event::KeyPress { character: 'é' }));
    assert_eq!(decode_keystroke(&[0xE2, 0x82, 0xAC]), Ok(Event::KeyPress { character: '€' }));
    assert_eq!(
        decode_keystroke(&[0xF0, 0x9F, 0x98, 0x80]),
        Ok(Event::KeyPress { character: '😀' })
    );
    assert_eq!(decode_keystroke(&[0x41]), Ok(Event::KeyPress { character: 'A' }));
    assert_eq!(decode_keystroke(&[]), Err(DecodeError::NotOneCharacter));
    assert_eq!(decode_keystroke(&[0x80]), Err(DecodeError::InvalidUtf8));
    assert_eq!(decode_keystroke(&[0xC3, 0xA9, 0x41]), Err(DecodeError::NotOneCharacter));
}

#[test]
fn mouse_decoder_goes_by_length() {
    assert_eq!(decode_mouse(&[]), Err(DecodeError::MouseLength));
    assert_eq!(decode_mouse(&[0x40]), Ok(Event::MouseClick { button: MouseButton::Right }));
    assert_eq!(decode_mouse(&[0x01, 0x42]), Ok(Event::MouseMove { dx: 1, dy: -2 }));
    assert_eq!(decode_mouse(&[1, 2, 3]), Err(DecodeError::MouseLength));
}

#[test]
fn decoder_keeps_nothing_between_calls() {
    let first = decode(&[0xC5, 0x05]);
    let _ = decode(&[0x41, 0x80]);
    let _ = decode(&[0x41]);
    assert_eq!(decode(&[0xC5, 0x05]), first);
}

#[test]
fn protocol_constants() {
    assert_eq!(MAX_PACKET_LEN, 4);
    assert_eq!(MOUSE_MARK, 0x80);
    assert_eq!(FLAG, 0x40);
    assert_eq!(MAGNITUDE_MASK, 0x3f);
}

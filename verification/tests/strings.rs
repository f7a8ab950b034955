use emscripten_helper::boundary::{BoundaryCall, MAX_SAFE_INTEGER};
use emscripten_helper::{init, Bridge};
use emscripten_helper::strings::{
    buffer_len, read_string, read_units, store_request, string_units, units_string, write_buffer,
    BufferError,
};

fn ready() -> Bridge {
    let mut bridge = Bridge::new();
    init(&mut bridge, b"HELPERJS = {};").unwrap();
    bridge
}

#[test]
fn units_of_plain_text() {
    assert_eq!(string_units("Ab"), vec![0x41, 0x62]);
    assert_eq!(string_units(""), Vec::<u16>::new());
}

#[test]
fn units_of_characters_beyond_ascii() {
    assert_eq!(string_units("é"), vec![0x00E9]);
    assert_eq!(string_units("€"), vec![0x20AC]);
    assert_eq!(string_units("\u{FFFF}"), vec![0xFFFF]);
}

#[test]
fn units_of_a_surrogate_pair() {
    assert_eq!(string_units("😀"), vec![0xD83D, 0xDE00]);
    assert_eq!(string_units("\u{10000}"), vec![0xD800, 0xDC00]);
    assert_eq!(string_units("\u{10FFFF}"), vec![0xDBFF, 0xDFFF]);
}

#[test]
fn buffer_layout_is_count_then_units() {
    assert_eq!(
        write_buffer(&[0x0041, 0x20AC]),
        Some(vec![2, 0, 0, 0, 0x41, 0x00, 0xAC, 0x20])
    );
    assert_eq!(write_buffer(&[]), Some(vec![0, 0, 0, 0]));
}

#[test]
fn count_is_little_endian() {
    let units = vec![0x61u16; 0x0102];
    let buffer = write_buffer(&units).unwrap();
    assert_eq!(&buffer[..4], &[0x02, 0x01, 0x00, 0x00]);
    assert_eq!(buffer.len(), 4 + 2 * 0x0102);
    assert_eq!(buffer_len(&buffer[..4]), Some(4 + 2 * 0x0102));
}

#[test]
fn buffer_len_needs_four_bytes() {
    assert_eq!(buffer_len(&[]), None);
    assert_eq!(buffer_len(&[1, 0, 0]), None);
    assert_eq!(buffer_len(&[1, 0, 0, 0]), Some(6));
    assert_eq!(buffer_len(&[0, 0, 0, 0, 9, 9]), Some(4));
    assert_eq!(buffer_len(&[0, 0, 1, 0]), Some(4 + 2 * 65536));
}

#[test]
fn read_units_gives_what_was_written() {
    let units: Vec<u16> = vec![0, 1, 0x00FF, 0x0100, 0xD800, 0xFFFF];
    let buffer = write_buffer(&units).unwrap();
    assert_eq!(read_units(&buffer), Ok(units));
}

#[test]
fn read_ignores_what_follows_the_buffer() {
    assert_eq!(read_units(&[1, 0, 0, 0, 0x41, 0, 0x42, 0]), Ok(vec![0x41]));
    assert_eq!(
        read_string(&[1, 0, 0, 0, 0x41, 0, 0x42, 0]),
        Ok(String::from("A"))
    );
}

#[test]
fn short_buffers_are_refused() {
    assert_eq!(read_units(&[]), Err(BufferError::MissingCount));
    assert_eq!(read_units(&[2, 0, 0]), Err(BufferError::MissingCount));
    assert_eq!(read_units(&[2, 0, 0, 0]), Err(BufferError::Truncated));
    assert_eq!(
        read_units(&[2, 0, 0, 0, 0x41, 0, 0x42]),
        Err(BufferError::Truncated)
    );
    assert_eq!(read_string(&[0, 0, 0]), Err(BufferError::MissingCount));
    assert_eq!(
        read_string(&[0xFF, 0xFF, 0xFF, 0xFF, 0x41, 0]),
        Err(BufferError::Truncated)
    );
}

#[test]
fn text_survives_the_buffer() {
    for text in ["", "a", "héllo wörld", "日本語", "😀 and 🦀", "\u{0}\u{FFFF}\u{10000}"] {
        let buffer = write_buffer(&string_units(text)).unwrap();
        assert_eq!(read_string(&buffer), Ok(String::from(text)));
    }
}

#[test]
fn lone_surrogates_are_replaced() {
    // high surrogate with nothing after it
    let buffer = write_buffer(&[0x41, 0xD83D]).unwrap();
    assert_eq!(read_string(&buffer), Ok(String::from("A\u{FFFD}")));
    // low surrogate first
    let buffer = write_buffer(&[0xDE00, 0x41]).unwrap();
    assert_eq!(read_string(&buffer), Ok(String::from("\u{FFFD}A")));
    // high surrogate before a plain unit: the plain unit is kept
    let buffer = write_buffer(&[0xD83D, 0x41]).unwrap();
    assert_eq!(read_string(&buffer), Ok(String::from("\u{FFFD}A")));
    // two high surrogates, then a low one: the second pair holds
    let buffer = write_buffer(&[0xD83D, 0xD83D, 0xDE00]).unwrap();
    assert_eq!(read_string(&buffer), Ok(String::from("\u{FFFD}😀")));
}

#[test]
fn store_request_names_address_and_count() {
    assert_eq!(
        store_request(&ready(), 4096, 3),
        Some(BoundaryCall::StoreString {
            address: 4096,
            units: 3
        })
    );
    assert_eq!(
        store_request(&ready(), 0, 0),
        Some(BoundaryCall::StoreString {
            address: 0,
            units: 0
        })
    );
}

#[test]
fn store_request_stops_at_the_safe_range() {
    if usize::BITS < 64 {
        return;
    }
    let max = MAX_SAFE_INTEGER as usize;
    assert_eq!(
        store_request(&ready(), max, 0),
        Some(BoundaryCall::StoreString {
            address: MAX_SAFE_INTEGER,
            units: 0
        })
    );
    assert_eq!(
        store_request(&ready(), max - 2, 1),
        Some(BoundaryCall::StoreString {
            address: MAX_SAFE_INTEGER - 2,
            units: 1
        })
    );
    assert_eq!(store_request(&ready(), max - 1, 1), None);
    assert_eq!(store_request(&ready(), max + 1, 0), None);
    assert_eq!(store_request(&ready(), 0, max), None);
    assert_eq!(store_request(&ready(), usize::MAX, usize::MAX), None);
}

#[test]
fn units_agree_with_the_standard_encoder() {
    let mut text = String::new();
    for code in (0u32..0x11_0000).step_by(0x101) {
        if let Some(c) = char::from_u32(code) {
            text.push(c);
        }
    }
    for c in ['\u{D7FF}', '\u{E000}', '\u{FFFF}', '\u{10000}', '\u{10FFFF}'] {
        text.push(c);
    }
    let expected: Vec<u16> = text.encode_utf16().collect();
    assert_eq!(string_units(&text), expected);
}

#[test]
fn text_agrees_with_the_standard_lossy_decoder() {
    // every single unit
    for unit in 0..=u16::MAX {
        assert_eq!(units_string(&[unit]), String::from_utf16_lossy(&[unit]));
    }
    // pairs and triples around the surrogate ranges
    let edges = [
        0x0000, 0x0041, 0xD7FF, 0xD800, 0xD801, 0xDBFF, 0xDC00, 0xDC01, 0xDFFF, 0xE000, 0xFFFD,
        0xFFFF,
    ];
    for a in edges {
        for b in edges {
            assert_eq!(units_string(&[a, b]), String::from_utf16_lossy(&[a, b]));
            for c in edges {
                assert_eq!(
                    units_string(&[a, b, c]),
                    String::from_utf16_lossy(&[a, b, c])
                );
            }
        }
    }
}

#[test]
fn units_spell_text() {
    assert_eq!(units_string(&[]), "");
    assert_eq!(units_string(&[0x48, 0x69]), "Hi");
    assert_eq!(units_string(&[0xD83D, 0xDE00]), "😀");
    assert_eq!(units_string(&[0xD800, 0xDC00]), "\u{10000}");
    assert_eq!(units_string(&[0xDBFF, 0xDFFF]), "\u{10FFFF}");
    assert_eq!(units_string(&[0xDE00, 0xD83D]), "\u{FFFD}\u{FFFD}");
}

#[test]
fn no_store_request_before_the_host_is_set_up() {
    assert_eq!(store_request(&Bridge::new(), 4096, 3), None);
}

use memory_cleaner::utf16::{decode_utf16_lossy, encode_utf16, nul_index, wide_null, wide_to_string};

#[test]
fn decode_matches_std_lossy_decoding() {
    let samples: Vec<Vec<u16>> = vec![
        "hello".encode_utf16().collect(),
        "中文 🎉".encode_utf16().collect(),
        vec![0xD800],
        vec![0xDC00, 0x41],
        vec![0xD83C, 0x41, 0xDF89],
        vec![0xD83C, 0xDF89, 0xD83C],
    ];
    for units in samples {
        let decoded: String = decode_utf16_lossy(&units, 0, units.len()).into_iter().collect();
        assert_eq!(decoded, String::from_utf16_lossy(&units));
    }
}

#[test]
fn encode_matches_std() {
    for s in ["", "abc", "Größe", "🎉x"] {
        assert_eq!(encode_utf16(s), s.encode_utf16().collect::<Vec<u16>>());
    }
}

#[test]
fn nul_index_finds_first_terminator() {
    assert_eq!(nul_index(&[65, 66, 0, 67, 0]), 2);
    assert_eq!(nul_index(&[65, 66]), 2);
    assert_eq!(nul_index(&[]), 0);
}

#[test]
fn wide_strings_round_trip_with_terminator() {
    assert_eq!(wide_null("Ab"), vec![0x41, 0x62, 0]);
    assert_eq!(wide_null(""), vec![0]);
    assert_eq!(wide_to_string(&[0x41, 0xD800, 0x42]), "A\u{FFFD}B");
    let units: Vec<u16> = "Größe 🎉".encode_utf16().collect();
    assert_eq!(wide_to_string(&units), "Größe 🎉");
}

use osc_codec::utf8check::check_utf8;

#[test]
fn accepts_ascii_and_multibyte() {
    assert!(check_utf8(b""));
    assert!(check_utf8(b"plain ascii"));
    assert!(check_utf8("caf\u{e9}".as_bytes()));
    assert!(check_utf8("\u{7ff}\u{800}\u{ffff}".as_bytes()));
    assert!(check_utf8("\u{10000}\u{10ffff}".as_bytes()));
}

#[test]
fn rejects_stray_and_impossible_bytes() {
    assert!(!check_utf8(&[0x80]));
    assert!(!check_utf8(&[0xBF]));
    assert!(!check_utf8(&[0xF8]));
    assert!(!check_utf8(&[0xFF]));
}

#[test]
fn rejects_truncated_sequences() {
    assert!(!check_utf8(&[0xC3]));
    assert!(!check_utf8(&[0xE2, 0x82]));
    assert!(!check_utf8(&[0xF0, 0x9F, 0x98]));
}

#[test]
fn rejects_bad_continuation_bytes() {
    assert!(!check_utf8(&[0xC3, 0x28]));
    assert!(!check_utf8(&[0xE2, 0x28, 0xA1]));
    assert!(!check_utf8(&[0xE2, 0x82, 0x28]));
    assert!(!check_utf8(&[0xF0, 0x28, 0x8C, 0xBC]));
}

#[test]
fn rejects_overlong_encodings() {
    assert!(!check_utf8(&[0xC0, 0x80]));
    assert!(!check_utf8(&[0xC1, 0xBF]));
    assert!(!check_utf8(&[0xE0, 0x80, 0xAF]));
    assert!(!check_utf8(&[0xF0, 0x80, 0x80, 0xAF]));
}

#[test]
fn rejects_surrogates_and_too_large_codepoints() {
    // U+D800 and U+DFFF encoded as three bytes
    assert!(!check_utf8(&[0xED, 0xA0, 0x80]));
    assert!(!check_utf8(&[0xED, 0xBF, 0xBF]));
    // U+110000 and the largest structurally possible sequence
    assert!(!check_utf8(&[0xF4, 0x90, 0x80, 0x80]));
    assert!(!check_utf8(&[0xF7, 0xBF, 0xBF, 0xBF]));
}

#[test]
fn agrees_with_std_on_exhaustive_two_byte_inputs() {
    for a in 0..=255u8 {
        let one = [a];
        assert_eq!(check_utf8(&one), std::str::from_utf8(&one).is_ok(), "byte {a:#04x}");
        for b in 0..=255u8 {
            let two = [a, b];
            assert_eq!(
                check_utf8(&two),
                std::str::from_utf8(&two).is_ok(),
                "bytes {a:#04x} {b:#04x}"
            );
        }
    }
}

#[test]
fn agrees_with_std_on_sampled_longer_inputs() {
    // A deterministic walk through three- and four-byte space.
    let mut x: u32 = 0x12345678;
    for _ in 0..20_000 {
        x = x.wrapping_mul(1664525).wrapping_add(1013904223);
        let bytes = x.to_be_bytes();
        let three = &bytes[1..];
        assert_eq!(
            check_utf8(three),
            std::str::from_utf8(three).is_ok(),
            "bytes {three:02x?}"
        );
        assert_eq!(
            check_utf8(&bytes),
            std::str::from_utf8(&bytes).is_ok(),
            "bytes {bytes:02x?}"
        );
    }
}

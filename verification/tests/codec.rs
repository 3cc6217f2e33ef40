use osc_codec::argument::Argument;
use osc_codec::wire::DecodeError;

fn encode(value: &Argument) -> Vec<u8> {
    let mut out = Vec::new();
    value.serialize(&mut out);
    out
}

fn decode(tag: char, bytes: &[u8]) -> (Result<Argument, DecodeError>, usize) {
    let mut pos = 0usize;
    let r = Argument::deserialize(tag, bytes, &mut pos);
    (r, pos)
}

#[test]
fn round_trip_int32() {
    for n in [0i32, 1, -1, 42, i32::MIN, i32::MAX, -123_456_789] {
        let v = Argument::from(n);
        let bytes = encode(&v);
        assert_eq!(bytes.len(), 4);
        let (r, consumed) = decode(v.typetag(), &bytes);
        assert_eq!(r.unwrap(), v);
        assert_eq!(consumed, bytes.len());
    }
}

#[test]
fn round_trip_float32() {
    for x in [0.0f32, 1.5, -2.75, f32::MIN_POSITIVE, f32::MAX, f32::NEG_INFINITY] {
        let v = Argument::Float32(x.to_bits());
        let bytes = encode(&v);
        assert_eq!(bytes.len(), 4);
        let (r, consumed) = decode(v.typetag(), &bytes);
        assert_eq!(r.unwrap(), v);
        assert_eq!(consumed, bytes.len());
    }
}

#[test]
fn round_trip_float64() {
    for x in [0.0f64, 1.5, -2.75, f64::MIN, f64::MAX, f64::INFINITY] {
        let v = Argument::Float64(x.to_bits());
        let bytes = encode(&v);
        assert_eq!(bytes.len(), 8);
        let (r, consumed) = decode(v.typetag(), &bytes);
        assert_eq!(r.unwrap(), v);
        assert_eq!(consumed, bytes.len());
    }
}

#[test]
fn round_trip_strings() {
    for s in ["", "A", "HI", "OSC", "hello", "a longer string value"] {
        let v = Argument::from_text(s);
        let bytes = encode(&v);
        assert_eq!(bytes.len() % 4, 0);
        let (r, consumed) = decode('s', &bytes);
        assert_eq!(r.unwrap(), v);
        assert_eq!(consumed, bytes.len());
    }
}

#[test]
fn round_trip_multibyte_utf8() {
    let s = "caf\u{e9} \u{2764} \u{1f600}";
    let v = Argument::from_text(s);
    let bytes = encode(&v);
    assert_eq!(bytes.len() % 4, 0);
    let (r, consumed) = decode('s', &bytes);
    let decoded = r.unwrap();
    assert_eq!(decoded, v);
    assert_eq!(consumed, bytes.len());
    match decoded {
        Argument::Str(content) => assert_eq!(content, s.as_bytes().to_vec()),
        _ => panic!("expected a string argument"),
    }
}

#[test]
fn round_trip_nullary() {
    for v in [Argument::True, Argument::False, Argument::Nil] {
        let bytes = encode(&v);
        assert!(bytes.is_empty());
        let (r, consumed) = decode(v.typetag(), &bytes);
        assert_eq!(r.unwrap(), v);
        assert_eq!(consumed, 0);
    }
}

#[test]
fn typetag_per_variant() {
    assert_eq!(Argument::True.typetag(), 'T');
    assert_eq!(Argument::False.typetag(), 'F');
    assert_eq!(Argument::Nil.typetag(), 'N');
    assert_eq!(Argument::Int32(7).typetag(), 'i');
    assert_eq!(Argument::Float32(0).typetag(), 'f');
    assert_eq!(Argument::Float64(0).typetag(), 'd');
    assert_eq!(Argument::from_text("x").typetag(), 's');
}

#[test]
fn from_native_values() {
    assert_eq!(Argument::from(true), Argument::True);
    assert_eq!(Argument::from(false), Argument::False);
    assert_eq!(Argument::from(-7i32), Argument::Int32(-7));
}

#[test]
fn str_from_bytes_validates_utf8() {
    let ok = Argument::str_from_bytes(b"valid".to_vec()).unwrap();
    assert_eq!(ok, Argument::from_text("valid"));
    let err = Argument::str_from_bytes(vec![0xC3, 0x28]).unwrap_err();
    assert_eq!(err, DecodeError::InvalidUtf8);
    let err = Argument::str_from_bytes(vec![0xFF]).unwrap_err();
    assert_eq!(err, DecodeError::InvalidUtf8);
}

#[test]
fn strchr_finds_first_occurrence() {
    assert_eq!(osc_codec::argument::strchr(&[5, 0, 7, 0], 0), Some(1));
    assert_eq!(osc_codec::argument::strchr(&[5, 6, 7], 0), None);
    assert_eq!(osc_codec::argument::strchr(&[], 9), None);
    assert_eq!(osc_codec::argument::strchr(&[9, 9], 9), Some(0));
}

#[test]
fn padding_always_multiple_of_four_with_terminator() {
    for len in 0..9usize {
        let text: String = "x".repeat(len);
        let v = Argument::from_text(&text);
        let bytes = encode(&v);
        assert_eq!(bytes.len() % 4, 0);
        assert!(bytes.len() > len);
        assert_eq!(bytes[len], 0);
        let expected_zeros = 4 - len % 4;
        assert_eq!(bytes.len(), len + expected_zeros);
    }
}

#[test]
fn cursor_advances_through_several_values() {
    let mut buf = Vec::new();
    Argument::Int32(258).serialize(&mut buf);
    Argument::from_text("ok").serialize(&mut buf);
    Argument::Float64(1.25f64.to_bits()).serialize(&mut buf);

    let mut pos = 0usize;
    let first = Argument::deserialize('i', &buf, &mut pos).unwrap();
    assert_eq!(first, Argument::Int32(258));
    assert_eq!(pos, 4);
    let second = Argument::deserialize('s', &buf, &mut pos).unwrap();
    assert_eq!(second, Argument::from_text("ok"));
    assert_eq!(pos, 8);
    let third = Argument::deserialize('d', &buf, &mut pos).unwrap();
    assert_eq!(third, Argument::Float64(1.25f64.to_bits()));
    assert_eq!(pos, 16);
}

#[test]
fn cursor_unchanged_on_failure() {
    let buf = [0x41u8, 0x42];
    let mut pos = 0usize;
    assert_eq!(
        Argument::deserialize('i', &buf, &mut pos).unwrap_err(),
        DecodeError::BufferTooShort
    );
    assert_eq!(pos, 0);
    assert_eq!(
        Argument::deserialize('s', &buf, &mut pos).unwrap_err(),
        DecodeError::UnterminatedString
    );
    assert_eq!(pos, 0);
}

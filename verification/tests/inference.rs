use blobscan::infer::{infer, AssumedType};
use blobscan::word::Endian;

fn words_of(values: &[u32]) -> Vec<[u8; 4]> {
    values.iter().map(|v| v.to_le_bytes()).collect()
}

#[test]
fn selection_follows_the_rules_in_order() {
    let table: [(i64, i64, AssumedType); 28] = [
        (0, 0, AssumedType::Bool),
        (0, 1, AssumedType::Bool),
        (1, 1, AssumedType::Bool),
        (1, 0, AssumedType::Bool),
        (-1, 0, AssumedType::I8),
        (-128, 127, AssumedType::I8),
        (-128, 128, AssumedType::I16),
        (-129, 127, AssumedType::I16),
        (-32768, 32767, AssumedType::I16),
        (-32769, 32767, AssumedType::I32),
        (-32768, 32768, AssumedType::I32),
        (-1, 4294967295, AssumedType::I32),
        (i64::MIN, i64::MAX, AssumedType::I32),
        (-5, -7, AssumedType::I8),
        (3, -1, AssumedType::I8),
        (0, 2, AssumedType::U8),
        (2, 2, AssumedType::U8),
        (1, 2, AssumedType::U8),
        (0, 255, AssumedType::U8),
        (0, 256, AssumedType::U16),
        (0, 65535, AssumedType::U16),
        (0, 65536, AssumedType::U32),
        (0, 4294967295, AssumedType::U32),
        (0, i64::MAX, AssumedType::U32),
        (300, 7, AssumedType::U8),
        (2, 1, AssumedType::U8),
        (2, 0, AssumedType::Zero),
        (i64::MAX, 0, AssumedType::Zero),
    ];
    for (min, max, expected) in table {
        assert_eq!(AssumedType::select(min, max), expected, "bounds {min} and {max}");
    }
}

#[test]
fn bounds_start_at_zero_and_are_shared() {
    assert_eq!(infer(&[], Endian::Little), (AssumedType::Bool, 0, 0, true, true));
    let (_, min, max, _, _) = infer(&words_of(&[5, 9, 7]), Endian::Little);
    assert_eq!((min, max), (0, 9));
    let (_, min, max, _, _) = infer(&words_of(&[5, 0xffff_fffe, 7]), Endian::Little);
    assert_eq!((min, max), (-2, 4294967294));
    let (_, min, max, _, _) = infer(&words_of(&[0x8000_0000, 0x7fff_ffff]), Endian::Little);
    assert_eq!((min, max), (-2147483648, 2147483648));
}

#[test]
fn words_of_zero_and_one_are_bool() {
    for endian in [Endian::Little, Endian::Big] {
        let one = match endian {
            Endian::Little => [1, 0, 0, 0],
            Endian::Big => [0, 0, 0, 1],
        };
        let (assumed, min, max, _, _) = infer(&[one, one, one], endian);
        assert_eq!((assumed, min, max), (AssumedType::Bool, 0, 1));
        let (assumed, _, _, _, _) = infer(&[one, [0, 0, 0, 0], one], endian);
        assert_eq!(assumed, AssumedType::Bool);
    }
    let (assumed, _, _, _, _) = infer(&[[1, 0, 0, 0]], Endian::Big);
    assert_eq!(assumed, AssumedType::U32);
}

#[test]
fn unsigned_runs_get_the_narrowest_width() {
    let cases: [(&[u32], AssumedType); 7] = [
        (&[2], AssumedType::U8),
        (&[1, 255], AssumedType::U8),
        (&[256], AssumedType::U16),
        (&[3, 65535, 9], AssumedType::U16),
        (&[65536], AssumedType::U32),
        (&[0x7fff_ffff], AssumedType::U32),
        (&[1, 2, 3, 0x10_0000], AssumedType::U32),
    ];
    for (values, expected) in cases {
        let (assumed, min, _, _, _) = infer(&words_of(values), Endian::Little);
        assert_eq!(assumed, expected);
        assert_eq!(min, 0);
    }
}

#[test]
fn a_negative_decoding_makes_the_run_i32() {
    for values in [&[0xffff_ffffu32][..], &[0xffff_ff80], &[1, 0x8000_0000], &[0xffff_8000, 5]] {
        let (assumed, min, max, _, _) = infer(&words_of(values), Endian::Little);
        assert_eq!(assumed, AssumedType::I32);
        assert!(min < 0);
        assert!(max >= 0x8000_0000);
    }
}

#[test]
fn endianness_changes_the_decoding() {
    let word = [0x00, 0x00, 0x01, 0x00];
    assert_eq!(infer(&[word], Endian::Little).2, 65536);
    assert_eq!(infer(&[word], Endian::Big).2, 256);
    assert_eq!(infer(&[word], Endian::Little).0, AssumedType::U32);
    assert_eq!(infer(&[word], Endian::Big).0, AssumedType::U16);
    let word = [0x80, 0x00, 0x00, 0x01];
    assert_eq!(infer(&[word], Endian::Little).1, 0);
    assert_eq!(infer(&[word], Endian::Big).1, -2147483647);
}

#[test]
fn one_nan_makes_the_run_float_implausible() {
    let nan = f32::NAN.to_le_bytes();
    let one = 1.0f32.to_le_bytes();
    assert!(!infer(&[nan], Endian::Little).3);
    assert!(!infer(&[one, one, nan, one], Endian::Little).3);
    assert!(!infer(&[nan, one], Endian::Little).3);
    assert!(infer(&[one, one], Endian::Little).3);
    assert!(infer(&[f32::INFINITY.to_le_bytes(), f32::NEG_INFINITY.to_le_bytes()], Endian::Little).3);
    assert!(!infer(&[[0xff, 0xff, 0xff, 0xff]], Endian::Little).3);
    assert!(infer(&[[0x01, 0x00, 0x80, 0x7f]], Endian::Big).3);
    assert!(!infer(&[[0x7f, 0x80, 0x00, 0x01]], Endian::Big).3);
}

#[test]
fn float_plausibility_agrees_with_the_floats_of_the_standard_library() {
    let mut state: u32 = 2024;
    for _ in 0..200 {
        let mut words = Vec::new();
        let mut any_nan = false;
        for _ in 0..5 {
            state = state.wrapping_mul(1664525).wrapping_add(1013904223);
            let value = if state % 7 == 0 { state | 0x7f80_0000 } else { state };
            any_nan = any_nan || f32::from_bits(value).is_nan();
            words.push(value.to_be_bytes());
        }
        assert_eq!(infer(&words, Endian::Big).3, !any_nan);
    }
}

#[test]
fn string_plausibility_is_validity_of_the_bytes_as_utf8() {
    let cases: [&[u8]; 12] = [
        b"Hell",
        b"Hello, world",
        b"a\xc3\xa9bcd\xe2\x82\xac!!!",
        b"\xf0\x9f\x98\x80",
        b"\x00\x00\x00\x01",
        b"abc\xff",
        b"\xc3\x28ab",
        b"abc\xc3",
        b"\xed\xa0\x80a",
        b"\xc0\x80ab",
        b"\xf4\x90\x80\x80",
        b"ab\xe2\x82\xacabc\xc3\xa9a\xc3",
    ];
    for bytes in cases {
        let words: Vec<[u8; 4]> = bytes.chunks(4).map(|c| [c[0], c[1], c[2], c[3]]).collect();
        let expected = std::str::from_utf8(bytes).is_ok();
        assert_eq!(infer(&words, Endian::Little).4, expected);
        assert_eq!(infer(&words, Endian::Big).4, expected);
    }
    assert!(infer(&[*b"Hell", *b"o wo", *b"rld!"], Endian::Little).4);
    assert!(!infer(&[*b"Hell", [0x80, 0x80, 0x80, 0x80]], Endian::Little).4);
    assert!(infer(&[[0x61, 0x62, 0x63, 0xc3], [0xa9, 0x61, 0x62, 0x63]], Endian::Little).4);
    assert!(!infer(&[[0x61, 0x62, 0x63, 0xc3]], Endian::Little).4);
}

#[test]
fn type_names_are_the_variant_names() {
    let names = [
        (AssumedType::Bool, "Bool"),
        (AssumedType::I8, "I8"),
        (AssumedType::I16, "I16"),
        (AssumedType::I32, "I32"),
        (AssumedType::U8, "U8"),
        (AssumedType::U16, "U16"),
        (AssumedType::U32, "U32"),
        (AssumedType::Zero, "Zero"),
    ];
    for (assumed, name) in names {
        assert_eq!(assumed.name(), name);
        assert_eq!(format!("{assumed:?}"), name);
    }
}

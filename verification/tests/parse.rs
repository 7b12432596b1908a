use uuid::UUID;

const EXAMPLE: [u8; 16] = [
    0x12, 0x3e, 0x45, 0x67, 0xe8, 0x9b, 0x12, 0xd3, 0xa4, 0x56, 0x42, 0x66, 0x14, 0x17, 0x40, 0x00,
];

#[test]
fn parses_the_canonical_example() {
    let u = UUID::from_string("123e4567-e89b-12d3-a456-426614174000").unwrap();
    assert_eq!(u.as_bytes(), &EXAMPLE);
    assert_eq!(u.to_lowercase_string(), "123e4567-e89b-12d3-a456-426614174000");
}

#[test]
fn parsed_example_has_its_fields() {
    let u = UUID::from_string("123e4567-e89b-12d3-a456-426614174000").unwrap();
    assert_eq!(u.version(), 1);
    assert_eq!(u.variant(), uuid::Variant::DCE);
    assert!(!u.is_null());
}

#[test]
fn digits_map_left_to_right() {
    let u = UUID::from_string("00112233-4455-6677-8899-aabbccddeeff").unwrap();
    assert_eq!(
        u.as_bytes(),
        &[
            0x00, 0x11, 0x22, 0x33, 0x44, 0x55, 0x66, 0x77, 0x88, 0x99, 0xaa, 0xbb, 0xcc, 0xdd,
            0xee, 0xff
        ]
    );
}

#[test]
fn each_half_is_big_endian() {
    let u = UUID::from_string("00000000-0000-0001-0200-000000000000").unwrap();
    let mut expected = [0u8; 16];
    expected[7] = 1;
    expected[8] = 2;
    assert_eq!(u.as_bytes(), &expected);
}

#[test]
fn parses_upper_case() {
    let u = UUID::from_string("123E4567-E89B-12D3-A456-426614174000").unwrap();
    assert_eq!(u.as_bytes(), &EXAMPLE);
}

#[test]
fn parses_mixed_case() {
    let u = UUID::from_string("123e4567-E89b-12D3-a456-426614174000").unwrap();
    assert_eq!(u.as_bytes(), &EXAMPLE);
}

#[test]
fn parses_null_text() {
    let u = UUID::from_string("00000000-0000-0000-0000-000000000000").unwrap();
    assert!(u.is_null());
}

#[test]
fn parses_all_ones() {
    let u = UUID::from_string("ffffffff-ffff-ffff-ffff-ffffffffffff").unwrap();
    assert_eq!(u.as_bytes(), &[0xff; 16]);
}

#[test]
fn rejects_empty_text() {
    assert!(UUID::from_string("").is_none());
}

#[test]
fn rejects_thirty_five_characters() {
    assert!(UUID::from_string("123e4567-e89b-12d3-a456-42661417400").is_none());
}

#[test]
fn rejects_thirty_seven_characters() {
    assert!(UUID::from_string("123e4567-e89b-12d3-a456-4266141740000").is_none());
}

#[test]
fn rejects_non_hex_digits() {
    assert!(UUID::from_string("zzzzzzzz-e89b-12d3-a456-426614174000").is_none());
}

#[test]
fn rejects_non_hex_in_second_half() {
    assert!(UUID::from_string("123e4567-e89b-12d3-a456-42661417400g").is_none());
    assert!(UUID::from_string("123e4567-e89b-12d3-g456-426614174000").is_none());
}

#[test]
fn rejects_characters_next_to_the_digits() {
    assert!(UUID::from_string("123e4567-e89b-12d3-a456-42661417400/").is_none());
    assert!(UUID::from_string("123e4567-e89b-12d3-a456-42661417400:").is_none());
    assert!(UUID::from_string("123e4567-e89b-12d3-a456-42661417400@").is_none());
    assert!(UUID::from_string("123e4567-e89b-12d3-a456-42661417400G").is_none());
    assert!(UUID::from_string("123e4567-e89b-12d3-a456-42661417400`").is_none());
}

#[test]
fn rejects_a_sign() {
    assert!(UUID::from_string("+23e4567-e89b-12d3-a456-426614174000").is_none());
    assert!(UUID::from_string("123e4567-e89b-12d3-+456-426614174000").is_none());
}

#[test]
fn rejects_blanks() {
    assert!(UUID::from_string(" 23e4567-e89b-12d3-a456-426614174000").is_none());
    assert!(UUID::from_string("123e4567-e89b-12d3-a456-42661417400 ").is_none());
}

#[test]
fn rejects_too_few_dashes() {
    assert!(UUID::from_string("123e4567-e89b-12d3-a456042661417400a").is_none());
    assert!(UUID::from_string("123e4567e89b12d3a456426614174000abcd").is_none());
}

#[test]
fn rejects_too_many_dashes() {
    assert!(UUID::from_string("123e4567-e89b-12d3-a456-42661417400-").is_none());
    assert!(UUID::from_string("------------------------------------").is_none());
}

#[test]
fn rejects_text_without_dashes() {
    assert!(UUID::from_string("123e4567e89b12d3a456426614174000").is_none());
}

#[test]
fn rejects_characters_beyond_ascii() {
    assert!(UUID::from_string("\u{e9}23e4567-e89b-12d3-a456-426614174000").is_none());
    assert!(UUID::from_string("\u{e9}3e4567-e89b-12d3-a456-426614174000").is_none());
    assert!(UUID::from_string("123e4567-e89b-12d3-a456-42661417400\u{ff10}").is_none());
}

#[test]
fn dash_positions_are_free() {
    let u = UUID::from_string("----123e4567e89b12d3a456426614174000").unwrap();
    assert_eq!(u.as_bytes(), &EXAMPLE);
    let v = UUID::from_string("123e4567e89b12d3a456426614174000----").unwrap();
    assert_eq!(v.as_bytes(), &EXAMPLE);
    let w = UUID::from_string("1-23e4567e89b12d3a45642661417-40-0-0").unwrap();
    assert_eq!(w.as_bytes(), &EXAMPLE);
}

#[test]
fn long_text_is_rejected() {
    let long = "0".repeat(10_000);
    assert!(UUID::from_string(&long).is_none());
}

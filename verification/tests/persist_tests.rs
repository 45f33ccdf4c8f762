use snake_game::leaderboard::{default_records, AppLeaderboardState, Record};
use snake_game::persist::{
    locate_table, parse_board, patch_image, serialize_board, validate_range, ParseError,
    PersistError, TABLE_BYTES,
};

fn name_of(s: &str) -> Vec<char> {
    s.chars().collect()
}

fn sample_board() -> Vec<Record> {
    let mut board = AppLeaderboardState::new(default_records());
    board.update_board(&name_of("carol"), 50);
    board.update_board(&name_of("bob"), 30);
    board.update_board(&name_of("ålice pütz"), 70);
    board.leaderboard
}

#[test]
fn serialized_table_has_the_reserved_size() {
    let bytes = serialize_board(&sample_board());
    assert_eq!(bytes.len(), 680);
    assert_eq!(bytes.len(), TABLE_BYTES);
}

#[test]
fn serialize_layout_of_first_record() {
    let bytes = serialize_board(&sample_board());
    // First record: "ålice pütz" space-padded, score 70 little-endian.
    assert_eq!(bytes[0], 0xE5); // 'å' is U+00E5
    assert_eq!(bytes[1], 0);
    assert_eq!(bytes[2], 0);
    assert_eq!(bytes[3], 0);
    assert_eq!(bytes[4], b'l');
    assert_eq!(bytes[64], 70);
    assert_eq!(bytes[65], 0);
    assert_eq!(bytes[66], 0);
    assert_eq!(bytes[67], 0);
}

#[test]
fn table_round_trip_is_identity() {
    let board = sample_board();
    let bytes = serialize_board(&board);
    let back = parse_board(&bytes).expect("a serialized table parses");
    assert_eq!(back, board);
}

#[test]
fn parse_rejects_wrong_length() {
    assert_eq!(parse_board(&[0u8; 10]), Err(ParseError::WrongLength));
    assert_eq!(parse_board(&[0u8; 681]), Err(ParseError::WrongLength));
}

#[test]
fn parse_rejects_invalid_code_point() {
    let mut bytes = serialize_board(&sample_board());
    // Overwrite the first stored code point with a value past Unicode.
    bytes[0] = 0xFF;
    bytes[1] = 0xFF;
    bytes[2] = 0xFF;
    bytes[3] = 0xFF;
    assert_eq!(parse_board(&bytes), Err(ParseError::InvalidChar));
}

#[test]
fn parse_rejects_surrogate_code_point() {
    let mut bytes = serialize_board(&sample_board());
    // U+D800, the first surrogate, is not a scalar value.
    bytes[0] = 0x00;
    bytes[1] = 0xD8;
    bytes[2] = 0x00;
    bytes[3] = 0x00;
    assert_eq!(parse_board(&bytes), Err(ParseError::InvalidChar));
}

#[test]
fn parse_rejects_bad_padding() {
    let mut bytes = serialize_board(&sample_board());
    bytes[67] = 1;
    assert_eq!(parse_board(&bytes), Err(ParseError::BadPadding));
}

#[test]
fn invalid_char_wins_over_bad_padding() {
    let mut bytes = serialize_board(&sample_board());
    bytes[66] = 9; // bad padding early in the block
    let last = 9 * 68; // last record's name, all four bytes set
    bytes[last] = 0xFF;
    bytes[last + 1] = 0xFF;
    bytes[last + 2] = 0xFF;
    bytes[last + 3] = 0xFF;
    assert_eq!(parse_board(&bytes), Err(ParseError::InvalidChar));
}

#[test]
fn validate_range_accepts_the_exact_section() {
    assert_eq!(validate_range(10_000, Some((1000, 680))), Ok(1000));
}

#[test]
fn validate_range_rejects_each_defect() {
    assert_eq!(validate_range(10_000, None), Err(PersistError::SectionMissing));
    assert_eq!(validate_range(10_000, Some((1000, 679))), Err(PersistError::WrongSize));
    assert_eq!(validate_range(10_000, Some((1000, 681))), Err(PersistError::WrongSize));
    assert_eq!(validate_range(10_000, Some((9500, 680))), Err(PersistError::OutOfBounds));
    assert_eq!(validate_range(100, Some((0, 680))), Err(PersistError::OutOfBounds));
    assert_eq!(
        validate_range(10_000, Some((u64::MAX, 680))),
        Err(PersistError::OutOfBounds)
    );
}

#[test]
fn locate_table_rejects_garbage_images() {
    let garbage = vec![0x42u8; 4096];
    assert!(locate_table(&garbage).is_err());
}

#[test]
fn patch_image_splices_exactly_the_reserved_range() {
    let board = sample_board();
    let table = serialize_board(&board);
    let mut image: Vec<u8> = (0..2048u32).map(|i| (i % 251) as u8).collect();
    let original = image.clone();
    let base = 700usize;
    patch_image(&mut image, base, &board);
    assert_eq!(image.len(), original.len());
    assert_eq!(&image[..base], &original[..base]);
    assert_eq!(&image[base..base + 680], &table[..]);
    assert_eq!(&image[base + 680..], &original[base + 680..]);
    // Reading the patched range back yields the table again.
    let back = parse_board(&image[base..base + 680]).unwrap();
    assert_eq!(back, board);
}

use dr_fingers::level::{
    load_level, parse_level, split_lines, tile_from_char, FloorCell, Level, LevelError, Side, Tile,
    LEVEL_HEIGHT, LEVEL_WIDTH,
};

fn chars(s: &str) -> Vec<char> {
    s.chars().collect()
}

#[test]
fn sprite_indices() {
    let sides = [
        (Side::TopLeft, 0),
        (Side::Top, 1),
        (Side::TopRight, 2),
        (Side::Left, 3),
        (Side::Middle, 4),
        (Side::Right, 5),
        (Side::BotLeft, 6),
        (Side::Bot, 7),
        (Side::BotRight, 8),
        (Side::Standalone, 9),
    ];
    for (side, index) in sides {
        assert_eq!(side.index(), index);
    }
}

#[test]
fn characters_map_to_tiles() {
    assert_eq!(tile_from_char('['), Tile::Floor(Side::Left));
    assert_eq!(tile_from_char('='), Tile::Floor(Side::Middle));
    assert_eq!(tile_from_char(']'), Tile::Floor(Side::Right));
    assert_eq!(tile_from_char('¬'), Tile::Floor(Side::TopRight));
    assert_eq!(tile_from_char('4'), Tile::Floor(Side::TopLeft));
    assert_eq!(tile_from_char('-'), Tile::Floor(Side::Top));
    assert_eq!(tile_from_char('L'), Tile::Floor(Side::BotLeft));
    assert_eq!(tile_from_char('_'), Tile::Floor(Side::Bot));
    assert_eq!(tile_from_char('/'), Tile::Floor(Side::BotRight));
    assert_eq!(tile_from_char('•'), Tile::Floor(Side::Standalone));
    assert_eq!(tile_from_char(' '), Tile::Empty);
    assert_eq!(tile_from_char('x'), Tile::Empty);
}

#[test]
fn lines_split_like_str_lines() {
    for text in ["", "\n", "a", "a\n", "a\nb", "a\r\nb\r\n", "a\n\nb", "x\r", "\r\n\r\n", "•¬\n-"] {
        let expected: Vec<Vec<char>> = text.lines().map(chars).collect();
        assert_eq!(split_lines(text), expected, "{:?}", text);
    }
}

#[test]
fn default_level_is_empty() {
    let level = Level::default();
    for row in 0..LEVEL_HEIGHT {
        for col in 0..LEVEL_WIDTH {
            assert_eq!(level.tile(row, col), Tile::Empty);
        }
    }
    assert!(level.floor_cells().is_empty());
}

#[test]
fn parse_places_tiles() {
    let level = parse_level("4-¬\r\n\n  [=]\n•").unwrap();
    assert_eq!(level.tile(0, 0), Tile::Floor(Side::TopLeft));
    assert_eq!(level.tile(0, 1), Tile::Floor(Side::Top));
    assert_eq!(level.tile(0, 2), Tile::Floor(Side::TopRight));
    assert_eq!(level.tile(0, 3), Tile::Empty);
    assert_eq!(level.tile(1, 0), Tile::Empty);
    assert_eq!(level.tile(2, 2), Tile::Floor(Side::Left));
    assert_eq!(level.tile(2, 4), Tile::Floor(Side::Right));
    assert_eq!(level.tile(3, 0), Tile::Floor(Side::Standalone));
    assert_eq!(level.tile(13, 19), Tile::Empty);
}

#[test]
fn floor_cells_in_reading_order() {
    let level = parse_level(" L\n\n_ /").unwrap();
    assert_eq!(
        level.floor_cells(),
        vec![
            FloorCell { row: 0, col: 1, side: Side::BotLeft },
            FloorCell { row: 2, col: 0, side: Side::Bot },
            FloorCell { row: 2, col: 2, side: Side::BotRight },
        ]
    );
}

#[test]
fn largest_level_is_accepted() {
    let row = "=".repeat(LEVEL_WIDTH);
    let text = vec![row.as_str(); LEVEL_HEIGHT].join("\n");
    let level = parse_level(&text).unwrap();
    assert_eq!(level.floor_cells().len(), LEVEL_WIDTH * LEVEL_HEIGHT);
    assert_eq!(level.tile(13, 19), Tile::Floor(Side::Middle));
}

#[test]
fn too_wide_is_rejected() {
    let row = "=".repeat(LEVEL_WIDTH + 1);
    assert!(matches!(parse_level(&row), Err(LevelError::TooWide)));
    // a carriage return before a newline does not count, one at the very end does
    let fits = format!("{}\r\n", "=".repeat(LEVEL_WIDTH));
    assert!(parse_level(&fits).is_ok());
    let over = format!("{}\r", "=".repeat(LEVEL_WIDTH));
    assert!(matches!(parse_level(&over), Err(LevelError::TooWide)));
}

#[test]
fn too_tall_is_rejected() {
    let text = "\n".repeat(LEVEL_HEIGHT + 1);
    assert!(matches!(parse_level(&text), Err(LevelError::TooTall)));
    let text = "\n".repeat(LEVEL_HEIGHT);
    assert!(parse_level(&text).is_ok());
}

#[test]
fn width_checked_before_height() {
    let mut text = "\n".repeat(LEVEL_HEIGHT + 3);
    text.insert_str(0, &"-".repeat(LEVEL_WIDTH + 1));
    assert!(matches!(parse_level(&text), Err(LevelError::TooWide)));
    // a long line past the last row is not reached
    let mut text = "\n".repeat(LEVEL_HEIGHT);
    text.push_str(&"-".repeat(LEVEL_WIDTH + 1));
    assert!(matches!(parse_level(&text), Err(LevelError::TooTall)));
}

#[test]
fn load_decodes_utf8() {
    let level = load_level("¬•".as_bytes()).unwrap();
    assert_eq!(level.tile(0, 0), Tile::Floor(Side::TopRight));
    assert_eq!(level.tile(0, 1), Tile::Floor(Side::Standalone));
    assert_eq!(level.tile(0, 2), Tile::Empty);
}

#[test]
fn load_rejects_invalid_utf8() {
    assert!(matches!(load_level(&[b'-', 0xff, b'\n']), Err(LevelError::InvalidUtf8)));
    assert!(matches!(load_level(&[0xc2]), Err(LevelError::InvalidUtf8)));
    assert!(load_level(b"").is_ok());
}

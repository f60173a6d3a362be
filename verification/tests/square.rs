use sachy::square::{Square, SquareError};

fn setup() -> (Square, Square, Square, Square) {
    let sq1 = Square::new(0, 0).unwrap();
    let sq2 = Square::new(7, 0).unwrap();
    let sq3 = Square::new(0, 7).unwrap();
    let sq4 = Square::new(7, 7).unwrap();

    (sq1, sq2, sq3, sq4)
}

#[test]
fn new_ok() {
    assert!(Square::new(0, 0).is_ok());
    assert!(Square::new(7, 0).is_ok());
    assert!(Square::new(0, 7).is_ok());
    assert!(Square::new(7, 7).is_ok());
}

#[test]
fn new_err() {
    let sq1 = Square::new(255, 0);
    assert!(sq1.is_err());
    assert_eq!(sq1.unwrap_err(), SquareError::XYOutOfBounds);

    let sq2 = Square::new(0, 255);
    assert!(sq2.is_err());
    assert_eq!(sq2.unwrap_err(), SquareError::XYOutOfBounds);

    let sq3 = Square::new(255, 255);
    assert!(sq3.is_err());
    assert_eq!(sq3.unwrap_err(), SquareError::XYOutOfBounds);

    let sq4 = Square::new(8, 0);
    assert!(sq4.is_err());
    assert_eq!(sq4.unwrap_err(), SquareError::XYOutOfBounds);

    let sq5 = Square::new(0, 8);
    assert!(sq5.is_err());
    assert_eq!(sq5.unwrap_err(), SquareError::XYOutOfBounds);

    let sq6 = Square::new(8, 8);
    assert!(sq6.is_err());
    assert_eq!(sq6.unwrap_err(), SquareError::XYOutOfBounds);
}

#[test]
fn index() {
    let (sq1, sq2, sq3, sq4) = setup();

    assert_eq!(sq1.index(), 0);
    assert_eq!(sq2.index(), 7);
    assert_eq!(sq3.index(), 56);
    assert_eq!(sq4.index(), 63);
}

#[test]
fn x() {
    let (sq1, sq2, sq3, sq4) = setup();

    assert_eq!(sq1.x(), 0);
    assert_eq!(sq2.x(), 7);
    assert_eq!(sq3.x(), 0);
    assert_eq!(sq4.x(), 7);
}

#[test]
fn y() {
    let (sq1, sq2, sq3, sq4) = setup();

    assert_eq!(sq1.y(), 0);
    assert_eq!(sq2.y(), 0);
    assert_eq!(sq3.y(), 7);
    assert_eq!(sq4.y(), 7);
}

#[test]
fn from_index() {
    let (sq1, sq2, sq3, sq4) = setup();

    assert_eq!(Square::from_index(0).unwrap(), sq1);
    assert_eq!(Square::from_index(7).unwrap(), sq2);
    assert_eq!(Square::from_index(56).unwrap(), sq3);
    assert_eq!(Square::from_index(63).unwrap(), sq4);
}

#[test]
fn from_index_err() {
    let sq1 = Square::from_index(64);
    assert!(sq1.is_err());
    assert_eq!(sq1.unwrap_err(), SquareError::IndexOutOfBounds);
}

#[test]
fn from_string() {
    let (sq1, sq2, sq3, sq4) = setup();

    assert_eq!(Square::from_string("a1").unwrap(), sq1);
    assert_eq!(Square::from_string("h1").unwrap(), sq2);
    assert_eq!(Square::from_string("a8").unwrap(), sq3);
    assert_eq!(Square::from_string("h8").unwrap(), sq4);

    assert_eq!(Square::from_string("A1").unwrap(), sq1);
    assert_eq!(Square::from_string("H1").unwrap(), sq2);
    assert_eq!(Square::from_string("A8").unwrap(), sq3);
    assert_eq!(Square::from_string("H8").unwrap(), sq4);
}

#[test]
fn from_string_err() {
    let sq1 = Square::from_string("a9");
    assert!(sq1.is_err());
    assert_eq!(sq1.unwrap_err(), SquareError::InvalidString);

    let sq2 = Square::from_string("i1");
    assert!(sq2.is_err());
    assert_eq!(sq2.unwrap_err(), SquareError::InvalidString);

    let sq3 = Square::from_string("a0");
    assert!(sq3.is_err());
    assert_eq!(sq3.unwrap_err(), SquareError::InvalidString);

    let sq4 = Square::from_string("h9");
    assert!(sq4.is_err());
    assert_eq!(sq4.unwrap_err(), SquareError::InvalidString);

    let sq5 = Square::from_string("i0");
    assert!(sq5.is_err());
    assert_eq!(sq5.unwrap_err(), SquareError::InvalidString);

    let sq6 = Square::from_string("i9");
    assert!(sq6.is_err());
    assert_eq!(sq6.unwrap_err(), SquareError::InvalidString);

    let sq7 = Square::from_string("a");
    assert!(sq7.is_err());
    assert_eq!(sq7.unwrap_err(), SquareError::InvalidString);

    let sq8 = Square::from_string("1");
    assert!(sq8.is_err());
    assert_eq!(sq8.unwrap_err(), SquareError::InvalidString);

    let sq9 = Square::from_string("a11");
    assert!(sq9.is_err());
    assert_eq!(sq9.unwrap_err(), SquareError::InvalidString);

    let sq10 = Square::from_string("i11");
    assert!(sq10.is_err());
    assert_eq!(sq10.unwrap_err(), SquareError::InvalidString);

    let sq11 = Square::from_string("i11");
    assert!(sq11.is_err());
    assert_eq!(sq11.unwrap_err(), SquareError::InvalidString);

    let sq12 = Square::from_string("aa");
    assert!(sq12.is_err());
    assert_eq!(sq12.unwrap_err(), SquareError::InvalidString);

    let sq13 = Square::from_string("11");
    assert!(sq13.is_err());
    assert_eq!(sq13.unwrap_err(), SquareError::InvalidString);

    let sq14 = Square::from_string("aa11");
    assert!(sq14.is_err());
    assert_eq!(sq14.unwrap_err(), SquareError::InvalidString);
}

#[test]
fn eq() {
    let (sq1, sq2, sq3, sq4) = setup();

    assert_eq!(sq1, sq1);
    assert_ne!(sq1, sq2);
    assert_ne!(sq1, sq3);
    assert_ne!(sq1, sq4);

    assert_ne!(sq2, sq1);
    assert_eq!(sq2, sq2);
    assert_ne!(sq2, sq3);
    assert_ne!(sq2, sq4);

    assert_ne!(sq3, sq1);
    assert_ne!(sq3, sq2);
    assert_eq!(sq3, sq3);
    assert_ne!(sq3, sq4);

    assert_ne!(sq4, sq1);
    assert_ne!(sq4, sq2);
    assert_ne!(sq4, sq3);
    assert_eq!(sq4, sq4);
}

#[test]
fn display() {
    let (sq1, sq2, sq3, sq4) = setup();

    assert_eq!(sq1.to_string(), "a1");
    assert_eq!(sq2.to_string(), "h1");
    assert_eq!(sq3.to_string(), "a8");
    assert_eq!(sq4.to_string(), "h8");
}

#[test]
fn debug() {
    let (sq1, sq2, sq3, sq4) = setup();

    assert_eq!(sq1.to_debug_string(), "Square at (0, 0)");
    assert_eq!(sq2.to_debug_string(), "Square at (7, 0)");
    assert_eq!(sq3.to_debug_string(), "Square at (0, 7)");
    assert_eq!(sq4.to_debug_string(), "Square at (7, 7)");
}

#[test]
fn new_gives_back_every_coordinate_pair() {
    for x in 0..8u8 {
        for y in 0..8u8 {
            let sq = Square::new(x, y).unwrap();
            assert_eq!(sq.x(), x);
            assert_eq!(sq.y(), y);
            assert_eq!(sq.index(), y * 8 + x);
        }
    }
}

#[test]
fn new_rejects_every_pair_off_the_board() {
    for x in 0..=255u8 {
        for y in 0..=255u8 {
            if x >= 8 || y >= 8 {
                assert_eq!(Square::new(x, y), Err(SquareError::XYOutOfBounds));
            }
        }
    }
}

#[test]
fn from_index_gives_back_every_index() {
    for idx in 0..64u8 {
        let sq = Square::from_index(idx).unwrap();
        assert_eq!(sq.index(), idx);
        assert_eq!(sq.x(), idx % 8);
        assert_eq!(sq.y(), idx / 8);
        assert_eq!(Square::new(idx % 8, idx / 8), Ok(sq));
    }
}

#[test]
fn from_index_rejects_every_index_off_the_board() {
    for idx in 64..=255u8 {
        assert_eq!(Square::from_index(idx), Err(SquareError::IndexOutOfBounds));
    }
}

#[test]
fn index_of_an_inner_square() {
    let e4 = Square::new(4, 3).unwrap();
    assert_eq!(e4.index(), 28);
    assert_eq!(Square::from_index(28), Ok(e4));
    assert_eq!(e4.to_string(), "e4");
}

#[test]
fn corners_map_to_index_and_text() {
    let corners = [(0u8, 0u8, 0u8, "a1"), (7, 0, 7, "h1"), (0, 7, 56, "a8"), (7, 7, 63, "h8")];
    for (x, y, idx, text) in corners {
        let sq = Square::new(x, y).unwrap();
        assert_eq!(sq.index(), idx);
        assert_eq!(sq.to_string(), text);
        assert_eq!(Square::from_index(idx), Ok(sq));
        assert_eq!(Square::from_string(text), Ok(sq));
    }
}

#[test]
fn text_round_trip_for_every_square() {
    for idx in 0..64u8 {
        let sq = Square::from_index(idx).unwrap();
        let text = sq.to_string();
        assert_eq!(text.len(), 2);
        assert_eq!(Square::from_string(&text), Ok(sq));
        assert_eq!(text, text.to_lowercase());
        assert_eq!(Square::from_string(&text.to_uppercase()), Ok(sq));
    }
}

#[test]
fn from_string_ignores_the_case_of_the_file() {
    assert_eq!(Square::from_string("A1"), Square::from_string("a1"));
    assert_eq!(Square::from_string("E4"), Ok(Square::new(4, 3).unwrap()));
    assert_eq!(Square::from_string("e4"), Ok(Square::new(4, 3).unwrap()));
}

#[test]
fn from_string_rejects_what_is_no_notation() {
    let texts = [
        "", " ", "a", "4", "a11", "4e", "e 4", " e4", "e4 ", "`1", "@1", "I1", "[1", "a/", "a:",
        "e\u{663}", "\u{e9}4", "\u{ff45}4", "e4\n",
    ];
    for text in texts {
        assert_eq!(Square::from_string(text), Err(SquareError::InvalidString));
    }
}

#[test]
fn from_string_takes_every_file_letter_and_rank_digit() {
    let files = ['a', 'b', 'c', 'd', 'e', 'f', 'g', 'h'];
    let ranks = ['1', '2', '3', '4', '5', '6', '7', '8'];
    for (x, file) in files.iter().enumerate() {
        for (y, rank) in ranks.iter().enumerate() {
            let lower = format!("{}{}", file, rank);
            let upper = format!("{}{}", file.to_ascii_uppercase(), rank);
            let sq = Square::new(x as u8, y as u8).unwrap();
            assert_eq!(Square::from_string(&lower), Ok(sq));
            assert_eq!(Square::from_string(&upper), Ok(sq));
        }
    }
}

#[test]
fn description_names_both_coordinates() {
    let sq = Square::new(4, 3).unwrap();
    assert_eq!(sq.to_debug_string(), "Square at (4, 3)");
}

#[test]
fn squares_are_equal_when_their_indices_are() {
    for a in 0..64u8 {
        for b in 0..64u8 {
            let sa = Square::from_index(a).unwrap();
            let sb = Square::from_index(b).unwrap();
            assert_eq!(sa == sb, a == b);
            assert_eq!(sa == sb, sa.x() == sb.x() && sa.y() == sb.y());
        }
    }
}

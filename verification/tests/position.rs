use chess_tui::position::{move_to_ix, Move, Position};

#[test]
fn test_algebraic() {
    for c in 0..8 {
        for r in 0..8 {
            let pos = Position::Algebraic { rank: c, file: r };
            assert_eq!(pos.as_ix(), move_to_ix(c, r));
        }
    }
}

#[test]
fn test_comparison() {
    let comps = [
        // a8
        (
            Position::Algebraic { rank: 0, file: 7 },
            Position::Relative {
                col: 0,
                row: 0,
                flip: false,
            },
        ),
        // h1
        (
            Position::Algebraic { rank: 7, file: 0 },
            Position::Relative {
                col: 7,
                row: 7,
                flip: false,
            },
        ),
    ];
    for (a, b) in comps.iter() {
        assert_eq!(a, b, "left: {} != right: {}", a.as_ix(), b.as_ix());
    }
}

#[test]
fn test_fixed_points_resolve() {
    assert_eq!(Position::Algebraic { rank: 0, file: 7 }.as_ix(), 0);
    assert_eq!(
        Position::Relative { col: 0, row: 0, flip: false }.as_ix(),
        0
    );
    assert_eq!(Position::Algebraic { rank: 7, file: 0 }.as_ix(), 63);
    assert_eq!(
        Position::Relative { col: 7, row: 7, flip: false }.as_ix(),
        63
    );
    // e2 and e4 in all three systems
    assert_eq!(Position::Algebraic { rank: 4, file: 1 }.as_ix(), 52);
    assert_eq!(Position::Index { ix: 52 }.as_ix(), 52);
    assert_eq!(
        Position::Relative { col: 4, row: 6, flip: false }.as_ix(),
        52
    );
    assert_eq!(
        Position::Relative { col: 4, row: 1, flip: true }.as_ix(),
        52
    );
}

#[test]
fn test_roundtrip_all_squares() {
    // converting (rank, file) to an index and reading the coordinates back
    // is the identity
    for rank in 0u8..8 {
        for file in 0u8..8 {
            let ix = Position::Algebraic { rank, file }.as_ix();
            assert!(ix < 64);
            assert_eq!(ix % 8, rank);
            assert_eq!(7 - ix / 8, file);
        }
    }
}

#[test]
fn test_move_equality_ignores_auxiliary_fields() {
    let plain = Move::new(Position::Index { ix: 60 }, Position::Index { ix: 62 });
    let castle = Move::new_castling(
        Position::Index { ix: 60 },
        Position::Index { ix: 62 },
        (Position::Index { ix: 63 }, Position::Index { ix: 61 }),
    );
    assert_eq!(plain, castle);
    let ep = Move::new_enpassant(
        Position::Index { ix: 27 },
        Position::Index { ix: 20 },
        Position::Index { ix: 28 },
    );
    let bare = Move::new(Position::Index { ix: 27 }, Position::Index { ix: 20 });
    assert_eq!(ep, bare);
    let promo = Move::new_promotion(
        Position::Index { ix: 8 },
        Position::Index { ix: 0 },
        Some(chess_tui::piece::Piece::WhiteQueen),
    );
    let none = Move::new(Position::Index { ix: 8 }, Position::Index { ix: 0 });
    assert_ne!(promo, none);
}

#[test]
fn test_castle_constructors() {
    let ws = Move::castle_short(true);
    assert_eq!(ws.from.as_ix(), 60);
    assert_eq!(ws.to.as_ix(), 62);
    let (rf, rt) = ws.castling.unwrap();
    assert_eq!(rf.as_ix(), 63);
    assert_eq!(rt.as_ix(), 61);

    let wl = Move::castle_long(true);
    assert_eq!(wl.from.as_ix(), 60);
    assert_eq!(wl.to.as_ix(), 58);
    let (rf, rt) = wl.castling.unwrap();
    assert_eq!(rf.as_ix(), 56);
    assert_eq!(rt.as_ix(), 59);

    let bs = Move::castle_short(false);
    assert_eq!(bs.from.as_ix(), 4);
    assert_eq!(bs.to.as_ix(), 6);
    let (rf, rt) = bs.castling.unwrap();
    assert_eq!(rf.as_ix(), 7);
    assert_eq!(rt.as_ix(), 5);

    let bl = Move::castle_long(false);
    assert_eq!(bl.from.as_ix(), 4);
    assert_eq!(bl.to.as_ix(), 2);
    let (rf, rt) = bl.castling.unwrap();
    assert_eq!(rf.as_ix(), 0);
    assert_eq!(rt.as_ix(), 3);
}

#[test]
fn test_position_text() {
    assert_eq!(Position::Index { ix: 52 }.to_string(), "e2");
    assert_eq!(Position::Index { ix: 0 }.to_string(), "a8");
    assert_eq!(Position::Index { ix: 63 }.to_string(), "h1");
    let m = Move::new(Position::Index { ix: 52 }, Position::Index { ix: 36 });
    assert_eq!(m.to_string(), "e2e4");
    let p = Move::new_promotion(
        Position::Index { ix: 12 },
        Position::Index { ix: 4 },
        Some(chess_tui::piece::Piece::WhiteQueen),
    );
    assert_eq!(p.to_string(), "e7e8\u{2655}");
}

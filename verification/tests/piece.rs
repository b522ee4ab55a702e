use chess_tui::piece::{CastleRights, CastleRigthsMask, Piece, PieceError};

#[test]
fn test_piece_value_roundtrip() {
    let mut all = Piece::white_pieces();
    all.append(&mut Piece::black_pieces());
    assert_eq!(all.len(), 12);
    for p in all.iter() {
        let v = p.as_u8();
        assert_eq!(Piece::try_from_u8(v), Ok(*p));
        let c = p.as_char();
        assert_eq!(Piece::try_from_char(c), Ok(*p));
    }
}

#[test]
fn test_piece_value_encoding() {
    assert_eq!(Piece::WhiteKing.as_u8(), 1);
    assert_eq!(Piece::WhiteQueen.as_u8(), 2);
    assert_eq!(Piece::WhiteRook.as_u8(), 4);
    assert_eq!(Piece::WhiteBishop.as_u8(), 8);
    assert_eq!(Piece::WhiteKnight.as_u8(), 16);
    assert_eq!(Piece::WhitePawn.as_u8(), 32);
    assert_eq!(Piece::BlackKing.as_u8(), 65);
    assert_eq!(Piece::BlackPawn.as_u8(), 96);
}

#[test]
fn test_piece_decode_errors() {
    assert_eq!(Piece::try_from_u8(0), Err(PieceError::NoPieceFound));
    assert_eq!(Piece::try_from_u8(3), Err(PieceError::PieceEncodingError));
    assert_eq!(Piece::try_from_u8(64), Err(PieceError::PieceEncodingError));
    assert_eq!(Piece::try_from_u8(255), Err(PieceError::PieceEncodingError));
    assert_eq!(Piece::try_from_char('x'), Err(PieceError::UnkownFENCharacter));
    assert_eq!(Piece::try_from_char('1'), Err(PieceError::UnkownFENCharacter));
}

#[test]
fn test_piece_colors() {
    for p in Piece::white_pieces().iter() {
        assert!(p.is_white());
        assert!(p.as_u8() < 64);
    }
    for p in Piece::black_pieces().iter() {
        assert!(!p.is_white());
        assert!(p.as_u8() >= 64);
    }
}

#[test]
fn test_piece_glyphs() {
    assert_eq!(Piece::WhiteKing.as_unicode(), 0x2654);
    assert_eq!(Piece::BlackPawn.as_unicode(), 0x265F);
    assert_eq!(Piece::WhiteKing.glyph(), "\u{2654}");
    assert_eq!(Piece::BlackQueen.glyph(), "\u{265B}");
}

#[test]
fn test_castle_rights_bits() {
    let mut rights = CastleRights::default();
    assert_eq!(rights.get_u8(), 0);
    assert!(!rights.get(CastleRigthsMask::WhiteKingside));
    rights.set(CastleRigthsMask::WhiteKingside);
    rights.set(CastleRigthsMask::BlackQueenside);
    assert_eq!(rights.get_u8(), 9);
    assert!(rights.get(CastleRigthsMask::WhiteKingside));
    assert!(!rights.get(CastleRigthsMask::WhiteQueenside));
    assert!(rights.get(CastleRigthsMask::BlackQueenside));
    rights.unset(CastleRigthsMask::WhiteKingside);
    assert_eq!(rights.get_u8(), 1);
}

#[test]
fn test_castle_rights_from_field() {
    assert_eq!(CastleRights::from_field("KQkq").get_u8(), 15);
    assert_eq!(CastleRights::from_field("Kq").get_u8(), 9);
    assert_eq!(CastleRights::from_field("").get_u8(), 0);
    assert_eq!(CastleRights::from_field("xyz-").get_u8(), 0);
    assert_eq!(CastleRights::from_field("KK").get_u8(), 8);
}

use dot_chess::common::Error;
use dot_chess::gameover::GameOverReason;
use dot_chess::mov::Mov;
use dot_chess::piece::Piece;
use dot_chess::ply::{Move, Ply, Promotion};
use dot_chess::square::Square;

#[test]
fn mov_encode() {
    let promotion = Some(Piece::Queen);
    let from = Square::from_index(0b00110111u8);
    let to = Square::from_index(0b00101001u8);
    let encoded = Mov::new(from, to, promotion).encode();
    assert_eq!(encoded, 0b01001101_11101001u16);
}

#[test]
fn mov_decode() {
    let encoded = 0b01001101_11101001u16;
    let mov = Mov::decode(encoded).unwrap();
    let from: u8 = mov.from().to_index();
    let to: u8 = mov.to().to_index();
    assert_eq!(mov.promotion(), Some(Piece::Queen));
    assert_eq!(from, 0b00110111u8);
    assert_eq!(to, 0b00101001u8);
}

#[test]
fn ply_encode() {
    let flags = Promotion(0b00000101u8);
    let from = Square::from_index(0b00110111u8);
    let to = Square::from_index(0b00101001u8);
    let encoded = Ply::new(from, to, flags).encode();
    assert_eq!(encoded, 0b01011101_11101001u16);
}

#[test]
fn ply_decode() {
    let encoded = 0b01011101_11101001u16;
    let ply = Ply::decode(encoded);
    assert_eq!(ply.promotion().0, 0b00000101u8);
    assert_eq!(ply.from().to_index(), 0b00110111u8);
    assert_eq!(ply.to().to_index(), 0b00101001u8);
}

#[test]
fn move_encode() {
    let flags = 0b00001101u8;
    let from = 0b00110111u8;
    let to = 0b00101001u8;
    let encoded = Move::new(Square::from_index(from), Square::from_index(to), flags).encode();
    assert_eq!(encoded, 0b11011101_11101001u16);
}

#[test]
fn move_decode() {
    let encoded = 0b11011101_11101001u16;
    let m = Move::decode(encoded);
    assert_eq!(m.flags(), 0b00001101u8);
    assert_eq!(m.from().to_index(), 0b00110111u8);
    assert_eq!(m.to().to_index(), 0b00101001u8);
}

#[test]
fn mov_round_trip_through_encoding() {
    let mov = Mov::new(Square::from_index(12), Square::from_index(28), None);
    let back = Mov::decode(mov.encode()).unwrap();
    assert_eq!(back.from().to_index(), 12);
    assert_eq!(back.to().to_index(), 28);
    assert_eq!(back.promotion(), None);
}

#[test]
fn mov_decode_rejects_bad_promotion_code() {
    // Promotion nibble 5 names no promotion piece.
    let encoded: u16 = 0b0101_000000_000000u16;
    assert_eq!(Mov::decode(encoded), Err(Error::InvalidArgument));
}

#[test]
fn mov_from_str_plain_and_promotion() {
    let mov = Mov::from_str("e2e4").unwrap();
    assert_eq!(mov.from().to_index(), 12);
    assert_eq!(mov.to().to_index(), 28);
    assert_eq!(mov.promotion(), None);

    let promo = Mov::from_str("e7e8q").unwrap();
    assert_eq!(promo.from().to_index(), 52);
    assert_eq!(promo.to().to_index(), 60);
    assert_eq!(promo.promotion(), Some(Piece::Queen));
}

#[test]
fn mov_from_str_rejects_malformed_text() {
    assert_eq!(Mov::from_str("e2"), Err(Error::InvalidArgument));
    assert_eq!(Mov::from_str("x2e4"), Err(Error::InvalidArgument));
    assert_eq!(Mov::from_str("e9e4"), Err(Error::InvalidArgument));
}

#[test]
fn game_over_reason_codes_round_trip() {
    for code in 0u8..8 {
        let reason = GameOverReason::from_index(code).unwrap();
        assert_eq!(reason.to_index(), code);
    }
    assert!(GameOverReason::from_index(8).is_err());
    assert_eq!(
        GameOverReason::from_index(4).unwrap().as_str(),
        "threefold repetition"
    );
}

use dot_chess::file::File;
use dot_chess::rank::Rank;
use dot_chess::square::Square;

#[test]
fn square_square_to_index() {
    let index: u8 = Square::new(File::B, Rank::_2).to_index();
    assert_eq!(index, 9u8);
}

#[test]
fn square_square_from_index() {
    let square = Square::from_index(9);
    assert_eq!(square.file(), File::B);
    assert_eq!(square.rank(), Rank::_2);
}

#[test]
fn square_square_h8_index() {
    assert_eq!(Square::new(File::H, Rank::_8).to_index(), 63);
}

#[test]
fn square_square_a1_index() {
    assert_eq!(Square::new(File::A, Rank::_1).to_index(), 0);
}

#[test]
fn square_square_a2_index() {
    assert_eq!(Square::new(File::A, Rank::_2).to_index(), 8);
}

#[test]
fn square_square_b2_index() {
    assert_eq!(Square::new(File::B, Rank::_2).to_index(), 9);
}

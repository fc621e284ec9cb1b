use simple_chess::{get_column_and_row_from_square_name, get_square_name_from_row_and_col, Square, SquareColor};

struct MockPiece {}

struct Pawn;

struct Printable {}

#[test]
fn col_row_turn_into_id() {
    let square_a1 = get_square_name_from_row_and_col(0, 0);
    assert_eq!("a1", format!("{square_a1}"));

    let square_z2 = get_square_name_from_row_and_col(25, 1);
    assert_eq!("z2", format!("{square_z2}"));

    let square_aa1 = get_square_name_from_row_and_col(26, 0);
    assert_eq!("aa1", format!("{square_aa1}"));

    let square_ab1 = get_square_name_from_row_and_col(27, 0);
    assert_eq!("ab1", format!("{square_ab1}"));

    let square_zzz100 = get_square_name_from_row_and_col(18277, 99);
    assert_eq!("zzz100", format!("{square_zzz100}"));
}

#[test]
fn string_to_id() {
    let (a1_column, a1_row) = get_column_and_row_from_square_name("a1").unwrap();
    assert_eq!(0, a1_column);
    assert_eq!(0, a1_row);

    let (b2_column, b2_row) = get_column_and_row_from_square_name("b2").unwrap();
    assert_eq!(1, b2_column);
    assert_eq!(1, b2_row);

    let (ab1_column, ab1_row) = get_column_and_row_from_square_name("ab1").unwrap();
    assert_eq!(27, ab1_column);
    assert_eq!(0, ab1_row);

    let (zzz100_column, zzz100_row) = get_column_and_row_from_square_name("zzz100").unwrap();
    assert_eq!(18277, zzz100_column);
    assert_eq!(99, zzz100_row);
}

#[test]
fn square_names_that_are_refused() {
    assert!(get_column_and_row_from_square_name("").is_err());
    assert!(get_column_and_row_from_square_name("a").is_err());
    assert!(get_column_and_row_from_square_name("12").is_err());
    assert!(get_column_and_row_from_square_name("a1b").is_err());
    assert!(get_column_and_row_from_square_name("a-1").is_err());
    assert!(get_column_and_row_from_square_name("a0").is_err());
    assert_eq!((0, 9), get_column_and_row_from_square_name("a010").unwrap());
}

#[test]
fn test_square_build() {
    let square = Square::<MockPiece>::build(0, 0);
    assert_eq!(square.get_column(), 0);
    assert_eq!(square.get_row(), 0);
    assert_eq!(square.get_color(), SquareColor::Black);
    assert!(square.get_piece().is_none());

    let square = Square::<MockPiece>::build(1, 0);
    assert_eq!(square.get_column(), 1);
    assert_eq!(square.get_row(), 0);
    assert_eq!(square.get_color(), SquareColor::White);
}

#[test]
fn test_place_piece() {
    let mut square = Square::build(0, 0);
    square.place_piece(Pawn);
    assert!(square.get_piece().is_some());
}

#[test]
fn test_get_piece() {
    let mut square = Square::build(0, 0);
    square.place_piece(Pawn);
    let piece = square.get_piece();
    assert!(piece.is_some());
}

#[test]
fn test_clear_piece() {
    let mut square = Square::build(0, 0);
    square.place_piece(Pawn);
    let piece = square.clear_piece();
    assert!(piece.is_some());
    assert!(square.get_piece().is_none());
}

#[test]
fn test_get_column() {
    let square = Square::<MockPiece>::build(5, 3);
    assert_eq!(square.get_column(), 5);
}

#[test]
fn test_get_row() {
    let square = Square::<MockPiece>::build(5, 3);
    assert_eq!(square.get_row(), 3);
}

#[test]
fn test_get_color() {
    let square = Square::<MockPiece>::build(0, 0);
    assert_eq!(square.get_color(), SquareColor::Black);
}

#[test]
fn test_get_name() {
    let square = Square::<MockPiece>::build(0, 0);
    assert_eq!(square.get_name(), "a1".to_string());

    let square = Square::<MockPiece>::build(25, 1);
    assert_eq!(square.get_name(), "z2".to_string());
}

#[test]
fn can_print_square() {
    let square = Square::<Printable>::build(0, 0);
    println!("{} {:?}", square.get_name(), square.get_color());
}

use konig::square::{IndexError, Square, StandardIndex};

#[test]
fn index_standard_index_try_from_u8_is_correct() {
    let i = StandardIndex::try_from(0u8);
    let j = StandardIndex::try_from(63u8);
    let k = StandardIndex::try_from(64u8);

    assert!(i.is_ok_and(|index| index == StandardIndex::try_from(0u8).unwrap()));
    assert!(j.is_ok_and(|index| index == StandardIndex::try_from(63u8).unwrap()));
    assert!(k.is_err_and(|err| err == IndexError::OutOfBounds(64u8)));
}

#[test]
fn index_standard_index_try_from_usize_is_correct() {
    let i = StandardIndex::try_from(0usize);
    let j = StandardIndex::try_from(63usize);
    let k = StandardIndex::try_from(64usize);

    assert!(i.is_ok_and(|index| index == StandardIndex::try_from(0usize).unwrap()));
    assert!(j.is_ok_and(|index| index == StandardIndex::try_from(63usize).unwrap()));
    assert!(k.is_err_and(|err| err == IndexError::OutOfBounds(64usize)));
}

#[test]
fn square_standard_index_try_from_u8_is_correct() {
    let i = Square::try_from(0u8);
    let j = Square::try_from(63u8);
    let k = Square::try_from(64u8);

    assert!(i.is_ok_and(|index| index == Square::try_from(0u8).unwrap()));
    assert!(j.is_ok_and(|index| index == Square::try_from(63u8).unwrap()));
    assert!(k.is_err_and(|err| err == IndexError::OutOfBounds(64u8)));
}

#[test]
fn square_standard_index_try_from_usize_is_correct() {
    let i = Square::try_from(0usize);
    let j = Square::try_from(63usize);
    let k = Square::try_from(64usize);

    assert!(i.is_ok_and(|index| index == Square::try_from(0usize).unwrap()));
    assert!(j.is_ok_and(|index| index == Square::try_from(63usize).unwrap()));
    assert!(k.is_err_and(|err| err == IndexError::OutOfBounds(64usize)));
}

#[test]
fn standard_index_try_from_string_slice_is_correct() {
    let i = Square::try_from("a3").unwrap();
    let j = Square::try_from("d6").unwrap();
    let k = Square::try_from("h7").unwrap();

    assert_eq!(i, Square::new(16));
    assert_eq!(j, Square::new(43));
    assert_eq!(k, Square::new(55));
}

#[test]
fn standard_index_into_string_is_correct() {
    let a3: String = Square::new(16).into();
    let d6: String = Square::new(43).into();
    let h7: String = Square::new(55).into();

    assert_eq!(a3, String::from("a3"));
    assert_eq!(d6, String::from("d6"));
    assert_eq!(h7, String::from("h7"));
}

#[test]
fn square_numbers_files_and_ranks() {
    for value in 0u8..64 {
        let sq = Square::try_from(value).unwrap();
        assert_eq!(sq.index(), value);
        assert_eq!(sq.file(), value % 8);
        assert_eq!(sq.rank(), value / 8);
        assert_eq!(u8::from(sq), value);
        assert_eq!(usize::from(sq), value as usize);
        let name: String = sq.into();
        assert_eq!(Square::try_from(name.as_str()), Ok(sq));
    }
    assert_eq!(Square::new(0).index(), 0);
    assert_eq!(String::from(Square::new(0)), "a1");
    assert_eq!(String::from(Square::new(7)), "h1");
    assert_eq!(String::from(Square::new(63)), "h8");
    assert_eq!(Square::try_from(255u8), Err(IndexError::OutOfBounds(255u8)));
    assert_eq!(Square::try_from(usize::MAX), Err(IndexError::OutOfBounds(usize::MAX)));
}

#[test]
fn square_rejects_malformed_names() {
    for text in ["", "a", "a0", "a9", "i1", "A1", "e4 ", " e4", "e44", "4e", "\u{e9}4"] {
        assert_eq!(Square::try_from(text), Err(IndexError::InvalidFormat(text)));
    }
}

#[test]
fn square_from_str() {
    let e4: Square = "e4".parse().unwrap();
    assert_eq!(e4, Square::new(28));
    let bad: Result<Square, IndexError<String>> = "e9".parse();
    assert_eq!(bad, Err(IndexError::InvalidFormat(String::from("e9"))));
}

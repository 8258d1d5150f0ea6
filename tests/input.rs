use wortify::{Input, InputError};

#[test]
fn parse_mandatory_letter_first() {
    let input = Input::try_from("eanrgbt").unwrap();
    assert_eq!(input.required, 'e');
    assert_eq!(input.letters, ['a', 'n', 'r', 'g', 'b', 't']);
}

#[test]
fn parse_six_letters_is_wrong_length() {
    assert!(matches!(Input::try_from("eanrgb"), Err(InputError::WrongLength)));
}

#[test]
fn parse_eight_letters_is_wrong_length() {
    assert!(matches!(Input::parse("eanrgbtx"), Err(InputError::WrongLength)));
    assert!(matches!(Input::parse(""), Err(InputError::WrongLength)));
}

#[test]
fn parse_repeated_letter_is_duplicate() {
    assert!(matches!(Input::try_from("eanrgbe"), Err(InputError::DuplicateLetters)));
    assert!(matches!(Input::parse("aaaaaaa"), Err(InputError::DuplicateLetters)));
}

#[test]
fn parse_drops_surrounding_whitespace() {
    let input = Input::parse("  eanrgbt \n").unwrap();
    assert_eq!(input.required, 'e');
    assert_eq!(input.letters, ['a', 'n', 'r', 'g', 'b', 't']);
}

#[test]
fn inner_whitespace_counts_as_a_letter() {
    assert!(matches!(Input::parse("ean rgbt"), Err(InputError::WrongLength)));
}

#[test]
fn input_letters_are_not_case_folded() {
    let input = Input::parse("Eanrgbt").unwrap();
    assert_eq!(input.required, 'E');
}

#[test]
fn from_letters_reads_seven_distinct() {
    let input = Input::from_letters(&vec!['x', 'a', 'b', 'c', 'd', 'e', 'f']).unwrap();
    assert_eq!(input.required, 'x');
    assert_eq!(input.letters, ['a', 'b', 'c', 'd', 'e', 'f']);
    assert!(matches!(
        Input::from_letters(&vec!['x', 'a', 'b', 'c', 'd', 'e', 'a']),
        Err(InputError::DuplicateLetters)
    ));
    assert!(matches!(
        Input::from_letters(&vec!['x', 'a']),
        Err(InputError::WrongLength)
    ));
}

#[test]
fn parse_drops_unicode_white_space() {
    let input = Input::parse("\u{3000}\teanrgbt\u{a0}\r\n").unwrap();
    assert_eq!(input.required, 'e');
    assert_eq!(input.letters, ['a', 'n', 'r', 'g', 'b', 't']);
}

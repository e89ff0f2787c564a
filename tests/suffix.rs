use alias_store::suffix::{is_invalid_char, path_is_invalid, InvalidSuffix, Suffix};

#[test]
fn lib_it_works() {
    assert!(Suffix::new("hello123").is_ok());
    assert!(Suffix::new("hello-123").is_ok());
    assert!(!Suffix::new("hello\\123").is_ok());
}

#[test]
fn main_it_works() {}

#[test]
fn valid_alias_is_kept_unchanged() {
    let s = Suffix::new("My-Link-42").unwrap();
    assert_eq!(s.as_str(), "My-Link-42");
    let s = Suffix::new("-").unwrap();
    assert_eq!(s.as_str(), "-");
}

#[test]
fn empty_alias_has_no_characters() {
    assert_eq!(Suffix::new(""), Err(InvalidSuffix::NoCharacters));
}

#[test]
fn every_invalid_character_is_listed_in_order() {
    assert_eq!(
        Suffix::new("a b!c d"),
        Err(InvalidSuffix::InvalidCharacters(vec![' ', '!', ' ']))
    );
    assert_eq!(
        Suffix::new("hello\\123"),
        Err(InvalidSuffix::InvalidCharacters(vec!['\\']))
    );
}

#[test]
fn non_ascii_letters_are_rejected() {
    assert_eq!(
        Suffix::new("caf\u{e9}"),
        Err(InvalidSuffix::InvalidCharacters(vec!['\u{e9}']))
    );
}

#[test]
fn invalid_char_classification() {
    assert!(!is_invalid_char(&'a'));
    assert!(!is_invalid_char(&'Z'));
    assert!(!is_invalid_char(&'7'));
    assert!(!is_invalid_char(&'-'));
    assert!(is_invalid_char(&'_'));
    assert!(is_invalid_char(&'/'));
}

#[test]
fn path_invalidity() {
    assert!(!path_is_invalid(""));
    assert!(!path_is_invalid("abc-1"));
    assert!(path_is_invalid("abc def"));
}

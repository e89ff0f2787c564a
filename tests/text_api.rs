use alias_store::database::InMemoryClient;
use alias_store::text_api::{split_words, AliasHandler, SetReply};

#[test]
fn words_are_split_at_white_space() {
    assert_eq!(split_words("  abc \t https://x.org/ \n"), vec!["abc", "https://x.org/"]);
    assert!(split_words("").is_empty());
    assert!(split_words(" \u{3000} ").is_empty());
    assert_eq!(split_words("one"), vec!["one"]);
}

#[test]
fn plain_set_and_get() {
    let mut h = AliasHandler::new(InMemoryClient::new());
    assert_eq!(h.set("home https://example.com/a"), SetReply::Installed);
    assert_eq!(h.set("home https://example.com/b"), SetReply::Taken);
    assert_eq!(h.get("home").unwrap().as_str(), "https://example.com/a");
    assert!(h.get("away").is_none());
}

#[test]
fn plain_set_rejects_bad_bodies() {
    let mut h = AliasHandler::new(InMemoryClient::new());
    assert_eq!(h.set("only-one-word"), SetReply::Malformed);
    assert_eq!(h.set("a b c"), SetReply::Malformed);
    assert_eq!(h.set("home not-a-url"), SetReply::BadUrl);
    assert!(h.get("home").is_none());
}

#[test]
fn plain_set_validates_the_alias_before_writing() {
    let mut h = AliasHandler::new(InMemoryClient::new());
    assert_eq!(h.set("bad! https://example.com"), SetReply::InvalidPath);
    assert_eq!(h.set("bad! not-a-url"), SetReply::InvalidPath);
    assert!(h.get("bad!").is_none());
}

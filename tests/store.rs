use alias_store::database::{DatabaseClient, InMemoryClient};
use alias_store::mapping::{map_to_string, Mapping};
use alias_store::url::Url;

fn url(s: &str) -> Url {
    Url::parse(s).unwrap()
}

#[test]
fn first_create_wins_later_ones_fail() {
    let mut db = InMemoryClient::new();
    let key = || Mapping::Custom("k".to_string());
    assert!(db.set_mapping(key(), url("https://example.com/a")));
    assert!(!db.set_mapping(key(), url("https://example.com/b")));
    assert!(!db.set_mapping(key(), url("https://example.com/a")));
    assert_eq!(db.get_mapping(&key()).unwrap().as_str(), "https://example.com/a");
}

#[test]
fn many_callers_one_winner() {
    let mut db = InMemoryClient::new();
    let mut wins = 0;
    for i in 0..16 {
        let target = format!("https://example.com/{}", i);
        if db.set_mapping(Mapping::Generated(vec!['a', 'b']), url(&target)) {
            wins += 1;
        }
    }
    assert_eq!(wins, 1);
}

#[test]
fn drop_reenables_creation() {
    let mut db = InMemoryClient::new();
    let key = || Mapping::Custom("k".to_string());
    assert!(!db.drop_mapping(&key()));
    assert!(db.set_mapping(key(), url("https://example.com/a")));
    assert!(db.has_mapping(&key()));
    assert!(db.drop_mapping(&key()));
    assert!(!db.has_mapping(&key()));
    assert!(db.get_mapping(&key()).is_none());
    assert!(db.set_mapping(key(), url("https://example.com/b")));
    assert_eq!(db.get_mapping(&key()).unwrap().as_str(), "https://example.com/b");
}

#[test]
fn namespaces_do_not_collide() {
    let mut db = InMemoryClient::new();
    assert!(db.set_mapping(Mapping::Custom("abc".to_string()), url("https://example.com/c")));
    assert!(db.set_mapping(Mapping::Generated(vec!['a', 'b', 'c']), url("https://example.com/g")));
    assert_eq!(
        db.get_mapping(&Mapping::Generated(vec!['a', 'b', 'c'])).unwrap().as_str(),
        "https://example.com/g"
    );
}

#[test]
fn list_all_names_every_key() {
    let mut db = InMemoryClient::new();
    assert!(db.list_all().is_empty());
    db.set_mapping(Mapping::Custom("one".to_string()), url("https://example.com/1"));
    db.set_mapping(Mapping::Generated(vec!['t', 'w', 'o']), url("https://example.com/2"));
    db.set_mapping(Mapping::Generated(vec!['o', 'n', 'e']), url("https://example.com/3"));
    let listed = db.list_all();
    assert_eq!(listed.len(), 3);
    let mut texts: Vec<String> = listed.iter().map(map_to_string).collect();
    texts.sort();
    assert_eq!(texts, vec!["one".to_string(), "one".to_string(), "two".to_string()]);
    assert!(listed.iter().any(|m| m.same_key(&Mapping::Custom("one".to_string()))));
    assert!(listed.iter().any(|m| m.same_key(&Mapping::Generated(vec!['o', 'n', 'e']))));
}

#[test]
fn urls_are_parsed_and_normalised() {
    assert_eq!(Url::parse("https://example.com").unwrap().as_str(), "https://example.com/");
    assert_eq!(Url::parse("HTTP://Example.COM/x").unwrap().as_str(), "http://example.com/x");
    assert!(Url::parse("not-a-url").is_none());
    assert!(Url::parse("").is_none());
    assert!(Url::parse("mailto:someone@example.com").is_none());
}

#[test]
fn mapping_keys_compare_by_namespace_and_text() {
    let a = Mapping::Custom("ab".to_string());
    let b = Mapping::Generated(vec!['a', 'b']);
    assert!(!a.same_key(&b));
    assert!(a.same_key(&a.duplicate()));
    assert!(b.same_key(&b.duplicate()));
    assert!(!b.same_key(&Mapping::Generated(vec!['a', 'c'])));
    assert_eq!(map_to_string(&b), "ab");
}

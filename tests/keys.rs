use alias_store::database::InMemoryClient;
use alias_store::external::RedisClient;
use alias_store::list::{build_payload, List};
use alias_store::mapping::{map_to_string, Mapping};
use alias_store::redirect::RedirectConfig;
use alias_store::url::Url;

#[test]
fn default_deployment_settings() {
    let c = RedisClient::new();
    assert_eq!(c.store(), "redis://redis.service.consul");
    assert_eq!(c.build_key(&Mapping::Custom("abc".to_string())), "alias::test::1::c::abc");
    assert_eq!(c.build_key(&Mapping::Generated(vec!['a', 'b', 'c'])), "alias::test::1::g::abc");
}

#[test]
fn suffix_extends_the_prefix() {
    let c = RedisClient::new().with_suffix("/staging");
    assert_eq!(c.build_key(&Mapping::Generated(vec!['x', 'Y'])), "alias::test::1/staging::g::xY");
    assert_eq!(c.key_pattern(), "alias::test::1/staging::*");
    assert_eq!(c.store(), "redis://redis.service.consul");
}

#[test]
fn stored_keys_map_back_to_aliases() {
    let c = RedisClient::with_store("redis://localhost", "p");
    let m = c.mapping_of_key("p::c::hello").unwrap();
    assert!(m.same_key(&Mapping::Custom("hello".to_string())));
    let g = c.mapping_of_key("p::g::AbCdE").unwrap();
    assert!(g.same_key(&Mapping::Generated(vec!['A', 'b', 'C', 'd', 'E'])));
    assert_eq!(map_to_string(&g), "AbCdE");
    assert!(c.mapping_of_key("q::c::hello").is_none());
    assert!(c.mapping_of_key("p::x::hello").is_none());
    assert!(c.mapping_of_key("p::c:hello").is_none());
    assert!(c.mapping_of_key("p::c").is_none());
    assert_eq!(map_to_string(&c.mapping_of_key("p::c::").unwrap()), "");
    let key = c.build_key(&Mapping::Custom("round-trip".to_string()));
    assert!(c.mapping_of_key(&key).unwrap().same_key(&Mapping::Custom("round-trip".to_string())));
}

#[test]
fn listing_payload() {
    assert_eq!(build_payload(&vec![]), "");
    assert_eq!(build_payload(&vec!["a".to_string(), "bc".to_string()]), "a,\nbc,\n");
}

#[test]
fn listing_over_a_namespace() {
    let mut config = RedirectConfig::new(InMemoryClient::new());
    assert!(config.install_mapping("abc", Url::parse("https://example.com").unwrap()));
    assert!(!config.install_mapping("abc", Url::parse("https://example.org").unwrap()));
    assert_eq!(config.list_all(), vec!["abc".to_string()]);
    let list = List::new(config);
    assert_eq!(list.handle_method(), "abc,\n");
}

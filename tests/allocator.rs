use alias_store::database::InMemoryClient;
use alias_store::random::{draw_candidate, letter};
use alias_store::redirect::{NoMapping, RedirectConfig, Redirecter};
use alias_store::set::{request_action, Action, Claimed, SetError, SetMapping};
use alias_store::suffix::InvalidSuffix;

fn empty() -> SetMapping<InMemoryClient> {
    SetMapping::new(
        RedirectConfig::new(InMemoryClient::new()),
        RedirectConfig::new(InMemoryClient::new()),
    )
}

#[test]
fn custom_install_then_resolve_then_conflict() {
    let mut sm = empty();
    let alias = sm.install("my-link", "https://example.com/x").unwrap();
    assert_eq!(alias.as_str(), "my-link");
    assert_eq!(
        sm.inner().custom_config.find_mapping("my-link").unwrap().as_str(),
        "https://example.com/x"
    );
    assert_eq!(
        sm.install("my-link", "https://example.com/y"),
        Err(SetError::AlreadyExists)
    );
    let inner = sm.into_inner();
    let r = Redirecter::new(inner.custom_config);
    assert_eq!(r.resolve("my-link").unwrap().as_str(), "https://example.com/x");
}

#[test]
fn invalid_path_lists_offending_characters() {
    let mut sm = empty();
    assert_eq!(
        sm.install("bad path!", "https://example.com"),
        Err(SetError::InvalidPath(InvalidSuffix::InvalidCharacters(vec![' ', '!'])))
    );
    assert_eq!(
        sm.install("", "https://example.com"),
        Err(SetError::InvalidPath(InvalidSuffix::NoCharacters))
    );
}

#[test]
fn invalid_url_is_rejected() {
    let mut sm = empty();
    assert_eq!(sm.install("x", "not-a-url"), Err(SetError::InvalidUrl));
    assert_eq!(sm.generate_and_install("not-a-url"), Err(SetError::InvalidUrl));
}

#[test]
fn unknown_path_is_not_found() {
    let r = Redirecter::new(RedirectConfig::new(InMemoryClient::new()));
    assert_eq!(r.resolve("never-created").unwrap_err(), NoMapping);
    assert_eq!(NoMapping.description(), "No mapping");
}

#[test]
fn generated_aliases_are_distinct_and_resolve() {
    let mut sm = empty();
    let mut aliases: Vec<String> = Vec::new();
    for i in 0..30 {
        let target = format!("https://example.com/{}", i);
        let a = sm.generate_and_install(&target).unwrap();
        assert_eq!(a.as_str().len(), 5);
        assert!(a.as_str().chars().all(|c| c.is_ascii_alphabetic()));
        aliases.push(a.as_str().to_string());
    }
    let mut sorted = aliases.clone();
    sorted.sort();
    sorted.dedup();
    assert_eq!(sorted.len(), 30);
    let inner = sm.into_inner();
    let r = Redirecter::for_generated(inner.gen_config);
    for (i, a) in aliases.iter().enumerate() {
        assert_eq!(r.resolve(a).unwrap().as_str(), format!("https://example.com/{}", i));
    }
    let custom = Redirecter::new(inner.custom_config);
    assert!(custom.resolve(&aliases[0]).is_err());
}

#[test]
fn generation_gives_up_after_the_attempt_bound() {
    let mut sm = empty().with_max_attempts(0);
    assert_eq!(
        sm.generate_and_install("https://example.com"),
        Err(SetError::AllocationExhausted)
    );
}

#[test]
fn request_dispatch() {
    assert_eq!(request_action(Some("a b"), true), Action::RejectPath);
    assert_eq!(request_action(Some("a b"), false), Action::RejectPath);
    assert_eq!(request_action(Some("abc"), false), Action::InvalidRequest);
    assert_eq!(request_action(None, false), Action::InvalidRequest);
    assert_eq!(request_action(Some("abc"), true), Action::Install);
    assert_eq!(request_action(Some(""), true), Action::Generate);
    assert_eq!(request_action(None, true), Action::Generate);
}

#[test]
fn handle_method_routes_requests() {
    let mut sm = empty();
    assert_eq!(
        sm.handle_method(Some("a?"), Some("https://example.com")),
        Err(SetError::InvalidPath(InvalidSuffix::InvalidCharacters(vec!['?'])))
    );
    assert_eq!(sm.handle_method(None, None), Err(SetError::InvalidRequest));
    match sm.handle_method(Some("abc"), Some("https://example.com")) {
        Ok(Claimed::Custom(a)) => assert_eq!(a.as_str(), "abc"),
        other => panic!("unexpected {:?}", other),
    }
    match sm.handle_method(Some(""), Some("https://example.com")) {
        Ok(Claimed::Generated(a)) => assert_eq!(a.as_str().len(), 5),
        other => panic!("unexpected {:?}", other),
    }
    match sm.handle_method(None, Some("https://example.com")) {
        Ok(Claimed::Generated(a)) => assert_eq!(a.as_str().len(), 5),
        other => panic!("unexpected {:?}", other),
    }
}

#[test]
fn candidates_are_five_letters() {
    assert_eq!(letter(0), 'A');
    assert_eq!(letter(25), 'Z');
    assert_eq!(letter(26), 'a');
    assert_eq!(letter(51), 'z');
    for _ in 0..50 {
        let c = draw_candidate();
        assert_eq!(c.len(), 5);
        assert!(c.iter().all(|ch| ch.is_ascii_alphabetic()));
    }
}

#[test]
fn claiming_a_drawn_candidate() {
    let mut sm = empty();
    let u = || alias_store::url::Url::parse("https://example.com/z").unwrap();
    let a = sm.claim_candidate(vec!['Q', 'w', 'E', 'r', 'T'], u()).unwrap();
    assert_eq!(a.as_str(), "QwErT");
    assert_eq!(
        sm.claim_candidate(vec!['Q', 'w', 'E', 'r', 'T'], u()),
        Err(SetError::AlreadyExists)
    );
    assert_eq!(
        sm.claim_candidate(vec!['a', '_'], u()),
        Err(SetError::InvalidPath(InvalidSuffix::InvalidCharacters(vec!['_'])))
    );
    assert_eq!(
        sm.claim_candidate(vec![], u()),
        Err(SetError::InvalidPath(InvalidSuffix::NoCharacters))
    );
    let inner = sm.into_inner();
    assert_eq!(
        Redirecter::for_generated(inner.gen_config).resolve("QwErT").unwrap().as_str(),
        "https://example.com/z"
    );
}

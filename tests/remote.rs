use alias_store::external::RedisClient;
use alias_store::redirect::Namespace;
use alias_store::remote::{GenerationStep, RemoteAllocator, SetIfAbsent};
use alias_store::set::SetError;
use alias_store::suffix::InvalidSuffix;
use alias_store::text_api::SetReply;

fn allocator() -> RemoteAllocator {
    RemoteAllocator::new(RedisClient::with_store("redis://localhost", "p"))
}

#[test]
fn custom_claim_plans_one_write() {
    let a = allocator();
    let (alias, w) = a.plan_custom("my-link", "https://example.com/x").unwrap();
    assert_eq!(alias.as_str(), "my-link");
    assert_eq!(w.key, "p::c::my-link");
    assert_eq!(w.value, "https://example.com/x");
    assert_eq!(a.custom_outcome(alias, 1).unwrap().as_str(), "my-link");
    let (alias, _) = a.plan_custom("my-link", "https://example.com/y").unwrap();
    assert_eq!(a.custom_outcome(alias, 0), Err(SetError::AlreadyExists));
}

#[test]
fn custom_claim_rejects_before_writing() {
    let a = allocator();
    assert_eq!(
        a.plan_custom("bad path!", "https://example.com").unwrap_err(),
        SetError::InvalidPath(InvalidSuffix::InvalidCharacters(vec![' ', '!']))
    );
    assert_eq!(a.plan_custom("x", "not-a-url").unwrap_err(), SetError::InvalidUrl);
}

fn attempt_of(step: GenerationStep) -> (alias_store::remote::Generation, SetIfAbsent) {
    match step {
        GenerationStep::Attempt(g, w) => (g, w),
        other => panic!("expected an attempt, got {:?}", other),
    }
}

#[test]
fn generation_retries_until_a_write_succeeds() {
    let a = allocator().with_max_attempts(3);
    let (g, w) = attempt_of(a.start_generation("https://example.com").unwrap());
    assert!(w.key.starts_with("p::g::"));
    assert_eq!(w.key.len(), "p::g::".len() + 5);
    assert_eq!(w.value, "https://example.com/");
    let (g, w2) = attempt_of(a.next_step(g, 0));
    assert!(w2.key.starts_with("p::g::"));
    match a.next_step(g, 1) {
        GenerationStep::Claimed(alias) => assert_eq!(format!("p::g::{}", alias.as_str()), w2.key),
        other => panic!("expected a claim, got {:?}", other),
    }
}

#[test]
fn generation_gives_up_when_every_candidate_is_taken() {
    let a = allocator().with_max_attempts(2);
    let (g, _) = attempt_of(a.start_generation("https://example.com").unwrap());
    let (g, _) = attempt_of(a.next_step(g, 0));
    assert!(matches!(a.next_step(g, 0), GenerationStep::Exhausted));
    let none = allocator().with_max_attempts(0);
    assert!(matches!(none.start_generation("https://example.com").unwrap(), GenerationStep::Exhausted));
    assert!(matches!(allocator().start_generation("not-a-url"), Err(SetError::InvalidUrl)));
}

#[test]
fn reads_resolve_to_targets() {
    let a = allocator();
    assert_eq!(a.lookup_key(Namespace::Custom, "abc"), "p::c::abc");
    assert_eq!(a.lookup_key(Namespace::Generated, "abc"), "p::g::abc");
    assert!(a.resolved(None).is_err());
    assert!(a.resolved(Some("not-a-url".to_string())).is_err());
    assert_eq!(
        a.resolved(Some("https://example.com".to_string())).unwrap().as_str(),
        "https://example.com/"
    );
}

#[test]
fn plain_set_plans_validated_writes() {
    let a = allocator();
    let w = a.plan_plain_set("home https://example.com/a").unwrap();
    assert_eq!(w.key, "p::c::home");
    assert_eq!(w.value, "https://example.com/a");
    assert_eq!(a.plan_plain_set("one").unwrap_err(), SetReply::Malformed);
    assert_eq!(a.plan_plain_set("bad! https://example.com").unwrap_err(), SetReply::InvalidPath);
    assert_eq!(a.plan_plain_set("home nope").unwrap_err(), SetReply::BadUrl);
    assert_eq!(a.plain_outcome(1), SetReply::Installed);
    assert_eq!(a.plain_outcome(0), SetReply::Taken);
}

#[test]
fn listed_texts_keep_keys_of_the_prefix() {
    let a = allocator();
    let keys = vec![
        "p::c::one".to_string(),
        "q::c::other".to_string(),
        "p::g::AbCdE".to_string(),
        "p::x::bad".to_string(),
    ];
    assert_eq!(a.listed_texts(&keys), vec!["one".to_string(), "AbCdE".to_string()]);
}

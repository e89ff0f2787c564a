//! The key layout of a networked key/value store: every key of a deployment
//! is `{prefix}::{variant}::{alias}`, where the prefix names the deployment
//! and the variant (`g` or `c`) the namespace, so that generated and custom
//! aliases never collide. The network calls themselves are made by the caller.

use vstd::prelude::*;
use crate::mapping::{key_text, map_to_string, Mapping, MappingKey};
use crate::redirect::str_chars;

verus! {

/// The separator between a key prefix and the alias text.
pub open spec fn key_separator() -> Seq<char> {
    seq![':', ':']
}

/// The tag of a key's namespace: `g` for generated aliases, `c` for custom ones.
pub open spec fn variant_tag(k: MappingKey) -> Seq<char> {
    match k {
        MappingKey::Generated(_) => seq!['g'],
        MappingKey::Custom(_) => seq!['c'],
    }
}

/// The stored key of `k` under `prefix`.
pub open spec fn stored_key(prefix: Seq<char>, k: MappingKey) -> Seq<char> {
    prefix + key_separator() + variant_tag(k) + key_separator() + key_text(k)
}

/// Connection settings and key prefix of a networked store.
#[derive(Debug, Clone)]
pub struct RedisClient {
    key_prefix: String,
    store: String,
}

impl RedisClient {
    /// The prefix of every key of this deployment and namespace.
    pub closed spec fn prefix(&self) -> Seq<char> {
        self.key_prefix@
    }

    /// The connection string of the store.
    pub closed spec fn store_url(&self) -> Seq<char> {
        self.store@
    }

    /// The settings of the default deployment.
    pub fn new() -> (r: RedisClient)
        ensures
            r.store_url() == "redis://redis.service.consul"@,
            r.prefix() == "alias::test::1"@,
    {
        RedisClient::with_store("redis://redis.service.consul", "alias::test::1")
    }

    /// The settings of a deployment reached at `store`, with keys under `key_prefix`.
    pub fn with_store(store: &str, key_prefix: &str) -> (r: RedisClient)
        ensures
            r.store_url() == store@,
            r.prefix() == key_prefix@,
    {
        RedisClient { key_prefix: key_prefix.to_owned(), store: store.to_owned() }
    }

    /// The same store, with `suffix` appended to the key prefix.
    pub fn with_suffix(&self, suffix: &str) -> (r: RedisClient)
        ensures
            r.store_url() == self.store_url(),
            r.prefix() == self.prefix() + suffix@,
    {
        RedisClient { store: self.store.clone(), key_prefix: self.key_prefix.clone().concat(suffix) }
    }

    /// The connection string of the store.
    pub fn store(&self) -> (r: &str)
        ensures
            r@ == self.store_url(),
    {
        self.store.as_str()
    }

    /// The key under which `m` is stored.
    pub fn build_key(&self, m: &Mapping) -> (r: String)
        ensures
            r@ == stored_key(self.prefix(), m@),
    {
        proof {
            reveal_strlit("::");
            reveal_strlit("g");
            reveal_strlit("c");
        }
        let tag = match m {
            Mapping::Generated(_) => "g",
            Mapping::Custom(_) => "c",
        };
        let text = map_to_string(m);
        let r = self.key_prefix.clone().concat("::").concat(tag).concat("::").concat(text.as_str());
        assert(r@ =~= stored_key(self.prefix(), m@));
        r
    }

    /// The pattern that matches every key of this deployment.
    pub fn key_pattern(&self) -> (r: String)
        ensures
            r@ == self.prefix() + key_separator() + seq!['*'],
    {
        proof {
            reveal_strlit("::*");
        }
        let r = self.key_prefix.clone().concat("::*");
        assert(r@ =~= self.prefix() + key_separator() + seq!['*']);
        r
    }

    /// The mapping whose stored key is `key`, if there is one.
    pub fn mapping_of_key(&self, key: &str) -> (r: Option<Mapping>)
        ensures
            r is Some ==> key@ == stored_key(self.prefix(), r->0@),
            r is None ==> forall|k: MappingKey| key@ != #[trigger] stored_key(self.prefix(), k),
    {
        let head = self.key_prefix.clone().concat("::");
        proof {
            reveal_strlit("::");
            assert(head@ =~= self.prefix() + key_separator());
            assert forall|k: MappingKey| #[trigger]
                stored_key(self.prefix(), k).subrange(0, head@.len() as int) == head@
                    && stored_key(self.prefix(), k).len() >= head@.len() + 3 by {
                assert(stored_key(self.prefix(), k).subrange(0, head@.len() as int) =~= head@);
            }
        }
        let hn = head.as_str().unicode_len();
        let kn = key.unicode_len();
        if kn < 3 || kn - 3 < hn {
            assert forall|k: MappingKey| key@ != #[trigger] stored_key(self.prefix(), k) by {
                assert(stored_key(self.prefix(), k).len() >= head@.len() + 3);
            }
            return None;
        }
        let mut i: usize = 0;
        while i < hn
            invariant
                hn == head@.len(),
                head@ == self.prefix() + key_separator(),
                kn == key@.len(),
                hn + 3 <= kn,
                i <= hn,
                forall|j: int| 0 <= j < i ==> key@[j] == head@[j],
            decreases hn - i,
        {
            if key.get_char(i) != head.as_str().get_char(i) {
                assert forall|k: MappingKey| key@ != #[trigger] stored_key(self.prefix(), k) by {
                    let full = stored_key(self.prefix(), k);
                    assert(full.subrange(0, hn as int) =~= head@);
                    assert(full[i as int] == head@[i as int]);
                }
                return None;
            }
            i = i + 1;
        }
        assert(key@.subrange(0, hn as int) =~= head@);
        let t = key.get_char(hn);
        let c1 = key.get_char(hn + 1);
        let c2 = key.get_char(hn + 2);
        let rest = key.substring_char(hn + 3, kn);
        if c1 != ':' || c2 != ':' || (t != 'g' && t != 'c') {
            assert forall|k: MappingKey| key@ != #[trigger] stored_key(self.prefix(), k) by {
                let full = stored_key(self.prefix(), k);
                if full == key@ {
                    assert(full[hn as int] == variant_tag(k)[0]);
                    assert(full[hn as int + 1] == ':');
                    assert(full[hn as int + 2] == ':');
                }
            }
            return None;
        }
        let m = if t == 'g' {
            Mapping::Generated(str_chars(rest))
        } else {
            Mapping::Custom(rest.to_owned())
        };
        assert(key@ =~= stored_key(self.prefix(), m@));
        Some(m)
    }
}

} // verus!

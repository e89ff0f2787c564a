//! Resolving request paths to target URLs, and claiming keys, over a store.

use std::sync::Arc;
use vstd::prelude::*;
use crate::database::{create_step, key_views, lists_each_key_once, DatabaseClient};
use crate::mapping::{key_text, map_to_string, Mapping, MappingKey};
use crate::url::Url;

verus! {

/// The characters of `s`, one per element.
pub fn str_chars(s: &str) -> (r: Vec<char>)
    ensures
        r@ == s@,
{
    let n = s.unicode_len();
    let mut out: Vec<char> = Vec::new();
    let mut i: usize = 0;
    while i < n
        invariant
            n == s@.len(),
            i <= n,
            out@ == s@.subrange(0, i as int),
        decreases n - i,
    {
        out.push(s.get_char(i));
        assert(s@.subrange(0, i as int + 1) == s@.subrange(0, i as int).push(s@[i as int]));
        i = i + 1;
    }
    assert(s@.subrange(0, n as int) == s@);
    out
}

/// One namespace of aliases over a store.
pub struct RedirectConfig<D: DatabaseClient> {
    client: D,
}

impl<D: DatabaseClient> RedirectConfig<D> {
    /// The records of the underlying store.
    pub closed spec fn mappings(&self) -> Map<MappingKey, Seq<char>> {
        self.client.mappings()
    }

    /// The underlying store is consistent.
    pub closed spec fn well_formed(&self) -> bool {
        self.client.well_formed()
    }

    pub fn new(c: D) -> (r: RedirectConfig<D>)
        requires
            c.well_formed(),
        ensures
            r.well_formed(),
            r.mappings() == c.mappings(),
    {
        RedirectConfig { client: c }
    }

    /// The target of the custom alias `route`, if it exists.
    pub fn find_mapping(&self, route: &str) -> (r: Option<Url>)
        requires
            self.well_formed(),
        ensures
            r is Some <==> self.mappings().contains_key(MappingKey::Custom(route@)),
            r is Some ==> r->0@ == self.mappings()[MappingKey::Custom(route@)],
    {
        self.client.get_mapping(&Mapping::Custom(route.to_owned()))
    }

    /// The target of the generated alias `route`, if it exists.
    pub fn find_generated(&self, route: &str) -> (r: Option<Url>)
        requires
            self.well_formed(),
        ensures
            r is Some <==> self.mappings().contains_key(MappingKey::Generated(route@)),
            r is Some ==> r->0@ == self.mappings()[MappingKey::Generated(route@)],
    {
        self.client.get_mapping(&Mapping::Generated(str_chars(route)))
    }

    /// Claims the custom alias `route` for `url`; true iff it was free.
    pub fn install_mapping(&mut self, route: &str, url: Url) -> (r: bool)
        requires
            old(self).well_formed(),
        ensures
            final(self).well_formed(),
            create_step(old(self).mappings(), final(self).mappings(), MappingKey::Custom(route@), url@, r),
    {
        self.client.set_mapping(Mapping::Custom(route.to_owned()), url)
    }

    /// Claims the generated alias `chars` for `url`; true iff it was free.
    pub fn install_generated(&mut self, chars: Vec<char>, url: Url) -> (r: bool)
        requires
            old(self).well_formed(),
        ensures
            final(self).well_formed(),
            create_step(old(self).mappings(), final(self).mappings(), MappingKey::Generated(chars@), url@, r),
    {
        self.client.set_mapping(Mapping::Generated(chars), url)
    }

    /// The text of every stored key: one entry per key, in no particular order.
    pub fn list_all(&self) -> (r: Vec<String>)
        requires
            self.well_formed(),
        ensures
            exists|ks: Seq<MappingKey>|
                lists_each_key_once(self.mappings(), ks) && r.len() == ks.len() && forall|i: int|
                    0 <= i < r.len() ==> (#[trigger] r@[i])@ == key_text(ks[i]),
    {
        let ms = self.client.list_all();
        let mut out: Vec<String> = Vec::new();
        let mut i: usize = 0;
        while i < ms.len()
            invariant
                i <= ms.len(),
                out.len() == i,
                forall|j: int| 0 <= j < i ==> (#[trigger] out@[j])@ == key_text(ms@[j]@),
            decreases ms.len() - i,
        {
            out.push(map_to_string(&ms[i]));
            i = i + 1;
        }
        let ghost ks = key_views(ms@);
        assert(lists_each_key_once(self.mappings(), ks));
        assert(ks.len() == out.len());
        assert forall|i: int| 0 <= i < out.len() implies (#[trigger] out@[i])@ == key_text(ks[i]) by {
            assert(ks[i] == ms@[i]@);
        }
        assert(lists_each_key_once(self.mappings(), ks) && out.len() == ks.len() && forall|i: int|
            0 <= i < out.len() ==> (#[trigger] out@[i])@ == key_text(ks[i]));
        out
    }
}

/// Which namespace of aliases a resolver looks in.
#[derive(Debug, Clone, Copy, PartialEq, Eq)]
pub enum Namespace {
    Generated,
    Custom,
}

/// The key that `path` names in `ns`.
pub open spec fn key_in(ns: Namespace, path: Seq<char>) -> MappingKey {
    match ns {
        Namespace::Generated => MappingKey::Generated(path),
        Namespace::Custom => MappingKey::Custom(path),
    }
}

pub struct RedirecterInner<D: DatabaseClient> {
    pub config: RedirectConfig<D>,
    pub namespace: Namespace,
}

impl<D: DatabaseClient> RedirecterInner<D> {
    /// A resolver of custom aliases.
    pub fn new(config: RedirectConfig<D>) -> (r: RedirecterInner<D>)
        ensures
            r.config == config,
            r.namespace == Namespace::Custom,
    {
        RedirecterInner { config, namespace: Namespace::Custom }
    }
}

/// The path had no mapping.
#[derive(Debug, Clone, Copy, PartialEq, Eq)]
pub struct NoMapping;

impl NoMapping {
    /// A human-readable reason.
    pub fn description(&self) -> &'static str {
        "No mapping"
    }
}

/// Resolves request paths of one namespace to their target URLs.
pub struct Redirecter<D: DatabaseClient> {
    inner: Arc<RedirecterInner<D>>,
}

impl<D: DatabaseClient> Redirecter<D> {
    /// The records that this resolver reads.
    pub closed spec fn mappings(&self) -> Map<MappingKey, Seq<char>> {
        self.inner.config.mappings()
    }

    /// The namespace that this resolver reads.
    pub closed spec fn namespace(&self) -> Namespace {
        self.inner.namespace
    }

    pub closed spec fn well_formed(&self) -> bool {
        self.inner.config.well_formed()
    }

    /// A resolver of custom aliases over `config`.
    pub fn new(config: RedirectConfig<D>) -> (r: Redirecter<D>)
        requires
            config.well_formed(),
        ensures
            r.well_formed(),
            r.mappings() == config.mappings(),
            r.namespace() == Namespace::Custom,
    {
        Redirecter { inner: Arc::new(RedirecterInner::new(config)) }
    }

    /// A resolver of generated aliases over `config`.
    pub fn for_generated(config: RedirectConfig<D>) -> (r: Redirecter<D>)
        requires
            config.well_formed(),
        ensures
            r.well_formed(),
            r.mappings() == config.mappings(),
            r.namespace() == Namespace::Generated,
    {
        Redirecter { inner: Arc::new(RedirecterInner { config, namespace: Namespace::Generated }) }
    }

    /// The target URL that `path` names, or `NoMapping`.
    pub fn resolve(&self, path: &str) -> (r: Result<Url, NoMapping>)
        requires
            self.well_formed(),
        ensures
            r is Ok <==> self.mappings().contains_key(key_in(self.namespace(), path@)),
            r is Ok ==> r->Ok_0@ == self.mappings()[key_in(self.namespace(), path@)],
    {
        let found = match self.inner.namespace {
            Namespace::Custom => self.inner.config.find_mapping(path),
            Namespace::Generated => self.inner.config.find_generated(path),
        };
        match found {
            Some(url) => Ok(url),
            None => Err(NoMapping),
        }
    }
}

} // verus!

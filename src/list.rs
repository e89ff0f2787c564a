//! The diagnostic listing of every stored key.

use std::sync::Arc;
use vstd::prelude::*;
use crate::database::{lists_each_key_once, DatabaseClient};
use crate::mapping::{key_text, MappingKey};
use crate::redirect::RedirectConfig;

verus! {

/// The listing of `texts`: each followed by `,` and a newline.
pub open spec fn listing(texts: Seq<Seq<char>>) -> Seq<char>
    decreases texts.len(),
{
    if texts.len() == 0 {
        Seq::empty()
    } else {
        listing(texts.drop_last()) + texts.last() + seq![',', '\n']
    }
}

/// The texts of the keys `ks`, in order.
pub open spec fn key_texts(ks: Seq<MappingKey>) -> Seq<Seq<char>> {
    ks.map_values(|k: MappingKey| key_text(k))
}

/// The listing of the texts in `ms`.
pub fn build_payload(ms: &Vec<String>) -> (r: String)
    ensures
        r@ == listing(ms@.map_values(|s: String| s@)),
{
    let mut out = String::new();
    let mut i: usize = 0;
    while i < ms.len()
        invariant
            i <= ms.len(),
            out@ == listing(ms@.map_values(|s: String| s@).subrange(0, i as int)),
        decreases ms.len() - i,
    {
        let ghost texts = ms@.map_values(|s: String| s@);
        out.append(ms[i].as_str());
        out.append(",\n");
        proof {
            reveal_strlit(",\n");
            assert(texts.subrange(0, i as int + 1).drop_last() == texts.subrange(0, i as int));
            assert(texts.subrange(0, i as int + 1).last() == ms@[i as int]@);
        }
        i = i + 1;
    }
    assert(ms@.map_values(|s: String| s@).subrange(0, ms.len() as int) == ms@.map_values(
        |s: String| s@,
    ));
    out
}

pub struct ListInner<D: DatabaseClient> {
    pub config: RedirectConfig<D>,
}

/// Lists every key of a namespace.
pub struct List<D: DatabaseClient> {
    inner: Arc<ListInner<D>>,
}

impl<D: DatabaseClient> List<D> {
    /// The records listed.
    pub closed spec fn mappings(&self) -> Map<MappingKey, Seq<char>> {
        self.inner.config.mappings()
    }

    pub closed spec fn well_formed(&self) -> bool {
        self.inner.config.well_formed()
    }

    pub fn new(config: RedirectConfig<D>) -> (r: List<D>)
        requires
            config.well_formed(),
        ensures
            r.well_formed(),
            r.mappings() == config.mappings(),
    {
        List { inner: Arc::new(ListInner { config }) }
    }

    /// The listing of every stored key, each once, in no particular order.
    pub fn handle_method(&self) -> (r: String)
        requires
            self.well_formed(),
        ensures
            exists|ks: Seq<MappingKey>|
                lists_each_key_once(self.mappings(), ks) && r@ == listing(key_texts(ks)),
    {
        let ms = self.inner.config.list_all();
        let r = build_payload(&ms);
        let ghost ks = choose|ks: Seq<MappingKey>|
            lists_each_key_once(self.mappings(), ks) && ms.len() == ks.len() && forall|i: int|
                0 <= i < ms.len() ==> (#[trigger] ms@[i])@ == key_text(ks[i]);
        assert(ms@.map_values(|s: String| s@) =~= key_texts(ks));
        r
    }
}

} // verus!

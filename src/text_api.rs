//! The plain-text API: a request body `"{alias} {url}"` binds a custom alias,
//! and a path resolves one.

use vstd::prelude::*;
use crate::database::{create_step, DatabaseClient};
use crate::mapping::{push_char, Mapping, MappingKey};
use crate::suffix::{is_alias, Suffix};
use crate::url::{parsed_url, Url};

verus! {

/// Whether `c` separates words: a character with the Unicode `White_Space`
/// property.
pub open spec fn is_space(c: char) -> bool {
    ('\u{9}' <= c && c <= '\u{d}') || c == ' ' || c == '\u{85}' || c == '\u{a0}' || c == '\u{1680}'
        || ('\u{2000}' <= c && c <= '\u{200a}') || c == '\u{2028}' || c == '\u{2029}' || c
        == '\u{202f}' || c == '\u{205f}' || c == '\u{3000}'
}

/// The words of `s`: its maximal runs of characters that are not white space,
/// in order.
pub open spec fn words(s: Seq<char>) -> Seq<Seq<char>>
    decreases s.len(),
{
    if s.len() == 0 {
        Seq::empty()
    } else {
        let before = words(s.drop_last());
        let c = s.last();
        if is_space(c) {
            before
        } else if s.len() >= 2 && !is_space(s[s.len() - 2]) {
            before.update(before.len() - 1, before.last().push(c))
        } else {
            before.push(seq![c])
        }
    }
}

proof fn lemma_words_nonempty_after_word_char(s: Seq<char>)
    requires
        s.len() > 0,
        !is_space(s.last()),
    ensures
        words(s).len() > 0,
    decreases s.len(),
{
    if s.len() >= 2 && !is_space(s[s.len() - 2]) {
        assert(s.drop_last().last() == s[s.len() - 2]);
        lemma_words_nonempty_after_word_char(s.drop_last());
    }
}

/// Whether `c` is white space.
pub fn is_space_char(c: char) -> (r: bool)
    ensures
        r == is_space(c),
{
    ('\u{9}' <= c && c <= '\u{d}') || c == ' ' || c == '\u{85}' || c == '\u{a0}' || c == '\u{1680}'
        || ('\u{2000}' <= c && c <= '\u{200a}') || c == '\u{2028}' || c == '\u{2029}' || c
        == '\u{202f}' || c == '\u{205f}' || c == '\u{3000}'
}

/// The texts of a vector of strings.
pub open spec fn texts(v: Seq<String>) -> Seq<Seq<char>> {
    v.map_values(|s: String| s@)
}

/// The words of `msg`, split at white space.
pub fn split_words(msg: &str) -> (r: Vec<String>)
    ensures
        texts(r@) == words(msg@),
{
    let n = msg.unicode_len();
    let mut out: Vec<String> = Vec::new();
    let mut i: usize = 0;
    while i < n
        invariant
            n == msg@.len(),
            i <= n,
            texts(out@) == words(msg@.subrange(0, i as int)),
        decreases n - i,
    {
        let c = msg.get_char(i);
        let ghost prefix = msg@.subrange(0, i as int + 1);
        let ghost before = words(msg@.subrange(0, i as int));
        proof {
            assert(prefix.drop_last() == msg@.subrange(0, i as int));
            assert(prefix.last() == c);
        }
        if is_space_char(c) {
        } else if i >= 1 && !is_space_char(msg.get_char(i - 1)) {
            proof {
                assert(prefix[prefix.len() - 2] == msg@[i - 1]);
                assert(msg@.subrange(0, i as int).last() == msg@[i - 1]);
                lemma_words_nonempty_after_word_char(msg@.subrange(0, i as int));
            }
            let mut w = out.pop().unwrap();
            push_char(&mut w, c);
            out.push(w);
            assert(texts(out@) =~= before.update(before.len() - 1, before.last().push(c)));
        } else {
            let mut w = String::new();
            push_char(&mut w, c);
            out.push(w);
            assert(texts(out@) =~= before.push(seq![c]));
        }
        i = i + 1;
    }
    assert(msg@.subrange(0, n as int) == msg@);
    out
}

/// The outcome of a request to bind an alias.
#[derive(Debug, Clone, Copy, PartialEq, Eq)]
pub enum SetReply {
    /// The body was not two words.
    Malformed,
    /// The first word is not an alias.
    InvalidPath,
    /// The alias was free and is now bound.
    Installed,
    /// The alias was already bound.
    Taken,
    /// The second word does not parse as an absolute URL.
    BadUrl,
}

/// Serves the plain-text API over one store.
pub struct AliasHandler<D: DatabaseClient> {
    db_client: D,
}

impl<D: DatabaseClient> AliasHandler<D> {
    /// The records of the store.
    pub closed spec fn mappings(&self) -> Map<MappingKey, Seq<char>> {
        self.db_client.mappings()
    }

    pub closed spec fn well_formed(&self) -> bool {
        self.db_client.well_formed()
    }

    pub fn new(client: D) -> (r: AliasHandler<D>)
        requires
            client.well_formed(),
        ensures
            r.well_formed(),
            r.mappings() == client.mappings(),
    {
        AliasHandler { db_client: client }
    }

    /// Binds the first word of `msg` to the URL that its second word parses
    /// to, where `msg` is exactly two words, the first word is an alias, and
    /// that alias is free. The alias is validated before the URL is parsed.
    pub fn set(&mut self, msg: &str) -> (r: SetReply)
        requires
            old(self).well_formed(),
        ensures
            final(self).well_formed(),
            words(msg@).len() != 2 ==> r == SetReply::Malformed && final(self).mappings() == old(
                self,
            ).mappings(),
            words(msg@).len() == 2 && !is_alias(words(msg@)[0]) ==> r == SetReply::InvalidPath
                && final(self).mappings() == old(self).mappings(),
            words(msg@).len() == 2 && is_alias(words(msg@)[0]) && parsed_url(words(msg@)[1]) is None
                ==> r == SetReply::BadUrl && final(self).mappings() == old(self).mappings(),
            words(msg@).len() == 2 && is_alias(words(msg@)[0]) && parsed_url(words(msg@)[1]) is Some
                ==> (r
                == SetReply::Installed || r == SetReply::Taken) && create_step(
                old(self).mappings(),
                final(self).mappings(),
                MappingKey::Custom(words(msg@)[0]),
                parsed_url(words(msg@)[1])->0,
                r == SetReply::Installed,
            ),
    {
        let parts = split_words(msg);
        if parts.len() != 2 {
            return SetReply::Malformed;
        }
        assert(parts@[0]@ == words(msg@)[0] && parts@[1]@ == words(msg@)[1]);
        let alias = match Suffix::new(parts[0].as_str()) {
            Ok(a) => a,
            Err(_) => return SetReply::InvalidPath,
        };
        match Url::parse(parts[1].as_str()) {
            Some(url) => {
                if self.db_client.set_mapping(Mapping::Custom(alias.as_str().to_owned()), url) {
                    SetReply::Installed
                } else {
                    SetReply::Taken
                }
            },
            None => SetReply::BadUrl,
        }
    }

    /// The target of the custom alias `binding`, if it is bound.
    pub fn get(&self, binding: &str) -> (r: Option<Url>)
        requires
            self.well_formed(),
        ensures
            r is Some <==> self.mappings().contains_key(MappingKey::Custom(binding@)),
            r is Some ==> r->0@ == self.mappings()[MappingKey::Custom(binding@)],
    {
        self.db_client.get_mapping(&Mapping::Custom(binding.to_owned()))
    }
}

} // verus!

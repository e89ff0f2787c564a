//! Decisions for a store reached over the network. The library decides which
//! command to send and what its reply means; the caller sends the command and
//! hands back the reply. Creation goes through the store's own atomic
//! set-if-absent, whose reply is the number of keys it wrote.

use vstd::prelude::*;
use crate::external::{stored_key, RedisClient};
use crate::mapping::{chars_to_string, key_text, map_to_string, Mapping, MappingKey};
use crate::random::{draw_candidate, is_letter};
use crate::redirect::{key_in, str_chars, Namespace, NoMapping};
use crate::set::{is_generated_alias, SetError, DEFAULT_MAX_ATTEMPTS};
use crate::suffix::{is_alias, is_alias_char, rejects_as, Suffix};
use crate::text_api::{split_words, words, SetReply};
use crate::url::{parsed_url, Url};

verus! {

/// A set-if-absent command: write `value` under `key` only where `key` is absent.
#[derive(Debug)]
pub struct SetIfAbsent {
    pub key: String,
    pub value: String,
}

/// A generation in progress: the candidate being tried, the target, and how
/// many candidates have been tried so far.
#[derive(Debug)]
pub struct Generation {
    candidate: Vec<char>,
    target: Url,
    tries: u32,
}

impl Generation {
    /// Every candidate is a possible generated alias.
    #[verifier::type_invariant]
    pub closed spec fn valid(&self) -> bool {
        is_generated_alias(self.candidate@)
    }

    pub closed spec fn candidate(&self) -> Seq<char> {
        self.candidate@
    }

    pub closed spec fn target(&self) -> Seq<char> {
        self.target@
    }

    pub closed spec fn tries(&self) -> u32 {
        self.tries
    }
}

/// What a generation does next.
#[derive(Debug)]
pub enum GenerationStep {
    /// The last candidate was written: it is the claimed alias.
    Claimed(Suffix),
    /// Send the command, and hand its reply to `next_step` with the generation.
    Attempt(Generation, SetIfAbsent),
    /// Every candidate allowed was taken.
    Exhausted,
}

/// Whether `g` and `w` are an attempt, numbered `tries`, to claim a generated
/// alias for `target` under `prefix`.
pub open spec fn is_attempt(
    g: Generation,
    w: SetIfAbsent,
    prefix: Seq<char>,
    target: Seq<char>,
    tries: u32,
) -> bool {
    &&& is_generated_alias(g.candidate())
    &&& g.target() == target
    &&& g.tries() == tries
    &&& w.key@ == stored_key(prefix, MappingKey::Generated(g.candidate()))
    &&& w.value@ == target
}

/// The allocator and resolver over a networked store.
pub struct RemoteAllocator {
    keys: RedisClient,
    max_attempts: u32,
}

impl RemoteAllocator {
    /// The prefix of every key that this allocator names.
    pub closed spec fn prefix(&self) -> Seq<char> {
        self.keys.prefix()
    }

    /// The number of candidates tried per generation.
    pub closed spec fn attempts(&self) -> u32 {
        self.max_attempts
    }

    pub fn new(keys: RedisClient) -> (r: RemoteAllocator)
        ensures
            r.prefix() == keys.prefix(),
            r.attempts() == DEFAULT_MAX_ATTEMPTS,
    {
        RemoteAllocator { keys, max_attempts: DEFAULT_MAX_ATTEMPTS }
    }

    /// The same allocator, trying at most `n` candidates per generation.
    pub fn with_max_attempts(self, n: u32) -> (r: RemoteAllocator)
        ensures
            r.prefix() == self.prefix(),
            r.attempts() == n,
    {
        RemoteAllocator { keys: self.keys, max_attempts: n }
    }

    /// The key layout.
    pub fn keys(&self) -> (r: &RedisClient)
        ensures
            r.prefix() == self.prefix(),
    {
        &self.keys
    }

    fn write_for(&self, m: &Mapping, url: &Url) -> (r: SetIfAbsent)
        ensures
            r.key@ == stored_key(self.prefix(), m@),
            r.value@ == url@,
    {
        SetIfAbsent { key: self.keys.build_key(m), value: url.as_str().to_owned() }
    }

    /// The write that claims the custom alias `path` for the URL that `url`
    /// parses to, or why there is none. The path is validated first.
    pub fn plan_custom(&self, path: &str, url: &str) -> (r: Result<(Suffix, SetIfAbsent), SetError>)
        ensures
            !is_alias(path@) ==> (r matches Err(SetError::InvalidPath(e)) && rejects_as(path@, e)),
            is_alias(path@) && parsed_url(url@) is None ==> r == Err::<(Suffix, SetIfAbsent), SetError>(
                SetError::InvalidUrl,
            ),
            is_alias(path@) && parsed_url(url@) is Some ==> (r matches Ok((a, w)) && a@ == path@
                && w.key@ == stored_key(self.prefix(), MappingKey::Custom(path@)) && w.value@
                == parsed_url(url@)->0),
    {
        let alias = match Suffix::new(path) {
            Ok(a) => a,
            Err(e) => return Err(SetError::InvalidPath(e)),
        };
        match Url::parse(url) {
            Some(u) => {
                let w = self.write_for(&Mapping::Custom(path.to_owned()), &u);
                Ok((alias, w))
            },
            None => Err(SetError::InvalidUrl),
        }
    }

    /// What the reply to a custom claim's write means: one key written is
    /// the claim, anything else means the alias was taken.
    pub fn custom_outcome(&self, alias: Suffix, written: u32) -> (r: Result<Suffix, SetError>)
        ensures
            written == 1 ==> r is Ok && r->Ok_0@ == alias@,
            written != 1 ==> r == Err::<Suffix, SetError>(SetError::AlreadyExists),
    {
        if written == 1 {
            Ok(alias)
        } else {
            Err(SetError::AlreadyExists)
        }
    }

    fn attempt(&self, url: Url, tries: u32) -> (r: GenerationStep)
        ensures
            r matches GenerationStep::Attempt(g, w) && is_attempt(g, w, self.prefix(), url@, tries),
    {
        let candidate = draw_candidate();
        let w = self.write_for(&Mapping::Generated(candidate.clone()), &url);
        GenerationStep::Attempt(Generation { candidate, target: url, tries }, w)
    }

    /// Starts generating an alias for the URL that `url` parses to.
    pub fn start_generation(&self, url: &str) -> (r: Result<GenerationStep, SetError>)
        ensures
            parsed_url(url@) is None ==> r == Err::<GenerationStep, SetError>(SetError::InvalidUrl),
            parsed_url(url@) is Some && self.attempts() == 0 ==> r matches Ok(
                GenerationStep::Exhausted,
            ),
            parsed_url(url@) is Some && self.attempts() > 0 ==> (r matches Ok(
                GenerationStep::Attempt(g, w),
            ) && is_attempt(g, w, self.prefix(), parsed_url(url@)->0, 1)),
    {
        match Url::parse(url) {
            None => Err(SetError::InvalidUrl),
            Some(u) => if self.max_attempts == 0 {
                Ok(GenerationStep::Exhausted)
            } else {
                Ok(self.attempt(u, 1))
            },
        }
    }

    /// What the reply `written` to the attempt `g` means: one key written is
    /// the claim; otherwise the next candidate is tried, while attempts remain.
    pub fn next_step(&self, g: Generation, written: u32) -> (r: GenerationStep)
        ensures
            written == 1 ==> (r matches GenerationStep::Claimed(a) && a@ == g.candidate()),
            written != 1 && g.tries() < self.attempts() ==> (r matches GenerationStep::Attempt(
                g2,
                w,
            ) && is_attempt(g2, w, self.prefix(), g.target(), (g.tries() + 1) as u32)),
            written != 1 && g.tries() >= self.attempts() ==> r matches GenerationStep::Exhausted,
    {
        proof {
            use_type_invariant(&g);
        }
        if written == 1 {
            let text = chars_to_string(&g.candidate);
            assert(is_alias(text@)) by {
                assert forall|i: int| 0 <= i < text@.len() implies is_alias_char(
                    #[trigger] text@[i],
                ) by {
                    assert(is_letter(text@[i]));
                }
            }
            match Suffix::new(text.as_str()) {
                Ok(a) => GenerationStep::Claimed(a),
                Err(_) => GenerationStep::Exhausted,
            }
        } else if g.tries < self.max_attempts {
            self.attempt(g.target, g.tries + 1)
        } else {
            GenerationStep::Exhausted
        }
    }

    /// The key to read to resolve `path` in the namespace `ns`.
    pub fn lookup_key(&self, ns: Namespace, path: &str) -> (r: String)
        ensures
            r@ == stored_key(self.prefix(), key_in(ns, path@)),
    {
        match ns {
            Namespace::Generated => self.keys.build_key(&Mapping::Generated(str_chars(path))),
            Namespace::Custom => self.keys.build_key(&Mapping::Custom(path.to_owned())),
        }
    }

    /// What a read of a key returned, as a target: a stored text that does
    /// not parse counts as no mapping.
    pub fn resolved(&self, stored: Option<String>) -> (r: Result<Url, NoMapping>)
        ensures
            stored is None ==> r is Err,
            stored is Some ==> (r is Ok <==> parsed_url(stored->0@) is Some),
            r is Ok ==> r->Ok_0@ == parsed_url(stored->0@)->0,
    {
        match stored {
            None => Err(NoMapping),
            Some(s) => match Url::parse(s.as_str()) {
                Some(u) => Ok(u),
                None => Err(NoMapping),
            },
        }
    }

    /// The write that a plain-text request body asks for, or the reply
    /// when it asks for none. The alias is validated before the URL is parsed.
    pub fn plan_plain_set(&self, msg: &str) -> (r: Result<SetIfAbsent, SetReply>)
        ensures
            words(msg@).len() != 2 ==> r == Err::<SetIfAbsent, SetReply>(SetReply::Malformed),
            words(msg@).len() == 2 && !is_alias(words(msg@)[0]) ==> r == Err::<
                SetIfAbsent,
                SetReply,
            >(SetReply::InvalidPath),
            words(msg@).len() == 2 && is_alias(words(msg@)[0]) && parsed_url(words(msg@)[1]) is None
                ==> r == Err::<SetIfAbsent, SetReply>(SetReply::BadUrl),
            words(msg@).len() == 2 && is_alias(words(msg@)[0]) && parsed_url(words(msg@)[1]) is Some
                ==> (r matches Ok(w) && w.key@ == stored_key(
                self.prefix(),
                MappingKey::Custom(words(msg@)[0]),
            ) && w.value@ == parsed_url(words(msg@)[1])->0),
    {
        let parts = split_words(msg);
        if parts.len() != 2 {
            return Err(SetReply::Malformed);
        }
        assert(parts@[0]@ == words(msg@)[0] && parts@[1]@ == words(msg@)[1]);
        if Suffix::new(parts[0].as_str()).is_err() {
            return Err(SetReply::InvalidPath);
        }
        match Url::parse(parts[1].as_str()) {
            Some(u) => Ok(self.write_for(&Mapping::Custom(parts[0].clone()), &u)),
            None => Err(SetReply::BadUrl),
        }
    }

    /// What the reply to a plain-text request's write means.
    pub fn plain_outcome(&self, written: u32) -> (r: SetReply)
        ensures
            r == (if written == 1 {
                SetReply::Installed
            } else {
                SetReply::Taken
            }),
    {
        if written == 1 {
            SetReply::Installed
        } else {
            SetReply::Taken
        }
    }

    /// The alias texts of the keys that a pattern read returned: one entry
    /// per key of this prefix, in the same order; other keys are skipped.
    pub fn listed_texts(&self, keys: &Vec<String>) -> (r: Vec<String>)
        ensures
            forall|i: int| 0 <= i < r.len() ==> names_stored_key(self.prefix(), keys@, #[trigger] r@[i]@),
            forall|j: int, k: MappingKey|
                0 <= j < keys.len() && #[trigger] keys@[j]@ == #[trigger] stored_key(self.prefix(), k)
                    ==> lists_text(r@, key_text(k)),
    {
        let mut out: Vec<String> = Vec::new();
        let mut j: usize = 0;
        while j < keys.len()
            invariant
                j <= keys.len(),
                forall|i: int|
                    0 <= i < out.len() ==> names_stored_key(self.prefix(), keys@, #[trigger] out@[i]@),
                forall|j2: int, k: MappingKey|
                    0 <= j2 < j && #[trigger] keys@[j2]@ == #[trigger] stored_key(self.prefix(), k)
                        ==> lists_text(out@, key_text(k)),
            decreases keys.len() - j,
        {
            let ghost before = out@;
            match self.keys.mapping_of_key(keys[j].as_str()) {
                Some(m) => {
                    let t = map_to_string(&m);
                    out.push(t);
                    assert(names_stored_key(self.prefix(), keys@, out@[before.len() as int]@)) by {
                        assert(0 <= j < keys.len() && keys@[j as int]@ == stored_key(self.prefix(), m@)
                            && out@[before.len() as int]@ == key_text(m@));
                    }
                    assert forall|i: int|
                        0 <= i < out.len() implies names_stored_key(
                        self.prefix(),
                        keys@,
                        #[trigger] out@[i]@,
                    ) by {
                        if i < before.len() {
                            assert(out@[i] == before[i]);
                        }
                    }
                    assert forall|j2: int, k: MappingKey|
                        0 <= j2 < j + 1 && #[trigger] keys@[j2]@ == #[trigger] stored_key(
                            self.prefix(),
                            k,
                        ) implies lists_text(out@, key_text(k)) by {
                        if j2 < j {
                            let i = choose|i: int| 0 <= i < before.len() && before[i]@ == key_text(k);
                            assert(out@[i] == before[i]);
                        } else {
                            lemma_stored_key_injective(self.prefix(), k, m@);
                            assert(out@[before.len() as int]@ == key_text(k));
                        }
                    }
                },
                None => {},
            }
            j = j + 1;
        }
        out
    }
}

/// Whether `t` is the alias text of some key in `keys` that is stored under `prefix`.
pub open spec fn names_stored_key(prefix: Seq<char>, keys: Seq<String>, t: Seq<char>) -> bool {
    exists|j: int, k: MappingKey|
        0 <= j < keys.len() && keys[j]@ == stored_key(prefix, k) && t == key_text(k)
}

/// Whether `t` is the text of an entry of `r`.
pub open spec fn lists_text(r: Seq<String>, t: Seq<char>) -> bool {
    exists|i: int| 0 <= i < r.len() && r[i]@ == t
}

/// Two keys with the same stored form under one prefix have the same text.
proof fn lemma_stored_key_injective(prefix: Seq<char>, a: MappingKey, b: MappingKey)
    requires
        stored_key(prefix, a) == stored_key(prefix, b),
    ensures
        key_text(a) == key_text(b),
{
    let n = prefix.len() as int + 5;
    assert(stored_key(prefix, a).subrange(n, stored_key(prefix, a).len() as int) =~= key_text(a));
    assert(stored_key(prefix, b).subrange(n, stored_key(prefix, b).len() as int) =~= key_text(b));
}

} // verus!

//! Claiming aliases: a custom alias chosen by the requester, or a random one
//! drawn until the store accepts it.

use vstd::prelude::*;
use crate::database::DatabaseClient;
use crate::mapping::{chars_to_string, MappingKey};
use crate::random::{draw_candidate, is_letter, GENERATED_LENGTH};
use crate::redirect::{Namespace, RedirectConfig};
use crate::suffix::{
    invalid_chars, is_alias, is_alias_char, lemma_no_invalid_chars, path_is_invalid, rejects_as,
    InvalidSuffix, Suffix,
};
use crate::url::{parsed_url, Url};

verus! {

/// How many random candidates are tried before giving up, unless configured.
pub const DEFAULT_MAX_ATTEMPTS: u32 = 1000;

/// Why a claim was not made.
#[derive(Debug, PartialEq, Eq, Clone)]
pub enum SetError {
    /// The requested path is not an alias.
    InvalidPath(InvalidSuffix),
    /// The target does not parse as an absolute URL.
    InvalidUrl,
    /// The alias is already taken, possibly by another target.
    AlreadyExists,
    /// Every random candidate tried was taken.
    AllocationExhausted,
    /// The request named no target URL.
    InvalidRequest,
}

/// An alias claimed in one of the two namespaces.
#[derive(Debug, PartialEq, Eq)]
pub enum Claimed {
    Generated(Suffix),
    Custom(Suffix),
}

/// What a creation request asks for.
#[derive(Debug, Clone, Copy, PartialEq, Eq)]
pub enum Action {
    RejectPath,
    Generate,
    Install,
    InvalidRequest,
}

/// The text of a claimed alias, or the error.
pub open spec fn alias_result(r: Result<Suffix, SetError>) -> Result<Seq<char>, SetError> {
    match r {
        Ok(s) => Ok(s@),
        Err(e) => Err(e),
    }
}

/// The namespace of a claimed alias.
pub open spec fn claimed_namespace(c: Claimed) -> Namespace {
    match c {
        Claimed::Generated(_) => Namespace::Generated,
        Claimed::Custom(_) => Namespace::Custom,
    }
}

/// The text of a claimed alias, or the error.
pub open spec fn claimed_text(r: Result<Claimed, SetError>) -> Result<Seq<char>, SetError> {
    match r {
        Ok(Claimed::Generated(s)) => Ok(s@),
        Ok(Claimed::Custom(s)) => Ok(s@),
        Err(e) => Err(e),
    }
}

/// The outcome of claiming the custom alias `path` for the parsed target
/// `url`, with the namespace's records before and after.
pub open spec fn custom_install(
    before: Map<MappingKey, Seq<char>>,
    after: Map<MappingKey, Seq<char>>,
    path: Seq<char>,
    url: Option<Seq<char>>,
    r: Result<Seq<char>, SetError>,
) -> bool {
    if !is_alias(path) {
        r matches Err(SetError::InvalidPath(e)) && rejects_as(path, e) && after == before
    } else if url is None {
        r == Err::<Seq<char>, SetError>(SetError::InvalidUrl) && after == before
    } else if before.contains_key(MappingKey::Custom(path)) {
        r == Err::<Seq<char>, SetError>(SetError::AlreadyExists) && after == before
    } else {
        r == Ok::<Seq<char>, SetError>(path) && after == before.insert(
            MappingKey::Custom(path),
            url->0,
        )
    }
}

/// Whether `a` can be a generated alias: `GENERATED_LENGTH` ASCII letters.
pub open spec fn is_generated_alias(a: Seq<char>) -> bool {
    a.len() == GENERATED_LENGTH && forall|i: int| 0 <= i < a.len() ==> is_letter(#[trigger] a[i])
}

/// Whether `m` holds no key that a generation could claim: then the first
/// candidate drawn is free.
pub open spec fn generated_namespace_free(m: Map<MappingKey, Seq<char>>) -> bool {
    forall|a: Seq<char>| #[trigger] is_generated_alias(a) ==> !m.contains_key(MappingKey::Generated(a))
}

/// Whether a generation with `attempts` tries over the records `m` must
/// succeed, whatever is drawn.
pub open spec fn generation_owed(attempts: u32, m: Map<MappingKey, Seq<char>>) -> bool {
    attempts > 0 && generated_namespace_free(m)
}

/// The outcome of claiming a generated alias for the parsed target `url`,
/// with the namespace's records before and after.
pub open spec fn generated_install(
    before: Map<MappingKey, Seq<char>>,
    after: Map<MappingKey, Seq<char>>,
    url: Option<Seq<char>>,
    r: Result<Seq<char>, SetError>,
) -> bool {
    if url is None {
        r == Err::<Seq<char>, SetError>(SetError::InvalidUrl) && after == before
    } else {
        match r {
            Ok(a) => is_generated_alias(a) && !before.contains_key(MappingKey::Generated(a))
                && after == before.insert(MappingKey::Generated(a), url->0),
            Err(e) => e == SetError::AllocationExhausted && after == before,
        }
    }
}

/// The outcome of claiming the candidate `candidate` in the generated
/// namespace for the target `url`, with the namespace's records before and after.
pub open spec fn generated_claim(
    before: Map<MappingKey, Seq<char>>,
    after: Map<MappingKey, Seq<char>>,
    candidate: Seq<char>,
    url: Seq<char>,
    r: Result<Seq<char>, SetError>,
) -> bool {
    if !is_alias(candidate) {
        r matches Err(SetError::InvalidPath(e)) && rejects_as(candidate, e) && after == before
    } else if before.contains_key(MappingKey::Generated(candidate)) {
        r == Err::<Seq<char>, SetError>(SetError::AlreadyExists) && after == before
    } else {
        r == Ok::<Seq<char>, SetError>(candidate) && after == before.insert(
            MappingKey::Generated(candidate),
            url,
        )
    }
}

/// What a request with the given path, and with or without a target URL, asks for.
pub open spec fn action_for(path: Option<Seq<char>>, has_url: bool) -> Action {
    if path is Some && invalid_chars(path->0).len() > 0 {
        Action::RejectPath
    } else if !has_url {
        Action::InvalidRequest
    } else if path is Some && path->0.len() > 0 {
        Action::Install
    } else {
        Action::Generate
    }
}

/// The text of an optional string.
pub open spec fn opt_view(o: Option<&str>) -> Option<Seq<char>> {
    match o {
        Some(s) => Some(s@),
        None => None,
    }
}

/// What a request with the given path, and with or without a target URL, asks for.
pub fn request_action(path: Option<&str>, has_url: bool) -> (r: Action)
    ensures
        r == action_for(opt_view(path), has_url),
{
    match path {
        Some(p) => {
            proof {
                lemma_no_invalid_chars(p@);
            }
            if path_is_invalid(p) {
                Action::RejectPath
            } else if !has_url {
                Action::InvalidRequest
            } else if p.unicode_len() > 0 {
                Action::Install
            } else {
                Action::Generate
            }
        },
        None => if has_url {
            Action::Generate
        } else {
            Action::InvalidRequest
        },
    }
}

/// The two namespaces that creation requests write to.
pub struct SetMappingInner<D: DatabaseClient> {
    pub gen_config: RedirectConfig<D>,
    pub custom_config: RedirectConfig<D>,
}

/// The allocator: claims custom aliases, and draws random ones until the
/// store accepts one or the attempts run out.
pub struct SetMapping<D: DatabaseClient> {
    inner: SetMappingInner<D>,
    max_attempts: u32,
}

impl<D: DatabaseClient> SetMapping<D> {
    /// The records of the generated namespace.
    pub closed spec fn generated(&self) -> Map<MappingKey, Seq<char>> {
        self.inner.gen_config.mappings()
    }

    /// The records of the custom namespace.
    pub closed spec fn custom(&self) -> Map<MappingKey, Seq<char>> {
        self.inner.custom_config.mappings()
    }

    /// The number of random candidates tried per generation.
    pub closed spec fn attempts(&self) -> u32 {
        self.max_attempts
    }

    pub closed spec fn well_formed(&self) -> bool {
        self.inner.gen_config.well_formed() && self.inner.custom_config.well_formed()
    }

    pub fn new(gen_config: RedirectConfig<D>, custom_config: RedirectConfig<D>) -> (r: SetMapping<
        D,
    >)
        requires
            gen_config.well_formed(),
            custom_config.well_formed(),
        ensures
            r.well_formed(),
            r.generated() == gen_config.mappings(),
            r.custom() == custom_config.mappings(),
            r.attempts() == DEFAULT_MAX_ATTEMPTS,
    {
        SetMapping {
            inner: SetMappingInner { gen_config, custom_config },
            max_attempts: DEFAULT_MAX_ATTEMPTS,
        }
    }

    /// The same allocator, trying at most `n` random candidates per generation.
    pub fn with_max_attempts(self, n: u32) -> (r: SetMapping<D>)
        ensures
            r.well_formed() == self.well_formed(),
            r.generated() == self.generated(),
            r.custom() == self.custom(),
            r.attempts() == n,
    {
        SetMapping { inner: self.inner, max_attempts: n }
    }

    /// The two namespaces.
    pub fn inner(&self) -> (r: &SetMappingInner<D>)
        ensures
            r.gen_config.mappings() == self.generated(),
            r.custom_config.mappings() == self.custom(),
            self.well_formed() ==> r.gen_config.well_formed() && r.custom_config.well_formed(),
    {
        &self.inner
    }

    /// Gives up the allocator, handing back the two namespaces.
    pub fn into_inner(self) -> (r: SetMappingInner<D>)
        ensures
            r.gen_config.mappings() == self.generated(),
            r.custom_config.mappings() == self.custom(),
            self.well_formed() ==> r.gen_config.well_formed() && r.custom_config.well_formed(),
    {
        self.inner
    }

    /// Claims the alias `alias` in the custom namespace for `url`.
    pub fn install_url(&mut self, alias: Suffix, url: Url) -> (r: Result<Suffix, SetError>)
        requires
            old(self).well_formed(),
        ensures
            final(self).well_formed(),
            final(self).generated() == old(self).generated(),
            final(self).attempts() == old(self).attempts(),
            is_alias(alias@),
            custom_install(
                old(self).custom(),
                final(self).custom(),
                alias@,
                Some(url@),
                alias_result(r),
            ),
    {
        if self.inner.custom_config.install_mapping(alias.as_str(), url) {
            Ok(alias)
        } else {
            Err(SetError::AlreadyExists)
        }
    }

    /// Claims `path` in the custom namespace for the URL that `url` parses to.
    pub fn install(&mut self, path: &str, url: &str) -> (r: Result<Suffix, SetError>)
        requires
            old(self).well_formed(),
        ensures
            final(self).well_formed(),
            final(self).generated() == old(self).generated(),
            final(self).attempts() == old(self).attempts(),
            custom_install(
                old(self).custom(),
                final(self).custom(),
                path@,
                parsed_url(url@),
                alias_result(r),
            ),
    {
        let alias = match Suffix::new(path) {
            Ok(a) => a,
            Err(e) => return Err(SetError::InvalidPath(e)),
        };
        match Url::parse(url) {
            Some(u) => self.install_url(alias, u),
            None => Err(SetError::InvalidUrl),
        }
    }

    /// Claims `candidate` in the generated namespace for `url`, where it is
    /// an alias and free.
    pub fn claim_candidate(&mut self, candidate: Vec<char>, url: Url) -> (r: Result<
        Suffix,
        SetError,
    >)
        requires
            old(self).well_formed(),
        ensures
            final(self).well_formed(),
            final(self).custom() == old(self).custom(),
            final(self).attempts() == old(self).attempts(),
            generated_claim(
                old(self).generated(),
                final(self).generated(),
                candidate@,
                url@,
                alias_result(r),
            ),
    {
        let text = chars_to_string(&candidate);
        match Suffix::new(text.as_str()) {
            Err(e) => Err(SetError::InvalidPath(e)),
            Ok(alias) => {
                if self.inner.gen_config.install_generated(candidate, url) {
                    Ok(alias)
                } else {
                    Err(SetError::AlreadyExists)
                }
            },
        }
    }

    /// Draws random candidates and claims the first that is free in the
    /// generated namespace for `url`, giving up after the configured number
    /// of attempts.
    pub fn generate_with_url(&mut self, url: Url) -> (r: Result<Suffix, SetError>)
        requires
            old(self).well_formed(),
        ensures
            final(self).well_formed(),
            final(self).custom() == old(self).custom(),
            final(self).attempts() == old(self).attempts(),
            generated_install(old(self).generated(), final(self).generated(), Some(url@), alias_result(r)),
            generation_owed(old(self).attempts(), old(self).generated()) ==> r is Ok,
    {
        let mut tries: u32 = 0;
        while tries < self.max_attempts
            invariant
                generation_owed(old(self).attempts(), old(self).generated()) ==> tries == 0,
                self.well_formed(),
                self.generated() == old(self).generated(),
                self.custom() == old(self).custom(),
                self.attempts() == old(self).attempts(),
            decreases self.max_attempts - tries,
        {
            let candidate = draw_candidate();
            let ghost drawn = candidate@;
            proof {
                assert(is_alias(drawn)) by {
                    assert forall|i: int| 0 <= i < drawn.len() implies is_alias_char(
                        #[trigger] drawn[i],
                    ) by {
                        assert(is_letter(drawn[i]));
                    }
                }
            }
            proof {
                assert(is_generated_alias(drawn));
            }
            if let Ok(alias) = self.claim_candidate(candidate, url.duplicate()) {
                return Ok(alias);
            }
            tries = tries + 1;
        }
        Err(SetError::AllocationExhausted)
    }

    /// Claims a random alias in the generated namespace for the URL that
    /// `url` parses to.
    pub fn generate_and_install(&mut self, url: &str) -> (r: Result<Suffix, SetError>)
        requires
            old(self).well_formed(),
        ensures
            final(self).well_formed(),
            final(self).custom() == old(self).custom(),
            final(self).attempts() == old(self).attempts(),
            generated_install(
                old(self).generated(),
                final(self).generated(),
                parsed_url(url@),
                alias_result(r),
            ),
            parsed_url(url@) is Some && generation_owed(old(self).attempts(), old(self).generated())
                ==> r is Ok,
    {
        match Url::parse(url) {
            Some(u) => self.generate_with_url(u),
            None => Err(SetError::InvalidUrl),
        }
    }

    /// Serves a creation request: a path that is not an alias is rejected;
    /// without a target URL the request is invalid; a non-empty path is
    /// claimed as a custom alias; otherwise an alias is generated.
    pub fn handle_method(&mut self, path: Option<&str>, url: Option<&str>) -> (r: Result<
        Claimed,
        SetError,
    >)
        requires
            old(self).well_formed(),
        ensures
            final(self).well_formed(),
            final(self).attempts() == old(self).attempts(),
            action_for(opt_view(path), url is Some) == Action::RejectPath ==> (r matches Err(
                SetError::InvalidPath(e),
            ) && rejects_as(opt_view(path)->0, e)) && final(self).custom() == old(self).custom()
                && final(self).generated() == old(self).generated(),
            action_for(opt_view(path), url is Some) == Action::InvalidRequest ==> r == Err::<
                Claimed,
                SetError,
            >(SetError::InvalidRequest) && final(self).custom() == old(self).custom()
                && final(self).generated() == old(self).generated(),
            action_for(opt_view(path), url is Some) == Action::Install ==> final(self).generated()
                == old(self).generated() && (r is Ok ==> claimed_namespace(r->Ok_0)
                == Namespace::Custom) && custom_install(
                old(self).custom(),
                final(self).custom(),
                opt_view(path)->0,
                parsed_url(opt_view(url)->0),
                claimed_text(r),
            ),
            action_for(opt_view(path), url is Some) == Action::Generate ==> final(self).custom()
                == old(self).custom() && (r is Ok ==> claimed_namespace(r->Ok_0)
                == Namespace::Generated) && generated_install(
                old(self).generated(),
                final(self).generated(),
                parsed_url(opt_view(url)->0),
                claimed_text(r),
            ),
            action_for(opt_view(path), url is Some) == Action::Generate && parsed_url(
                opt_view(url)->0,
            ) is Some && generation_owed(old(self).attempts(), old(self).generated()) ==> r is Ok,
    {
        match request_action(path, url.is_some()) {
            Action::RejectPath => {
                let p = path.unwrap();
                match Suffix::new(p) {
                    Err(e) => Err(SetError::InvalidPath(e)),
                    Ok(_) => Err(SetError::InvalidRequest),
                }
            },
            Action::InvalidRequest => Err(SetError::InvalidRequest),
            Action::Install => match self.install(path.unwrap(), url.unwrap()) {
                Ok(a) => Ok(Claimed::Custom(a)),
                Err(e) => Err(e),
            },
            Action::Generate => match self.generate_and_install(url.unwrap()) {
                Ok(a) => Ok(Claimed::Generated(a)),
                Err(e) => Err(e),
            },
        }
    }
}

} // verus!

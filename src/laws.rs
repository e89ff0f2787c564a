//! Laws that relate several calls on a store and on the allocator.

use vstd::prelude::*;
use crate::database::{create_step, drop_step};
use crate::mapping::MappingKey;
use crate::set::generated_install;
use crate::set::SetError;

verus! {

/// Whether `states`, `urls` and `results` record a series of create-if-absent
/// calls on `k`: call `i` takes `states[i]` to `states[i + 1]` with target
/// `urls[i]` and reports `results[i]`.
pub open spec fn create_series(
    states: Seq<Map<MappingKey, Seq<char>>>,
    k: MappingKey,
    urls: Seq<Seq<char>>,
    results: Seq<bool>,
) -> bool {
    &&& states.len() == urls.len() + 1
    &&& results.len() == urls.len()
    &&& forall|i: int|
        0 <= i < urls.len() ==> create_step(states[i], states[i + 1], k, urls[i], #[trigger] results[i])
}

proof fn lemma_first_target_stays(
    states: Seq<Map<MappingKey, Seq<char>>>,
    k: MappingKey,
    urls: Seq<Seq<char>>,
    results: Seq<bool>,
    n: int,
)
    requires
        create_series(states, k, urls, results),
        !states[0].contains_key(k),
        1 <= n <= urls.len(),
    ensures
        states[n].contains_key(k),
        states[n][k] == urls[0],
        forall|i: int| 1 <= i < n ==> !#[trigger] results[i],
    decreases n,
{
    assert(create_step(states[0], states[1], k, urls[0], results[0]));
    if n > 1 {
        lemma_first_target_stays(states, k, urls, results, n - 1);
        assert(create_step(states[n - 1], states[n], k, urls[n - 1], results[n - 1]));
    }
}

/// On a key that is absent, the first create-if-absent call succeeds and
/// every later call on the same key fails, whatever its target; the record
/// keeps the first call's target.
pub proof fn lemma_create_once(
    states: Seq<Map<MappingKey, Seq<char>>>,
    k: MappingKey,
    urls: Seq<Seq<char>>,
    results: Seq<bool>,
)
    requires
        create_series(states, k, urls, results),
        !states[0].contains_key(k),
        urls.len() > 0,
    ensures
        results[0],
        forall|i: int| 1 <= i < results.len() ==> !#[trigger] results[i],
        states.last().contains_key(k),
        states.last()[k] == urls[0],
{
    assert(create_step(states[0], states[1], k, urls[0], results[0]));
    lemma_first_target_stays(states, k, urls, results, urls.len() as int);
}

/// However many callers race to create an absent key, their calls take
/// effect one at a time, and exactly one of them reports success.
pub proof fn lemma_one_winner(
    states: Seq<Map<MappingKey, Seq<char>>>,
    k: MappingKey,
    urls: Seq<Seq<char>>,
    results: Seq<bool>,
)
    requires
        create_series(states, k, urls, results),
        !states[0].contains_key(k),
        urls.len() > 0,
    ensures
        exists|w: int|
            0 <= w < results.len() && #[trigger] results[w] && forall|i: int|
                0 <= i < results.len() && #[trigger] results[i] ==> i == w,
{
    lemma_create_once(states, k, urls, results);
    assert(results[0]);
}

/// After a drop that removed a key, creating that key succeeds again, with
/// the new target.
pub proof fn lemma_create_after_drop(
    m0: Map<MappingKey, Seq<char>>,
    m1: Map<MappingKey, Seq<char>>,
    m2: Map<MappingKey, Seq<char>>,
    k: MappingKey,
    url: Seq<char>,
    dropped: bool,
    created: bool,
)
    requires
        drop_step(m0, m1, k, dropped),
        dropped,
        create_step(m1, m2, k, url, created),
    ensures
        created,
        m2.contains_key(k),
        m2[k] == url,
{
}

/// Whether `states`, `urls` and `aliases` record a series of successful
/// generations: generation `i` takes `states[i]` to `states[i + 1]`, for the
/// target `urls[i]`, and claims `aliases[i]`.
pub open spec fn generation_series(
    states: Seq<Map<MappingKey, Seq<char>>>,
    urls: Seq<Seq<char>>,
    aliases: Seq<Seq<char>>,
) -> bool {
    &&& states.len() == urls.len() + 1
    &&& aliases.len() == urls.len()
    &&& forall|i: int|
        0 <= i < urls.len() ==> generated_install(
            states[i],
            states[i + 1],
            Some(urls[i]),
            Ok::<Seq<char>, SetError>(#[trigger] aliases[i]),
        )
}

proof fn lemma_generated_kept(
    states: Seq<Map<MappingKey, Seq<char>>>,
    urls: Seq<Seq<char>>,
    aliases: Seq<Seq<char>>,
    n: int,
)
    requires
        generation_series(states, urls, aliases),
        0 <= n <= urls.len(),
    ensures
        forall|j: int|
            0 <= j < n ==> states[n].contains_key(MappingKey::Generated(#[trigger] aliases[j]))
                && states[n][MappingKey::Generated(aliases[j])] == urls[j],
    decreases n,
{
    if n > 0 {
        lemma_generated_kept(states, urls, aliases, n - 1);
        let i = n - 1;
        assert(generated_install(
            states[i],
            states[i + 1],
            Some(urls[i]),
            Ok::<Seq<char>, SetError>(aliases[i]),
        ));
        assert forall|j: int|
            0 <= j < n implies states[n].contains_key(MappingKey::Generated(#[trigger] aliases[j]))
                && states[n][MappingKey::Generated(aliases[j])] == urls[j] by {
            if j < i {
                assert(states[i].contains_key(MappingKey::Generated(aliases[j])));
                assert(MappingKey::Generated(aliases[j]) != MappingKey::Generated(aliases[i]));
            }
        }
    }
}

/// Successive successful generations claim distinct aliases, and afterwards
/// each alias still leads to the target it was generated for.
pub proof fn lemma_generated_distinct(
    states: Seq<Map<MappingKey, Seq<char>>>,
    urls: Seq<Seq<char>>,
    aliases: Seq<Seq<char>>,
)
    requires
        generation_series(states, urls, aliases),
    ensures
        forall|i: int, j: int|
            0 <= i < j < aliases.len() ==> #[trigger] aliases[i] != #[trigger] aliases[j],
        forall|i: int|
            0 <= i < aliases.len() ==> states.last().contains_key(
                MappingKey::Generated(#[trigger] aliases[i]),
            ) && states.last()[MappingKey::Generated(aliases[i])] == urls[i],
{
    lemma_generated_kept(states, urls, aliases, urls.len() as int);
    assert forall|i: int, j: int|
        0 <= i < j < aliases.len() implies #[trigger] aliases[i] != #[trigger] aliases[j] by {
        lemma_generated_kept(states, urls, aliases, j);
        assert(generated_install(
            states[j],
            states[j + 1],
            Some(urls[j]),
            Ok::<Seq<char>, SetError>(aliases[j]),
        ));
        assert(states[j].contains_key(MappingKey::Generated(aliases[i])));
    }
}

} // verus!

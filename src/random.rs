//! Random candidate aliases: short texts of ASCII letters.

use rand::Rng;
use vstd::prelude::*;

verus! {

/// The number of characters in a generated alias.
pub const GENERATED_LENGTH: usize = 5;

/// An ASCII letter, upper or lower case.
pub open spec fn is_letter(c: char) -> bool {
    ('A' <= c && c <= 'Z') || ('a' <= c && c <= 'z')
}

/// The letter at position `i` of the alphabet `A..=Z` followed by `a..=z`.
pub open spec fn letter_at(i: u8) -> char {
    if i < 26 {
        ((65 + i) as u8) as char
    } else {
        ((97 + i - 26) as u8) as char
    }
}

/// Relies on `rand::thread_rng` and `Rng::gen_range`: a number drawn from
/// `0..bound`, which must not be empty.
#[verifier::external_body]
fn random_below(bound: u8) -> (r: u8)
    requires
        bound > 0,
    ensures
        r < bound,
{
    rand::thread_rng().gen_range(0..bound)
}

/// The letter at position `i` of the 52-letter alphabet.
pub fn letter(i: u8) -> (c: char)
    requires
        i < 52,
    ensures
        c == letter_at(i),
        is_letter(c),
{
    if i < 26 {
        (65 + i) as char
    } else {
        (97 + (i - 26)) as char
    }
}

/// A candidate alias: `GENERATED_LENGTH` letters, each drawn uniformly from
/// the 52 ASCII letters.
pub fn draw_candidate() -> (r: Vec<char>)
    ensures
        r.len() == GENERATED_LENGTH,
        forall|i: int| 0 <= i < r.len() ==> is_letter(#[trigger] r@[i]),
{
    let mut out: Vec<char> = Vec::new();
    while out.len() < GENERATED_LENGTH
        invariant
            out.len() <= GENERATED_LENGTH,
            forall|i: int| 0 <= i < out.len() ==> is_letter(#[trigger] out@[i]),
        decreases GENERATED_LENGTH - out.len(),
    {
        let i = random_below(52);
        out.push(letter(i));
    }
    out
}

} // verus!

//! The keys under which redirects are stored.

use vstd::prelude::*;

verus! {

/// What a mapping key denotes: the namespace and the text of the alias.
pub enum MappingKey {
    Generated(Seq<char>),
    Custom(Seq<char>),
}

/// The text of a key, without its namespace.
pub open spec fn key_text(k: MappingKey) -> Seq<char> {
    match k {
        MappingKey::Generated(cs) => cs,
        MappingKey::Custom(s) => s,
    }
}

/// The identity of a stored redirect: an alias chosen by the requester, or
/// one chosen at random by the allocator.
#[derive(Debug)]
pub enum Mapping {
    Generated(Vec<char>),
    Custom(String),
}

impl View for Mapping {
    type V = MappingKey;

    open spec fn view(&self) -> MappingKey {
        match self {
            Mapping::Generated(cs) => MappingKey::Generated(cs@),
            Mapping::Custom(s) => MappingKey::Custom(s@),
        }
    }
}

/// Relies on `String::push`: appends one character.
#[verifier::external_body]
pub(crate) fn push_char(s: &mut String, c: char)
    ensures
        final(s)@ == old(s)@.push(c),
{
    s.push(c)
}

/// The text of `cs` as a string.
pub fn chars_to_string(cs: &Vec<char>) -> (r: String)
    ensures
        r@ == cs@,
{
    let mut out = String::new();
    let mut i: usize = 0;
    while i < cs.len()
        invariant
            i <= cs.len(),
            out@ == cs@.subrange(0, i as int),
        decreases cs.len() - i,
    {
        push_char(&mut out, cs[i]);
        assert(cs@.subrange(0, i as int + 1) == cs@.subrange(0, i as int).push(cs@[i as int]));
        i = i + 1;
    }
    assert(cs@.subrange(0, cs.len() as int) == cs@);
    out
}

/// The text of a key, without its namespace.
pub fn map_to_string(m: &Mapping) -> (r: String)
    ensures
        r@ == key_text(m@),
{
    match m {
        Mapping::Generated(cs) => chars_to_string(cs),
        Mapping::Custom(s) => s.clone(),
    }
}

/// Whether two character vectors hold the same characters.
fn same_chars(a: &Vec<char>, b: &Vec<char>) -> (r: bool)
    ensures
        r == (a@ == b@),
{
    if a.len() != b.len() {
        return false;
    }
    let mut i: usize = 0;
    while i < a.len()
        invariant
            a.len() == b.len(),
            i <= a.len(),
            forall|j: int| 0 <= j < i ==> a@[j] == b@[j],
        decreases a.len() - i,
    {
        if a[i] != b[i] {
            return false;
        }
        i = i + 1;
    }
    assert(a@ == b@);
    true
}

impl Mapping {
    /// Whether two keys are the same key: same namespace and same text.
    pub fn same_key(&self, other: &Mapping) -> (r: bool)
        ensures
            r == (self@ == other@),
    {
        match self {
            Mapping::Custom(a) => match other {
                Mapping::Custom(b) => *a == *b,
                Mapping::Generated(_) => false,
            },
            Mapping::Generated(a) => match other {
                Mapping::Custom(_) => false,
                Mapping::Generated(b) => same_chars(a, b),
            },
        }
    }

    /// A copy of this key.
    pub fn duplicate(&self) -> (r: Mapping)
        ensures
            r@ == self@,
    {
        match self {
            Mapping::Custom(s) => Mapping::Custom(s.clone()),
            Mapping::Generated(cs) => {
                let mut out: Vec<char> = Vec::new();
                let mut i: usize = 0;
                while i < cs.len()
                    invariant
                        i <= cs.len(),
                        out@ == cs@.subrange(0, i as int),
                    decreases cs.len() - i,
                {
                    out.push(cs[i]);
                    i = i + 1;
                }
                assert(cs@.subrange(0, cs.len() as int) == cs@);
                Mapping::Generated(out)
            },
        }
    }
}

} // verus!

//! Aliases: the short path tokens under which redirects are stored.

use vstd::prelude::*;

verus! {

/// A character allowed in an alias: an ASCII letter, an ASCII digit or `-`.
pub open spec fn is_alias_char(c: char) -> bool {
    ('a' <= c && c <= 'z') || ('A' <= c && c <= 'Z') || ('0' <= c && c <= '9') || c == '-'
}

/// The characters of `s` that may not stand in an alias, in order of occurrence,
/// repeated as often as they occur.
pub open spec fn invalid_chars(s: Seq<char>) -> Seq<char> {
    s.filter(|c: char| !is_alias_char(c))
}

/// Whether `s` is a well-formed alias: non-empty, and every character allowed.
pub open spec fn is_alias(s: Seq<char>) -> bool {
    s.len() > 0 && forall|i: int| 0 <= i < s.len() ==> is_alias_char(#[trigger] s[i])
}

/// A validated alias. Its text is non-empty and holds only allowed characters.
#[derive(Debug, PartialEq, Eq)]
pub struct Suffix(String);

/// Why a text is not an alias.
#[derive(Debug, PartialEq, Eq, Clone)]
pub enum InvalidSuffix {
    /// Every offending character, in order of occurrence.
    InvalidCharacters(Vec<char>),
    /// The text was empty.
    NoCharacters,
}

/// A request made of the store: bind an alias to a URL, or shorten a URL
/// under a generated alias.
#[derive(Debug, PartialEq, Eq)]
pub enum Command {
    CreateAlias(String, Suffix),
    Shorten(String),
}

impl View for Suffix {
    type V = Seq<char>;

    closed spec fn view(&self) -> Seq<char> {
        self.0@
    }
}

/// Whether `e` is the failure that validating `s` reports.
pub open spec fn rejects_as(s: Seq<char>, e: InvalidSuffix) -> bool {
    if s.len() == 0 {
        e == InvalidSuffix::NoCharacters
    } else {
        e matches InvalidSuffix::InvalidCharacters(v) && v@ == invalid_chars(s)
    }
}

/// A text has no invalid characters exactly when all of its characters are allowed.
pub proof fn lemma_no_invalid_chars(s: Seq<char>)
    ensures
        invalid_chars(s).len() == 0 <==> forall|i: int| 0 <= i < s.len() ==> is_alias_char(
            #[trigger] s[i],
        ),
{
    let pred = |c: char| !is_alias_char(c);
    if invalid_chars(s).len() == 0 {
        assert forall|i: int| 0 <= i < s.len() implies is_alias_char(#[trigger] s[i]) by {
            if !is_alias_char(s[i]) {
                s.lemma_filter_contains(pred, i);
                assert(s.filter(pred).contains(s[i]));
            }
        }
    } else {
        assert(s.filter(pred).len() > 0);
        s.lemma_filter_pred(pred, 0);
        let c = s.filter(pred)[0];
        assert(s.filter(pred).contains(c));
        s.lemma_filter_contains_rev(pred, c);
    }
}

impl Suffix {
    /// Every alias is non-empty and holds only allowed characters.
    #[verifier::type_invariant]
    pub closed spec fn valid(&self) -> bool {
        is_alias(self.0@)
    }

    /// Validates `s` as an alias. The empty text gives `NoCharacters`; a text
    /// with characters other than ASCII letters, digits and `-` gives
    /// `InvalidCharacters` with all of them; any other text is kept unchanged.
    pub fn new(s: &str) -> (r: Result<Suffix, InvalidSuffix>)
        ensures
            s@.len() == 0 ==> r == Err::<Suffix, InvalidSuffix>(InvalidSuffix::NoCharacters),
            s@.len() > 0 && invalid_chars(s@).len() == 0 ==> r is Ok && r->Ok_0@ == s@,
            s@.len() > 0 && invalid_chars(s@).len() > 0 ==> (r matches Err(
                InvalidSuffix::InvalidCharacters(v),
            ) && v@ == invalid_chars(s@)),
            r is Ok <==> is_alias(s@),
            r is Err ==> rejects_as(s@, r->Err_0),
    {
        proof {
            lemma_no_invalid_chars(s@);
        }
        let n = s.unicode_len();
        if n == 0 {
            return Err(InvalidSuffix::NoCharacters);
        }
        let mut bad: Vec<char> = Vec::new();
        let mut i: usize = 0;
        while i < n
            invariant
                n == s@.len(),
                i <= n,
                bad@ == invalid_chars(s@.subrange(0, i as int)),
            decreases n - i,
        {
            let c = s.get_char(i);
            let ghost prefix = s@.subrange(0, i as int + 1);
            proof {
                assert(prefix.drop_last() == s@.subrange(0, i as int));
                assert(prefix.last() == c);
                reveal(Seq::filter);
            }
            if is_invalid_char(&c) {
                bad.push(c);
            }
            assert(bad@ == invalid_chars(prefix));
            i = i + 1;
        }
        assert(s@.subrange(0, n as int) == s@);
        if bad.len() == 0 {
            Ok(Suffix(s.to_owned()))
        } else {
            Err(InvalidSuffix::InvalidCharacters(bad))
        }
    }

    /// The alias as text.
    pub fn as_str(&self) -> (r: &str)
        ensures
            r@ == self@,
            is_alias(self@),
    {
        proof {
            use_type_invariant(self);
        }
        self.0.as_str()
    }
}

/// Whether `c` may not stand in an alias.
pub fn is_invalid_char(c: &char) -> (r: bool)
    ensures
        r == !is_alias_char(*c),
{
    let c = *c;
    !(('a' <= c && c <= 'z') || ('A' <= c && c <= 'Z') || ('0' <= c && c <= '9') || c == '-')
}

/// Whether a requested path holds a character that may not stand in an alias.
/// The empty path holds none.
pub fn path_is_invalid(path: &str) -> (r: bool)
    ensures
        r == exists|i: int| 0 <= i < path@.len() && !is_alias_char(#[trigger] path@[i]),
{
    let n = path.unicode_len();
    let mut i: usize = 0;
    while i < n
        invariant
            n == path@.len(),
            i <= n,
            forall|j: int| 0 <= j < i ==> is_alias_char(#[trigger] path@[j]),
        decreases n - i,
    {
        let c = path.get_char(i);
        if is_invalid_char(&c) {
            return true;
        }
        i = i + 1;
    }
    false
}

} // verus!

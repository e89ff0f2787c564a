//! Target URLs: texts that parse as absolute URLs, kept in their
//! normalised form.

use vstd::prelude::*;

verus! {

/// The normalised text of `s` when it parses as an absolute URL that can be
/// a base and has a port, its own or its scheme's default (http and https
/// URLs do), and `None` when it does not.
pub uninterp spec fn parsed_url(s: Seq<char>) -> Option<Seq<char>>;

/// Relies on `iron::Url::parse` and the `Display` of `iron::Url`: whether the
/// text parses, and the normalised text, depend on the input text alone.
#[verifier::external_body]
fn parse_url_text(s: &str) -> (r: Option<String>)
    ensures
        r is Some <==> parsed_url(s@) is Some,
        r is Some ==> r->0@ == parsed_url(s@)->0,
{
    match iron::Url::parse(s) {
        Ok(u) => Some(u.to_string()),
        Err(_) => None,
    }
}

/// A target URL that parsed as an absolute URL, in normalised form.
#[derive(Debug, Clone, PartialEq, Eq)]
pub struct Url {
    text: String,
}

impl View for Url {
    type V = Seq<char>;

    closed spec fn view(&self) -> Seq<char> {
        self.text@
    }
}

impl Url {
    /// Parses `s` as an absolute URL; `None` when it does not parse.
    pub fn parse(s: &str) -> (r: Option<Url>)
        ensures
            r is Some <==> parsed_url(s@) is Some,
            r is Some ==> r->0@ == parsed_url(s@)->0,
    {
        match parse_url_text(s) {
            Some(text) => Some(Url { text }),
            None => None,
        }
    }

    /// The normalised text of the URL.
    pub fn as_str(&self) -> (r: &str)
        ensures
            r@ == self@,
    {
        self.text.as_str()
    }

    /// A copy of this URL.
    pub fn duplicate(&self) -> (r: Url)
        ensures
            r@ == self@,
    {
        Url { text: self.text.clone() }
    }
}

} // verus!

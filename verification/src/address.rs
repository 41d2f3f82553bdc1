//! URLs, held as their serialization.
use vstd::prelude::*;

verus! {

/// The serialization of the URL that `url::Url::parse` reads from `input`,
/// if it reads one.
pub uninterp spec fn parsed_url(input: Seq<char>) -> Option<Seq<char>>;

/// Parses `input` with `url::Url::parse` and serializes the result (`String::from(Url)`).
/// The contract names the result and says nothing more of it.
#[verifier::external_body]
fn parse_url(input: &str) -> (r: Option<String>)
    ensures
        r.deep_view() == parsed_url(input@),
{
    url::Url::parse(input).ok().map(String::from)
}

/// An absolute URL, held as its serialization.
#[derive(Debug, PartialEq, Eq)]
pub struct Url {
    serialization: String,
}

impl View for Url {
    type V = Seq<char>;

    closed spec fn view(&self) -> Seq<char> {
        self.serialization@
    }
}

impl DeepView for Url {
    type V = Seq<char>;

    open spec fn deep_view(&self) -> Seq<char> {
        self@
    }
}

impl Clone for Url {
    fn clone(&self) -> (r: Self)
        ensures
            r@ == self@,
    {
        Url { serialization: self.serialization.clone() }
    }
}

impl Url {
    /// Parses an absolute URL (`url::Url::parse`).
    pub fn parse(input: &str) -> (r: Option<Url>)
        ensures
            r.deep_view() == parsed_url(input@),
    {
        match parse_url(input) {
            Some(serialization) => Some(Url { serialization }),
            None => None,
        }
    }

    /// The placeholder site `https://unknown.com/`, for content whose source
    /// was not kept.
    pub fn unknown_site() -> (u: Url)
        ensures
            u@ == "https://unknown.com/"@,
    {
        Url { serialization: "https://unknown.com/".to_owned() }
    }

    /// The serialization of the URL.
    pub fn as_str(&self) -> (s: &str)
        ensures
            s@ == self@,
    {
        self.serialization.as_str()
    }
}

} // verus!

//! The address of a watch target.

use vstd::prelude::*;
use vstd::std_specs::convert::FromSpec;

verus! {

/// Whether `text` parses as an absolute URL.
pub uninterp spec fn url_parses(text: Seq<char>) -> bool;

/// Calls `url::Url::parse` and tells whether it accepted the text. The
/// parser reads nothing but its argument, so the contract gives the answer
/// its name.
#[verifier::external_body]
fn parses_as_url(text: &str) -> (r: bool)
    ensures
        r == url_parses(text@),
{
    url::Url::parse(text).is_ok()
}

/// The error of [`Url::new`]: the text is no absolute URL.
#[derive(Debug, Clone, Copy, PartialEq, Eq, Structural, PartialOrd, Ord)]
pub struct UrlParseError;

impl UrlParseError {
    /// The failure in words.
    pub fn to_string(&self) -> (r: String)
        ensures
            r@ == "failed to parse the URL."@,
    {
        "failed to parse the URL.".to_owned()
    }
}

/// A string known to parse as an absolute URL, kept as it was given.
#[derive(Debug, Eq, PartialOrd, Ord, Hash)]
pub struct Url(String);

impl View for Url {
    type V = Seq<char>;

    closed spec fn view(&self) -> Seq<char> {
        self.0@
    }
}

impl Clone for Url {
    fn clone(&self) -> (r: Url)
        ensures
            r == *self,
    {
        proof {
            use_type_invariant(self);
        }
        Url(self.0.clone())
    }
}

impl PartialEq for Url {
    fn eq(&self, other: &Url) -> (r: bool) {
        self.0 == other.0
    }
}

impl vstd::std_specs::cmp::PartialEqSpecImpl for Url {
    open spec fn obeys_eq_spec() -> bool {
        true
    }

    open spec fn eq_spec(&self, other: &Url) -> bool {
        self@ == other@
    }
}

impl From<Url> for String {
    fn from(url: Url) -> (r: String) {
        url.0
    }
}

impl vstd::std_specs::convert::FromSpecImpl<Url> for String {
    open spec fn obeys_from_spec() -> bool {
        true
    }

    closed spec fn from_spec(url: Url) -> String {
        url.0
    }
}

/// Turning an address into a `String` gives its text.
pub proof fn lemma_into_text(url: Url)
    ensures
        String::from_spec(url)@ == url@,
{
}

impl Url {
    #[verifier::type_invariant]
    spec fn valid(self) -> bool {
        url_parses(self.0@)
    }

    /// Accepts `url` exactly when it parses as an absolute URL, and keeps it
    /// verbatim.
    pub fn new(url: String) -> (r: Result<Url, UrlParseError>)
        ensures
            r.is_ok() <==> url_parses(url@),
            r.is_ok() ==> r.unwrap()@ == url@,
    {
        if parses_as_url(url.as_str()) {
            Ok(Url(url))
        } else {
            Err(UrlParseError)
        }
    }

    /// The address as text.
    pub fn as_str(&self) -> (r: &str)
        ensures
            r@ == self@,
            url_parses(r@),
    {
        proof {
            use_type_invariant(self);
        }
        self.0.as_str()
    }

    /// The address as owned text.
    pub fn into_string(self) -> (r: String)
        ensures
            r@ == self@,
            url_parses(r@),
    {
        proof {
            use_type_invariant(&self);
        }
        self.0
    }
}

} // verus!

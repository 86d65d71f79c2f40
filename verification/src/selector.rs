//! The CSS selector of a watch target.

use vstd::prelude::*;
use vstd::std_specs::convert::FromSpec;

verus! {

/// Whether `text` parses as a CSS selector group.
pub uninterp spec fn selector_parses(text: Seq<char>) -> bool;

/// Calls `scraper::Selector::parse` and tells whether it accepted the text.
/// The parser reads nothing but its argument, so the contract gives the
/// answer its name.
#[verifier::external_body]
fn parses_as_selector(text: &str) -> (r: bool)
    ensures
        r == selector_parses(text@),
{
    scraper::Selector::parse(text).is_ok()
}

/// The error of [`Selector::new`]: the text is no CSS selector.
#[derive(Debug, Clone, Copy, PartialEq, Eq, Structural, PartialOrd, Ord)]
pub struct SelectorParseError;

impl SelectorParseError {
    /// The failure in words.
    pub fn to_string(&self) -> (r: String)
        ensures
            r@ == "failed to parse the selector."@,
    {
        "failed to parse the selector.".to_owned()
    }
}

/// A string known to parse as a CSS selector, kept as it was given.
#[derive(Debug, Eq, PartialOrd, Ord)]
pub struct Selector(String);

impl View for Selector {
    type V = Seq<char>;

    closed spec fn view(&self) -> Seq<char> {
        self.0@
    }
}

impl Clone for Selector {
    fn clone(&self) -> (r: Selector)
        ensures
            r == *self,
    {
        proof {
            use_type_invariant(self);
        }
        Selector(self.0.clone())
    }
}

impl PartialEq for Selector {
    fn eq(&self, other: &Selector) -> (r: bool) {
        self.0 == other.0
    }
}

impl vstd::std_specs::cmp::PartialEqSpecImpl for Selector {
    open spec fn obeys_eq_spec() -> bool {
        true
    }

    open spec fn eq_spec(&self, other: &Selector) -> bool {
        self@ == other@
    }
}

impl From<Selector> for String {
    fn from(selector: Selector) -> (r: String) {
        selector.0
    }
}

impl vstd::std_specs::convert::FromSpecImpl<Selector> for String {
    open spec fn obeys_from_spec() -> bool {
        true
    }

    closed spec fn from_spec(selector: Selector) -> String {
        selector.0
    }
}

/// Turning a selector into a `String` gives its text.
pub proof fn lemma_into_text(selector: Selector)
    ensures
        String::from_spec(selector)@ == selector@,
{
}

impl Selector {
    #[verifier::type_invariant]
    spec fn valid(self) -> bool {
        selector_parses(self.0@)
    }

    /// Accepts `selector` exactly when it parses as a CSS selector, and keeps it
    /// verbatim.
    pub fn new(selector: String) -> (r: Result<Selector, SelectorParseError>)
        ensures
            r.is_ok() <==> selector_parses(selector@),
            r.is_ok() ==> r.unwrap()@ == selector@,
    {
        if parses_as_selector(selector.as_str()) {
            Ok(Selector(selector))
        } else {
            Err(SelectorParseError)
        }
    }

    /// The selector as text.
    pub fn as_str(&self) -> (r: &str)
        ensures
            r@ == self@,
            selector_parses(r@),
    {
        proof {
            use_type_invariant(self);
        }
        self.0.as_str()
    }

    /// The selector as owned text.
    pub fn into_string(self) -> (r: String)
        ensures
            r@ == self@,
            selector_parses(r@),
    {
        proof {
            use_type_invariant(&self);
        }
        self.0
    }
}

} // verus!

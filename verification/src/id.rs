//! The name of a watch target.

use vstd::prelude::*;
use vstd::std_specs::convert::TryFromSpec;

verus! {

/// Whether `c` is a lowercase hexadecimal digit.
pub open spec fn is_lower_hex_char(c: char) -> bool {
    ('0' <= c <= '9') || ('a' <= c <= 'f')
}

/// What reading `text` as an id gives: the text itself, unless it is empty.
pub open spec fn id_of_text(text: Seq<char>) -> Option<Seq<char>> {
    if text.len() > 0 {
        Some(text)
    } else {
        None
    }
}

/// Every non-empty text reads as the id with that text, so the text of an
/// id reads back as that id.
pub proof fn lemma_id_round_trip(text: Seq<char>)
    requires
        text.len() > 0,
    ensures
        id_of_text(text) == Some(text),
{
}

/// The error of reading an id: the text is empty.
#[derive(Debug, Clone, Copy, PartialEq, Eq, Structural)]
pub struct FromStringError {}

impl FromStringError {
    /// The failure in words.
    pub fn to_string(&self) -> (r: String)
        ensures
            r@ == "Id must be a string that the length is more than 0."@,
    {
        "Id must be a string that the length is more than 0.".to_owned()
    }
}

/// A non-empty opaque string that names a watch target.
#[derive(Debug, Eq, PartialOrd, Ord, Hash)]
pub struct Id(String);

impl View for Id {
    type V = Seq<char>;

    closed spec fn view(&self) -> Seq<char> {
        self.0@
    }
}

impl Clone for Id {
    fn clone(&self) -> (r: Id)
        ensures
            r == *self,
    {
        proof {
            use_type_invariant(self);
        }
        Id(self.0.clone())
    }
}

impl PartialEq for Id {
    fn eq(&self, other: &Id) -> (r: bool) {
        self.0 == other.0
    }
}

impl vstd::std_specs::cmp::PartialEqSpecImpl for Id {
    open spec fn obeys_eq_spec() -> bool {
        true
    }

    open spec fn eq_spec(&self, other: &Id) -> bool {
        self@ == other@
    }
}

/// Calls `uuid::Uuid::new_v4` and writes the outcome with
/// `uuid::fmt::Simple::encode_lower`. The identifier is random, so the
/// contract states only what holds of every outcome: 32 lowercase
/// hexadecimal digits. On a machine whose source of randomness fails the
/// call panics.
#[verifier::external_body]
fn fresh_uuid_text() -> (r: String)
    ensures
        r@.len() == 32,
        forall|i: int| 0 <= i < r@.len() ==> is_lower_hex_char(#[trigger] r@[i]),
{
    let mut buf = [0u8; 32];
    uuid::Uuid::new_v4().simple().encode_lower(&mut buf).to_owned()
}

impl Id {
    #[verifier::type_invariant]
    spec fn nonempty(self) -> bool {
        self.0@.len() > 0
    }

    /// Mints a fresh id: 32 lowercase hexadecimal digits.
    pub fn new() -> (r: Id)
        ensures
            r@.len() == 32,
            forall|i: int| 0 <= i < r@.len() ==> is_lower_hex_char(#[trigger] r@[i]),
    {
        Id(fresh_uuid_text())
    }

    /// Reads an id from text: every non-empty text is one.
    pub fn parse(value: String) -> (r: Result<Id, FromStringError>)
        ensures
            r.is_ok() <==> id_of_text(value@).is_some(),
            r.is_ok() ==> Some(r.unwrap()@) == id_of_text(value@),
    {
        if !value.as_str().is_empty() {
            Ok(Id(value))
        } else {
            Err(FromStringError {})
        }
    }

    /// The id's text.
    pub fn as_str(&self) -> (r: &str)
        ensures
            r@ == self@,
            r@.len() > 0,
    {
        proof {
            use_type_invariant(self);
        }
        self.0.as_str()
    }

    /// The id's text, owned. Reading it back gives this id again.
    pub fn to_string(&self) -> (r: String)
        ensures
            r@ == self@,
            id_of_text(r@) == Some(self@),
    {
        proof {
            use_type_invariant(self);
        }
        self.0.clone()
    }
}

impl TryFrom<String> for Id {
    type Error = FromStringError;

    fn try_from(value: String) -> (r: Result<Id, FromStringError>) {
        if !value.as_str().is_empty() {
            Ok(Id(value))
        } else {
            Err(FromStringError {})
        }
    }
}

impl vstd::std_specs::convert::TryFromSpecImpl<String> for Id {
    open spec fn obeys_try_from_spec() -> bool {
        true
    }

    closed spec fn try_from_spec(value: String) -> Result<Id, FromStringError> {
        if value@.len() > 0 {
            Ok(Id(value))
        } else {
            Err(FromStringError {})
        }
    }
}

/// What `Id::try_from` returns, over the text: the id with that text, or the
/// error where the text is empty.
pub proof fn lemma_try_from_text(value: String)
    ensures
        Id::try_from_spec(value).is_ok() <==> id_of_text(value@).is_some(),
        Id::try_from_spec(value).is_ok() ==> Some(Id::try_from_spec(value).unwrap()@)
            == id_of_text(value@),
{
}

} // verus!

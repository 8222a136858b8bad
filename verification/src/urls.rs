//! The normalized absolute URL that keys every page row. Parsing and
//! normalization are delegated to the `url` crate; the rest of the core
//! only ever sees the serialized form.

use vstd::prelude::*;
use crate::error::{Error, ErrorKind};

verus! {

/// What `url::Url::parse` yields for an input: `Some` of the normalized
/// serialization when the input parses, `None` otherwise. The result is a
/// function of the input string alone.
pub uninterp spec fn parsed_url(s: Seq<char>) -> Option<Seq<char>>;

/// Relies on url::Url::parse and `String::from(Url)`: parsing either
/// rejects the input or yields its normalized absolute serialization.
#[verifier::external_body]
fn parse_to_string(s: &str) -> (r: Option<String>)
    ensures
        r matches Some(u) ==> parsed_url(s@) == Some(u@),
        r is None ==> parsed_url(s@) is None,
{
    match url::Url::parse(s) {
        Ok(u) => Some(String::from(u)),
        Err(_) => None,
    }
}

/// A normalized absolute URL, held in its serialized form.
#[derive(Debug)]
pub struct Url {
    serialization: String,
}

impl View for Url {
    type V = Seq<char>;

    closed spec fn view(&self) -> Seq<char> {
        self.serialization@
    }
}

impl Url {
    /// Parses and normalizes `input`; rejects it with `InvalidUrl` when it
    /// is not an absolute URL.
    pub fn parse(input: &str) -> (r: Result<Url, Error>)
        ensures
            r is Ok <==> parsed_url(input@) is Some,
            r matches Ok(u) ==> Some(u@) == parsed_url(input@),
            r matches Err(e) ==> e.kind == ErrorKind::InvalidUrl,
    {
        match parse_to_string(input) {
            Some(s) => Ok(Url { serialization: s }),
            None => Err(Error::new(ErrorKind::InvalidUrl)),
        }
    }

    pub fn as_str(&self) -> (r: &str)
        ensures
            r@ == self@,
    {
        self.serialization.as_str()
    }

    pub fn to_string(&self) -> (r: String)
        ensures
            r@ == self@,
    {
        self.serialization.clone()
    }

    pub fn into_string(self) -> (r: String)
        ensures
            r@ == self@,
    {
        self.serialization
    }
}

impl Clone for Url {
    fn clone(&self) -> (r: Url)
        ensures
            r@ == self@,
    {
        Url { serialization: self.serialization.clone() }
    }
}

impl PartialEq for Url {
    fn eq(&self, other: &Url) -> (r: bool) {
        self.serialization == other.serialization
    }
}

impl Eq for Url {}

impl vstd::std_specs::cmp::PartialEqSpecImpl for Url {
    open spec fn obeys_eq_spec() -> bool {
        true
    }

    open spec fn eq_spec(&self, other: &Url) -> bool {
        self@ == other@
    }
}

} // verus!

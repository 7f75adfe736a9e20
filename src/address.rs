//! Absolute addresses, parsed and joined by the `url` crate.

use vstd::prelude::*;

verus! {

#[verifier::external_type_specification]
#[verifier::external_body]
pub struct ExUrl(url::Url);

/// The serialization of the absolute URL that `url::Url::parse` reads from `s`,
/// or `None` where it reports an error.
pub uninterp spec fn parsed_url(s: Seq<char>) -> Option<Seq<char>>;

/// The serialization of the URL that `url::Url::join` builds from `reference`,
/// taken relative to the URL serialized as `base`, or `None` where it reports an error.
pub uninterp spec fn joined_url(base: Seq<char>, reference: Seq<char>) -> Option<Seq<char>>;

pub open spec fn is_ascii_letter(c: char) -> bool {
    ('a' <= c && c <= 'z') || ('A' <= c && c <= 'Z')
}

/// What holds of every URL serialization: it opens with the scheme, whose first
/// character is an ASCII letter, and parsing it again gives it back unchanged.
pub open spec fn is_absolute_url(t: Seq<char>) -> bool {
    &&& t.len() > 0
    &&& is_ascii_letter(t[0])
    &&& parsed_url(t) == Some(t)
}

/// An absolute URL, kept together with its serialization.
pub struct Address {
    url: url::Url,
    text: String,
}

impl View for Address {
    type V = Seq<char>;

    /// The serialization of the URL.
    closed spec fn view(&self) -> Seq<char> {
        self.text@
    }
}

/// The serializations of a sequence of addresses.
pub open spec fn addresses(v: Seq<Address>) -> Seq<Seq<char>> {
    v.map_values(|a: Address| a@)
}

/// Relies on `url::Url::parse`, which reads an absolute URL from `s`; its
/// `check_invariants` holds every URL to the scheme's leading letter and to
/// parsing back to itself.
#[verifier::external_body]
fn parse_url(s: &str) -> (r: Option<Address>)
    ensures
        match r {
            Some(a) => parsed_url(s@) == Some(a@) && is_absolute_url(a@),
            None => parsed_url(s@) is None,
        },
{
    match url::Url::parse(s) {
        Ok(url) => {
            let text = url.as_str().to_string();
            Some(Address { url, text })
        },
        Err(_) => None,
    }
}

/// Relies on `url::Url::join`, which parses `reference` with `base` as the base
/// URL; the result is a URL, with the same invariants as one from `parse`.
#[verifier::external_body]
fn join_url(base: &Address, reference: &str) -> (r: Option<Address>)
    ensures
        match r {
            Some(a) => joined_url(base@, reference@) == Some(a@) && is_absolute_url(a@),
            None => joined_url(base@, reference@) is None,
        },
{
    match base.url.join(reference) {
        Ok(url) => {
            let text = url.as_str().to_string();
            Some(Address { url, text })
        },
        Err(_) => None,
    }
}

impl Address {
    /// Parses `s` as an absolute URL.
    pub fn parse(s: &str) -> (r: Option<Address>)
        ensures
            match r {
                Some(a) => parsed_url(s@) == Some(a@) && is_absolute_url(a@),
                None => parsed_url(s@) is None,
            },
    {
        parse_url(s)
    }

    /// Resolves `reference` against this address.
    pub fn join(&self, reference: &str) -> (r: Option<Address>)
        ensures
            match r {
                Some(a) => joined_url(self@, reference@) == Some(a@) && is_absolute_url(a@),
                None => joined_url(self@, reference@) is None,
            },
    {
        join_url(self, reference)
    }

    /// The serialization of the URL.
    pub fn as_str(&self) -> (r: &str)
        ensures
            r@ == self@,
    {
        self.text.as_str()
    }
}

} // verus!

//! Absolute URLs, held as their text.
//!
//! Reading a URL and resolving one against another is the work of the `url`
//! crate. What it returns is not proved here: it is named, by `url_parse` and
//! `url_join`, and the contracts of this library speak of those names.

use vstd::prelude::*;

verus! {

/// The reason for which a text was refused as a URL.
#[verifier::external_type_specification]
#[verifier::external_body]
pub struct ExParseError(url::ParseError);

/// The normal form of the absolute URL that `input` denotes, where it denotes
/// one.
pub uninterp spec fn url_parse(input: Seq<char>) -> Option<Seq<char>>;

/// The normal form of the URL that `input` denotes when it is read relative
/// to the URL that `base` denotes, where both can be read.
pub uninterp spec fn url_join(base: Seq<char>, input: Seq<char>) -> Option<Seq<char>>;

/// Calls `Url::parse` on `input`. That function reads an absolute URL and
/// refuses any other text; the URL is handed back as its serialization,
/// which `url_parse` names.
#[verifier::external_body]
fn parse_url(input: &str) -> (parsed: Result<String, url::ParseError>)
    ensures
        match parsed {
            Ok(text) => url_parse(input@) == Some(text@),
            Err(_) => url_parse(input@) is None,
        },
{
    url::Url::parse(input).map(String::from)
}

/// Calls `Url::join` on the URL that `base` holds, with `input`. That
/// function reads `input` as a URL relative to the base and refuses what it
/// cannot read; the URL is handed back as its serialization, which `url_join`
/// names. A `base` that is refused as a URL is refused here too.
#[verifier::external_body]
fn join_url(base: &str, input: &str) -> (joined: Result<String, url::ParseError>)
    ensures
        match joined {
            Ok(text) => url_join(base@, input@) == Some(text@),
            Err(_) => url_join(base@, input@) is None,
        },
{
    url::Url::parse(base)?.join(input).map(String::from)
}

/// Calls `to_string` on the reason, which writes what `url` has to say of it.
/// Nothing is claimed of the text.
#[verifier::external_body]
fn reason_text(error: &url::ParseError) -> String {
    error.to_string()
}

/// Formats the reason with `{:?}`, which writes the name of its variant, as
/// the derived `Debug` of `url::ParseError` has it. Nothing is claimed of the
/// text.
#[verifier::external_body]
fn reason_name(error: &url::ParseError) -> String {
    format!("{:?}", error)
}

/// An absolute URL in its normal form. One is made only by reading a text,
/// or by reading a text relative to another address.
#[derive(Clone, Debug, PartialEq, Eq)]
pub struct Address {
    text: String,
}

/// A text that was refused as a URL, with the reason: its name, and what is
/// said of it to a reader.
#[derive(Clone, Debug, PartialEq, Eq)]
pub struct InvalidAddress {
    pub name: String,
    pub reason: String,
}

impl View for Address {
    type V = Seq<char>;

    /// The text of the address.
    closed spec fn view(&self) -> Seq<char> {
        self.text@
    }
}

impl Address {
    /// Reads an absolute URL from `input`.
    pub fn parse(input: &str) -> (parsed: Result<Address, InvalidAddress>)
        ensures
            match parsed {
                Ok(address) => url_parse(input@) == Some(address@),
                Err(_) => url_parse(input@) is None,
            },
    {
        match parse_url(input) {
            Ok(text) => Ok(Address { text }),
            Err(error) => Err(
                InvalidAddress { name: reason_name(&error), reason: reason_text(&error) },
            ),
        }
    }

    /// Reads `input` as a URL relative to this address.
    pub fn join(&self, input: &str) -> (joined: Result<Address, InvalidAddress>)
        ensures
            match joined {
                Ok(address) => url_join(self@, input@) == Some(address@),
                Err(_) => url_join(self@, input@) is None,
            },
    {
        match join_url(self.text.as_str(), input) {
            Ok(text) => Ok(Address { text }),
            Err(error) => Err(
                InvalidAddress { name: reason_name(&error), reason: reason_text(&error) },
            ),
        }
    }

    /// The text of this address.
    pub fn as_str(&self) -> (text: &str)
        ensures
            text@ == self@,
    {
        self.text.as_str()
    }

    /// The text of this address.
    pub fn into_string(self) -> (text: String)
        ensures
            text@ == self@,
    {
        self.text
    }
}

} // verus!

//! The failures that the library reports.

use crate::text::{decimal, push_decimal, NumberError};
use vstd::prelude::*;

verus! {

/// `url::ParseError`, the reason that the `url` crate gives where it cannot
/// parse. The library hands it on and never looks into it.
#[verifier::external_type_specification]
#[verifier::external_body]
pub struct ExParseError(url::ParseError);

/// A failure of one of the library's operations.
#[derive(Debug, PartialEq, Eq)]
pub enum Error {
    /// No API token is at hand.
    MissingToken,
    /// The API token is too long to be encoded for the `Authorization` header.
    TokenTooLong,
    /// The address of an API endpoint could not be formed.
    Url(url::ParseError),
    /// The service answered with an error status.
    Status { status: u16, url: String },
    /// The request did not reach the service, or its answer did not arrive.
    Transport(String),
    /// The text given for a project id is no number.
    ProjectId(NumberError),
    /// The cached project list is older than it may be.
    CacheExpired,
    /// No cached project list could be read.
    CacheUnreadable,
}

/// The text that describes `reason`.
pub open spec fn number_error_text(reason: NumberError) -> Seq<char> {
    match reason {
        NumberError::Empty => "cannot parse integer from empty string"@,
        NumberError::InvalidDigit => "invalid digit found in string"@,
        NumberError::Overflow => "number too large to fit in target type"@,
    }
}

impl Error {
    /// The text that describes the failure. For `Url` the text is that of the
    /// URL parser, which is not stated here.
    pub open spec fn text(&self) -> Option<Seq<char>> {
        match self {
            Error::MissingToken => Some(
                "Failed to load API token. Maybe try: togglctl set-auth <token>"@,
            ),
            Error::TokenTooLong => Some("API token is too long"@),
            Error::Url(_) => None,
            Error::Status { status, url } => Some(
                "HTTP error "@ + decimal(*status as nat) + ": "@ + url@,
            ),
            Error::Transport(message) => Some(message@),
            Error::ProjectId(reason) => Some(number_error_text(*reason)),
            Error::CacheExpired => Some("cache expired"@),
            Error::CacheUnreadable => Some("cache unreadable"@),
        }
    }

    /// Describes the failure in words.
    pub fn message(&self) -> (r: String)
        ensures
            self.text() matches Some(text) ==> r@ == text,
    {
        match self {
            Error::MissingToken => "Failed to load API token. Maybe try: togglctl set-auth <token>".to_owned(),
            Error::TokenTooLong => "API token is too long".to_owned(),
            Error::Url(reason) => describe_parse_error(reason),
            Error::Status { status, url } => {
                let mut out = "HTTP error ".to_owned();
                push_decimal(&mut out, *status as usize);
                out.append(": ");
                out.append(url.as_str());
                out
            },
            Error::Transport(message) => message.clone(),
            Error::ProjectId(reason) => match reason {
                NumberError::Empty => "cannot parse integer from empty string".to_owned(),
                NumberError::InvalidDigit => "invalid digit found in string".to_owned(),
                NumberError::Overflow => "number too large to fit in target type".to_owned(),
            },
            Error::CacheExpired => "cache expired".to_owned(),
            Error::CacheUnreadable => "cache unreadable".to_owned(),
        }
    }
}

/// `url::ParseError`'s `Display`, through `to_string`: the words in which
/// the reason describes itself. Nothing is claimed of them.
#[verifier::external_body]
fn describe_parse_error(reason: &url::ParseError) -> String {
    reason.to_string()
}

} // verus!

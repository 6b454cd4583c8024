//! The API token and the `Authorization` header made from it.

use crate::error::Error;
use vstd::prelude::*;
use vstd::utf8::encode_utf8;

verus! {

/// The most bytes that can be encoded in base64 with the encoding still
/// short enough to be held in a `String`, which holds at most `isize::MAX`
/// bytes: the encoding has four characters for every three bytes.
pub const MAX_ENCODABLE: usize = usize::MAX / 8 * 3;

/// The base64 encoding of `bytes` in the standard alphabet, with padding.
pub uninterp spec fn base64_standard(bytes: Seq<u8>) -> Seq<char>;

/// The token that a command works with: the one from the environment where
/// there is one, else the stored one.
pub open spec fn chosen_token(env: Option<Seq<char>>, stored: Option<Seq<char>>) -> Option<
    Seq<char>,
> {
    match env {
        Some(token) => Some(token),
        None => stored,
    }
}

/// Picks the API token. `env` is the value of the environment variable that
/// may hold it, `stored` the content of the token file; the file counts only
/// where the variable is not set.
pub fn load_token(env: Option<String>, stored: Option<String>) -> (r: Result<String, Error>)
    ensures
        match r {
            Ok(token) => chosen_token(text_of(env), text_of(stored)) == Some(token@),
            Err(e) => chosen_token(text_of(env), text_of(stored)) is None && e is MissingToken,
        },
{
    match env {
        Some(token) => Ok(token),
        None => match stored {
            Some(token) => Ok(token),
            None => Err(Error::MissingToken),
        },
    }
}

/// The characters of an optional string.
pub open spec fn text_of(s: Option<String>) -> Option<Seq<char>> {
    match s {
        Some(s) => Some(s@),
        None => None,
    }
}

/// The user and password of HTTP Basic authentication, as one text: the
/// token is the user, the password is fixed.
pub open spec fn credentials(token: Seq<char>) -> Seq<char> {
    token + ":api_token"@
}

/// Whether the credentials made from `token` are short enough to be encoded.
pub open spec fn encodable(token: Seq<char>) -> bool {
    encode_utf8(credentials(token)).len() <= MAX_ENCODABLE
}

/// The value of the `Authorization` header for `token`.
pub open spec fn authorization_value(token: Seq<char>) -> Seq<char> {
    "Basic "@ + base64_standard(encode_utf8(credentials(token)))
}

/// The value of the `Authorization` header, made from an encoded text.
pub fn basic_authorization(encoded: &str) -> (r: String)
    ensures
        r@ == "Basic "@ + encoded@,
{
    let mut value = "Basic ".to_owned();
    value.append(encoded);
    value
}

/// The value of the `Authorization` header for `token`.
pub fn authorization(token: &str) -> (r: Result<String, Error>)
    ensures
        match r {
            Ok(value) => encodable(token@) && value@ == authorization_value(token@),
            Err(e) => !encodable(token@) && e is TokenTooLong,
        },
{
    let mut credentials = token.to_owned();
    credentials.append(":api_token");
    let bytes = credentials.as_str().as_bytes();
    if bytes.len() > MAX_ENCODABLE {
        return Err(Error::TokenTooLong);
    }
    let encoded = encode_base64(bytes);
    Ok(basic_authorization(encoded.as_str()))
}

/// `base64::encode`: the encoding of `input` in the standard alphabet, with
/// padding. Taken on trust: the encoding depends on `input` alone, which is
/// what `base64_standard` names. The call panics where the length of the
/// encoding leaves `usize` or is more than a vector can hold; with up to
/// `MAX_ENCODABLE` bytes neither happens.
#[verifier::external_body]
fn encode_base64(input: &[u8]) -> (r: String)
    requires
        input@.len() <= MAX_ENCODABLE,
    ensures
        r@ == base64_standard(input@),
{
    base64::encode(input)
}

} // verus!

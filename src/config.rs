//! The client's settings, normalised from what the user typed.

use vstd::prelude::*;

use crate::text::{
    has_prefix, join_with_slash, starts_with, strip_trailing_slash, trim, trimmed,
    without_trailing_slash,
};

verus! {

/// Credentials attached to every request when the server sits behind basic authentication.
pub struct Authentication {
    pub user: String,
    pub password: String,
}

/// A user-typed location: surrounding whitespace and one final `/` removed.
pub open spec fn normalized_location(raw: Seq<char>) -> Seq<char> {
    without_trailing_slash(trimmed(raw))
}

/// The server's base address, as typed by the user, normalised.
pub fn read_endpoint(raw: &str) -> (endpoint: String)
    ensures
        endpoint@ == normalized_location(raw@),
{
    strip_trailing_slash(trim(raw))
}

/// The directory to synchronise, as typed by the user, normalised.
pub fn read_image_directory(raw: &str) -> (directory: String)
    ensures
        directory@ == normalized_location(raw@),
{
    strip_trailing_slash(trim(raw))
}

/// Credentials are used only when both a user and a password were given.
pub fn read_auth(user: Option<String>, password: Option<String>) -> (auth: Option<Authentication>)
    ensures
        match auth {
            Some(a) => user == Some(a.user) && password == Some(a.password),
            None => user is None || password is None,
        },
{
    match (user, password) {
        (Some(user), Some(password)) => Some(Authentication { user, password }),
        _ => None,
    }
}

/// Whether the endpoint names the `http` or `https` scheme.
pub fn has_http_scheme(endpoint: &str) -> (r: bool)
    ensures
        r == (starts_with(endpoint@, "http://"@) || starts_with(endpoint@, "https://"@)),
{
    has_prefix(endpoint, "http://") || has_prefix(endpoint, "https://")
}

/// The listing resource of an endpoint: `<endpoint>/images`.
pub fn listing_url(endpoint: &str) -> (url: String)
    ensures
        url@ == endpoint@ + seq!['/'] + "images"@,
{
    join_with_slash(endpoint, "images")
}

} // verus!

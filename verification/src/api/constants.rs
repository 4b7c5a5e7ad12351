//! Constants of the DRACOON API and the client credentials of the client.

use vstd::prelude::*;
use crate::text::{chars_of, lemma_split_nonempty, second_piece, second_piece_chars, split, split_chars, string_of, views};

verus! {

/// The prefix of all API paths.
pub const DRACOON_API_PREFIX: &'static str = "api/v4";

/// The token endpoint.
pub const DRACOON_TOKEN_URL: &'static str = "oauth/token";

/// The redirect endpoint of the authorization code flow.
pub const DRACOON_REDIRECT_URL: &'static str = "oauth/callback";

/// The token revocation endpoint.
pub const DRACOON_TOKEN_REVOKE_URL: &'static str = "oauth/revoke";

/// The client id and secret written in an env file: the text after
/// `CLIENT_ID=` on its first line and after `CLIENT_SECRET=` on its second
/// (each up to a further occurrence of the key, if any).
pub open spec fn client_credentials_spec(env: Seq<char>) -> (Seq<char>, Seq<char>) {
    let lines = split(env, '\n');
    (second_piece(lines[0], "CLIENT_ID="@).unwrap(), second_piece(lines[1], "CLIENT_SECRET="@).unwrap())
}

/// Whether an env file holds both client credentials where they are read.
pub open spec fn has_client_credentials(env: Seq<char>) -> bool {
    let lines = split(env, '\n');
    &&& lines.len() >= 2
    &&& second_piece(lines[0], "CLIENT_ID="@) is Some
    &&& second_piece(lines[1], "CLIENT_SECRET="@) is Some
}

/// The client id and secret of an env file (see `client_credentials_spec`).
pub fn get_client_credentials(env: &str) -> (r: (String, String))
    requires
        has_client_credentials(env@),
    ensures
        (r.0@, r.1@) == client_credentials_spec(env@),
{
    let c = chars_of(env);
    let lines = split_chars(c.as_slice(), '\n');
    assert(views(lines@)[0] == lines@[0]@);
    assert(views(lines@)[1] == lines@[1]@);
    let id_key = chars_of("CLIENT_ID=");
    let secret_key = chars_of("CLIENT_SECRET=");
    let id = second_piece_chars(lines[0].as_slice(), id_key.as_slice()).unwrap();
    let secret = second_piece_chars(lines[1].as_slice(), secret_key.as_slice()).unwrap();
    (string_of(id.as_slice()), string_of(secret.as_slice()))
}

} // verus!

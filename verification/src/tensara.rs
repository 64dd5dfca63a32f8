//! The Tensara profile relay's pure computation: building the query URL
//! that carries a URL-encoded JSON input parameter.

use vstd::prelude::*;

verus! {

/// What `urlencoding::encode` makes of a text: a percent-encoding of its
/// UTF-8 bytes, a function of the input alone.
pub uninterp spec fn percent_encoded(s: Seq<char>) -> Seq<char>;

/// Relies on `urlencoding::encode`: percent-encodes every UTF-8 byte of the
/// input except ASCII alphanumerics and `-`, `_`, `.`, `~`; in particular an
/// input of only those characters comes back unchanged.
#[verifier::external_body]
fn encode_component(s: &str) -> (r: String)
    ensures
        r@ == percent_encoded(s@),
{
    urlencoding::encode(s).into_owned()
}

/// The raw JSON input parameter the upstream endpoint expects:
/// `{"json":{"username":"<username>"}}`.
pub open spec fn tensara_input_text(username: Seq<char>) -> Seq<char> {
    "{\"json\":{\"username\":\""@ + username + "\"}}"@
}

/// Builds the raw JSON input parameter for a username.
pub fn tensara_input(username: &str) -> (r: String)
    ensures
        r@ == tensara_input_text(username@),
{
    let mut r = "{\"json\":{\"username\":\"".to_owned();
    r.append(username);
    r.append("\"}}");
    proof {
        assert(r@ =~= tensara_input_text(username@));
    }
    r
}

/// Builds the full profile-query URL: the fixed endpoint with the JSON
/// input parameter URL-encoded into the query string.
pub fn tensara_profile_url(username: &str) -> (r: String)
    ensures
        r@ == "https://tensara.org/api/trpc/users.getByUsername?input="@
            + percent_encoded(tensara_input_text(username@)),
{
    let input = tensara_input(username);
    let encoded = encode_component(input.as_str());
    let mut r = "https://tensara.org/api/trpc/users.getByUsername?input=".to_owned();
    r.append(encoded.as_str());
    proof {
        assert(r@ =~= "https://tensara.org/api/trpc/users.getByUsername?input="@
            + percent_encoded(tensara_input_text(username@)));
    }
    r
}

} // verus!

//! Identity resolution at connect time: a bearer token from a header or a
//! query parameter is verified and yields the username it was issued to.
//! Verification itself is the token library's; the header handling around
//! it is exact.

use vstd::prelude::*;
use vstd::string::*;
use crate::text::str_eq;

verus! {

/// The header carries a bearer token: at least the seven characters of
/// the scheme prefix, exactly.
pub open spec fn spec_has_bearer(s: Seq<char>) -> bool {
    s.len() >= 7 && s.subrange(0, 7) == "Bearer "@
}

/// Relies on jsonwebtoken::decode with HS256 and default validation: it
/// verifies the signature and the expiry claim against the wall clock and
/// yields the token's `sub` claim. The outcome depends on the clock, so
/// nothing is promised of it.
#[verifier::external_body]
fn jwt_decode_sub(token: &str, secret: &[u8]) -> Option<String> {
    let validation = jsonwebtoken::Validation::new(jsonwebtoken::Algorithm::HS256);
    let key = jsonwebtoken::DecodingKey::from_secret(secret);
    match jsonwebtoken::decode::<serde_json::Value>(token, &key, &validation) {
        Ok(data) => match data.claims.get("sub").and_then(|v| v.as_str()) {
            Some(sub) => Some(sub.to_string()),
            None => None,
        },
        Err(_) => None,
    }
}

/// Verify a token against the signing secret and return the username it
/// names, or nothing for a token that is malformed, forged or expired.
pub fn verify_jwt(token: &str, secret: &[u8]) -> Option<String> {
    jwt_decode_sub(token, secret)
}

/// The token carried after the bearer scheme prefix, or nothing when the
/// prefix is absent.
pub fn bearer_token<'a>(auth_header: &'a str) -> (r: Option<&'a str>)
    ensures
        r is Some <==> spec_has_bearer(auth_header@),
        r matches Some(t) ==> t@ == auth_header@.skip(7),
{
    let n = auth_header.unicode_len();
    if n < 7 {
        return None;
    }
    let prefix = auth_header.substring_char(0, 7);
    if str_eq(prefix, "Bearer ") {
        let token = auth_header.substring_char(7, n);
        proof {
            assert(token@ =~= auth_header@.skip(7));
        }
        Some(token)
    } else {
        None
    }
}

/// Resolve the identity behind an authorization header: the bearer token
/// is extracted and verified; each failure is reported with the fixed
/// error text the service answers with.
pub fn extract_username_from_auth_header(auth_header: String, secret: &[u8]) -> (r: Result<
    String,
    String,
>)
    ensures
        !spec_has_bearer(auth_header@) ==> (r matches Err(e) && e@
            == "Invalid authorization header"@),
        spec_has_bearer(auth_header@) ==> (r matches Err(e) ==> e@ == "Invalid or expired token"@),
{
    match bearer_token(auth_header.as_str()) {
        Some(token) => match verify_jwt(token, secret) {
            Some(username) => Ok(username),
            None => Err(String::from_str("Invalid or expired token")),
        },
        None => Err(String::from_str("Invalid authorization header")),
    }
}

/// Resolve the identity behind an authorization header, reporting failure
/// without distinguishing its cause; the request-handling half answers
/// both the same way.
pub fn extract_username_from_auth(auth_header: String, secret: &[u8]) -> (r: Option<String>)
    ensures
        !spec_has_bearer(auth_header@) ==> r is None,
{
    match bearer_token(auth_header.as_str()) {
        Some(token) => verify_jwt(token, secret),
        None => None,
    }
}

} // verus!

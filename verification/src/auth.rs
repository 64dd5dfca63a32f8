//! Bearer-token extraction from an `Authorization` header.

use vstd::prelude::*;

verus! {

/// Why a request's authorization was rejected.
#[derive(PartialEq, Eq, Structural, Clone, Copy, Debug)]
pub enum AuthError {
    /// No `Authorization` header was sent.
    MissingHeader,
    /// The header does not follow the `Bearer <token>` scheme.
    BadFormat,
    /// The scheme is right but the token is empty.
    EmptyToken,
}

impl AuthError {
    /// Every authorization failure maps to an unauthorized status.
    pub fn status(&self) -> (s: u16)
        ensures
            s == 401,
    {
        401
    }

    /// The fixed human-readable message for the failure.
    pub fn message(&self) -> (m: String)
        ensures
            *self matches AuthError::MissingHeader ==> m@ == "Missing Authorization header"@,
            *self matches AuthError::BadFormat
                ==> m@ == "Invalid Authorization header format"@,
            *self matches AuthError::EmptyToken ==> m@ == "Invalid token"@,
    {
        match self {
            AuthError::MissingHeader => String::from_str("Missing Authorization header"),
            AuthError::BadFormat => String::from_str("Invalid Authorization header format"),
            AuthError::EmptyToken => String::from_str("Invalid token"),
        }
    }
}

/// The header value carries the bearer scheme: it starts with `Bearer `.
pub open spec fn has_bearer_scheme(h: Seq<char>) -> bool {
    h.len() >= 7 && h.subrange(0, 7) == "Bearer "@
}

/// Extracts the token from an `Authorization` header value: everything
/// after the `Bearer ` prefix.  Absence of the header, a different scheme,
/// and an empty token are each rejected with their own error.
pub fn verify_auth_header(header: Option<&str>) -> (r: Result<String, AuthError>)
    ensures
        match header {
            None => r matches Err(e) && e == AuthError::MissingHeader,
            Some(h) => {
                if !has_bearer_scheme(h@) {
                    r matches Err(e) && e == AuthError::BadFormat
                } else if h@.len() == 7 {
                    r matches Err(e) && e == AuthError::EmptyToken
                } else {
                    r matches Ok(t) && t@ == h@.skip(7)
                }
            },
        },
{
    let h = match header {
        None => {
            return Err(AuthError::MissingHeader);
        },
        Some(h) => h,
    };
    proof {
        reveal_strlit("Bearer ");
    }
    let n = h.unicode_len();
    if n < 7 {
        proof {
            assert(!has_bearer_scheme(h@));
        }
        return Err(AuthError::BadFormat);
    }
    let prefix = "Bearer ";
    let mut j: usize = 0;
    while j < 7
        invariant
            j <= 7,
            n == h@.len(),
            n >= 7,
            "Bearer "@.len() == 7,
            prefix@ == "Bearer "@,
            header == Some(h),
            forall|k: int| 0 <= k < j ==> h@[k] == "Bearer "@[k],
        decreases 7 - j,
    {
        proof {
            reveal_strlit("Bearer ");
        }
        if h.get_char(j) != prefix.get_char(j) {
            proof {
                assert(h@[j as int] != "Bearer "@[j as int]);
                assert(h@.subrange(0, 7) != "Bearer "@) by {
                    assert(h@.subrange(0, 7)[j as int] == h@[j as int]);
                }
            }
            return Err(AuthError::BadFormat);
        }
        j += 1;
    }
    proof {
        assert(h@.subrange(0, 7) =~= "Bearer "@);
    }
    if n == 7 {
        return Err(AuthError::EmptyToken);
    }
    let token = h.substring_char(7, n);
    proof {
        assert(token@ =~= h@.skip(7));
    }
    Ok(token.to_owned())
}

/// The token-presence check behind the verification endpoint: the request
/// is valid exactly when a non-empty bearer token is attached.
#[derive(PartialEq, Eq, Structural, Clone, Copy, Debug)]
pub struct VerifyResponse {
    pub valid: bool,
}

/// Decides the verification endpoint: a well-formed non-empty bearer token
/// is valid; anything else is rejected with the matching error.
pub fn verify(header: Option<&str>) -> (r: Result<VerifyResponse, AuthError>)
    ensures
        match header {
            None => r matches Err(e) && e == AuthError::MissingHeader,
            Some(h) => {
                if !has_bearer_scheme(h@) {
                    r matches Err(e) && e == AuthError::BadFormat
                } else if h@.len() == 7 {
                    r matches Err(e) && e == AuthError::EmptyToken
                } else {
                    r matches Ok(v) && v.valid
                }
            },
        },
{
    match verify_auth_header(header) {
        Ok(_) => Ok(VerifyResponse { valid: true }),
        Err(e) => Err(e),
    }
}

} // verus!

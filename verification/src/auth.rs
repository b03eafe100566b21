//! What the token service needs besides signing: the claims of an access
//! token, the secret that is used where none is configured, and the
//! reading of the `Authorization` header.
//!
//! Signing and validating tokens, and reading the environment and the
//! clock, are the caller's part; it hands the results in as plain values.

use vstd::prelude::*;
use vstd::string::*;
use crate::text::{same_text, trim, trimmed};

verus! {

/// The time for which an access token is valid, in seconds.
pub const ACCESS_TOKEN_TTL_SECS: usize = 900;

/// The claims that an access token carries.
#[derive(Debug)]
pub struct Claims {
    pub user_id: String,
    pub username: String,
    /// When the token expires, in seconds since the epoch.
    pub exp: usize,
    /// When the token was issued, in seconds since the epoch.
    pub iat: usize,
}

/// The answer to a request for a new access token.
#[derive(Debug)]
pub struct RefreshResponse {
    pub access_token: String,
    pub token_type: String,
    pub expires_in: i64,
}

/// The identity that a valid bearer token proves.
pub struct BearerToken {
    pub user_id: String,
    pub username: String,
}

/// Why a request carries no usable bearer token.
#[derive(Debug, Clone, Copy, PartialEq, Eq, Structural)]
pub enum AuthError {
    /// There is no `Authorization` header.
    MissingToken,
    /// The header is not text.
    InvalidHeader,
    /// The header does not hold a bearer token, or the token is not valid.
    InvalidToken,
}

/// The header's value is not text.
#[derive(Debug, Clone, Copy, PartialEq, Eq, Structural)]
pub struct NotText;

/// The HTTP status with which a request is refused.
pub open spec fn status_of(error: AuthError) -> u16 {
    match error {
        AuthError::MissingToken => 401,
        AuthError::InvalidHeader => 400,
        AuthError::InvalidToken => 400,
    }
}

/// The text with which a request is refused.
pub open spec fn message_of(error: AuthError) -> Seq<char> {
    match error {
        AuthError::MissingToken => "缺少令牌"@,
        AuthError::InvalidHeader => "无效的header"@,
        AuthError::InvalidToken => "无效的令牌格式"@,
    }
}

impl AuthError {
    /// The HTTP status with which the request is refused: 401 where the
    /// token is missing, 400 else.
    pub fn status(&self) -> (status: u16)
        ensures
            status == status_of(*self),
    {
        match self {
            AuthError::MissingToken => 401,
            AuthError::InvalidHeader => 400,
            AuthError::InvalidToken => 400,
        }
    }

    /// The text with which the request is refused.
    pub fn message(&self) -> (message: &'static str)
        ensures
            message@ == message_of(*self),
    {
        match self {
            AuthError::MissingToken => "缺少令牌",
            AuthError::InvalidHeader => "无效的header",
            AuthError::InvalidToken => "无效的令牌格式",
        }
    }
}

/// Whether `header` announces a bearer token.
pub open spec fn is_bearer(header: Seq<char>) -> bool {
    header.len() >= 7 && header.take(7) == "Bearer "@
}

/// The token that a bearer header carries: what follows the scheme,
/// without the white space around it.
pub open spec fn bearer_token_of(header: Seq<char>) -> Seq<char> {
    trimmed(header.skip(7))
}

/// What the `Authorization` header says: the bearer token that it carries,
/// or why there is none. `header` is `None` where the request has no such
/// header, and `Some(Err(NotText))` where its value is not text.
pub open spec fn header_outcome(header: Option<Result<&str, NotText>>) -> Result<Seq<char>, AuthError> {
    match header {
        None => Err(AuthError::MissingToken),
        Some(Err(_)) => Err(AuthError::InvalidHeader),
        Some(Ok(text)) => if is_bearer(text@) {
            Ok(bearer_token_of(text@))
        } else {
            Err(AuthError::InvalidToken)
        },
    }
}

/// The view of a token or the reason for its absence.
pub open spec fn token_view(token: Result<String, AuthError>) -> Result<Seq<char>, AuthError> {
    match token {
        Ok(text) => Ok(text@),
        Err(error) => Err(error),
    }
}

/// Reads the bearer token from the `Authorization` header.
pub fn token_from_header(header: Option<Result<&str, NotText>>) -> (token: Result<String, AuthError>)
    ensures
        token_view(token) == header_outcome(header),
{
    match header {
        None => Err(AuthError::MissingToken),
        Some(Err(_)) => Err(AuthError::InvalidHeader),
        Some(Ok(text)) => {
            proof {
                reveal_strlit("Bearer ");
            }
            let n: usize = text.unicode_len();
            if n >= 7 && same_text(text.substring_char(0, 7), "Bearer ") {
                let token = trim(text.substring_char(7, n));
                assert(text@.subrange(7, n as int) =~= text@.skip(7));
                Ok(token.to_owned())
            } else {
                Err(AuthError::InvalidToken)
            }
        },
    }
}

impl BearerToken {
    /// The identity that `claims` name.
    pub fn from_claims(claims: Claims) -> (token: Self)
        ensures
            token.user_id@ == claims.user_id@,
            token.username@ == claims.username@,
    {
        BearerToken { user_id: claims.user_id, username: claims.username }
    }

    /// The identity that a validated token proves. A token that did not
    /// validate, for whatever reason, is refused as invalid.
    pub fn from_validation(validated: Result<Claims, String>) -> (token: Result<Self, AuthError>)
        ensures
            match validated {
                Ok(claims) => token matches Ok(bearer) && bearer.user_id@ == claims.user_id@
                    && bearer.username@ == claims.username@,
                Err(_) => token matches Err(error) && error == AuthError::InvalidToken,
            },
    {
        match validated {
            Ok(claims) => Ok(Self::from_claims(claims)),
            Err(_) => Err(AuthError::InvalidToken),
        }
    }
}

impl Claims {
    /// The claims of an access token issued at `now` (seconds since the
    /// epoch) to the user `user_id` known as `username`. The token expires
    /// a quarter of an hour later.
    pub fn issue(user_id: &str, username: &str, now: usize) -> (claims: Self)
        requires
            now + ACCESS_TOKEN_TTL_SECS <= usize::MAX,
        ensures
            claims.user_id@ == user_id@,
            claims.username@ == username@,
            claims.iat == now,
            claims.exp == now + ACCESS_TOKEN_TTL_SECS,
    {
        Claims {
            user_id: user_id.to_owned(),
            username: username.to_owned(),
            iat: now,
            exp: now + ACCESS_TOKEN_TTL_SECS,
        }
    }
}

/// `text` in lower case, as `str::to_lowercase` gives it.
pub uninterp spec fn lowercase_of(text: Seq<char>) -> Seq<char>;

/// `str::to_lowercase` of the standard library. Trusted: the result is the
/// one that the name `lowercase_of` stands for, the same for the same text
/// at every call.
#[verifier::external_body]
fn to_lowercase(text: &str) -> (lower: String)
    ensures
        lower@ == lowercase_of(text@),
{
    text.to_lowercase()
}

/// The secret that stands in for one that is not configured, for a secret
/// whose name in lower case is `lowered_name`.
pub open spec fn default_secret_text(lowered_name: Seq<char>) -> Seq<char> {
    "default-"@ + lowered_name + "-secret-change-in-production"@
}

/// The stand-in secret for a secret whose name in lower case is
/// `lowered_name`.
pub fn default_secret_for(lowered_name: &str) -> (secret: String)
    ensures
        secret@ == default_secret_text(lowered_name@),
{
    let mut secret = "default-".to_owned();
    secret.append(lowered_name);
    secret.append("-secret-change-in-production");
    secret
}

/// The secret named `secret_name`: the configured one where there is one,
/// else the stand-in, which is not fit for production.
pub fn get_secret(configured: Option<String>, secret_name: &str) -> (secret: String)
    ensures
        secret@ == match configured {
            Some(value) => value@,
            None => default_secret_text(lowercase_of(secret_name@)),
        },
{
    match configured {
        Some(value) => value,
        None => {
            let lowered = to_lowercase(secret_name);
            default_secret_for(lowered.as_str())
        },
    }
}

} // verus!

//! Why a token is refused.
use vstd::prelude::*;
use vstd::string::*;

verus! {

/// Why a token could not be validated; `T` holds the text that some reasons carry.
#[derive(Debug, PartialEq, Eq)]
pub enum ValidationError<T> {
    /// The issuer URL has not been configured.
    IssuerNotConfigured,
    /// The configured issuer URL is not UTF-8; with the decoder's wording.
    IssuerNotUtf8(T),
    /// The token's header cannot be read; with the wording of the token library.
    InvalidHeader(T),
    /// The token's header names no key.
    MissingKid,
    /// The key is not known, and the keys have been fetched too recently to try again; with the
    /// key ID.
    RefreshOnCooldown(T),
    /// The keys could not be fetched; with the wording of whoever tried.
    FetchFailed(T),
    /// The key is not among those that have just been fetched; with the key ID.
    UnknownKey(T),
    /// The token was rejected; with the wording of the token library.
    InvalidToken(T),
    /// The token's claims do not have the form that they should; with the parser's wording.
    InvalidClaims(T),
    /// The claims that were handed in are not those of the token.
    ForeignClaims,
}

impl View for ValidationError<String> {
    type V = ValidationError<Seq<char>>;

    open spec fn view(&self) -> ValidationError<Seq<char>> {
        match self {
            ValidationError::IssuerNotConfigured => ValidationError::IssuerNotConfigured,
            ValidationError::IssuerNotUtf8(text) => ValidationError::IssuerNotUtf8(text@),
            ValidationError::InvalidHeader(text) => ValidationError::InvalidHeader(text@),
            ValidationError::MissingKid => ValidationError::MissingKid,
            ValidationError::RefreshOnCooldown(kid) => ValidationError::RefreshOnCooldown(kid@),
            ValidationError::FetchFailed(text) => ValidationError::FetchFailed(text@),
            ValidationError::UnknownKey(kid) => ValidationError::UnknownKey(kid@),
            ValidationError::InvalidToken(text) => ValidationError::InvalidToken(text@),
            ValidationError::InvalidClaims(text) => ValidationError::InvalidClaims(text@),
            ValidationError::ForeignClaims => ValidationError::ForeignClaims,
        }
    }
}

/// The message that a reason is reported with.
pub open spec fn error_text(error: ValidationError<Seq<char>>) -> Seq<char> {
    match error {
        ValidationError::IssuerNotConfigured => "pg_oidc_validator.issuer_url is not configured"@,
        ValidationError::IssuerNotUtf8(text) => text,
        ValidationError::InvalidHeader(text) => text,
        ValidationError::MissingKid => "Token missing 'kid' in header"@,
        ValidationError::RefreshOnCooldown(kid) => "Unknown key ID '"@ + kid
            + "' (refresh on cooldown)"@,
        ValidationError::FetchFailed(text) => text,
        ValidationError::UnknownKey(kid) => "Unknown key ID '"@ + kid + "' after refresh"@,
        ValidationError::InvalidToken(text) => text,
        ValidationError::InvalidClaims(text) => text,
        ValidationError::ForeignClaims => "Claims are not those of the token"@,
    }
}

/// `before`, `text` and `after` in one piece.
fn enclosed(before: &str, text: &str, after: &str) -> (whole: String)
    ensures
        whole@ == before@ + text@ + after@,
{
    let mut whole = before.to_owned();
    whole.append(text);
    whole.append(after);
    whole
}

impl ValidationError<String> {
    /// The message that this reason is reported with.
    pub fn message(&self) -> (message: String)
        ensures
            message@ == error_text(self@),
    {
        match self {
            ValidationError::IssuerNotConfigured => {
                "pg_oidc_validator.issuer_url is not configured".to_owned()
            },
            ValidationError::IssuerNotUtf8(text) => text.clone(),
            ValidationError::InvalidHeader(text) => text.clone(),
            ValidationError::MissingKid => "Token missing 'kid' in header".to_owned(),
            ValidationError::RefreshOnCooldown(kid) => {
                enclosed("Unknown key ID '", kid.as_str(), "' (refresh on cooldown)")
            },
            ValidationError::FetchFailed(text) => text.clone(),
            ValidationError::UnknownKey(kid) => {
                enclosed("Unknown key ID '", kid.as_str(), "' after refresh")
            },
            ValidationError::InvalidToken(text) => text.clone(),
            ValidationError::InvalidClaims(text) => text.clone(),
            ValidationError::ForeignClaims => "Claims are not those of the token".to_owned(),
        }
    }
}

} // verus!

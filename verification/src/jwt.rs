//! JSON Web Tokens, as far as the `jsonwebtoken` crate decides about them.
//!
//! Everything in this module that Verus takes on trust is a call into that crate. What a call
//! returns is named, so that contracts elsewhere can speak of it.
use jsonwebtoken::errors::ErrorKind;
use jsonwebtoken::{decode, decode_header, Algorithm, DecodingKey, Validation};
use serde_json::Value;
use std::collections::HashMap;
use vstd::prelude::*;

verus! {

/// The verification key of `jsonwebtoken`, carried through without being looked into.
#[verifier::external_type_specification]
#[verifier::external_body]
pub struct ExDecodingKey(DecodingKey);

/// The signature algorithms that a token may be checked with.
#[derive(Clone, Copy, Debug, PartialEq, Eq, Structural)]
pub enum SigningAlgorithm {
    /// RSA PKCS#1 v1.5 with SHA-256.
    RS256,
}

/// Why the token library rejects a token; `T` holds its wording.
#[derive(Debug, PartialEq, Eq)]
pub enum Refusal<T> {
    /// For its shape, its algorithm or its signature, whatever its claims are.
    Token(T),
    /// For what its JSON says: it cannot be read, or a claim that has to be there is missing. An
    /// unreadable header counts here too; such a token names no key to check it with.
    Claims(T),
    /// Because it has expired.
    Expired(T),
}

impl View for Refusal<String> {
    type V = Refusal<Seq<char>>;

    open spec fn view(&self) -> Refusal<Seq<char>> {
        match self {
            Refusal::Token(text) => Refusal::Token(text@),
            Refusal::Claims(text) => Refusal::Claims(text@),
            Refusal::Expired(text) => Refusal::Expired(text@),
        }
    }
}

/// An RSA public key by its modulus and exponent, each in base64url as a key set gives them.
#[verifier::ext_equal]
pub struct RsaComponents {
    pub n: Seq<char>,
    pub e: Seq<char>,
}

/// An RSA public key that `jsonwebtoken` accepted, together with the components it was made from.
pub struct RsaKey {
    n: String,
    e: String,
    key: DecodingKey,
}

impl View for RsaKey {
    type V = RsaComponents;

    closed spec fn view(&self) -> RsaComponents {
        RsaComponents { n: self.n@, e: self.e@ }
    }
}

/// The value of a character of the base64url alphabet.
pub open spec fn base64url_value(c: char) -> Option<int> {
    if 'A' <= c <= 'Z' {
        Some(c as int - 'A' as int)
    } else if 'a' <= c <= 'z' {
        Some(c as int - 'a' as int + 26)
    } else if '0' <= c <= '9' {
        Some(c as int - '0' as int + 52)
    } else if c == '-' {
        Some(62)
    } else if c == '_' {
        Some(63)
    } else {
        None
    }
}

/// Whether `text` is base64url without padding: of that alphabet only, of a length that whole bytes
/// can have, and with nothing but zeros in the bits of its last character that belong to no byte.
pub open spec fn is_base64url(text: Seq<char>) -> bool {
    &&& forall|i: int| 0 <= i < text.len() ==> base64url_value(#[trigger] text[i]) is Some
    &&& text.len() % 4 != 1
    &&& text.len() % 4 == 2 ==> base64url_value(text.last())->0 % 16 == 0
    &&& text.len() % 4 == 3 ==> base64url_value(text.last())->0 % 4 == 0
}

/// Calls `DecodingKey::from_rsa_components`, which decodes both components from base64url without
/// padding, fails if one of them is not that, and looks no further. The key is kept with the
/// components that it was made from.
#[verifier::external_body]
pub(crate) fn rsa_key(n: String, e: String) -> (key: Option<RsaKey>)
    ensures
        key is Some <==> (is_base64url(n@) && is_base64url(e@)),
        key matches Some(key) ==> key@ == (RsaComponents { n: n@, e: e@ }),
{
    match DecodingKey::from_rsa_components(&n, &e) {
        Ok(key) => Some(RsaKey { n, e, key }),
        Err(_) => None,
    }
}

/// What `decode_header` reads of a token: the header's key ID, if it has one, or the wording of
/// the error.
pub uninterp spec fn header_kid(token: Seq<char>) -> Result<Option<Seq<char>>, Seq<char>>;

/// The text inside what `token_kid` returns.
pub open spec fn kid_view(kid: Result<Option<String>, String>) -> Result<Option<Seq<char>>, Seq<char>> {
    match kid {
        Ok(Some(kid)) => Ok(Some(kid@)),
        Ok(None) => Ok(None),
        Err(message) => Err(message@),
    }
}

/// Calls `decode_header`, which parses the first of the token's three parts and verifies nothing.
/// Its result depends on the token alone.
#[verifier::external_body]
pub(crate) fn token_kid(token: &str) -> (kid: Result<Option<String>, String>)
    ensures
        kid_view(kid) == header_kid(token@),
{
    match decode_header(token) {
        Ok(header) => Ok(header.kid),
        Err(error) => Err(error.to_string()),
    }
}

/// What `decode` makes of a token with this key, this algorithm and this choice on the audience.
///
/// First, what it makes of it but for the clock: the text of the claim called `claim`, if that is a
/// string, or why the token is rejected at any time. Second, the times, in seconds of the system's
/// clock, at which it calls the token expired instead.
pub uninterp spec fn token_verdict(
    token: Seq<char>,
    key: RsaComponents,
    algorithm: SigningAlgorithm,
    validate_aud: bool,
    claim: Seq<char>,
) -> (Result<Option<Seq<char>>, Refusal<Seq<char>>>, Set<u64>);

/// What a call of `decode` returns when the clock reads `clock`, by what the token library makes of
/// the token. Without the audience, only a token that is otherwise in order is called expired.
pub open spec fn decoded_at(
    verdict: (Result<Option<Seq<char>>, Refusal<Seq<char>>>, Set<u64>),
    validate_aud: bool,
    clock: u64,
) -> Result<Option<Seq<char>>, Refusal<Seq<char>>> {
    if verdict.1.contains(clock) && (validate_aud || verdict.0 is Ok) {
        Err(Refusal::Expired("ExpiredSignature"@))
    } else {
        verdict.0
    }
}

/// Whether a call of `decode` whose verdict, clock aside, is `verdict` may return `decoded`: that
/// verdict, or that the token has expired. Without the audience, expiry is looked at last, so only
/// a token that is otherwise in order is called expired.
pub open spec fn may_decode(
    verdict: Result<Option<Seq<char>>, Refusal<Seq<char>>>,
    validate_aud: bool,
    decoded: Result<Option<Seq<char>>, Refusal<Seq<char>>>,
) -> bool {
    ||| decoded == verdict && !(decoded is Err && decoded->Err_0 is Expired)
    ||| decoded == Err::<Option<Seq<char>>, _>(Refusal::Expired("ExpiredSignature"@)) && (
    validate_aud || verdict is Ok)
}

/// The text inside what `decode_claim` returns.
pub open spec fn decoded_view(decoded: Result<Option<String>, Refusal<String>>) -> Result<
    Option<Seq<char>>,
    Refusal<Seq<char>>,
> {
    match decoded {
        Ok(Some(text)) => Ok(Some(text@)),
        Ok(None) => Ok(None),
        Err(refusal) => Err(refusal@),
    }
}

/// Calls `decode` with the given key and algorithm, and otherwise the settings of
/// `Validation::new` but for the audience. In this order, the signature has to verify under the
/// key, the claims have to be a JSON object with an `exp`, and that time may not be more than a
/// minute ago; an audience is looked at after that.
///
/// The arguments settle what comes of the token at each time, and the clock says which time it is.
/// That time is left open. The clock has to be past the first minute of 1970.
#[verifier::external_body]
pub(crate) fn decode_claim(
    token: &str,
    key: &RsaKey,
    algorithm: SigningAlgorithm,
    validate_aud: bool,
    claim: &str,
) -> (decoded: Result<Option<String>, Refusal<String>>)
    ensures
        exists|clock: u64|
            decoded_view(decoded) == #[trigger] decoded_at(
                token_verdict(token@, key@, algorithm, validate_aud, claim@),
                validate_aud,
                clock,
            ),
        may_decode(
            token_verdict(token@, key@, algorithm, validate_aud, claim@).0,
            validate_aud,
            decoded_view(decoded),
        ),
{
    let mut validation = Validation::new(match algorithm { SigningAlgorithm::RS256 => Algorithm::RS256 });
    validation.validate_aud = validate_aud;
    match decode::<HashMap<String, Value>>(token, &key.key, &validation) {
        Ok(data) => Ok(data.claims.get(claim).and_then(Value::as_str).map(str::to_owned)),
        Err(error) => Err(match error.kind() {
            ErrorKind::ExpiredSignature => Refusal::Expired(error.to_string()),
            ErrorKind::Json(_) => Refusal::Claims(error.to_string()),
            ErrorKind::MissingRequiredClaim(_) => Refusal::Claims(error.to_string()),
            ErrorKind::InvalidAudience => Refusal::Claims(error.to_string()),
            _ => Refusal::Token(error.to_string()),
        }),
    }
}

} // verus!

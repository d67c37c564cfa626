//! Validation of a token against the issuer's keys.
//!
//! Fetching keys is left to the caller. A validation that needs them stops with
//! [`ValidationStep::FetchKeys`], and goes on in [`OidcTokenValidator::resume`] with what came of
//! the attempt.
//!
//! So is parsing the claims, of which the caller hands in the outcome. It decides whether they have
//! the right form; that they are the claims of the token is checked here.
use crate::error::ValidationError;
use crate::jwks::{
    discovery_url_text, jwks_view, nanoseconds, usable_keys, CacheView, JwkKey, JwkView, JwksCache,
    KeyLookup, NANOS_PER_SEC,
};
use crate::jwt::{
    decode_claim, decoded_at, decoded_view, header_kid, kid_view, token_kid, token_verdict, Refusal,
    RsaComponents, RsaKey, SigningAlgorithm,
};
use crate::text::{parse_utf8, utf8_error_text};
use std::time::Duration;
use vstd::prelude::*;
use vstd::string::*;
use vstd::utf8::*;

verus! {

/// How long the keys are not fetched again once they have been, in seconds, unless another cooldown
/// is chosen.
pub const REFRESH_COOLDOWN_SECS: u64 = 60;

/// That cooldown in nanoseconds.
pub open spec fn default_cooldown() -> u128 {
    (REFRESH_COOLDOWN_SECS * NANOS_PER_SEC) as u128
}

/// The outcome of a successful validation.
#[derive(Debug)]
pub struct ValidationResult {
    pub authenticated_id: String,
    pub authorized: bool,
}

/// What the outcome of a successful validation stands for.
#[verifier::ext_equal]
pub struct Identity {
    pub authenticated_id: Seq<char>,
    pub authorized: bool,
}

impl View for ValidationResult {
    type V = Identity;

    open spec fn view(&self) -> Identity {
        Identity { authenticated_id: self.authenticated_id@, authorized: self.authorized }
    }
}

/// What the outcome of a validation stands for.
pub open spec fn outcome_view(
    outcome: Result<ValidationResult, ValidationError<String>>,
) -> Result<Identity, ValidationError<Seq<char>>> {
    match outcome {
        Ok(result) => Ok(result@),
        Err(error) => Err(error@),
    }
}

/// The issuer URL that a setting gives.
pub open spec fn issuer_of(setting: Option<Seq<u8>>) -> Result<
    Seq<char>,
    ValidationError<Seq<char>>,
> {
    match setting {
        None => Err(ValidationError::IssuerNotConfigured),
        Some(bytes) => if valid_utf8(bytes) {
            Ok(decode_utf8(bytes))
        } else {
            Err(ValidationError::IssuerNotUtf8(utf8_error_text(bytes)))
        },
    }
}

/// The bytes of a setting.
pub open spec fn setting_view(setting: Option<&[u8]>) -> Option<Seq<u8>> {
    match setting {
        Some(bytes) => Some(bytes@),
        None => None,
    }
}

/// The issuer URL that the setting gives.
pub fn get_issuer_url(setting: Option<&[u8]>) -> (url: Result<String, ValidationError<String>>)
    ensures
        match url {
            Ok(url) => issuer_of(setting_view(setting)) == Ok::<_, ValidationError<Seq<char>>>(
                url@,
            ),
            Err(error) => issuer_of(setting_view(setting)) == Err::<Seq<char>, _>(error@),
        },
{
    match setting {
        None => Err(ValidationError::IssuerNotConfigured),
        Some(bytes) => match parse_utf8(bytes) {
            Ok(url) => Ok(url),
            Err(message) => Err(ValidationError::IssuerNotUtf8(message)),
        },
    }
}

/// The key ID that a token has to name.
pub open spec fn kid_of(header: Result<Option<Seq<char>>, Seq<char>>) -> Result<
    Seq<char>,
    ValidationError<Seq<char>>,
> {
    match header {
        Ok(Some(kid)) => Ok(kid),
        Ok(None) => Err(ValidationError::MissingKid),
        Err(message) => Err(ValidationError::InvalidHeader(message)),
    }
}

/// Takes the key ID out of what was read of a token's header.
pub fn required_kid(header: Result<Option<String>, String>) -> (kid: Result<
    String,
    ValidationError<String>,
>)
    ensures
        match kid {
            Ok(kid) => kid_of(kid_view(header)) == Ok::<_, ValidationError<Seq<char>>>(kid@),
            Err(error) => kid_of(kid_view(header)) == Err::<Seq<char>, _>(error@),
        },
{
    match header {
        Ok(Some(kid)) => Ok(kid),
        Ok(None) => Err(ValidationError::MissingKid),
        Err(message) => Err(ValidationError::InvalidHeader(message)),
    }
}

/// The claims of a token that have a form of their own.
#[derive(Debug)]
pub struct Claims {
    pub sub: String,
    pub preferred_username: Option<String>,
}

/// What the claims stand for.
#[verifier::ext_equal]
pub struct ClaimsView {
    pub sub: Seq<char>,
    pub preferred_username: Option<Seq<char>>,
}

impl View for Claims {
    type V = ClaimsView;

    open spec fn view(&self) -> ClaimsView {
        ClaimsView {
            sub: self.sub@,
            preferred_username: match self.preferred_username {
                Some(name) => Some(name@),
                None => None,
            },
        }
    }
}

/// What came of parsing the claims: the claims, or the parser's wording of what is wrong.
pub open spec fn claims_view(claims: Result<Claims, String>) -> Result<ClaimsView, Seq<char>> {
    match claims {
        Ok(claims) => Ok(claims@),
        Err(message) => Err(message@),
    }
}

/// The outcome that a decoded token leads to, of whose claims the subject was read, together with
/// what came of parsing its claims.
///
/// A token that is rejected whatever its claims are is refused first. Then the claims have to have
/// the right form, then there may be nothing wrong with them, and the token may not have expired.
/// If all is in order, the subject is authenticated, and authorized.
pub open spec fn claims_outcome(
    decoded: Result<Option<Seq<char>>, Refusal<Seq<char>>>,
    claims: Result<ClaimsView, Seq<char>>,
) -> Result<Identity, ValidationError<Seq<char>>> {
    match (decoded, claims) {
        (Err(Refusal::Token(message)), _) => Err(ValidationError::InvalidToken(message)),
        (_, Err(message)) => Err(ValidationError::InvalidClaims(message)),
        (Err(Refusal::Claims(message)), Ok(_)) => Err(ValidationError::InvalidToken(message)),
        (Err(Refusal::Expired(message)), Ok(_)) => Err(ValidationError::InvalidToken(message)),
        (Ok(subject), Ok(claims)) => if subject == Some(claims.sub) {
            Ok(Identity { authenticated_id: claims.sub, authorized: true })
        } else {
            Err(ValidationError::ForeignClaims)
        },
    }
}

/// Turns what came of decoding a token and of parsing its claims into the outcome of its
/// validation.
pub fn accept_claims(
    decoded: Result<Option<String>, Refusal<String>>,
    claims: &Result<Claims, String>,
) -> (outcome: Result<ValidationResult, ValidationError<String>>)
    ensures
        outcome_view(outcome) == claims_outcome(decoded_view(decoded), claims_view(*claims)),
{
    if let Err(Refusal::Token(message)) = decoded {
        return Err(ValidationError::InvalidToken(message));
    }
    let claims = match claims {
        Ok(claims) => claims,
        Err(message) => {
            return Err(ValidationError::InvalidClaims(message.clone()));
        },
    };
    match decoded {
        Err(Refusal::Token(message)) | Err(Refusal::Claims(message)) | Err(
            Refusal::Expired(message),
        ) => Err(ValidationError::InvalidToken(message)),
        Ok(Some(subject)) => if subject == claims.sub {
            Ok(ValidationResult { authenticated_id: subject, authorized: true })
        } else {
            Err(ValidationError::ForeignClaims)
        },
        Ok(None) => Err(ValidationError::ForeignClaims),
    }
}

/// What the token library makes, clock aside, of a token and its subject, with the settings of this
/// validator: RS256, and any audience.
pub open spec fn subject_verdict(token: Seq<char>, key: RsaComponents) -> Result<
    Option<Seq<char>>,
    Refusal<Seq<char>>,
> {
    token_verdict(token, key, SigningAlgorithm::RS256, false, "sub"@).0
}

/// The times, in seconds of the system's clock, at which the token library calls a token expired,
/// with the same settings.
pub open spec fn expired_times(token: Seq<char>, key: RsaComponents) -> Set<u64> {
    token_verdict(token, key, SigningAlgorithm::RS256, false, "sub"@).1
}

/// The outcome of checking `token` with `key` when the system's clock reads `clock`, in seconds: what
/// the token library returns then, together with the claims, leads to it.
pub open spec fn conclusion(
    token: Seq<char>,
    key: RsaComponents,
    claims: Result<ClaimsView, Seq<char>>,
    clock: u64,
) -> Result<Identity, ValidationError<Seq<char>>> {
    claims_outcome(
        decoded_at((subject_verdict(token, key), expired_times(token, key)), false, clock),
        claims,
    )
}

/// Whether checking `token` with `key` may end in `outcome`: it does at some time of the system's
/// clock.
pub open spec fn may_conclude(
    token: Seq<char>,
    key: RsaComponents,
    claims: Result<ClaimsView, Seq<char>>,
    outcome: Result<Identity, ValidationError<Seq<char>>>,
) -> bool {
    exists|clock: u64| outcome == #[trigger] conclusion(token, key, claims, clock)
}

/// Checks a token with a key.
pub fn check_token(token: &str, key: &RsaKey, claims: &Result<Claims, String>) -> (outcome: Result<
    ValidationResult,
    ValidationError<String>,
>)
    ensures
        may_conclude(token@, key@, claims_view(*claims), outcome_view(outcome)),
{
    proof {
        let verdict = token_verdict(token@, key@, SigningAlgorithm::RS256, false, "sub"@);
        assert(verdict == (subject_verdict(token@, key@), expired_times(token@, key@)));
        assert forall|clock: u64|
            claims_outcome(#[trigger] decoded_at(verdict, false, clock), claims_view(*claims))
                == conclusion(token@, key@, claims_view(*claims), clock) by {}
    }
    accept_claims(decode_claim(token, key, SigningAlgorithm::RS256, false, "sub"), claims)
}

/// Where a validation has come to.
pub enum ValidationStep {
    /// It is finished.
    Finished(Result<ValidationResult, ValidationError<String>>),
    /// It needs the issuer's keys, to be fetched by way of the discovery document, for the key
    /// with this ID.
    FetchKeys { kid: String, discovery_url: String },
}

/// What a step stands for.
pub enum StepView {
    Finished(Result<Identity, ValidationError<Seq<char>>>),
    FetchKeys { kid: Seq<char>, discovery_url: Seq<char> },
}

impl View for ValidationStep {
    type V = StepView;

    open spec fn view(&self) -> StepView {
        match self {
            ValidationStep::Finished(outcome) => StepView::Finished(outcome_view(*outcome)),
            ValidationStep::FetchKeys { kid, discovery_url } => StepView::FetchKeys {
                kid: kid@,
                discovery_url: discovery_url@,
            },
        }
    }
}

/// What validating `token` for `role` at the time `now` comes to, given the cached keys and the issuer
/// setting, when the system's clock reads `clock`. The role is not looked at.
pub open spec fn next_step(
    cache: CacheView,
    setting: Option<Seq<u8>>,
    token: Seq<char>,
    role: Seq<char>,
    claims: Result<ClaimsView, Seq<char>>,
    now: u128,
    clock: u64,
) -> StepView {
    match (issuer_of(setting), kid_of(header_kid(token))) {
        (Err(error), _) => StepView::Finished(Err(error)),
        (Ok(_), Err(error)) => StepView::Finished(Err(error)),
        (Ok(issuer), Ok(kid)) => if cache.keys.contains_key(kid) {
            StepView::Finished(conclusion(token, cache.keys[kid], claims, clock))
        } else if cache.can_refresh(now) {
            StepView::FetchKeys { kid, discovery_url: discovery_url_text(issuer) }
        } else {
            StepView::Finished(Err(ValidationError::RefreshOnCooldown(kid)))
        },
    }
}

/// Whether validating `token` for `role` at the time `now` may come to `step`: it does at some time of
/// the system's clock.
pub open spec fn may_step(
    cache: CacheView,
    setting: Option<Seq<u8>>,
    token: Seq<char>,
    role: Seq<char>,
    claims: Result<ClaimsView, Seq<char>>,
    now: u128,
    step: StepView,
) -> bool {
    exists|clock: u64|
        step == #[trigger] next_step(cache, setting, token, role, claims, now, clock)
}

/// A validation may come to a step that finishes with a cached key exactly if checking the token with
/// that key may end so; all other steps do not depend on the system's clock.
pub proof fn lemma_may_step(
    cache: CacheView,
    setting: Option<Seq<u8>>,
    token: Seq<char>,
    role: Seq<char>,
    claims: Result<ClaimsView, Seq<char>>,
    now: u128,
    step: StepView,
)
    ensures
        ({
            let kid = kid_of(header_kid(token));
            if issuer_of(setting) is Ok && kid is Ok && cache.keys.contains_key(kid->Ok_0) {
                may_step(cache, setting, token, role, claims, now, step) <==> step is Finished
                    && may_conclude(token, cache.keys[kid->Ok_0], claims, step->Finished_0)
            } else {
                may_step(cache, setting, token, role, claims, now, step) <==> step == next_step(
                    cache,
                    setting,
                    token,
                    role,
                    claims,
                    now,
                    0,
                )
            }
        }),
{
    let kid = kid_of(header_kid(token));
    if issuer_of(setting) is Ok && kid is Ok && cache.keys.contains_key(kid->Ok_0) {
        let key = cache.keys[kid->Ok_0];
        if step is Finished && may_conclude(token, key, claims, step->Finished_0) {
            let clock = choose|clock: u64|
                step->Finished_0 == #[trigger] conclusion(token, key, claims, clock);
            assert(step == next_step(cache, setting, token, role, claims, now, clock));
        }
        if may_step(cache, setting, token, role, claims, now, step) {
            let clock = choose|clock: u64|
                step == #[trigger] next_step(cache, setting, token, role, claims, now, clock);
            assert(step->Finished_0 == conclusion(token, key, claims, clock));
        }
    } else {
        assert forall|clock: u64|
            #[trigger] next_step(cache, setting, token, role, claims, now, clock) == next_step(
                cache,
                setting,
                token,
                role,
                claims,
                now,
                0,
            ) by {}
    }
}

/// What came of an attempt to fetch the issuer's keys.
pub open spec fn fetched_view(fetched: Result<Vec<JwkKey>, String>) -> Result<
    Seq<JwkView>,
    Seq<char>,
> {
    match fetched {
        Ok(jwks) => Ok(jwks_view(jwks@)),
        Err(message) => Err(message@),
    }
}

/// The cache after an attempt to fetch the issuer's keys at the time `now`.
pub open spec fn after_fetch(
    cache: CacheView,
    fetched: Result<Seq<JwkView>, Seq<char>>,
    now: u128,
) -> CacheView {
    match fetched {
        Ok(jwks) => cache.refreshed(jwks, now),
        Err(_) => cache,
    }
}

/// What a validation that had to fetch the key with the ID `kid` ends in when the system's clock reads
/// `clock`.
pub open spec fn resumption(
    fetched: Result<Seq<JwkView>, Seq<char>>,
    token: Seq<char>,
    claims: Result<ClaimsView, Seq<char>>,
    kid: Seq<char>,
    clock: u64,
) -> Result<Identity, ValidationError<Seq<char>>> {
    match fetched {
        Ok(jwks) => if usable_keys(jwks).contains_key(kid) {
            conclusion(token, usable_keys(jwks)[kid], claims, clock)
        } else {
            Err(ValidationError::UnknownKey(kid))
        },
        Err(message) => Err(ValidationError::FetchFailed(message)),
    }
}

/// Whether a validation that had to fetch the key with the ID `kid` may end in `outcome`: it
/// does at some time of the system's clock.
pub open spec fn may_resume(
    fetched: Result<Seq<JwkView>, Seq<char>>,
    token: Seq<char>,
    claims: Result<ClaimsView, Seq<char>>,
    kid: Seq<char>,
    outcome: Result<Identity, ValidationError<Seq<char>>>,
) -> bool {
    exists|clock: u64| outcome == #[trigger] resumption(fetched, token, claims, kid, clock)
}

/// A resumed validation that found its key may end exactly as checking the token with that key may;
/// any other does not depend on the system's clock.
pub proof fn lemma_may_resume(
    fetched: Result<Seq<JwkView>, Seq<char>>,
    token: Seq<char>,
    claims: Result<ClaimsView, Seq<char>>,
    kid: Seq<char>,
    outcome: Result<Identity, ValidationError<Seq<char>>>,
)
    ensures
        if fetched is Ok && usable_keys(fetched->Ok_0).contains_key(kid) {
            may_resume(fetched, token, claims, kid, outcome) <==> may_conclude(
                token,
                usable_keys(fetched->Ok_0)[kid],
                claims,
                outcome,
            )
        } else {
            may_resume(fetched, token, claims, kid, outcome) <==> outcome == resumption(
                fetched,
                token,
                claims,
                kid,
                0,
            )
        },
{
    if fetched is Ok && usable_keys(fetched->Ok_0).contains_key(kid) {
        let key = usable_keys(fetched->Ok_0)[kid];
        if may_conclude(token, key, claims, outcome) {
            let clock = choose|clock: u64|
                outcome == #[trigger] conclusion(token, key, claims, clock);
            assert(outcome == resumption(fetched, token, claims, kid, clock));
        }
        if may_resume(fetched, token, claims, kid, outcome) {
            let clock = choose|clock: u64|
                outcome == #[trigger] resumption(fetched, token, claims, kid, clock);
            assert(outcome == conclusion(token, key, claims, clock));
        }
    } else {
        assert forall|clock: u64|
            #[trigger] resumption(fetched, token, claims, kid, clock) == resumption(
                fetched,
                token,
                claims,
                kid,
                0,
            ) by {}
    }
}

/// A validator of tokens.
pub trait TokenValidator: Send + Sync {
    /// Validates a token at the time `now`, with the issuer that the setting gives and what came of
    /// parsing the token's claims, and returns the authenticated identity.
    fn validate(
        &self,
        setting: Option<&[u8]>,
        token: &str,
        role: &str,
        claims: &Result<Claims, String>,
        now: u128,
    ) -> ValidationStep;
}

/// A validator of tokens that an OpenID Connect issuer has signed.
pub struct OidcTokenValidator {
    cache: JwksCache,
}

impl View for OidcTokenValidator {
    type V = CacheView;

    closed spec fn view(&self) -> CacheView {
        self.cache@
    }
}

impl OidcTokenValidator {
    /// A validator without keys. Once they have been fetched successfully, it does not ask for them
    /// again before the cooldown has passed.
    pub fn new(refresh_cooldown: Duration) -> (validator: OidcTokenValidator)
        ensures
            validator@ == (CacheView {
                keys: Map::empty(),
                last_refresh: None,
                refresh_cooldown: nanoseconds(refresh_cooldown),
            }),
    {
        OidcTokenValidator { cache: JwksCache::new(refresh_cooldown) }
    }

    /// Fills the validator with the issuer's keys, as fetched at the time `now`, and counts those
    /// that can be used.
    pub fn initialize(&mut self, fetched: Result<Vec<JwkKey>, String>, now: u128) -> (count: Result<
        usize,
        ValidationError<String>,
    >)
        ensures
            final(self)@ == after_fetch(old(self)@, fetched_view(fetched), now),
            match fetched_view(fetched) {
                Ok(jwks) => count is Ok && count->Ok_0 == usable_keys(jwks).dom().len(),
                Err(message) => count is Err && count->Err_0@ == ValidationError::FetchFailed(
                    message,
                ),
            },
    {
        self.cache.initialize(fetched, now)
    }

    /// Goes on with a validation that needed the issuer's keys, with what came of fetching them at
    /// the time `now`.
    pub fn resume(
        &mut self,
        token: &str,
        claims: &Result<Claims, String>,
        kid: &str,
        fetched: Result<Vec<JwkKey>, String>,
        now: u128,
    ) -> (outcome: Result<ValidationResult, ValidationError<String>>)
        ensures
            final(self)@ == after_fetch(old(self)@, fetched_view(fetched), now),
            may_resume(
                fetched_view(fetched),
                token@,
                claims_view(*claims),
                kid@,
                outcome_view(outcome),
            ),
    {
        proof {
            let fetched = fetched_view(fetched);
            let claims = claims_view(*claims);
            assert forall|outcome|
                #![trigger may_resume(fetched, token@, claims, kid@, outcome)]
                may_resume(fetched, token@, claims, kid@, outcome) <==> if fetched is Ok
                    && usable_keys(fetched->Ok_0).contains_key(kid@) {
                    may_conclude(token@, usable_keys(fetched->Ok_0)[kid@], claims, outcome)
                } else {
                    outcome == resumption(fetched, token@, claims, kid@, 0)
                } by {
                lemma_may_resume(fetched, token@, claims, kid@, outcome);
            }
        }
        match self.cache.initialize(fetched, now) {
            Ok(_) => match self.cache.get_refreshed_key(kid) {
                Ok(key) => check_token(token, key, claims),
                Err(error) => Err(error),
            },
            Err(error) => Err(error),
        }
    }
}

impl Default for OidcTokenValidator {
    /// A validator without keys, with the cooldown of [`REFRESH_COOLDOWN_SECS`].
    fn default() -> (validator: OidcTokenValidator)
        ensures
            validator@ == (CacheView {
                keys: Map::empty(),
                last_refresh: None,
                refresh_cooldown: default_cooldown(),
            }),
    {
        OidcTokenValidator::new(Duration::from_secs(REFRESH_COOLDOWN_SECS))
    }
}

impl TokenValidator for OidcTokenValidator {
    /// The role is not looked at.
    fn validate(
        &self,
        setting: Option<&[u8]>,
        token: &str,
        _role: &str,
        claims: &Result<Claims, String>,
        now: u128,
    ) -> (step: ValidationStep)
        ensures
            may_step(
                self@,
                setting_view(setting),
                token@,
                _role@,
                claims_view(*claims),
                now,
                step@,
            ),
    {
        proof {
            let claims = claims_view(*claims);
            let setting = setting_view(setting);
            assert forall|step|
                #![trigger may_step(self@, setting, token@, _role@, claims, now, step)]
                may_step(self@, setting, token@, _role@, claims, now, step) <==> ({
                    let kid = kid_of(header_kid(token@));
                    if issuer_of(setting) is Ok && kid is Ok && self@.keys.contains_key(
                        kid->Ok_0,
                    ) {
                        step is Finished && may_conclude(
                            token@,
                            self@.keys[kid->Ok_0],
                            claims,
                            step->Finished_0,
                        )
                    } else {
                        step == next_step(self@, setting, token@, _role@, claims, now, 0)
                    }
                }) by {
                lemma_may_step(self@, setting, token@, _role@, claims, now, step);
            }
        }
        let issuer_url = match get_issuer_url(setting) {
            Ok(issuer_url) => issuer_url,
            Err(error) => {
                return ValidationStep::Finished(Err(error));
            },
        };
        let kid = match required_kid(token_kid(token)) {
            Ok(kid) => kid,
            Err(error) => {
                return ValidationStep::Finished(Err(error));
            },
        };
        match self.cache.get_key(kid.as_str(), issuer_url.as_str(), now) {
            KeyLookup::Found(key) => ValidationStep::Finished(check_token(token, key, claims)),
            KeyLookup::Fetch(discovery_url) => ValidationStep::FetchKeys { kid, discovery_url },
            KeyLookup::OnCooldown => ValidationStep::Finished(
                Err(ValidationError::RefreshOnCooldown(kid)),
            ),
        }
    }
}

} // verus!

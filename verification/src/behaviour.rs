//! What the validation of a token does, said of its inputs and results alone.
//!
//! The laws here name what comes in (the token, the key set as the issuer lists it, the setting, the
//! times) and what comes out, and use of the other modules only the relations that the contracts of
//! the operations are written in.
use crate::error::{error_text, ValidationError};
use crate::jwks::{discovery_url_text, jwks_view, usable_keys, CacheView, JwkKey, JwkView};
use crate::jwt::{
    decoded_view, header_kid, is_base64url, kid_view, token_verdict, Refusal,
    RsaComponents, SigningAlgorithm,
};
use crate::text::{decimal, trim_end_slashes, utf8_error_text};
use crate::validator::{
    after_fetch, claims_outcome, claims_view, conclusion, default_cooldown, fetched_view, issuer_of,
    kid_of, lemma_may_resume, lemma_may_step, may_conclude, may_resume, may_step, outcome_view,
    setting_view, Claims, ClaimsView, Identity, StepView, ValidationResult, ValidationStep,
};
use vstd::prelude::*;
use vstd::string::*;
use vstd::utf8::*;

verus! {

/// A decoded token is accepted exactly if it has a subject, and its claims were parsed with the same
/// one; the subject is then authenticated, and authorized, whatever the other claims are.
pub proof fn law_decoded_subject_is_accepted(
    decoded: Result<Option<Seq<char>>, Refusal<Seq<char>>>,
    claims: Result<ClaimsView, Seq<char>>,
)
    ensures
        claims_outcome(decoded, claims) is Ok <==> (decoded is Ok && decoded->Ok_0 is Some
            && claims is Ok && claims->Ok_0.sub == decoded->Ok_0->0),
        claims_outcome(decoded, claims) matches Ok(identity) ==> identity.authenticated_id
            == decoded->Ok_0->0 && identity.authorized,
{
}

/// A token that is not accepted is refused for the first thing that is wrong with it: the token
/// itself, the form of its claims, what the claims say or that it has expired, or that the claims
/// are those of another.
pub proof fn law_first_fault_is_reported(
    decoded: Result<Option<Seq<char>>, Refusal<Seq<char>>>,
    claims: Result<ClaimsView, Seq<char>>,
)
    ensures
        decoded matches Err(Refusal::Token(message)) ==> claims_outcome(decoded, claims) == Err::<
            Identity,
            _,
        >(ValidationError::InvalidToken(message)),
        !(decoded is Err && decoded->Err_0 is Token) ==> (claims matches Err(message)
            ==> claims_outcome(decoded, claims) == Err::<Identity, _>(
            ValidationError::InvalidClaims(message),
        )),
        claims is Ok ==> (decoded matches Err(Refusal::Claims(message)) ==> claims_outcome(
            decoded,
            claims,
        ) == Err::<Identity, _>(ValidationError::InvalidToken(message))),
        claims is Ok ==> (decoded matches Err(Refusal::Expired(message)) ==> claims_outcome(
            decoded,
            claims,
        ) == Err::<Identity, _>(ValidationError::InvalidToken(message))),
        claims is Ok && decoded is Ok && decoded->Ok_0 != Some(claims->Ok_0.sub) ==> claims_outcome(
            decoded,
            claims,
        ) == Err::<Identity, _>(ValidationError::<Seq<char>>::ForeignClaims),
{
}

/// Only the token library calls a token expired: whatever a token that it finds in order comes to,
/// there is a time of the clock at which the library either calls it expired, and it is refused for
/// that, or does not, and it is accepted for its subject.
pub proof fn law_only_the_library_calls_a_token_expired(
    token: Seq<char>,
    key: RsaComponents,
    claims: ClaimsView,
    outcome: Result<Identity, ValidationError<Seq<char>>>,
)
    requires
        may_conclude(token, key, Ok(claims), outcome),
        token_verdict(token, key, SigningAlgorithm::RS256, false, "sub"@).0 == Ok::<
            _,
            Refusal<Seq<char>>,
        >(Some(claims.sub)),
    ensures
        exists|clock: u64|
            if #[trigger] token_verdict(
                token,
                key,
                SigningAlgorithm::RS256,
                false,
                "sub"@,
            ).1.contains(clock) {
                outcome == Err::<Identity, _>(ValidationError::InvalidToken("ExpiredSignature"@))
            } else {
                outcome == Ok::<_, ValidationError<Seq<char>>>(
                    Identity { authenticated_id: claims.sub, authorized: true },
                )
            },
{
    let clock = choose|clock: u64|
        outcome == #[trigger] conclusion(token, key, Ok(claims), clock);
    let times = token_verdict(token, key, SigningAlgorithm::RS256, false, "sub"@).1;
    assert(times.contains(clock) || !times.contains(clock));
}

/// A token that is in order and does not expire is accepted for its subject, and nothing else may
/// come of it.
pub proof fn law_lasting_token_is_accepted(
    token: Seq<char>,
    key: RsaComponents,
    claims: ClaimsView,
    outcome: Result<Identity, ValidationError<Seq<char>>>,
)
    requires
        token_verdict(token, key, SigningAlgorithm::RS256, false, "sub"@).0 == Ok::<
            _,
            Refusal<Seq<char>>,
        >(Some(claims.sub)),
        forall|clock: u64|
            !(#[trigger] token_verdict(
                token,
                key,
                SigningAlgorithm::RS256,
                false,
                "sub"@,
            ).1.contains(clock)),
    ensures
        may_conclude(token, key, Ok(claims), outcome) <==> outcome == Ok::<
            _,
            ValidationError<Seq<char>>,
        >(Identity { authenticated_id: claims.sub, authorized: true }),
{
    let times = token_verdict(token, key, SigningAlgorithm::RS256, false, "sub"@).1;
    assert(!times.contains(0));
    assert(conclusion(token, key, Ok(claims), 0) == Ok::<_, ValidationError<Seq<char>>>(
        Identity { authenticated_id: claims.sub, authorized: true },
    ));
    if may_conclude(token, key, Ok(claims), outcome) {
        law_only_the_library_calls_a_token_expired(token, key, claims, outcome);
    }
}

/// What the token library returns for a token and its subject when the clock reads `clock`, checked
/// with RS256 and for any audience: what it makes of the token, unless it finds the token in order
/// but expired by then.
pub open spec fn library_returns(token: Seq<char>, key: RsaComponents, clock: u64) -> Result<
    Option<Seq<char>>,
    Refusal<Seq<char>>,
> {
    let (verdict, times) = token_verdict(token, key, SigningAlgorithm::RS256, false, "sub"@);
    if verdict is Ok && times.contains(clock) {
        Err(Refusal::Expired("ExpiredSignature"@))
    } else {
        verdict
    }
}

/// What comes of a token is what the library returns for it at some time, weighed with the claims,
/// and nothing else.
pub proof fn law_outcome_follows_the_library(
    token: Seq<char>,
    key: RsaComponents,
    claims: Result<ClaimsView, Seq<char>>,
    clock: u64,
    outcome: Result<Identity, ValidationError<Seq<char>>>,
)
    ensures
        conclusion(token, key, claims, clock) == claims_outcome(
            library_returns(token, key, clock),
            claims,
        ),
        may_conclude(token, key, claims, outcome) <==> exists|time: u64|
            outcome == claims_outcome(#[trigger] library_returns(token, key, time), claims),
{
    assert forall|time: u64|
        claims_outcome(#[trigger] library_returns(token, key, time), claims) == conclusion(
            token,
            key,
            claims,
            time,
        ) by {}
    if may_conclude(token, key, claims, outcome) {
        let time = choose|time: u64| outcome == #[trigger] conclusion(token, key, claims, time);
        assert(outcome == claims_outcome(library_returns(token, key, time), claims));
    }
}

/// The name that a user prefers plays no part: with the same subject, the same may come of a token.
pub proof fn law_preferred_username_plays_no_part(
    token: Seq<char>,
    key: RsaComponents,
    claims: ClaimsView,
    other_claims: ClaimsView,
    clock: u64,
    outcome: Result<Identity, ValidationError<Seq<char>>>,
)
    requires
        claims.sub == other_claims.sub,
    ensures
        conclusion(token, key, Ok(claims), clock) == conclusion(
            token,
            key,
            Ok(other_claims),
            clock,
        ),
        may_conclude(token, key, Ok(claims), outcome) <==> may_conclude(
            token,
            key,
            Ok(other_claims),
            outcome,
        ),
{
    assert forall|clock: u64| #[trigger]
        conclusion(token, key, Ok(claims), clock) == conclusion(
        token,
        key,
        Ok(other_claims),
        clock,
    ) by {}
    assert forall|clock: u64| #[trigger]
        conclusion(token, key, Ok(other_claims), clock) == conclusion(
        token,
        key,
        Ok(claims),
        clock,
    ) by {}
}

/// Checking a token ends in its acceptance, or in one of the refusals that are about the token and
/// its claims; never in one that is about the issuer or its keys.
pub proof fn law_checking_blames_the_token(
    token: Seq<char>,
    key: RsaComponents,
    claims: Result<ClaimsView, Seq<char>>,
    outcome: Result<Identity, ValidationError<Seq<char>>>,
)
    requires
        may_conclude(token, key, claims, outcome),
    ensures
        outcome matches Err(error) ==> error is InvalidToken || error is InvalidClaims
            || error is ForeignClaims,
{
}

/// The issuer is the text of the setting, if there is one and it is UTF-8.
pub proof fn law_issuer_is_the_setting(bytes: Seq<u8>)
    ensures
        issuer_of(None) == Err::<Seq<char>, _>(ValidationError::<Seq<char>>::IssuerNotConfigured),
        valid_utf8(bytes) ==> issuer_of(Some(bytes)) == Ok::<_, ValidationError<Seq<char>>>(
            decode_utf8(bytes),
        ),
        !valid_utf8(bytes) ==> issuer_of(Some(bytes)) == Err::<Seq<char>, _>(
            ValidationError::IssuerNotUtf8(utf8_error_text(bytes)),
        ),
{
}

/// The key ID is the one that the header has, whatever its text.
pub proof fn law_key_id_is_the_one_in_the_header(kid: Seq<char>, message: Seq<char>)
    ensures
        kid_of(Ok(Some(kid))) == Ok::<_, ValidationError<Seq<char>>>(kid),
        kid_of(Ok(None)) == Err::<Seq<char>, _>(ValidationError::<Seq<char>>::MissingKid),
        kid_of(Err(message)) == Err::<Seq<char>, _>(ValidationError::InvalidHeader(message)),
{
}

/// Without an issuer, or without a key ID in the token, a validation ends at once, for that reason
/// and no other; the issuer is looked at first.
pub proof fn law_validation_needs_an_issuer_and_a_key_id(
    cache: CacheView,
    setting: Option<Seq<u8>>,
    token: Seq<char>,
    role: Seq<char>,
    claims: Result<ClaimsView, Seq<char>>,
    now: u128,
    step: StepView,
)
    requires
        may_step(cache, setting, token, role, claims, now, step),
    ensures
        setting is None ==> step == StepView::Finished(Err(ValidationError::IssuerNotConfigured)),
        setting matches Some(bytes) ==> !valid_utf8(bytes) ==> step == StepView::Finished(
            Err(ValidationError::IssuerNotUtf8(utf8_error_text(bytes))),
        ),
        setting is Some && valid_utf8(setting->0) ==> match header_kid(token) {
            Err(message) => step == StepView::Finished(
                Err(ValidationError::InvalidHeader(message)),
            ),
            Ok(None) => step == StepView::Finished(Err(ValidationError::MissingKid)),
            Ok(Some(_)) => true,
        },
{
    lemma_may_step(cache, setting, token, role, claims, now, step);
}

/// Under a configured issuer, a token whose key is cached is checked with that key at once, at any
/// time: the validation may end exactly as checking the token with the key may.
pub proof fn law_cached_key_is_used(
    cache: CacheView,
    issuer: Seq<u8>,
    token: Seq<char>,
    kid: Seq<char>,
    role: Seq<char>,
    claims: Result<ClaimsView, Seq<char>>,
    now: u128,
    outcome: Result<Identity, ValidationError<Seq<char>>>,
    step: StepView,
)
    requires
        valid_utf8(issuer),
        header_kid(token) == Ok::<_, Seq<char>>(Some(kid)),
        cache.keys.contains_key(kid),
    ensures
        may_step(
            cache,
            Some(issuer),
            token,
            role,
            claims,
            now,
            StepView::Finished(outcome),
        ) <==> may_conclude(token, cache.keys[kid], claims, outcome),
        may_step(cache, Some(issuer), token, role, claims, now, step) ==> step is Finished,
{
    lemma_may_step(cache, Some(issuer), token, role, claims, now, StepView::Finished(outcome));
    lemma_may_step(cache, Some(issuer), token, role, claims, now, step);
}

/// Keys that were never fetched may be fetched at every time: under a configured issuer, a token that
/// names a key leads to its being fetched, whatever the time and the cooldown.
pub proof fn law_keys_never_fetched_are_fetched(
    cache: CacheView,
    issuer: Seq<u8>,
    token: Seq<char>,
    kid: Seq<char>,
    role: Seq<char>,
    claims: Result<ClaimsView, Seq<char>>,
    now: u128,
    step: StepView,
)
    requires
        cache.last_refresh is None,
        !cache.keys.contains_key(kid),
        valid_utf8(issuer),
        header_kid(token) == Ok::<_, Seq<char>>(Some(kid)),
    ensures
        cache.can_refresh(now),
        may_step(cache, Some(issuer), token, role, claims, now, step) <==> step == (
        StepView::FetchKeys { kid, discovery_url: discovery_url_text(decode_utf8(issuer)) }),
{
    lemma_may_step(cache, Some(issuer), token, role, claims, now, step);
}

/// Keys that were fetched before are fetched again for a key that is not among them exactly if at
/// least the cooldown has passed since; until then the token is refused, with the key ID.
pub proof fn law_keys_are_fetched_again_after_the_cooldown(
    cache: CacheView,
    fetched_at: u128,
    issuer: Seq<u8>,
    token: Seq<char>,
    kid: Seq<char>,
    role: Seq<char>,
    claims: Result<ClaimsView, Seq<char>>,
    now: u128,
    step: StepView,
)
    requires
        cache.last_refresh == Some(fetched_at),
        !cache.keys.contains_key(kid),
        valid_utf8(issuer),
        header_kid(token) == Ok::<_, Seq<char>>(Some(kid)),
    ensures
        cache.can_refresh(now) <==> (now >= fetched_at + cache.refresh_cooldown
            || cache.refresh_cooldown == 0),
        may_step(cache, Some(issuer), token, role, claims, now, step) <==> step == (if now
            >= fetched_at + cache.refresh_cooldown || cache.refresh_cooldown == 0 {
            StepView::FetchKeys { kid, discovery_url: discovery_url_text(decode_utf8(issuer)) }
        } else {
            StepView::Finished(Err(ValidationError::RefreshOnCooldown(kid)))
        }),
{
    lemma_may_step(cache, Some(issuer), token, role, claims, now, step);
}

/// The default cooldown is a minute.
pub proof fn law_default_cooldown_is_a_minute()
    ensures
        default_cooldown() == 60_000_000_000u128,
{
}

/// The cache after a number of attempts to fetch the keys, each with its time.
pub open spec fn after_fetches(
    cache: CacheView,
    attempts: Seq<(Result<Seq<JwkView>, Seq<char>>, u128)>,
) -> CacheView
    decreases attempts.len(),
{
    if attempts.len() == 0 {
        cache
    } else {
        let (fetched, now) = attempts.last();
        after_fetch(after_fetches(cache, attempts.drop_last()), fetched, now)
    }
}

/// However often fetching the keys has failed, and whenever, the next token that names a key makes
/// them be fetched.
pub proof fn law_failed_fetches_do_not_stop_the_next(
    cooldown: u128,
    attempts: Seq<(Result<Seq<JwkView>, Seq<char>>, u128)>,
    issuer: Seq<u8>,
    token: Seq<char>,
    kid: Seq<char>,
    role: Seq<char>,
    claims: Result<ClaimsView, Seq<char>>,
    now: u128,
    step: StepView,
)
    requires
        forall|k: int| 0 <= k < attempts.len() ==> (#[trigger] attempts[k]).0 is Err,
        valid_utf8(issuer),
        header_kid(token) == Ok::<_, Seq<char>>(Some(kid)),
        may_step(
            after_fetches(
                CacheView { keys: Map::empty(), last_refresh: None, refresh_cooldown: cooldown },
                attempts,
            ),
            Some(issuer),
            token,
            role,
            claims,
            now,
            step,
        ),
    ensures
        step == (StepView::FetchKeys {
            kid,
            discovery_url: discovery_url_text(decode_utf8(issuer)),
        }),
    decreases attempts.len(),
{
    let cache = CacheView { keys: Map::empty(), last_refresh: None, refresh_cooldown: cooldown };
    if attempts.len() == 0 {
        law_keys_never_fetched_are_fetched(cache, issuer, token, kid, role, claims, now, step);
    } else {
        assert(attempts[attempts.len() - 1].0 is Err);
        assert forall|k: int| 0 <= k < attempts.len() - 1 implies (
        #[trigger] attempts.drop_last()[k]).0 is Err by {
            assert(attempts[k].0 is Err);
        }
        law_failed_fetches_do_not_stop_the_next(
            cooldown,
            attempts.drop_last(),
            issuer,
            token,
            kid,
            role,
            claims,
            now,
            step,
        );
    }
}

/// The discovery document is found under the issuer's URL without the slashes at its end, however
/// many there are.
pub proof fn law_discovery_url(base: Seq<char>, slashes: Seq<char>)
    requires
        base.len() == 0 || base.last() != '/',
        forall|i: int| 0 <= i < slashes.len() ==> slashes[i] == '/',
    ensures
        trim_end_slashes(base + slashes) == base,
        discovery_url_text(base + slashes) == base + "/.well-known/openid-configuration"@,
    decreases slashes.len(),
{
    if slashes.len() == 0 {
        assert(base + slashes == base);
    } else {
        assert((base + slashes).drop_last() == base + slashes.drop_last());
        law_discovery_url(base, slashes.drop_last());
    }
}

/// Whether a character is one of base64url.
pub open spec fn in_alphabet(c: char) -> bool {
    'A' <= c <= 'Z' || 'a' <= c <= 'z' || '0' <= c <= '9' || c == '-' || c == '_'
}

/// Which texts are base64url without padding, of whatever length: four characters for three bytes
/// each, and at the end two of which the second is one of `AQgw`, for one byte more, or three of
/// which the third is one of `AEIMQUYcgkosw048`, for two.
pub proof fn law_base64url(text: Seq<char>)
    ensures
        is_base64url(text) <==> {
            &&& forall|i: int| 0 <= i < text.len() ==> in_alphabet(#[trigger] text[i])
            &&& text.len() % 4 != 1
            &&& text.len() % 4 == 2 ==> "AQgw"@.contains(text.last())
            &&& text.len() % 4 == 3 ==> "AEIMQUYcgkosw048"@.contains(text.last())
        },
{
    reveal_strlit("AQgw");
    reveal_strlit("AEIMQUYcgkosw048");
    let one = "AQgw"@;
    let two = "AEIMQUYcgkosw048"@;
    if text.len() > 0 {
        let c = text.last();
        assert(text[text.len() - 1] == c);
        lemma_last_characters(c);
        assert(one.contains(c) ==> in_alphabet(c));
        assert(two.contains(c) ==> in_alphabet(c));
    }
    if is_base64url(text) {
        assert forall|i: int| 0 <= i < text.len() implies in_alphabet(#[trigger] text[i]) by {
            assert(crate::jwt::base64url_value(text[i]) is Some);
        }
    }
}

/// The characters that may stand at the end.
proof fn lemma_last_characters(c: char)
    ensures
        "AQgw"@.contains(c) <==> in_alphabet(c) && crate::jwt::base64url_value(c)->0 % 16 == 0,
        "AEIMQUYcgkosw048"@.contains(c) <==> in_alphabet(c) && crate::jwt::base64url_value(c)->0 % 4
            == 0,
{
    reveal_strlit("AQgw");
    reveal_strlit("AEIMQUYcgkosw048");
    let one = "AQgw"@;
    let two = "AEIMQUYcgkosw048"@;
    assert(one[0] == 'A' && one[1] == 'Q' && one[2] == 'g' && one[3] == 'w');
    assert(two[0] == 'A' && two[1] == 'E' && two[2] == 'I' && two[3] == 'M');
    assert(two[4] == 'Q' && two[5] == 'U' && two[6] == 'Y' && two[7] == 'c');
    assert(two[8] == 'g' && two[9] == 'k' && two[10] == 'o' && two[11] == 's');
    assert(two[12] == 'w' && two[13] == '0' && two[14] == '4' && two[15] == '8');
}

/// Whether an entry of a key set gives this key this ID: it is of type RSA, has the ID, and both
/// components of the key in base64url. Nothing else is asked of it.
pub open spec fn lists(entry: JwkView, kid: Seq<char>, key: RsaComponents) -> bool {
    &&& entry.kty == "RSA"@
    &&& entry.kid == Some(kid)
    &&& entry.n == Some(key.n)
    &&& entry.e == Some(key.e)
    &&& is_base64url(key.n)
    &&& is_base64url(key.e)
}

/// A key set has a key for an ID exactly if one of its entries gives one, whatever else it lists.
pub proof fn law_listed_keys_are_in_the_key_set(jwks: Seq<JwkView>, kid: Seq<char>)
    ensures
        usable_keys(jwks).contains_key(kid) <==> exists|i: int, key: RsaComponents|
            0 <= i < jwks.len() && #[trigger] lists(jwks[i], kid, key),
    decreases jwks.len(),
{
    if jwks.len() > 0 {
        let rest = jwks.drop_last();
        let end = jwks.len() - 1;
        law_listed_keys_are_in_the_key_set(rest, kid);
        if usable_keys(jwks).contains_key(kid) {
            if usable_keys(rest).contains_key(kid) {
                let (i, key) = choose|i: int, key: RsaComponents|
                    0 <= i < rest.len() && #[trigger] lists(rest[i], kid, key);
                assert(lists(jwks[i], kid, key));
            } else {
                let key = RsaComponents { n: jwks[end].n->0, e: jwks[end].e->0 };
                assert(lists(jwks[end], kid, key));
            }
        }
        if exists|i: int, key: RsaComponents|
            0 <= i < jwks.len() && #[trigger] lists(jwks[i], kid, key) {
            let (i, key) = choose|i: int, key: RsaComponents|
                0 <= i < jwks.len() && #[trigger] lists(jwks[i], kid, key);
            if i < end {
                assert(lists(rest[i], kid, key));
            }
        }
    }
}

/// The key for an ID is the one that the last entry gives which gives it any.
pub proof fn law_last_listed_key_counts(
    jwks: Seq<JwkView>,
    kid: Seq<char>,
    i: int,
    key: RsaComponents,
)
    requires
        0 <= i < jwks.len(),
        lists(jwks[i], kid, key),
        forall|j: int, other: RsaComponents|
            i < j < jwks.len() ==> !(#[trigger] lists(jwks[j], kid, other)),
    ensures
        usable_keys(jwks).contains_key(kid),
        usable_keys(jwks)[kid] == key,
    decreases jwks.len(),
{
    let rest = jwks.drop_last();
    let end = jwks.len() - 1;
    if i < end {
        assert forall|j: int, other: RsaComponents| i < j < rest.len() implies !(
        #[trigger] lists(rest[j], kid, other)) by {
            assert(!lists(jwks[j], kid, other));
        }
        law_last_listed_key_counts(rest, kid, i, key);
        let other = RsaComponents { n: jwks[end].n->0, e: jwks[end].e->0 };
        assert(!lists(jwks[end], kid, other));
    }
}

/// The parts of an entry count exactly if it is of type RSA and all three are there, whatever they
/// are; whether they can be used is a matter of their encoding alone.
pub proof fn law_entry_with_all_parts(entry: JwkView)
    ensures
        entry.complete_rsa() <==> (entry.kty == "RSA"@ && entry.kid is Some && entry.n is Some
            && entry.e is Some),
        entry.usable() <==> exists|kid: Seq<char>, key: RsaComponents| lists(entry, kid, key),
        entry.complete_rsa() ==> entry.components().n == entry.n->0 && entry.components().e
            == entry.e->0,
{
    if entry.usable() {
        assert(lists(entry, entry.kid->0, RsaComponents { n: entry.n->0, e: entry.e->0 }));
    }
}

/// Keys that were fetched take the place of those in the cache: afterwards there is a key for an ID
/// exactly if it was listed, they were last fetched at that time, and the cooldown is as it was.
pub proof fn law_fetched_keys_replace_the_cached(
    cache: CacheView,
    jwks: Seq<JwkView>,
    now: u128,
    kid: Seq<char>,
)
    ensures
        after_fetch(cache, Ok(jwks), now).keys.contains_key(kid) <==> exists|
            i: int,
            key: RsaComponents,
        |
            0 <= i < jwks.len() && #[trigger] lists(jwks[i], kid, key),
        after_fetch(cache, Ok(jwks), now).keys == usable_keys(jwks),
        after_fetch(cache, Ok(jwks), now) == cache.refreshed(jwks, now),
        after_fetch(cache, Ok(jwks), now).last_refresh == Some(now),
        after_fetch(cache, Ok(jwks), now).refresh_cooldown == cache.refresh_cooldown,
{
    law_listed_keys_are_in_the_key_set(jwks, kid);
}

/// Where the keys that were fetched list the key that the token names, a resumed validation may end
/// exactly as checking the token with the last such key may, however many others are listed; in
/// particular the key is not called unknown.
pub proof fn law_resumed_validation_finds_a_listed_key(
    jwks: Seq<JwkView>,
    token: Seq<char>,
    claims: Result<ClaimsView, Seq<char>>,
    kid: Seq<char>,
    i: int,
    key: RsaComponents,
    outcome: Result<Identity, ValidationError<Seq<char>>>,
)
    requires
        0 <= i < jwks.len(),
        lists(jwks[i], kid, key),
        forall|j: int, other: RsaComponents|
            i < j < jwks.len() ==> !(#[trigger] lists(jwks[j], kid, other)),
    ensures
        may_resume(Ok(jwks), token, claims, kid, outcome) <==> may_conclude(
            token,
            key,
            claims,
            outcome,
        ),
        may_resume(Ok(jwks), token, claims, kid, outcome) ==> !(outcome is Err
            && outcome->Err_0 is UnknownKey),
{
    law_last_listed_key_counts(jwks, kid, i, key);
    lemma_may_resume(Ok(jwks), token, claims, kid, outcome);
    if may_conclude(token, key, claims, outcome) {
        law_checking_blames_the_token(token, key, claims, outcome);
    }
}

/// Where the key that the token names is not listed, or the keys could not be fetched, a resumed
/// validation ends in that, and in nothing else.
pub proof fn law_resumed_validation_without_a_key(
    jwks: Seq<JwkView>,
    message: Seq<char>,
    token: Seq<char>,
    claims: Result<ClaimsView, Seq<char>>,
    kid: Seq<char>,
    outcome: Result<Identity, ValidationError<Seq<char>>>,
)
    ensures
        may_resume(Err(message), token, claims, kid, outcome) <==> outcome == Err::<Identity, _>(
            ValidationError::FetchFailed(message),
        ),
        !(exists|i: int, key: RsaComponents|
            0 <= i < jwks.len() && #[trigger] lists(jwks[i], kid, key)) ==> (may_resume(
            Ok(jwks),
            token,
            claims,
            kid,
            outcome,
        ) <==> outcome == Err::<Identity, _>(ValidationError::UnknownKey(kid))),
{
    law_listed_keys_are_in_the_key_set(jwks, kid);
    lemma_may_resume(Err(message), token, claims, kid, outcome);
    lemma_may_resume(Ok(jwks), token, claims, kid, outcome);
}

/// What a listed key stands for are its own texts, and a list of keys stands for them one by one.
pub proof fn law_listed_key_stands_for_its_texts(jwks: Seq<JwkKey>, i: int)
    requires
        0 <= i < jwks.len(),
    ensures
        jwks_view(jwks).len() == jwks.len(),
        jwks_view(jwks)[i].kty == jwks[i].kty@,
        match jwks[i].kid {
            Some(kid) => jwks_view(jwks)[i].kid == Some(kid@),
            None => jwks_view(jwks)[i].kid is None,
        },
        match jwks[i].n {
            Some(n) => jwks_view(jwks)[i].n == Some(n@),
            None => jwks_view(jwks)[i].n is None,
        },
        match jwks[i].e {
            Some(e) => jwks_view(jwks)[i].e == Some(e@),
            None => jwks_view(jwks)[i].e is None,
        },
        jwks_view(jwks)[i] == jwks[i]@,
{
}

/// What goes into a validation stands for its own texts and bytes.
pub proof fn law_inputs_stand_for_themselves(
    setting: &[u8],
    header: Result<Option<String>, String>,
    decoded: Result<Option<String>, Refusal<String>>,
    claims: Result<Claims, String>,
    fetched: Result<Vec<JwkKey>, String>,
)
    ensures
        setting_view(Some(setting)) == Some(setting@),
        setting_view(None) is None,
        match header {
            Ok(Some(kid)) => kid_view(header) == Ok::<_, Seq<char>>(Some(kid@)),
            Ok(None) => kid_view(header) == Ok::<Option<Seq<char>>, Seq<char>>(None),
            Err(message) => kid_view(header) == Err::<Option<Seq<char>>, _>(message@),
        },
        match decoded {
            Ok(Some(text)) => decoded_view(decoded) == Ok::<_, Refusal<Seq<char>>>(Some(text@)),
            Ok(None) => decoded_view(decoded) == Ok::<Option<Seq<char>>, Refusal<Seq<char>>>(None),
            Err(Refusal::Token(text)) => decoded_view(decoded) == Err::<Option<Seq<char>>, _>(
                Refusal::Token(text@),
            ),
            Err(Refusal::Claims(text)) => decoded_view(decoded) == Err::<Option<Seq<char>>, _>(
                Refusal::Claims(text@),
            ),
            Err(Refusal::Expired(text)) => decoded_view(decoded) == Err::<Option<Seq<char>>, _>(
                Refusal::Expired(text@),
            ),
        },
        match claims {
            Ok(claims) => claims_view(Ok(claims)) is Ok && claims_view(Ok(claims))->Ok_0.sub
                == claims.sub@,
            Err(message) => claims_view(Err(message)) == Err::<ClaimsView, _>(message@),
        },
        match fetched {
            Ok(jwks) => fetched_view(fetched) == Ok::<_, Seq<char>>(jwks_view(jwks@)),
            Err(message) => fetched_view(fetched) == Err::<Seq<JwkView>, _>(message@),
        },
{
}

/// What comes out of a validation stands for its own texts.
pub proof fn law_results_stand_for_themselves(
    outcome: Result<ValidationResult, ValidationError<String>>,
    step: ValidationStep,
)
    ensures
        match outcome {
            Ok(result) => outcome_view(outcome) == Ok::<_, ValidationError<Seq<char>>>(
                Identity {
                    authenticated_id: result.authenticated_id@,
                    authorized: result.authorized,
                },
            ),
            Err(error) => outcome_view(outcome) == Err::<Identity, _>(error@),
        },
        match step {
            ValidationStep::Finished(outcome) => step@ == StepView::Finished(outcome_view(outcome)),
            ValidationStep::FetchKeys { kid, discovery_url } => step@ == (StepView::FetchKeys {
                kid: kid@,
                discovery_url: discovery_url@,
            }),
        },
{
}

/// A reason stands for the same reason with its own text.
pub proof fn law_reason_stands_for_itself(error: ValidationError<String>)
    ensures
        match error {
            ValidationError::IssuerNotConfigured => error@ is IssuerNotConfigured,
            ValidationError::IssuerNotUtf8(text) => error@ == ValidationError::IssuerNotUtf8(text@),
            ValidationError::InvalidHeader(text) => error@ == ValidationError::InvalidHeader(text@),
            ValidationError::MissingKid => error@ is MissingKid,
            ValidationError::RefreshOnCooldown(kid) => error@ == ValidationError::RefreshOnCooldown(
                kid@,
            ),
            ValidationError::FetchFailed(text) => error@ == ValidationError::FetchFailed(text@),
            ValidationError::UnknownKey(kid) => error@ == ValidationError::UnknownKey(kid@),
            ValidationError::InvalidToken(text) => error@ == ValidationError::InvalidToken(text@),
            ValidationError::InvalidClaims(text) => error@ == ValidationError::InvalidClaims(text@),
            ValidationError::ForeignClaims => error@ is ForeignClaims,
        },
{
}

/// A reason that someone else worded is reported in those words, one about a key ID with the ID in
/// quotes between what is known of it, and the others in fixed words.
pub proof fn law_reasons_are_reported(text: Seq<char>)
    ensures
        error_text(ValidationError::IssuerNotUtf8(text)) == text,
        error_text(ValidationError::InvalidHeader(text)) == text,
        error_text(ValidationError::FetchFailed(text)) == text,
        error_text(ValidationError::InvalidToken(text)) == text,
        error_text(ValidationError::InvalidClaims(text)) == text,
        error_text(ValidationError::RefreshOnCooldown(text)) == "Unknown key ID '"@ + text
            + "' (refresh on cooldown)"@,
        error_text(ValidationError::UnknownKey(text)) == "Unknown key ID '"@ + text
            + "' after refresh"@,
        error_text(ValidationError::IssuerNotConfigured)
            == "pg_oidc_validator.issuer_url is not configured"@,
        error_text(ValidationError::MissingKid) == "Token missing 'kid' in header"@,
        error_text(ValidationError::ForeignClaims) == "Claims are not those of the token"@,
{
}

/// The number that a text of decimal digits stands for.
pub open spec fn numeral_value(text: Seq<char>) -> int
    decreases text.len(),
{
    if text.len() == 0 {
        0
    } else {
        10 * numeral_value(text.drop_last()) + (text.last() as int - '0' as int)
    }
}

/// A numeral consists of decimal digits, the first of them not zero unless it is the only one, and
/// stands for its number.
pub proof fn law_numeral_stands_for_its_number(n: nat)
    ensures
        decimal(n).len() > 0,
        forall|i: int| 0 <= i < decimal(n).len() ==> '0' <= #[trigger] decimal(n)[i] <= '9',
        n > 0 ==> decimal(n).first() != '0',
        n == 0 ==> decimal(n).len() == 1,
        numeral_value(decimal(n)) == n,
    decreases n,
{
    if n >= 10 {
        law_numeral_stands_for_its_number(n / 10);
        assert(decimal(n).drop_last() == decimal(n / 10));
    } else {
        reveal_with_fuel(numeral_value, 2);
    }
}

} // verus!

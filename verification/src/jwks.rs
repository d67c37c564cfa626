//! The issuer's key set: where it is found, which of its keys are used, and the cache that keeps
//! them and limits how often they are fetched.
use crate::error::ValidationError;
use crate::jwt::{is_base64url, rsa_key, RsaComponents, RsaKey};
use crate::text::{trim_end_slashes, without_trailing_slashes};
use std::time::Duration;
use vstd::hash_map::StringHashMap;
use vstd::prelude::*;
use vstd::string::*;

verus! {

/// The URL of the issuer's discovery document.
pub open spec fn discovery_url_text(issuer_url: Seq<char>) -> Seq<char> {
    trim_end_slashes(issuer_url) + "/.well-known/openid-configuration"@
}

/// The URL of the issuer's discovery document.
pub fn discovery_url(issuer_url: &str) -> (url: String)
    ensures
        url@ == discovery_url_text(issuer_url@),
{
    let mut url = without_trailing_slashes(issuer_url).to_owned();
    url.append("/.well-known/openid-configuration");
    url
}

/// A key as a key set lists it: its ID, its type, and the components of an RSA key in base64url.
#[derive(Debug)]
pub struct JwkKey {
    pub kid: Option<String>,
    pub kty: String,
    pub n: Option<String>,
    pub e: Option<String>,
}

/// What a listed key stands for.
#[verifier::ext_equal]
pub struct JwkView {
    pub kid: Option<Seq<char>>,
    pub kty: Seq<char>,
    pub n: Option<Seq<char>>,
    pub e: Option<Seq<char>>,
}

/// The text of an optional string.
pub open spec fn text_view(text: Option<String>) -> Option<Seq<char>> {
    match text {
        Some(text) => Some(text@),
        None => None,
    }
}

impl View for JwkKey {
    type V = JwkView;

    open spec fn view(&self) -> JwkView {
        JwkView {
            kid: text_view(self.kid),
            kty: self.kty@,
            n: text_view(self.n),
            e: text_view(self.e),
        }
    }
}

/// The listed keys of a key set.
pub open spec fn jwks_view(jwks: Seq<JwkKey>) -> Seq<JwkView> {
    jwks.map_values(|key: JwkKey| key@)
}

impl JwkView {
    /// Whether the entry is an RSA key with an ID and both components.
    pub open spec fn complete_rsa(self) -> bool {
        self.kty == "RSA"@ && self.kid is Some && self.n is Some && self.e is Some
    }

    /// The components of a complete RSA key.
    pub open spec fn components(self) -> RsaComponents {
        RsaComponents { n: self.n->0, e: self.e->0 }
    }

    /// Whether tokens can be checked with this entry: it is a complete RSA key, and its components
    /// are encoded as they should be.
    pub open spec fn usable(self) -> bool {
        self.complete_rsa() && is_base64url(self.n->0) && is_base64url(self.e->0)
    }
}

/// The usable keys by their ID; of several with one ID, the last.
pub open spec fn usable_keys(jwks: Seq<JwkView>) -> Map<Seq<char>, RsaComponents>
    decreases jwks.len(),
{
    if jwks.len() == 0 {
        Map::empty()
    } else {
        let keys = usable_keys(jwks.drop_last());
        if jwks.last().usable() {
            keys.insert(jwks.last().kid->0, jwks.last().components())
        } else {
            keys
        }
    }
}

/// Whether the entry at `i` is usable and has this ID.
pub open spec fn supplies(jwks: Seq<JwkView>, kid: Seq<char>, i: int) -> bool {
    0 <= i < jwks.len() && jwks[i].usable() && jwks[i].kid == Some(kid)
}

/// Whether the entry at `i` is the last usable one with this ID.
pub open spec fn last_supplier(jwks: Seq<JwkView>, kid: Seq<char>, i: int) -> bool {
    supplies(jwks, kid, i) && forall|j: int| j > i ==> !supplies(jwks, kid, j)
}

/// A key set has a key for an ID exactly if one of its entries with that ID is usable, and the key
/// is then the one of the last such entry.
pub proof fn law_last_usable_entry_counts(jwks: Seq<JwkView>, kid: Seq<char>)
    ensures
        usable_keys(jwks).contains_key(kid) <==> exists|i: int| supplies(jwks, kid, i),
        forall|i: int|
            last_supplier(jwks, kid, i) ==> usable_keys(jwks)[kid] == jwks[i].components(),
    decreases jwks.len(),
{
    if jwks.len() > 0 {
        let rest = jwks.drop_last();
        let end = jwks.len() - 1;
        law_last_usable_entry_counts(rest, kid);
        assert forall|i: int| i != end implies supplies(rest, kid, i) == supplies(jwks, kid, i) by {}
        if supplies(jwks, kid, end) {
            assert forall|i: int| last_supplier(jwks, kid, i) implies i == end by {}
        } else {
            if usable_keys(rest).contains_key(kid) {
                let i = choose|i: int| supplies(rest, kid, i);
                assert(supplies(jwks, kid, i));
            }
            assert forall|i: int| last_supplier(jwks, kid, i) implies last_supplier(
                rest,
                kid,
                i,
            ) && rest[i] == jwks[i] by {
                assert forall|j: int| j > i implies !supplies(rest, kid, j) by {
                    assert(!supplies(jwks, kid, j));
                }
            }
        }
    }
}

/// The keys that tokens are checked with, by their ID.
pub struct KeySet {
    keys: StringHashMap<RsaKey>,
}

impl View for KeySet {
    type V = Map<Seq<char>, RsaComponents>;

    closed spec fn view(&self) -> Map<Seq<char>, RsaComponents> {
        self.keys@.map_values(|key: RsaKey| key@)
    }
}

/// The ID, the modulus and the exponent of an entry, if it is an RSA key that has all three.
pub fn rsa_parts(key: &JwkKey) -> (parts: Option<(String, String, String)>)
    ensures
        parts is Some <==> key@.complete_rsa(),
        parts matches Some((kid, n, e)) ==> {
            &&& Some(kid@) == key@.kid
            &&& Some(n@) == key@.n
            &&& Some(e@) == key@.e
        },
{
    if key.kty == "RSA".to_owned() {
        match (&key.n, &key.e, &key.kid) {
            (Some(n), Some(e), Some(kid)) => Some((kid.clone(), n.clone(), e.clone())),
            _ => None,
        }
    } else {
        None
    }
}

impl KeySet {
    /// No keys.
    pub fn new() -> (keys: KeySet)
        ensures
            keys@ == Map::<Seq<char>, RsaComponents>::empty(),
    {
        KeySet { keys: StringHashMap::new() }
    }

    /// Adds what came of making a key: the key, in place of one with the same ID, or nothing if
    /// there is none.
    pub fn add(&mut self, kid: String, key: Option<RsaKey>)
        ensures
            final(self)@ == (match key {
                Some(key) => old(self)@.insert(kid@, key@),
                None => old(self)@,
            }),
    {
        if let Some(key) = key {
            self.keys.insert(kid, key);
            assert(self@ == old(self)@.insert(kid@, key@));
        }
    }

    /// The key with this ID, if there is one.
    pub fn get(&self, kid: &str) -> (key: Option<&RsaKey>)
        ensures
            key is Some <==> self@.contains_key(kid@),
            key matches Some(key) ==> key@ == self@[kid@],
    {
        self.keys.get(kid)
    }

    /// How many keys there are.
    pub fn len(&self) -> (count: usize)
        ensures
            count == self@.dom().len(),
    {
        assert(self@.dom() == self.keys@.dom());
        self.keys.len()
    }

    /// The usable keys of a key set.
    pub fn from_jwks(jwks: &Vec<JwkKey>) -> (keys: KeySet)
        ensures
            keys@ == usable_keys(jwks_view(jwks@)),
    {
        let mut keys = KeySet::new();
        let ghost entries = jwks_view(jwks@);
        let mut i: usize = 0;
        while i < jwks.len()
            invariant
                i <= jwks@.len(),
                entries == jwks_view(jwks@),
                keys@ == usable_keys(entries.take(i as int)),
            decreases jwks@.len() - i,
        {
            assert(entries.take(i + 1).drop_last() == entries.take(i as int));
            assert(entries.take(i + 1).last() == jwks@[i as int]@);
            if let Some((kid, n, e)) = rsa_parts(&jwks[i]) {
                keys.add(kid, rsa_key(n, e));
            }
            i = i + 1;
        }
        assert(entries.take(i as int) == entries);
        keys
    }
}

/// The length of a time span in nanoseconds.
pub uninterp spec fn nanoseconds(span: Duration) -> u128;

/// The number of nanoseconds in a second.
pub const NANOS_PER_SEC: u64 = 1_000_000_000;

/// `Duration::from_secs` makes a span of so many whole seconds.
pub assume_specification [Duration::from_secs](secs: u64) -> (span: Duration)
    ensures
        nanoseconds(span) == secs * NANOS_PER_SEC,
;

/// Calls `Duration::as_nanos`, which gives the whole span in nanoseconds.
#[verifier::external_body]
pub(crate) fn as_nanos(span: Duration) -> (nanos: u128)
    ensures
        nanos == nanoseconds(span),
{
    span.as_nanos()
}

/// The cached keys and when they were fetched. Times are nanoseconds of a monotonic clock.
pub struct JwksCache {
    keys: KeySet,
    last_refresh: Option<u128>,
    refresh_cooldown: u128,
}

/// What the cache stands for.
#[verifier::ext_equal]
pub struct CacheView {
    pub keys: Map<Seq<char>, RsaComponents>,
    pub last_refresh: Option<u128>,
    pub refresh_cooldown: u128,
}

impl CacheView {
    /// Whether the keys may be fetched at the time `now`: they never were, or the cooldown has
    /// passed since.
    pub open spec fn can_refresh(self, now: u128) -> bool {
        match self.last_refresh {
            None => true,
            Some(last) => {
                let elapsed = if now >= last {
                    now - last
                } else {
                    0
                };
                elapsed >= self.refresh_cooldown
            },
        }
    }

    /// The cache after the keys have been fetched at the time `now`.
    pub open spec fn refreshed(self, jwks: Seq<JwkView>, now: u128) -> CacheView {
        CacheView { keys: usable_keys(jwks), last_refresh: Some(now), ..self }
    }
}

impl View for JwksCache {
    type V = CacheView;

    closed spec fn view(&self) -> CacheView {
        CacheView {
            keys: self.keys@,
            last_refresh: self.last_refresh,
            refresh_cooldown: self.refresh_cooldown,
        }
    }
}

/// What the cache says when it is asked for a key.
pub enum KeyLookup<'a> {
    /// The key.
    Found(&'a RsaKey),
    /// The key is not known; the keys are to be fetched by way of the discovery document at this
    /// URL.
    Fetch(String),
    /// The key is not known, and the keys may not be fetched yet.
    OnCooldown,
}

impl JwksCache {
    /// An empty cache that has never been filled.
    pub fn new(refresh_cooldown: Duration) -> (cache: JwksCache)
        ensures
            cache@ == (CacheView {
                keys: Map::empty(),
                last_refresh: None,
                refresh_cooldown: nanoseconds(refresh_cooldown),
            }),
    {
        JwksCache {
            keys: KeySet::new(),
            last_refresh: None,
            refresh_cooldown: as_nanos(refresh_cooldown),
        }
    }

    /// Fills the cache with the keys that were fetched, in place of those it had, and counts them.
    /// Where they could not be fetched, the cache stays as it is.
    pub fn initialize(&mut self, fetched: Result<Vec<JwkKey>, String>, now: u128) -> (count: Result<
        usize,
        ValidationError<String>,
    >)
        ensures
            match fetched {
                Ok(jwks) => {
                    &&& final(self)@ == old(self)@.refreshed(jwks_view(jwks@), now)
                    &&& count is Ok
                    &&& count->Ok_0 == usable_keys(jwks_view(jwks@)).dom().len()
                },
                Err(message) => {
                    &&& final(self)@ == old(self)@
                    &&& count is Err
                    &&& count->Err_0@ == ValidationError::FetchFailed(message@)
                },
            },
    {
        match fetched {
            Ok(jwks) => {
                let keys = KeySet::from_jwks(&jwks);
                let count: usize = keys.len();
                self.keys = keys;
                self.last_refresh = Some(now);
                Ok(count)
            },
            Err(message) => Err(ValidationError::FetchFailed(message)),
        }
    }

    /// Looks a key up and, where it is not known, says whether the keys may be fetched at `now`.
    pub fn get_key(&self, kid: &str, issuer_url: &str, now: u128) -> (lookup: KeyLookup<'_>)
        ensures
            match lookup {
                KeyLookup::Found(key) => self@.keys.contains_key(kid@) && key@ == self@.keys[kid@],
                KeyLookup::Fetch(url) => {
                    &&& !self@.keys.contains_key(kid@)
                    &&& self@.can_refresh(now)
                    &&& url@ == discovery_url_text(issuer_url@)
                },
                KeyLookup::OnCooldown => {
                    &&& !self@.keys.contains_key(kid@)
                    &&& !self@.can_refresh(now)
                },
            },
    {
        if let Some(key) = self.keys.get(kid) {
            return KeyLookup::Found(key);
        }
        let can_refresh = match self.last_refresh {
            None => true,
            Some(last) => {
                let elapsed: u128 = if now >= last {
                    now - last
                } else {
                    0
                };
                elapsed >= self.refresh_cooldown
            },
        };
        if can_refresh {
            KeyLookup::Fetch(discovery_url(issuer_url))
        } else {
            KeyLookup::OnCooldown
        }
    }

    /// Looks a key up among those that have just been fetched.
    pub fn get_refreshed_key(&self, kid: &str) -> (key: Result<&RsaKey, ValidationError<String>>)
        ensures
            key is Ok <==> self@.keys.contains_key(kid@),
            key matches Ok(key) ==> key@ == self@.keys[kid@],
            key matches Err(error) ==> error@ == ValidationError::UnknownKey(kid@),
    {
        match self.keys.get(kid) {
            Some(key) => Ok(key),
            None => Err(ValidationError::UnknownKey(kid.to_owned())),
        }
    }
}

/// The keys are not fetched more often than the cooldown allows: once they have been, they may be
/// again exactly when the cooldown has passed since.
pub proof fn law_refresh_is_rate_limited(
    cache: CacheView,
    jwks: Seq<JwkView>,
    fetched_at: u128,
    now: u128,
)
    requires
        fetched_at <= now,
    ensures
        cache.refreshed(jwks, fetched_at).can_refresh(now) <==> now - fetched_at
            >= cache.refresh_cooldown,
{
}

} // verus!

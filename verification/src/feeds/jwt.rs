//! Coinbase credentials: signed tokens and when to renew them.
//!
//! A token lives for two minutes and is renewed every 90 seconds. A connection that is
//! made more than 90 seconds after the last token was signed gets a new one; on a
//! connection that stays open the subscription is made again with a new one.

use vstd::prelude::*;
use crate::clock::{utc_now_micros, CALENDAR_END_SECS};
use crate::feeds::session::{decided, FeedAction, FeedEvent, Session};
use crate::feeds::FeedConfig;
use jsonwebtoken::{encode, Algorithm, EncodingKey, Header};
use serde_json::Value;

verus! {

/// How long a token is valid, in seconds.
pub const TOKEN_LIFETIME_SECS: i64 = 120;

/// How old a token may get before it is renewed, in seconds.
pub const RENEW_AFTER_SECS: i64 = 90;

/// What a token claims.
#[derive(Debug)]
pub struct Claims {
    /// The key's name.
    pub sub: String,
    pub iss: String,
    /// Valid from, in seconds since the epoch.
    pub nbf: i64,
    /// Valid until, in seconds since the epoch.
    pub exp: i64,
}

/// What a [`Claims`] says.
#[verifier::ext_equal]
pub struct ClaimsView {
    pub sub: Seq<char>,
    pub iss: Seq<char>,
    pub nbf: i64,
    pub exp: i64,
}

impl View for Claims {
    type V = ClaimsView;

    open spec fn view(&self) -> ClaimsView {
        ClaimsView { sub: self.sub@, iss: self.iss@, nbf: self.nbf, exp: self.exp }
    }
}

/// The claims of a token for a key, signed at a time.
pub open spec fn claims_at(key: Seq<char>, now: i64) -> ClaimsView {
    ClaimsView { sub: key, iss: "cdp"@, nbf: now, exp: (now + TOKEN_LIFETIME_SECS) as i64 }
}

/// The claims of a token for a key, signed at a time.
pub fn claims_for(key: &String, now: i64) -> (r: Claims)
    requires
        now <= i64::MAX - TOKEN_LIFETIME_SECS,
    ensures
        r@ == claims_at(key@, now),
{
    Claims { sub: key.clone(), iss: "cdp".to_owned(), nbf: now, exp: now + TOKEN_LIFETIME_SECS }
}

/// The part of a token that is signed: the encoded header, which names the key, and the
/// encoded claims.
pub uninterp spec fn signing_input(
    kid: Seq<char>,
    sub: Seq<char>,
    iss: Seq<char>,
    nbf: i64,
    exp: i64,
) -> Seq<char>;

/// Is this an outcome of signing an input, by ES256, with the key in a PEM text: a
/// signature, or `None` where the key is not read or nothing is signed? One key and one
/// input have many outcomes.
pub uninterp spec fn signs_to(
    pem: Seq<char>,
    input: Seq<char>,
    outcome: Option<Seq<char>>,
) -> bool;

/// Two parts of a token with a dot between them.
pub open spec fn joined(input: Seq<char>, signature: Seq<char>) -> Seq<char> {
    input + "."@ + signature
}

/// A token over some input: the input, a dot, and a signature of it.
pub open spec fn is_signed(pem: Seq<char>, input: Seq<char>, token: Seq<char>) -> bool {
    exists|signature: Seq<char>|
        #![trigger signs_to(pem, input, Some(signature))]
        signs_to(pem, input, Some(signature)) && token == joined(input, signature)
}

/// A token over some claims.
pub open spec fn is_token(
    token: Seq<char>,
    pem: Seq<char>,
    kid: Seq<char>,
    claims: ClaimsView,
) -> bool {
    is_signed(pem, signing_input(kid, claims.sub, claims.iss, claims.nbf, claims.exp), token)
}

/// What signing some claims gives: a token over them, or `None` if that is how signing
/// them with the key has come out.
pub open spec fn is_signing(
    pem: Seq<char>,
    kid: Seq<char>,
    claims: ClaimsView,
    r: Option<String>,
) -> bool {
    match r {
        Some(token) => is_token(token@, pem, kid, claims),
        None => signs_to(
            pem,
            signing_input(kid, claims.sub, claims.iss, claims.nbf, claims.exp),
            None,
        ),
    }
}

/// Wraps `jsonwebtoken::EncodingKey::from_ec_pem` and `jsonwebtoken::encode` with an
/// ES256 header that names the key. Trusted: a token consists of the encoded header and
/// claims, which depend on the arguments alone, a dot and a signature of them with the
/// key; there is no token only where signing them with the key has come to nothing. The
/// signature is randomised, and whether the key can sign rests on the key and the
/// machine: neither is stated.
#[verifier::external_body]
fn sign_es256(kid: &String, claims: &Claims, pem: &String) -> (r: Option<String>)
    ensures
        r matches Some(token) ==> exists|signature: Seq<char>| #[trigger]
            signs_to(
                pem@,
                signing_input(kid@, claims.sub@, claims.iss@, claims.nbf, claims.exp),
                Some(signature),
            ) && token@ == joined(
                signing_input(kid@, claims.sub@, claims.iss@, claims.nbf, claims.exp),
                signature,
            ),
        r is None ==> signs_to(
            pem@,
            signing_input(kid@, claims.sub@, claims.iss@, claims.nbf, claims.exp),
            None,
        ),
{
    let mut header = Header::new(Algorithm::ES256);
    header.kid = Some(kid.clone());
    let mut map: serde_json::Map<String, Value> = serde_json::Map::new();
    map.insert("sub".to_owned(), Value::from(claims.sub.clone()));
    map.insert("iss".to_owned(), Value::from(claims.iss.clone()));
    map.insert("nbf".to_owned(), Value::from(claims.nbf));
    map.insert("exp".to_owned(), Value::from(claims.exp));
    let key = EncodingKey::from_ec_pem(pem.as_bytes()).ok()?;
    encode(&header, &Value::Object(map), &key).ok()
}

/// A token for a key, signed at a time; `None` if the key cannot sign.
pub fn build_jwt(key: &String, pem: &String, now: i64) -> (r: Option<String>)
    requires
        now <= i64::MAX - TOKEN_LIFETIME_SECS,
    ensures
        is_signing(pem@, key@, claims_at(key@, now), r),
{
    let claims = claims_for(key, now);
    sign_es256(key, &claims, pem)
}

/// A feed's credentials and the token last signed with them.
pub struct JwtCache {
    key: String,
    pem: String,
    token: Option<String>,
    signed_at: i64,
}

/// Is a token due for renewal?
pub open spec fn is_due(signed_at: i64, now: i64) -> bool {
    is_due_at(signed_at, now as int)
}

/// Is a token due for renewal at some time, in seconds since the epoch?
pub open spec fn is_due_at(signed_at: i64, now: int) -> bool {
    now - signed_at > RENEW_AFTER_SECS
}

/// What a feed that waits for its token to grow old has to report at a time.
pub open spec fn renewal_event(signed_at: i64, now: i64) -> FeedEvent {
    if is_due(signed_at, now) { FeedEvent::RenewalDue } else { FeedEvent::Idle }
}

/// What a cache hands out at a time: what it has, or what signing gives if that is due.
pub open spec fn handed_out(before: JwtCache, now: i64, after: JwtCache, r: Option<String>) -> bool {
    &&& r == after.token()
    &&& if is_due(before.signed_at(), now) {
        after.signed_at() == now && is_signing(
            before.pem(),
            before.key(),
            claims_at(before.key(), now),
            after.token(),
        )
    } else {
        after.signed_at() == before.signed_at() && after.token() == before.token()
    }
}

impl JwtCache {
    /// The key's name.
    pub closed spec fn key(self) -> Seq<char> {
        self.key@
    }

    /// The key itself.
    pub closed spec fn pem(self) -> Seq<char> {
        self.pem@
    }

    /// The token last signed.
    pub closed spec fn token(self) -> Option<String> {
        self.token
    }

    /// When it was signed, in seconds since the epoch.
    pub closed spec fn signed_at(self) -> i64 {
        self.signed_at
    }

    /// The token claims the time at which it was signed.
    pub open spec fn wf(self) -> bool {
        self.token() matches Some(t) ==> is_token(
            t@,
            self.pem(),
            self.key(),
            claims_at(self.key(), self.signed_at()),
        )
    }

    /// Credentials that have signed nothing.
    pub fn new(key: String, pem: String) -> (r: Self)
        ensures
            r.wf(),
            r.key() == key@,
            r.pem() == pem@,
            r.token() is None,
            r.signed_at() == 0,
    {
        JwtCache { key, pem, token: None, signed_at: 0 }
    }

    /// Is a token due for renewal?
    pub fn due(&self, now: i64) -> (r: bool)
        ensures
            r == is_due(self.signed_at(), now),
    {
        now as i128 - self.signed_at as i128 > RENEW_AFTER_SECS as i128
    }

    /// What a feed has to report when it looks at its token: that the renewal is due, if
    /// and only if it is.
    pub fn check(&self, now: i64) -> (r: FeedEvent)
        ensures
            r == renewal_event(self.signed_at(), now),
    {
        if self.due(now) {
            FeedEvent::RenewalDue
        } else {
            FeedEvent::Idle
        }
    }

    /// How many seconds to wait from a time on until the renewal is due: it is due after
    /// so many seconds, and at no time before.
    pub fn due_in(&self, now: i64) -> (r: u128)
        ensures
            is_due_at(self.signed_at(), now + r),
            forall|t: int| now <= t < now + r ==> !is_due_at(self.signed_at(), t),
    {
        let wait: i128 = self.signed_at as i128 + RENEW_AFTER_SECS as i128 + 1 - now as i128;
        if wait > 0 {
            wait as u128
        } else {
            0
        }
    }

    /// Keeps what signing at a time has given.
    pub fn renew(&mut self, token: Option<String>, now: i64)
        requires
            token matches Some(t) ==> is_token(
                t@,
                old(self).pem(),
                old(self).key(),
                claims_at(old(self).key(), now),
            ),
        ensures
            final(self).wf(),
            final(self).key() == old(self).key(),
            final(self).pem() == old(self).pem(),
            final(self).token() == token,
            final(self).signed_at() == now,
    {
        self.token = token;
        self.signed_at = now;
    }

    /// The token for a subscription made at a time, renewed if it is due.
    pub fn token_at(&mut self, now: i64) -> (r: Option<String>)
        requires
            old(self).wf(),
            now <= i64::MAX - TOKEN_LIFETIME_SECS,
        ensures
            final(self).wf(),
            final(self).key() == old(self).key(),
            final(self).pem() == old(self).pem(),
            handed_out(*old(self), now, *final(self), r),
    {
        if self.due(now) {
            let token = build_jwt(&self.key, &self.pem, now);
            self.renew(token, now);
        }
        match &self.token {
            Some(t) => Some(t.clone()),
            None => None,
        }
    }

    /// The token for a subscription made now.
    pub fn token_now(&mut self) -> (r: Option<String>)
        requires
            old(self).wf(),
        ensures
            final(self).wf(),
            final(self).key() == old(self).key(),
            final(self).pem() == old(self).pem(),
            exists|now: i64|
                0 <= now <= CALENDAR_END_SECS && #[trigger] handed_out(
                    *old(self),
                    now,
                    *final(self),
                    r,
                ),
    {
        let now: i64 = utc_now_micros() / 1_000_000;
        self.token_at(now)
    }
}

/// A token that is handed out is still valid: it claims to live for at least another
/// half a minute.
pub proof fn handed_out_token_is_valid(
    before: JwtCache,
    now: i64,
    after: JwtCache,
    token: String,
)
    requires
        after.wf(),
        handed_out(before, now, after, Some(token)),
        now <= i64::MAX - TOKEN_LIFETIME_SECS,
        after.signed_at() <= i64::MAX - TOKEN_LIFETIME_SECS,
    ensures
        is_token(token@, after.pem(), after.key(), claims_at(after.key(), after.signed_at())),
        claims_at(after.key(), after.signed_at()).exp >= now + 30,
{
}

/// A connection that stays open does not outlive its token: whatever the session has
/// been through, once more than 90 seconds have passed since the last token was signed,
/// the feed reports that the renewal is due, the session subscribes again, and the
/// subscription is made with what signing the claims of that moment gives.
pub proof fn token_is_renewed_on_an_open_connection(
    config: FeedConfig,
    session: Session,
    after: Session,
    action: FeedAction,
    cache: JwtCache,
    now: i64,
    renewed: JwtCache,
    token: Option<String>,
)
    requires
        session.subscribes,
        now - cache.signed_at() > RENEW_AFTER_SECS,
        decided(config, session, renewal_event(cache.signed_at(), now), after, action),
        handed_out(cache, now, renewed, token),
    ensures
        action == FeedAction::Subscribe,
        after == session,
        renewed.signed_at() == now,
        is_signing(cache.pem(), cache.key(), claims_at(cache.key(), now), token),
{
}

} // verus!

//! Host-side `wasi:identity` logic: access tokens and the cache that saves
//! a token request while the last token is still valid.

use vstd::prelude::*;

verus! {

/// Host-side service for `wasi:identity`.
#[derive(Debug)]
pub struct WasiIdentity;

/// Options used to connect to the identity provider.
#[derive(Debug, Clone)]
pub struct ConnectOptions {
    pub client_id: String,
    pub client_secret: String,
    pub token_url: String,
}

/// Lifetime given to a token whose response names none (seconds).
pub const DEFAULT_EXPIRES_IN: u64 = 3600;

/// An access token and how long it is valid (seconds).
#[derive(Debug, Clone)]
pub struct AccessToken {
    pub token: String,
    pub expires_in: u64,
}

impl Default for AccessToken {
    fn default() -> (res: Self)
        ensures
            res.token@ == Seq::<char>::empty(),
            res.expires_in == 0,
    {
        AccessToken { token: String::new(), expires_in: 0 }
    }
}

impl AccessToken {
    /// A copy of this token.
    pub fn copied(&self) -> (res: AccessToken)
        ensures
            res == *self,
    {
        AccessToken { token: self.token.clone(), expires_in: self.expires_in }
    }

    /// The token a token response grants: its secret, valid for the
    /// lifetime the response names, or one hour when it names none.
    pub fn from_response(secret: String, expires_in: Option<u64>) -> (res: AccessToken)
        ensures
            res.token@ == secret@,
            res.expires_in == match expires_in {
                Some(s) => s,
                None => DEFAULT_EXPIRES_IN,
            },
    {
        let expires_in = match expires_in {
            Some(s) => s,
            None => DEFAULT_EXPIRES_IN,
        };
        AccessToken { token: secret, expires_in }
    }
}

/// The cache after a token requested at `now` and obtained at `obtained`
/// is offered to it: kept when the cached token is still valid at `now`,
/// replaced otherwise by the fresh token, expiring `expires_in` seconds
/// after it was obtained.
pub open spec fn after_refresh(c: CachedToken, fresh: AccessToken, now: u64, obtained: u64) -> CachedToken {
    if c.expires_at > now {
        c
    } else {
        CachedToken { access_token: fresh, expires_at: (obtained + fresh.expires_in) as u64 }
    }
}

/// A token together with the instant it expires at. Instants are seconds
/// on the runtime's monotonic clock.
#[derive(Debug, Clone)]
pub struct CachedToken {
    pub access_token: AccessToken,
    pub expires_at: u64,
}

impl CachedToken {
    /// Caches `access_token` as obtained at `now`: it expires `expires_in`
    /// seconds later.
    pub fn new(access_token: AccessToken, now: u64) -> (res: CachedToken)
        requires
            now + access_token.expires_in <= u64::MAX,
        ensures
            res.access_token == access_token,
            res.expires_at == now + access_token.expires_in,
    {
        let expires_at = now + access_token.expires_in;
        CachedToken { access_token, expires_at }
    }

    /// An empty token that has already expired at `now`.
    pub fn expired(now: u64) -> (res: CachedToken)
        ensures
            res.access_token.token@ == Seq::<char>::empty(),
            res.access_token.expires_in == 0,
            res.expires_at == now,
    {
        CachedToken { access_token: AccessToken::default(), expires_at: now }
    }

    /// Whether the cached token may still be handed out at `now`.
    pub open spec fn valid_at(&self, now: u64) -> bool {
        self.expires_at > now
    }

    /// The cached token, when it is still valid at `now`; otherwise a new
    /// token must be requested.
    pub fn lookup(&self, now: u64) -> (res: Option<AccessToken>)
        ensures
            res is Some <==> self.valid_at(now),
            res matches Some(t) ==> t == self.access_token,
    {
        if self.expires_at > now {
            Some(self.access_token.copied())
        } else {
            None
        }
    }

    /// Stores `fresh`, a token requested at `now` and obtained at
    /// `obtained`, unless another request refreshed the cache meanwhile (the
    /// cached token is valid at `now`); returns the token to hand out, which
    /// is the cached one afterwards.
    pub fn refresh(&mut self, fresh: AccessToken, now: u64, obtained: u64) -> (res: AccessToken)
        requires
            obtained + fresh.expires_in <= u64::MAX,
        ensures
            *final(self) == after_refresh(*old(self), fresh, now, obtained),
            res == final(self).access_token,
    {
        if self.expires_at <= now {
            *self = CachedToken::new(fresh, obtained);
        }
        self.access_token.copied()
    }
}

/// What a lookup gives back of a refresh: once a token obtained at
/// `obtained` is stored in an expired cache, lookups hand it out unchanged
/// at every instant before its expiry, and at none from its expiry on.
pub proof fn law_lookup_after_refresh(c: CachedToken, fresh: AccessToken, now: u64, obtained: u64, later: u64)
    requires
        !c.valid_at(now),
        obtained + fresh.expires_in <= u64::MAX,
    ensures
        ({
            let r = after_refresh(c, fresh, now, obtained);
            &&& r.access_token == fresh
            &&& later < obtained + fresh.expires_in ==> r.valid_at(later)
            &&& later >= obtained + fresh.expires_in ==> !r.valid_at(later)
        }),
{
}

/// A refresh never discards a token that is still valid: another request
/// may have refreshed the cache meanwhile, and its token is kept.
pub proof fn law_valid_token_is_kept(c: CachedToken, fresh: AccessToken, now: u64, obtained: u64)
    requires
        c.valid_at(now),
    ensures
        after_refresh(c, fresh, now, obtained) == c,
{
}

} // verus!

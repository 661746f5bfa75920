//! The token service's decisions and its in-memory token store.
//!
//! The service registers devices, issues short-lived access tokens and
//! answers validation queries. Everything time- or identity-shaped
//! (the clock, fresh identifiers, RFC 3339 formatting, HTTP) stays in
//! the surrounding process; the admission rules and the store of
//! outstanding service tokens live here.

use vstd::prelude::*;
use vstd::string::*;
use crate::strutil::str_eq;

verus! {

/// A device asking to be registered.
pub struct DeviceRegisterReq {
    pub device_id: String,
    pub pre_shared_secret: String,
}

/// The answer to a successful registration.
pub struct DeviceRegisterResp {
    pub device_id: String,
    pub token: String,
    pub mqtt_username: String,
    pub mqtt_password: String,
    pub expires_at: String,
}

/// A registered device asking for an access token.
pub struct DeviceLoginReq {
    pub device_id: String,
    pub token: String,
}

/// The access token issued to a device.
pub struct DeviceLoginResp {
    pub access_token: String,
    pub expires_at: String,
}

/// A service asking for an access token with its shared secret.
pub struct ServiceLoginReq {
    pub service: String,
    pub secret: String,
}

/// The access token issued to a service.
pub struct ServiceLoginResp {
    pub access_token: String,
    pub expires_at: String,
}

/// Whether a registration is admitted: any secret when the service
/// accepts any, otherwise only secrets of at least six characters.
pub fn register_allowed(accept_any_secret: bool, req: &DeviceRegisterReq) -> (r: bool)
    ensures
        r == (accept_any_secret || req.pre_shared_secret@.len() >= 6),
{
    accept_any_secret || req.pre_shared_secret.as_str().unicode_len() >= 6
}

/// Whether a device login is admitted: the presented registration
/// token must have at least ten characters.
pub fn login_allowed(req: &DeviceLoginReq) -> (r: bool)
    ensures
        r == (req.token@.len() >= 10),
{
    req.token.as_str().unicode_len() >= 10
}

/// Why a service login was refused.
#[derive(Clone, Copy, PartialEq, Eq, Structural, Debug)]
pub enum ServiceLoginError {
    /// The named service is not the one this instance serves.
    InvalidService,
    /// The shared secret does not match.
    InvalidSecret,
}

/// Mathematical model of one outstanding service token.
pub ghost struct TokenData {
    pub token: Seq<char>,
    pub service: Seq<char>,
    pub expires_at: i64,
}

/// One outstanding service token: who it was issued to and when it
/// lapses, in milliseconds since the Unix epoch.
#[derive(Debug)]
pub struct TokenEntry {
    pub token: String,
    pub service: String,
    pub expires_at: i64,
}

impl View for TokenEntry {
    type V = TokenData;

    open spec fn view(&self) -> TokenData {
        TokenData { token: self.token@, service: self.service@, expires_at: self.expires_at }
    }
}

impl Clone for TokenEntry {
    /// A clone carries the same model.
    fn clone(&self) -> (r: Self)
        ensures
            r@ == self@,
    {
        TokenEntry {
            token: self.token.clone(),
            service: self.service.clone(),
            expires_at: self.expires_at,
        }
    }
}

/// The entry is still live at `now`.
pub open spec fn unexpired(e: TokenData, now: i64) -> bool {
    e.expires_at > now
}

/// The first entry carrying `t`, if any.
pub open spec fn find_token(s: Seq<TokenData>, t: Seq<char>) -> Option<TokenData>
    decreases s.len(),
{
    if s.len() == 0 {
        None
    } else if s.first().token == t {
        Some(s.first())
    } else {
        find_token(s.drop_first(), t)
    }
}

proof fn lemma_find_token_skip(s: Seq<TokenData>, t: Seq<char>, k: int)
    requires
        0 <= k <= s.len(),
        forall|j: int| 0 <= j < k ==> s[j].token != t,
    ensures
        find_token(s, t) == find_token(s.skip(k), t),
    decreases k,
{
    if k == 0 {
        assert(s.skip(0) =~= s);
    } else {
        assert(s.first().token != t);
        assert(s.drop_first() =~= s.skip(1));
        lemma_find_token_skip(s.skip(1), t, k - 1);
        assert(s.skip(1).skip(k - 1) =~= s.skip(k));
    }
}

/// When a token expires, one hour after `now`, saturating at the far
/// end of the clock.
pub open spec fn expiry_after(now: i64) -> i64 {
    if now + 3_600_000 <= i64::MAX {
        (now + 3_600_000) as i64
    } else {
        i64::MAX
    }
}

/// The store of outstanding service tokens.
pub struct TokenStore {
    entries: Vec<TokenEntry>,
}

impl View for TokenStore {
    type V = Seq<TokenData>;

    closed spec fn view(&self) -> Seq<TokenData> {
        self.entries@.map_values(|e: TokenEntry| e@)
    }
}

impl TokenStore {
    /// An empty store.
    pub fn new() -> (r: TokenStore)
        ensures
            r@ == Seq::<TokenData>::empty(),
    {
        let r = TokenStore { entries: Vec::new() };
        proof {
            assert(r@ =~= Seq::<TokenData>::empty());
        }
        r
    }

    /// Drops every entry that lapsed at or before `now`; the live
    /// entries survive in order.
    pub fn cleanup_expired(&mut self, now: i64)
        ensures
            final(self)@ == old(self)@.filter(|e: TokenData| unexpired(e, now)),
    {
        let ghost pred = |e: TokenData| unexpired(e, now);
        let mut out: Vec<TokenEntry> = Vec::new();
        let mut i: usize = 0;
        proof {
            reveal(Seq::filter);
            assert(out@.map_values(|e: TokenEntry| e@) =~= self@.subrange(0, 0).filter(pred));
        }
        while i < self.entries.len()
            invariant
                i <= self.entries@.len(),
                self@.len() == self.entries@.len(),
                out@.map_values(|e: TokenEntry| e@) == self@.subrange(0, i as int).filter(pred),
                pred == (|e: TokenData| unexpired(e, now)),
            decreases self.entries@.len() - i,
        {
            let ghost prefix = self@.subrange(0, i as int);
            let ghost out0 = out@.map_values(|e: TokenEntry| e@);
            if self.entries[i].expires_at > now {
                out.push(self.entries[i].clone());
                proof {
                    assert(out@.map_values(|e: TokenEntry| e@) =~= out0.push(self@[i as int]));
                }
            }
            proof {
                reveal(Seq::filter);
                assert(self@.subrange(0, i + 1).drop_last() =~= prefix);
                assert(self@.subrange(0, i + 1).last() == self@[i as int]);
                assert(out@.map_values(|e: TokenEntry| e@) =~= self@.subrange(0, i + 1).filter(
                    pred,
                ));
            }
            i += 1;
        }
        self.entries = out;
        proof {
            assert(old(self)@.subrange(0, old(self)@.len() as int) =~= old(self)@);
        }
    }

    /// Issues a token for a service login: the service and its secret
    /// must both match. On success the expired entries are swept and
    /// the fresh token is appended, expiring one hour later; on
    /// refusal the store is untouched.
    pub fn service_login(
        &mut self,
        req: &ServiceLoginReq,
        expected_service: &str,
        expected_secret: &str,
        now: i64,
    ) -> (r: Result<TokenEntry, ServiceLoginError>)
        ensures
            match r {
                Ok(e) => {
                    &&& req.service@ == expected_service@
                    &&& req.secret@ == expected_secret@
                    &&& e@.service == req.service@
                    &&& e@.expires_at == expiry_after(now)
                    &&& final(self)@ == old(self)@.filter(|x: TokenData| unexpired(x, now)).push(
                        e@,
                    )
                },
                Err(err) => {
                    &&& final(self)@ == old(self)@
                    &&& match err {
                        ServiceLoginError::InvalidService => req.service@ != expected_service@,
                        ServiceLoginError::InvalidSecret => req.service@ == expected_service@
                            && req.secret@ != expected_secret@,
                    }
                },
            },
    {
        if !str_eq(req.service.as_str(), expected_service) {
            return Err(ServiceLoginError::InvalidService);
        }
        if !str_eq(req.secret.as_str(), expected_secret) {
            return Err(ServiceLoginError::InvalidSecret);
        }
        self.cleanup_expired(now);
        let expires_at: i64 = if now <= i64::MAX - 3_600_000 {
            now + 3_600_000
        } else {
            i64::MAX
        };
        let entry = TokenEntry {
            token: crate::sys::fresh_uuid(),
            service: req.service.clone(),
            expires_at,
        };
        let r = entry.clone();
        let ghost before = self@;
        self.entries.push(entry);
        proof {
            assert(self@ =~= before.push(r@));
        }
        Ok(r)
    }

    /// Answers a validation query: expired entries are swept first; a
    /// stored token is valid and names its service; any other string
    /// falls back to the length rule — more than ten characters
    /// passes, anonymously.
    pub fn validate(&mut self, req: &crate::auth::TokenValidateReq, now: i64) -> (r:
        crate::auth::TokenValidateResp)
        ensures
            final(self)@ == old(self)@.filter(|e: TokenData| unexpired(e, now)),
            match find_token(final(self)@, req.access_token@) {
                Some(e) => r.valid && (r.service matches Some(s) && s@ == e.service),
                None => r.valid == (req.access_token@.len() > 10) && r.service is None,
            },
    {
        self.cleanup_expired(now);
        let mut i: usize = 0;
        while i < self.entries.len()
            invariant
                i <= self.entries@.len(),
                self@.len() == self.entries@.len(),
                self@ == old(self)@.filter(|e: TokenData| unexpired(e, now)),
                forall|j: int| 0 <= j < i ==> self@[j].token != req.access_token@,
            decreases self.entries@.len() - i,
        {
            if str_eq(self.entries[i].token.as_str(), req.access_token.as_str()) {
                proof {
                    lemma_find_token_skip(self@, req.access_token@, i as int);
                    assert(self@.skip(i as int).first() == self@[i as int]);
                }
                return crate::auth::TokenValidateResp {
                    valid: true,
                    service: Some(self.entries[i].service.clone()),
                };
            }
            i += 1;
        }
        proof {
            lemma_find_token_skip(self@, req.access_token@, self@.len() as int);
            assert(self@.skip(self@.len() as int).len() == 0);
        }
        crate::auth::TokenValidateResp {
            valid: req.access_token.as_str().unicode_len() > 10,
            service: None,
        }
    }
}

} // verus!

use vstd::prelude::*;
use vstd::string::*;

use crate::config::DeviceIdStore;
use crate::text::{json_quote, json_string, opt_text, parse_uuid, uuid_parsed};

verus! {

/// Margin subtracted from a token's lifetime before it counts as expired, in milliseconds.
pub const EXPIRY_SKEW_MS: i64 = 120_000;

/// Lifetime assumed when the server names none, in seconds.
pub const DEFAULT_EXPIRES_IN_SECONDS: i64 = 86_400;

/// The access/refresh token pair and when it was issued (milliseconds since the epoch).
#[derive(Debug)]
pub struct TokenRecord {
    pub access_token: String,
    pub refresh_token: String,
    pub issued_at: i64,
    pub expires_in_seconds: i64,
}

impl Clone for TokenRecord {
    fn clone(&self) -> (r: Self)
        ensures
            r == *self,
    {
        TokenRecord {
            access_token: self.access_token.clone(),
            refresh_token: self.refresh_token.clone(),
            issued_at: self.issued_at,
            expires_in_seconds: self.expires_in_seconds,
        }
    }
}

/// A record is expired once `issued_at + expires_in - 120 s` is not after `now`.
pub open spec fn is_expired_at(t: TokenRecord, now: i64) -> bool {
    t.issued_at + t.expires_in_seconds * 1000 - EXPIRY_SKEW_MS <= now
}

/// Failures of the token store's own checks.
#[derive(Debug, Clone, Copy, PartialEq, Eq, Structural)]
pub enum AuthError {
    MissingRefreshToken,
}

/// The device's credentials: either a complete record or none.
pub struct TokenStore {
    cache: Option<TokenRecord>,
}

impl TokenStore {
    /// A store holding the record read back from disk (none when the file was
    /// missing or unparseable).
    pub fn new(loaded: Option<TokenRecord>) -> (r: Self)
        ensures
            r.tokens() == loaded,
    {
        TokenStore { cache: loaded }
    }

    pub closed spec fn tokens(&self) -> Option<TokenRecord> {
        self.cache
    }

    /// The record to persist.
    pub fn record(&self) -> (r: Option<TokenRecord>)
        ensures
            r == self.tokens(),
    {
        match &self.cache {
            Some(t) => Some(t.clone()),
            None => None,
        }
    }

    pub fn access_token(&self) -> (r: Option<String>)
        ensures
            match self.tokens() {
                Some(t) => r == Some(t.access_token),
                None => r is None,
            },
    {
        match &self.cache {
            Some(t) => Some(t.access_token.clone()),
            None => None,
        }
    }

    pub fn refresh_token(&self) -> (r: Option<String>)
        ensures
            match self.tokens() {
                Some(t) => r == Some(t.refresh_token),
                None => r is None,
            },
    {
        match &self.cache {
            Some(t) => Some(t.refresh_token.clone()),
            None => None,
        }
    }

    /// Whether the access token has expired at `now`; no tokens is not expired.
    pub fn is_access_token_expired(&self, now: i64) -> (r: bool)
        ensures
            r == (self.tokens() matches Some(t) && is_expired_at(t, now)),
    {
        match &self.cache {
            Some(t) => {
                let expiry: i128 = t.issued_at as i128 + t.expires_in_seconds as i128 * 1000
                    - EXPIRY_SKEW_MS as i128;
                expiry <= now as i128
            },
            None => false,
        }
    }

    /// Replaces both tokens at once.
    pub fn save_tokens(
        &mut self,
        access_token: String,
        refresh_token: String,
        expires_in_seconds: i64,
        issued_at: i64,
    )
        ensures
            final(self).tokens() == Some(
                TokenRecord { access_token, refresh_token, issued_at, expires_in_seconds },
            ),
    {
        self.cache = Some(TokenRecord { access_token, refresh_token, issued_at, expires_in_seconds });
    }

    pub fn has_tokens(&self) -> (r: bool)
        ensures
            r == self.tokens() is Some,
    {
        self.cache.is_some()
    }

    pub fn clear(&mut self)
        ensures
            final(self).tokens() is None,
    {
        self.cache = None;
    }

    pub fn ensure_refreshable(&self) -> (r: Result<(), AuthError>)
        ensures
            r is Ok <==> self.tokens() is Some,
    {
        if self.cache.is_some() {
            Ok(())
        } else {
            Err(AuthError::MissingRefreshToken)
        }
    }

    /// Applies the answer to a refresh request: on success the new access
    /// token replaces the old one (keeping the refresh token unless a new one
    /// came, the lifetime defaulting to a day); on 401 the tokens are cleared;
    /// any other answer leaves them alone. Returns whether the refresh took.
    pub fn apply_refresh(
        &mut self,
        status: u16,
        access_token: Option<String>,
        refresh_token: Option<String>,
        expires_in: Option<i64>,
        now: i64,
    ) -> (r: bool)
        ensures
            r == (is_success_status(status) && access_token is Some && old(self).tokens() is Some),
            r ==> final(self).tokens() == Some(
                TokenRecord {
                    access_token: access_token->0,
                    refresh_token: match refresh_token {
                        Some(t) => t,
                        None => old(self).tokens()->0.refresh_token,
                    },
                    issued_at: now,
                    expires_in_seconds: match expires_in {
                        Some(e) => e,
                        None => DEFAULT_EXPIRES_IN_SECONDS,
                    },
                },
            ),
            !r && status == 401 && old(self).tokens() is Some ==> final(self).tokens() is None,
            !r && !(status == 401 && old(self).tokens() is Some) ==> final(self).tokens()
                == old(self).tokens(),
    {
        let current = match self.refresh_token() {
            Some(t) => t,
            None => return false,
        };
        if !is_success(status) {
            if status == 401 {
                self.clear();
            }
            return false;
        }
        let access = match access_token {
            Some(a) => a,
            None => return false,
        };
        let refresh = match refresh_token {
            Some(t) => t,
            None => current,
        };
        let expires = match expires_in {
            Some(e) => e,
            None => DEFAULT_EXPIRES_IN_SECONDS,
        };
        self.save_tokens(access, refresh, expires, now);
        true
    }
}

pub open spec fn is_success_status(status: u16) -> bool {
    200 <= status <= 299
}

pub fn is_success(status: u16) -> (r: bool)
    ensures
        r == is_success_status(status),
{
    200 <= status && status <= 299
}

/// What the register endpoint answers on success.
#[derive(Debug)]
pub struct RegisterResponse {
    pub device_id: String,
    pub access_token: String,
    pub refresh_token: String,
    pub expires_in: Option<i64>,
}

/// The JSON body of a registration request for this host.
pub open spec fn register_json(hostname: Seq<char>, username: Seq<char>, os: Seq<char>, arch: Seq<
    char,
>) -> Option<Seq<char>> {
    match (json_string(hostname), json_string(username), json_string(os), json_string(arch)) {
        (Some(h), Some(u), Some(o), Some(a)) => Some(
            "{\"platform\":\"windows\",\"name\":"@ + h + ",\"hardware\":{\"hostname\":"@ + h
                + ",\"username\":"@ + u + ",\"os\":"@ + o + ",\"arch\":"@ + a + "}}"@,
        ),
        _ => None,
    }
}

/// Builds the registration body; the device is named after its host.
pub fn register_body(hostname: &str, username: &str, os: &str, arch: &str) -> (r: Option<String>)
    ensures
        opt_text(r) == register_json(hostname@, username@, os@, arch@),
{
    let h = match json_quote(hostname) {
        Some(t) => t,
        None => return None,
    };
    let u = match json_quote(username) {
        Some(t) => t,
        None => return None,
    };
    let o = match json_quote(os) {
        Some(t) => t,
        None => return None,
    };
    let a = match json_quote(arch) {
        Some(t) => t,
        None => return None,
    };
    let mut out = String::from_str("{\"platform\":\"windows\",\"name\":");
    out.append(h.as_str());
    out.append(",\"hardware\":{\"hostname\":");
    out.append(h.as_str());
    out.append(",\"username\":");
    out.append(u.as_str());
    out.append(",\"os\":");
    out.append(o.as_str());
    out.append(",\"arch\":");
    out.append(a.as_str());
    out.append("}}");
    Some(out)
}

/// Registration is attempted only while the device holds no tokens.
pub fn needs_registration(tokens: &TokenStore) -> (r: bool)
    ensures
        r == tokens.tokens() is None,
{
    !tokens.has_tokens()
}

/// Seeds the token store from a successful registration, and the device-id
/// store with the server's identifier when it parses as a UUID.
pub fn apply_registration(
    tokens: &mut TokenStore,
    devices: &mut DeviceIdStore,
    payload: RegisterResponse,
    now: i64,
)
    ensures
        final(tokens).tokens() == Some(
            TokenRecord {
                access_token: payload.access_token,
                refresh_token: payload.refresh_token,
                issued_at: now,
                expires_in_seconds: match payload.expires_in {
                    Some(e) => e,
                    None => DEFAULT_EXPIRES_IN_SECONDS,
                },
            },
        ),
        match uuid_parsed(payload.device_id@) {
            Some(id) => final(devices).device() == Some(
                crate::config::DeviceRecord { device_id: id, last_seen: now },
            ),
            None => final(devices).device() == old(devices).device(),
        },
{
    let expires = match payload.expires_in {
        Some(e) => e,
        None => DEFAULT_EXPIRES_IN_SECONDS,
    };
    let parsed = parse_uuid(payload.device_id.as_str());
    tokens.save_tokens(payload.access_token, payload.refresh_token, expires, now);
    if let Some(id) = parsed {
        devices.save(id, now);
    }
}

} // verus!

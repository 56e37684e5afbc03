use vstd::prelude::*;
use vstd::string::*;

use crate::models::UploadConfig;
use crate::text::{is_version4, opt_text, parse_url, random_uuid, url_parsed};

verus! {

pub const BATCH_PATH: &'static str = "api/v1/usage/batch";

pub const REFRESH_PATH: &'static str = "api/v1/devices/refresh";

pub const REGISTER_PATH: &'static str = "api/v1/devices/register";

/// Why no upload endpoint can be derived.
#[derive(Debug, Clone, Copy, PartialEq, Eq, Structural)]
pub enum ConfigError {
    /// No API base is configured.
    MissingConfig,
    /// The API base does not parse as a URL, with or without a trailing slash.
    InvalidUrl,
}

/// The API base as parsed: as given, or else with a slash appended.
pub open spec fn parsed_base(base: Seq<char>) -> Option<Seq<char>> {
    match url_parsed(base) {
        Some(u) => Some(u),
        None => url_parsed(base + "/"@),
    }
}

pub open spec fn with_trailing_slash(u: Seq<char>) -> Seq<char> {
    if u.len() > 0 && u.last() == '/' {
        u
    } else {
        u + "/"@
    }
}

/// The base URL derived from an API base, ending with a slash.
pub open spec fn base_url_of(base: Seq<char>) -> Option<Seq<char>> {
    match parsed_base(base) {
        Some(u) => Some(with_trailing_slash(u)),
        None => None,
    }
}

/// The configured API base.
pub struct UsageConfigStore {
    api_base: Option<String>,
}

impl UsageConfigStore {
    /// A store holding the API base read back from disk.
    pub fn new(api_base: Option<String>) -> (r: Self)
        ensures
            r.api_base() == opt_text(api_base),
    {
        UsageConfigStore { api_base }
    }

    pub closed spec fn api_base(&self) -> Option<Seq<char>> {
        opt_text(self.api_base)
    }

    pub fn set_api_base(&mut self, url: &str)
        ensures
            final(self).api_base() == Some(url@),
    {
        self.api_base = Some(String::from_str(url));
    }

    pub fn get_api_base(&self) -> (r: Option<String>)
        ensures
            opt_text(r) == self.api_base(),
    {
        match &self.api_base {
            Some(b) => Some(b.clone()),
            None => None,
        }
    }

    /// The base URL (with a trailing slash) and the batch endpoint under it.
    pub fn resolve_upload_config(&self) -> (r: Result<UploadConfig, ConfigError>)
        ensures
            self.api_base() is None <==> r == Err::<UploadConfig, ConfigError>(ConfigError::MissingConfig),
            self.api_base() matches Some(b) ==> match base_url_of(b) {
                Some(u) => r matches Ok(c) && c.base_url@ == u && c.batch_url@ == u + BATCH_PATH@,
                None => r == Err::<UploadConfig, ConfigError>(ConfigError::InvalidUrl),
            },
    {
        let base = match &self.api_base {
            Some(b) => b,
            None => return Err(ConfigError::MissingConfig),
        };
        let parsed = match parse_url(base.as_str()) {
            Some(u) => u,
            None => {
                let mut slashed = base.clone();
                slashed.append("/");
                match parse_url(slashed.as_str()) {
                    Some(u) => u,
                    None => return Err(ConfigError::InvalidUrl),
                }
            },
        };
        let n = parsed.as_str().unicode_len();
        let mut base_url = parsed;
        if n == 0 || base_url.as_str().get_char(n - 1) != '/' {
            base_url.append("/");
        }
        let mut batch_url = base_url.clone();
        batch_url.append(BATCH_PATH);
        Ok(UploadConfig { base_url, batch_url })
    }
}

impl UploadConfig {
    pub fn refresh_url(&self) -> (r: String)
        ensures
            r@ == self.base_url@ + REFRESH_PATH@,
    {
        let mut r = self.base_url.clone();
        r.append(REFRESH_PATH);
        r
    }

    pub fn register_url(&self) -> (r: String)
        ensures
            r@ == self.base_url@ + REGISTER_PATH@,
    {
        let mut r = self.base_url.clone();
        r.append(REGISTER_PATH);
        r
    }
}

/// The device identifier and when it was last handed out.
#[derive(Debug, Clone, Copy, PartialEq, Eq, Structural)]
pub struct DeviceRecord {
    pub device_id: u128,
    pub last_seen: i64,
}

/// The device identifier, stable once minted.
pub struct DeviceIdStore {
    cache: Option<DeviceRecord>,
}

impl DeviceIdStore {
    /// A store holding the record read back from disk.
    pub fn new(loaded: Option<DeviceRecord>) -> (r: Self)
        ensures
            r.device() == loaded,
    {
        DeviceIdStore { cache: loaded }
    }

    pub closed spec fn device(&self) -> Option<DeviceRecord> {
        self.cache
    }

    /// The record to persist.
    pub fn record(&self) -> (r: Option<DeviceRecord>)
        ensures
            r == self.device(),
    {
        self.cache
    }

    /// The stored identifier with `last_seen` moved to `now`, or a freshly
    /// minted random one when none is stored.
    pub fn get_or_create(&mut self, now: i64) -> (r: u128)
        ensures
            old(self).device() matches Some(d) ==> r == d.device_id,
            old(self).device() is None ==> is_version4(r),
            final(self).device() == Some(DeviceRecord { device_id: r, last_seen: now }),
    {
        let id = match self.cache {
            Some(d) => d.device_id,
            None => random_uuid(),
        };
        self.cache = Some(DeviceRecord { device_id: id, last_seen: now });
        id
    }

    /// Overwrites the identifier with one the server assigned.
    pub fn save(&mut self, device_id: u128, now: i64)
        ensures
            final(self).device() == Some(DeviceRecord { device_id, last_seen: now }),
    {
        self.cache = Some(DeviceRecord { device_id, last_seen: now });
    }
}

} // verus!

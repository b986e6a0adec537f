//! The settings of the service and their defaults.
use vstd::prelude::*;

use crate::text::{parse_number, parsed_number};
use crate::throttle::{
    GOOGLE_CACHE_TTL_MAX_SECS, GOOGLE_CACHE_TTL_SECS, GOOGLE_MAX_QUEUED_REQUESTS,
    GOOGLE_RATE_LIMIT, GOOGLE_RATE_WINDOW_SECS,
};

verus! {

pub const DEFAULT_PORT: u16 = 8080;

pub const SHEET_MAX_AGE_SECS: u64 = 300;

pub const DOCUMENT_MAX_AGE_SECS: u64 = 3600;

pub const ERROR_MAX_AGE_SECS: u64 = 30;

/// The optional settings as they are written, each `None` where it is unset.
pub struct Settings {
    pub port: Option<String>,
    pub cache_dir: Option<String>,
    pub sheet_max_age_secs: Option<String>,
    pub document_max_age_secs: Option<String>,
    pub error_max_age_secs: Option<String>,
    pub google_cache_ttl_secs: Option<String>,
    pub google_cache_ttl_max_secs: Option<String>,
    pub google_rate_limit: Option<String>,
    pub google_rate_window_secs: Option<String>,
    pub google_max_queued_requests: Option<String>,
}

/// The settings of a running service.
pub struct ServiceConfig {
    pub port: u16,
    pub cache_dir: String,
    pub sheet_max_age_secs: u64,
    pub document_max_age_secs: u64,
    pub error_max_age_secs: u64,
    pub google_cache_ttl_secs: u64,
    pub google_cache_ttl_max_secs: u64,
    pub google_rate_limit: usize,
    pub google_rate_window_secs: u64,
    pub google_max_queued_requests: usize,
}

/// The number of a setting; the default where it is unset or no number of at most `max`.
pub open spec fn number_or(setting: Option<String>, max: nat, default: nat) -> nat {
    match setting {
        Some(text) => match parsed_number(text@, max) {
            Some(number) => number,
            None => default,
        },
        None => default,
    }
}

fn number_setting(setting: Option<String>, max: u64, default: u64) -> (number: u64)
    requires
        default <= max,
    ensures
        number == number_or(setting, max as nat, default as nat),
        number <= max,
{
    match setting {
        Some(text) => match parse_number(text.as_str(), max) {
            Some(number) => number,
            None => default,
        },
        None => default,
    }
}

impl ServiceConfig {
    /// Reads the settings; each one that is unset or unreadable keeps its default.
    pub fn from_settings(settings: Settings) -> (config: Self)
        ensures
            config.port == number_or(settings.port, u16::MAX as nat, DEFAULT_PORT as nat),
            config.cache_dir@ == match settings.cache_dir {
                Some(dir) => dir@,
                None => "./data/heed"@,
            },
            config.sheet_max_age_secs == number_or(
                settings.sheet_max_age_secs,
                u64::MAX as nat,
                SHEET_MAX_AGE_SECS as nat,
            ),
            config.document_max_age_secs == number_or(
                settings.document_max_age_secs,
                u64::MAX as nat,
                DOCUMENT_MAX_AGE_SECS as nat,
            ),
            config.error_max_age_secs == number_or(
                settings.error_max_age_secs,
                u64::MAX as nat,
                ERROR_MAX_AGE_SECS as nat,
            ),
            config.google_cache_ttl_secs == number_or(
                settings.google_cache_ttl_secs,
                u64::MAX as nat,
                GOOGLE_CACHE_TTL_SECS as nat,
            ),
            config.google_cache_ttl_max_secs == number_or(
                settings.google_cache_ttl_max_secs,
                u64::MAX as nat,
                GOOGLE_CACHE_TTL_MAX_SECS as nat,
            ),
            config.google_rate_limit == number_or(
                settings.google_rate_limit,
                usize::MAX as nat,
                GOOGLE_RATE_LIMIT as nat,
            ),
            config.google_rate_window_secs == number_or(
                settings.google_rate_window_secs,
                u64::MAX as nat,
                GOOGLE_RATE_WINDOW_SECS as nat,
            ),
            config.google_max_queued_requests == number_or(
                settings.google_max_queued_requests,
                usize::MAX as nat,
                GOOGLE_MAX_QUEUED_REQUESTS as nat,
            ),
    {
        ServiceConfig {
            port: number_setting(settings.port, u16::MAX as u64, DEFAULT_PORT as u64) as u16,
            cache_dir: match settings.cache_dir {
                Some(dir) => dir,
                None => "./data/heed".to_owned(),
            },
            sheet_max_age_secs: number_setting(
                settings.sheet_max_age_secs,
                u64::MAX,
                SHEET_MAX_AGE_SECS,
            ),
            document_max_age_secs: number_setting(
                settings.document_max_age_secs,
                u64::MAX,
                DOCUMENT_MAX_AGE_SECS,
            ),
            error_max_age_secs: number_setting(
                settings.error_max_age_secs,
                u64::MAX,
                ERROR_MAX_AGE_SECS,
            ),
            google_cache_ttl_secs: number_setting(
                settings.google_cache_ttl_secs,
                u64::MAX,
                GOOGLE_CACHE_TTL_SECS,
            ),
            google_cache_ttl_max_secs: number_setting(
                settings.google_cache_ttl_max_secs,
                u64::MAX,
                GOOGLE_CACHE_TTL_MAX_SECS,
            ),
            google_rate_limit: number_setting(
                settings.google_rate_limit,
                usize::MAX as u64,
                GOOGLE_RATE_LIMIT as u64,
            ) as usize,
            google_rate_window_secs: number_setting(
                settings.google_rate_window_secs,
                u64::MAX,
                GOOGLE_RATE_WINDOW_SECS,
            ),
            google_max_queued_requests: number_setting(
                settings.google_max_queued_requests,
                usize::MAX as u64,
                GOOGLE_MAX_QUEUED_REQUESTS as u64,
            ) as usize,
        }
    }
}

/// A setting that writes a number up to its maximum is that number. One that is unset, or writes
/// anything else, keeps its default.
pub proof fn settings_are_numbers_or_defaults(text: String, max: nat, default: nat)
    ensures
        number_or(None, max, default) == default,
        parsed_number(text@, max) is None ==> number_or(Some(text), max, default) == default,
        parsed_number(text@, max) matches Some(number) ==> number_or(Some(text), max, default)
            == number,
{
}

} // verus!

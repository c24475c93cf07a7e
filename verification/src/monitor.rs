//! Job monitoring decisions.
//!
//! A best-effort poller watches remote jobs and reacts to what their logs
//! show.  The polling loop and the HTTP calls live with the caller; the
//! limits, the action vocabulary and the log-line heuristics are here.

use vstd::prelude::*;
use vstd::string::*;

use crate::text::{contains_sub, str_contains};

verus! {

/// One remote log line, its timestamp in milliseconds.
pub struct LogEntry {
    pub timestamp_ms: u64,
    pub level: String,
    pub message: String,
    pub step: Option<String>,
}

/// What the monitor tells the driver to do.
pub enum MonitorAction {
    Continue,
    Abort { reason: String },
    SwitchMethod { new_method: String, reason: String },
    Retry { delay_ms: u64, reason: String },
}

/// The monitor's limits.
pub struct MonitorConfig {
    pub max_duration_ms: u64,
    pub step_timeout_ms: u64,
    pub rate_limit_cooldown_ms: u64,
    pub max_retries: u32,
}

impl Default for MonitorConfig {
    fn default() -> (r: Self)
        ensures
            r.max_duration_ms == 300_000u64,
            r.step_timeout_ms == 60_000u64,
            r.rate_limit_cooldown_ms == 5_000u64,
            r.max_retries == 3u32,
    {
        MonitorConfig {
            max_duration_ms: 300_000,
            step_timeout_ms: 60_000,
            rate_limit_cooldown_ms: 5_000,
            max_retries: 3,
        }
    }
}

/// What one log line calls for: a rate limit backs off while retries
/// remain and downgrades to sequential execution after that; a block
/// switches to the stealth method; a captcha aborts.  The message is
/// matched as given and lowercased.
pub fn classify_log_line(message: &str, lowered: &str, retry_count: u32, config: &MonitorConfig)
    -> (r: Option<MonitorAction>)
    ensures
        (contains_sub(message@, "429"@) || contains_sub(lowered@, "rate limit"@)) ==> (
        if retry_count < config.max_retries {
            r matches Option::Some(a) && a matches MonitorAction::Retry { delay_ms, reason }
                && delay_ms == config.rate_limit_cooldown_ms && reason@
                == "Rate limited - backing off"@
        } else {
            r matches Option::Some(a) && a matches MonitorAction::SwitchMethod {
                new_method,
                reason,
            } && new_method@ == "sequential"@ && reason@
                == "Max retries exceeded due to rate limiting"@
        }),
        !(contains_sub(message@, "429"@) || contains_sub(lowered@, "rate limit"@)) && (
        contains_sub(message@, "403"@) || contains_sub(lowered@, "blocked"@)) ==> (r matches
            Option::Some(a) && a matches MonitorAction::SwitchMethod { new_method, reason }
            && new_method@ == "stealth"@ && reason@ == "Blocked - switching to stealth mode"@),
        !(contains_sub(message@, "429"@) || contains_sub(lowered@, "rate limit"@)) && !(
        contains_sub(message@, "403"@) || contains_sub(lowered@, "blocked"@)) && contains_sub(
            lowered@,
            "captcha"@,
        ) ==> (r matches Option::Some(a) && a matches MonitorAction::Abort { reason } && reason@
            == "Captcha detected - cannot continue automatically"@),
        !(contains_sub(message@, "429"@) || contains_sub(lowered@, "rate limit"@)) && !(
        contains_sub(message@, "403"@) || contains_sub(lowered@, "blocked"@)) && !contains_sub(
            lowered@,
            "captcha"@,
        ) ==> r is None,
{
    if str_contains(message, "429") || str_contains(lowered, "rate limit") {
        if retry_count < config.max_retries {
            Option::Some(
                MonitorAction::Retry {
                    delay_ms: config.rate_limit_cooldown_ms,
                    reason: String::from_str("Rate limited - backing off"),
                },
            )
        } else {
            Option::Some(
                MonitorAction::SwitchMethod {
                    new_method: String::from_str("sequential"),
                    reason: String::from_str("Max retries exceeded due to rate limiting"),
                },
            )
        }
    } else if str_contains(message, "403") || str_contains(lowered, "blocked") {
        Option::Some(
            MonitorAction::SwitchMethod {
                new_method: String::from_str("stealth"),
                reason: String::from_str("Blocked - switching to stealth mode"),
            },
        )
    } else if str_contains(lowered, "captcha") {
        Option::Some(
            MonitorAction::Abort {
                reason: String::from_str("Captcha detected - cannot continue automatically"),
            },
        )
    } else {
        Option::None
    }
}

} // verus!

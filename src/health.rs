//! The health report and the text forms of durations.

use vstd::prelude::*;

use crate::live::LoadedConfig;
use crate::proxy::Stats;
use crate::text::{decimal, decimal_string};

verus! {

/// The configuration part of the health report.
#[derive(Debug, Clone)]
pub struct ConfigHealth {
    pub source: String,
    /// The first eight characters of the version digest.
    pub version: String,
    pub loaded_ago_seconds: u64,
    pub namespace: String,
    pub routes: usize,
    pub targets: usize,
}

/// The counters part of the health report.
#[derive(Debug, Clone)]
pub struct StatsResponse {
    pub requests_forwarded: u64,
    pub requests_failed: u64,
}

/// The health report.
#[derive(Debug, Clone)]
pub struct HealthResponse {
    pub status: String,
    pub version: String,
    pub uptime_seconds: u64,
    pub config: ConfigHealth,
    pub stats: StatsResponse,
}

/// Whole seconds from `from_ms` to `now_ms`, or 0 where the clock went
/// back.
pub open spec fn seconds_between(from_ms: u64, now_ms: u64) -> u64 {
    if now_ms >= from_ms {
        ((now_ms - from_ms) / 1000) as u64
    } else {
        0
    }
}

/// Builds the health report of a running instance.
pub fn health_report(
    loaded: &LoadedConfig,
    stats: &Stats,
    namespace: &str,
    crate_version: &str,
    uptime_seconds: u64,
    now_ms: u64,
) -> (r: HealthResponse)
    requires
        loaded.config.spec_total_targets() <= usize::MAX,
    ensures
        r.status@ == "healthy"@,
        r.version@ == crate_version@,
        r.uptime_seconds == uptime_seconds,
        r.config.source@ == loaded.source_name@,
        loaded.version@.len() >= 8 ==> r.config.version@ == loaded.version@.subrange(0, 8),
        loaded.version@.len() < 8 ==> r.config.version@ == loaded.version@,
        r.config.loaded_ago_seconds == seconds_between(loaded.loaded_at_ms, now_ms),
        r.config.namespace@ == namespace@,
        r.config.routes == loaded.config.routes@.len(),
        r.config.targets == loaded.config.spec_total_targets(),
        r.stats.requests_forwarded == stats.forwarded,
        r.stats.requests_failed == stats.failed,
{
    let ago = if now_ms >= loaded.loaded_at_ms {
        (now_ms - loaded.loaded_at_ms) / 1000
    } else {
        0
    };
    HealthResponse {
        status: String::from_str("healthy"),
        version: String::from_str(crate_version),
        uptime_seconds,
        config: ConfigHealth {
            source: loaded.source_name.clone(),
            version: loaded.version.short(),
            loaded_ago_seconds: ago,
            namespace: String::from_str(namespace),
            routes: loaded.config.routes.len(),
            targets: loaded.config.total_targets(),
        },
        stats: StatsResponse {
            requests_forwarded: stats.forwarded,
            requests_failed: stats.failed,
        },
    }
}

/// An uptime in words: `Hh Mm Ss`, `Mm Ss` under an hour, `Ss` under a
/// minute.
pub open spec fn uptime_text(seconds: nat) -> Seq<char> {
    let h = seconds / 3600;
    let m = (seconds % 3600) / 60;
    let s = seconds % 60;
    if h > 0 {
        decimal(h) + "h "@ + decimal(m) + "m "@ + decimal(s) + "s"@
    } else if m > 0 {
        decimal(m) + "m "@ + decimal(s) + "s"@
    } else {
        decimal(s) + "s"@
    }
}

/// An uptime in words.
pub fn format_uptime(seconds: u64) -> (r: String)
    ensures
        r@ == uptime_text(seconds as nat),
{
    let hours = seconds / 3600;
    let minutes = (seconds % 3600) / 60;
    let secs = seconds % 60;
    let mut out = String::new();
    if hours > 0 {
        out.append(decimal_string(hours).as_str());
        out.append("h ");
        out.append(decimal_string(minutes).as_str());
        out.append("m ");
    } else if minutes > 0 {
        out.append(decimal_string(minutes).as_str());
        out.append("m ");
    }
    out.append(decimal_string(secs).as_str());
    out.append("s");
    out
}

} // verus!

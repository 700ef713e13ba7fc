//! The live configuration cell and the decisions of the refresher that
//! keeps it current.

use vstd::prelude::*;

use crate::error::SwitchboardError;
use crate::model::Config;
use crate::proxy::{bumped, Stats};
use crate::source::{payload_changed, payload_version, ConfigVersion};

verus! {

/// The configuration in service, with its version, the name of the source
/// it came from and when it was loaded (milliseconds on the host's clock).
#[derive(Debug)]
pub struct LoadedConfig {
    pub config: Config,
    pub version: ConfigVersion,
    pub source_name: String,
    pub loaded_at_ms: u64,
}

/// The single holder of the configuration in service. Readers see a whole
/// configuration; a write replaces it whole.
pub struct LiveCell {
    current: LoadedConfig,
    writes: u64,
    history: Ghost<Seq<(Config, ConfigVersion)>>,
}

impl LiveCell {
    /// The configuration in service is the last one applied.
    #[verifier::type_invariant]
    spec fn in_service_is_last(self) -> bool {
        &&& self.history@.len() > 0
        &&& self.history@.last() == (self.current.config, self.current.version)
    }

    /// Every configuration applied to the cell, with its version, in order;
    /// the first is the one the cell was made with.
    pub closed spec fn applied(&self) -> Seq<(Config, ConfigVersion)> {
        self.history@
    }

    /// The configuration in service.
    pub closed spec fn loaded(&self) -> LoadedConfig {
        self.current
    }

    /// The number of writes since the cell was made.
    pub closed spec fn write_count(&self) -> u64 {
        self.writes
    }

    /// A cell holding its first configuration.
    pub fn new(first: LoadedConfig) -> (r: LiveCell)
        ensures
            r.loaded() == first,
            r.write_count() == 0,
            r.applied() == seq![(first.config, first.version)],
    {
        let ghost h = seq![(first.config, first.version)];
        LiveCell { current: first, writes: 0, history: Ghost(h) }
    }

    /// The configuration in service: the one of the last write, whole.
    pub fn snapshot(&self) -> (r: &LoadedConfig)
        ensures
            *r == self.loaded(),
            (r.config, r.version) == self.applied().last(),
            self.applied().len() > 0,
    {
        proof {
            use_type_invariant(self);
        }
        &self.current
    }

    /// The version in service.
    pub fn version(&self) -> (r: &ConfigVersion)
        ensures
            *r == self.loaded().version,
    {
        &self.current.version
    }

    /// Replaces the configuration in service, keeping its source name.
    pub fn install(&mut self, config: Config, version: ConfigVersion, now_ms: u64)
        ensures
            final(self).loaded().config == config,
            final(self).loaded().version == version,
            final(self).loaded().source_name == old(self).loaded().source_name,
            final(self).loaded().loaded_at_ms == now_ms,
            final(self).write_count() == bumped(old(self).write_count()),
            final(self).applied() == old(self).applied().push((config, version)),
    {
        let ghost h = self.history@.push((config, version));
        let writes = if self.writes < u64::MAX {
            self.writes + 1
        } else {
            0
        };
        let source_name = self.current.source_name.clone();
        *self = LiveCell {
            current: LoadedConfig { config, version, source_name, loaded_at_ms: now_ms },
            writes,
            history: Ghost(h),
        };
    }
}

/// What wakes the refresher.
#[derive(Debug, Clone, Copy, PartialEq, Eq)]
pub enum RefreshEvent {
    /// The interval elapsed.
    Tick,
    /// The process is shutting down.
    Shutdown,
}

/// Whether the refresher goes on after an event: it exits on shutdown and
/// checks the primary source on a tick.
pub fn continue_after(event: RefreshEvent) -> (r: bool)
    ensures
        r == (event == RefreshEvent::Tick),
{
    match event {
        RefreshEvent::Tick => true,
        RefreshEvent::Shutdown => false,
    }
}

/// Whether the refresher reloads after asking the primary source whether it
/// changed: only on a clear yes; a failed check is logged and skipped.
pub fn should_reload(check: &Result<bool, SwitchboardError>) -> (r: bool)
    ensures
        r == (check matches Ok(true)),
{
    match check {
        Ok(changed) => *changed,
        Err(_) => false,
    }
}

/// Applies the result of a reload: a loaded configuration replaces the one
/// in service and is counted; a failure leaves the cell and the counters
/// as they were. Returns whether the cell was written.
pub fn apply_reload(
    cell: &mut LiveCell,
    stats: &mut Stats,
    outcome: Result<(Config, ConfigVersion), SwitchboardError>,
    now_ms: u64,
) -> (r: bool)
    ensures
        r == outcome is Ok,
        outcome matches Ok((c, v)) ==> final(cell).loaded().config == c
            && final(cell).loaded().version == v && final(cell).loaded().loaded_at_ms == now_ms
            && final(cell).loaded().source_name == old(cell).loaded().source_name
            && final(cell).write_count() == bumped(old(cell).write_count())
            && final(stats).config_reloads == bumped(old(stats).config_reloads),
        outcome matches Ok((c, v)) ==> final(cell).applied() == old(cell).applied().push((c, v)),
        outcome is Err ==> *final(cell) == *old(cell) && final(stats).config_reloads == old(
            stats,
        ).config_reloads,
        final(stats).forwarded == old(stats).forwarded,
        final(stats).failed == old(stats).failed,
        final(stats).active_requests == old(stats).active_requests,
{
    match outcome {
        Ok((config, version)) => {
            cell.install(config, version, now_ms);
            stats.record_reload();
            true
        },
        Err(_) => false,
    }
}

/// Once a configuration is installed from a payload, checking that same
/// payload again reports no change, so the refresher neither reloads nor
/// writes to the cell; and loading it again would give the same version.
pub proof fn lemma_unchanged_payload_is_quiet(current: ConfigVersion, payload: Seq<u8>)
    requires
        current@ == payload_version(payload),
    ensures
        !payload_changed(current@, payload),
        payload_version(payload) == current@,
{
}

} // verus!

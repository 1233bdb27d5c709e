//! Where MAR entries are staged.
use vstd::prelude::*;

use crate::config::PersistStorageConfig;
use crate::mar::manifest::MetadataKind;

verus! {

/// The temporary and the persistent staging directories, and which entries
/// go to the persistent one.
#[derive(Clone, Debug)]
pub struct MarConfig {
    tmp_dir: String,
    persist_dir: String,
    persist_config: Option<PersistStorageConfig>,
}

/// Whether an entry of the given kind goes to persistent storage.
pub open spec fn persists(config: Option<PersistStorageConfig>, kind: MetadataKind) -> bool {
    match config {
        None => false,
        Some(c) => match kind {
            MetadataKind::LinuxLogs => c.logs,
            MetadataKind::DeviceAttributes => c.metrics,
            MetadataKind::DeviceConfig => false,
            MetadataKind::ElfCoredump => c.coredumps,
            MetadataKind::LinuxReboot => c.reboots,
            MetadataKind::LinuxHeartbeat => c.metrics,
            MetadataKind::LinuxMetricReport { .. } => c.metrics,
            MetadataKind::LinuxCustomTrace => c.coredumps,
            MetadataKind::CustomDataRecording => false,
            MetadataKind::Stacktrace => c.coredumps,
            MetadataKind::LinuxMemfaultWatch { .. } => c.logs,
        },
    }
}

/// Which flag of the persistent storage configuration sends each kind to
/// the persistent directory: coredumps, custom traces and stack traces
/// follow `coredumps`; logs and process watches follow `logs`; device
/// attributes, heartbeats and metric reports follow `metrics`; reboots
/// follow `reboots`; device configs and custom data recordings never go
/// there, and without a configuration nothing does.
pub proof fn law_persistent_staging_flags(config: PersistStorageConfig, kind: MetadataKind)
    ensures
        !persists(None, kind),
        kind is ElfCoredump ==> (persists(Some(config), kind) <==> config.coredumps),
        kind is LinuxCustomTrace ==> (persists(Some(config), kind) <==> config.coredumps),
        kind is Stacktrace ==> (persists(Some(config), kind) <==> config.coredumps),
        kind is LinuxLogs ==> (persists(Some(config), kind) <==> config.logs),
        kind is LinuxMemfaultWatch ==> (persists(Some(config), kind) <==> config.logs),
        kind is DeviceAttributes ==> (persists(Some(config), kind) <==> config.metrics),
        kind is LinuxHeartbeat ==> (persists(Some(config), kind) <==> config.metrics),
        kind is LinuxMetricReport ==> (persists(Some(config), kind) <==> config.metrics),
        kind is LinuxReboot ==> (persists(Some(config), kind) <==> config.reboots),
        kind is DeviceConfig ==> !persists(Some(config), kind),
        kind is CustomDataRecording ==> !persists(Some(config), kind),
{
}

impl MarConfig {
    pub fn new(tmp_dir: String, persist_dir: String, persist_config: Option<PersistStorageConfig>) -> (r: Self)
        ensures
            r.tmp_dir() == tmp_dir@,
            r.persist_dir() == persist_dir@,
            r.persist_config() == persist_config,
    {
        MarConfig { tmp_dir, persist_dir, persist_config }
    }

    pub closed spec fn tmp_dir(&self) -> Seq<char> {
        self.tmp_dir@
    }

    pub closed spec fn persist_dir(&self) -> Seq<char> {
        self.persist_dir@
    }

    pub closed spec fn persist_config(&self) -> Option<PersistStorageConfig> {
        self.persist_config
    }

    /// The directory where an entry of the given kind is staged: the
    /// persistent one when the persistent storage configuration asks for
    /// entries of that kind, else the temporary one.
    pub fn final_staging_path(&self, kind: &MetadataKind) -> (r: String)
        ensures
            r@ == if persists(self.persist_config(), *kind) {
                self.persist_dir()
            } else {
                self.tmp_dir()
            },
    {
        let use_persist_dir = match &self.persist_config {
            None => false,
            Some(config) => match kind {
                MetadataKind::LinuxLogs => config.logs,
                MetadataKind::DeviceAttributes => config.metrics,
                MetadataKind::DeviceConfig => false,
                MetadataKind::ElfCoredump => config.coredumps,
                MetadataKind::LinuxReboot => config.reboots,
                MetadataKind::LinuxHeartbeat => config.metrics,
                MetadataKind::LinuxMetricReport { .. } => config.metrics,
                MetadataKind::LinuxCustomTrace => config.coredumps,
                MetadataKind::CustomDataRecording => false,
                MetadataKind::Stacktrace => config.coredumps,
                MetadataKind::LinuxMemfaultWatch { .. } => config.logs,
            },
        };
        if use_persist_dir {
            self.persist_dir.clone()
        } else {
            self.tmp_dir.clone()
        }
    }

    /// The temporary staging directory.
    pub fn tmp_staging_path(&self) -> (r: String)
        ensures
            r@ == self.tmp_dir(),
    {
        self.tmp_dir.clone()
    }
}

} // verus!

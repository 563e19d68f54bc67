//! The configuration: where the data is, where it goes, and how often.

use vstd::prelude::*;

use crate::path::{join, joined_path};

verus! {

/// The two disks.
#[derive(Debug)]
pub struct PathsConfig {
    pub source_path: String,
    pub source_subvolume: String,
    pub backup_path: String,
}

/// The offsite bucket and how many objects it retains.
#[derive(Debug)]
pub struct S3Config {
    pub bucket: String,
    pub retention_count: usize,
    pub aws_profile: Option<String>,
}

/// The key that offsite archives are encrypted to.
#[derive(Debug)]
pub struct GpgConfig {
    pub public_key_file: String,
}

/// Intervals in seconds.
#[derive(Debug)]
pub struct ScheduleConfig {
    pub check_interval: u64,
    pub full_backup_interval: u64,
    pub incremental_interval: u64,
}

/// Where the state and the timestamps are kept.
#[derive(Debug)]
pub struct StateConfig {
    pub state_dir: String,
}

#[derive(Debug)]
pub struct Config {
    pub paths: PathsConfig,
    pub s3: S3Config,
    pub gpg: GpgConfig,
    pub schedule: ScheduleConfig,
    pub state: StateConfig,
}

impl Config {
    /// Where the btrfs subvolume on the source disk is.
    pub open spec fn subvolume(&self) -> Seq<char> {
        join(self.paths.source_path@, self.paths.source_subvolume@)
    }

    /// Returns the full path to the btrfs subvolume on the source disk,
    /// i.e. `source_path / source_subvolume`.
    pub fn source_subvolume_path(&self) -> (r: String)
        ensures
            r@ == self.subvolume(),
    {
        joined_path(self.paths.source_path.as_str(), self.paths.source_subvolume.as_str())
    }
}

} // verus!

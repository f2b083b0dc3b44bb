//! The commands the program accepts, as plain values.
use vstd::prelude::*;

verus! {

/// How the check report is written.
#[derive(Clone, Copy, Debug, PartialEq, Eq, Structural)]
pub enum OutputFormat {
    Table,
    Json,
    Paths,
}

impl Default for OutputFormat {
    fn default() -> (res: OutputFormat)
        ensures
            res == OutputFormat::Table,
    {
        OutputFormat::Table
    }
}

/// Track and copy images between SD card and external drive.
#[derive(Debug)]
pub struct Cli {
    /// Override config file path
    pub config: Option<String>,
    /// Enable verbose output
    pub verbose: bool,
    pub command: Commands,
}

/// The subcommands.
#[derive(Debug)]
pub enum Commands {
    /// Scan a drive and index all images into the DB
    Scan {
        /// Path to scan (defaults to external_drive_path in config)
        path: Option<String>,
        /// Human-readable label for this drive
        drive_label: Option<String>,
        /// Recompute hashes even if already present
        force_rehash: bool,
    },
    /// Show which SD card images are not yet on the drive
    Check {
        /// SD card path (overrides SD_PATH in config)
        sd: Option<String>,
        /// External drive path (overrides external_drive_path in config)
        drive: Option<String>,
        /// Use blake3 hashes for definitive deduplication (slower)
        hash: bool,
        /// Output format
        format: OutputFormat,
    },
    /// Copy new images from SD card to external drive
    Copy {
        /// SD card path (overrides SD_PATH in config)
        sd: Option<String>,
        /// External drive path (overrides external_drive_path in config)
        drive: Option<String>,
        /// Use blake3 hashes for definitive deduplication (slower)
        hash: bool,
        /// Show what would be copied without actually copying
        dry_run: bool,
    },
    /// Compute and store blake3 hashes for indexed images
    Hash {
        /// Only process images on this drive path
        drive: Option<String>,
        /// Only hash images that don't have a hash yet (default: true)
        missing_only: bool,
    },
    /// Manage known drives
    Drives { action: DrivesAction },
    /// Show resolved configuration
    Config,
}

/// What to do with the known drives.
#[derive(Debug)]
pub enum DrivesAction {
    /// List all known drives
    List,
    /// Add a drive to the DB
    Add { path: String, label: String },
    /// Remove a drive from the DB
    Remove { path: String },
}

} // verus!

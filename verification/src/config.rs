//! Settings: which files count as images, where the catalog lives, how
//! copies are filed, and which paths are used when none is given.
use vstd::prelude::*;
use crate::paths::{join_path, joined, opt_view, views};

verus! {

/// All settings.
#[derive(Debug)]
pub struct Config {
    pub sd_path: Option<String>,
    pub external_drive_path: Option<String>,
    pub scan: ScanConfig,
    pub db: DbConfig,
    pub copy: CopyConfig,
}

/// Settings of scanning.
#[derive(Debug)]
pub struct ScanConfig {
    pub extensions: Vec<String>,
    /// 0 = use all logical CPUs
    pub threads: usize,
    /// Minimum file size in bytes (skip tiny thumbnails)
    pub min_file_size: u64,
}

/// Where the catalog is stored.
#[derive(Debug)]
pub struct DbConfig {
    pub path: String,
}

/// How copies are filed.
#[derive(Debug)]
pub struct CopyConfig {
    pub path_template: String,
}

/// The image extensions scanned by default.
pub open spec fn default_extensions() -> Seq<Seq<char>> {
    seq![
        "jpg"@, "jpeg"@, "png"@, "arw"@, "srf"@, "sr2"@, "cr2"@, "cr3"@, "crw"@, "raf"@, "nef"@,
        "nrw"@,
    ]
}

impl Default for ScanConfig {
    fn default() -> (res: ScanConfig)
        ensures
            views(res.extensions@) == default_extensions(),
            res.threads == 0,
            res.min_file_size == 102_400,
    {
        let mut extensions: Vec<String> = Vec::new();
        extensions.push("jpg".to_owned());
        extensions.push("jpeg".to_owned());
        extensions.push("png".to_owned());
        extensions.push("arw".to_owned());
        extensions.push("srf".to_owned());
        extensions.push("sr2".to_owned());
        extensions.push("cr2".to_owned());
        extensions.push("cr3".to_owned());
        extensions.push("crw".to_owned());
        extensions.push("raf".to_owned());
        extensions.push("nef".to_owned());
        extensions.push("nrw".to_owned());
        assert(views(extensions@) =~= default_extensions());
        ScanConfig {
            extensions,
            threads: 0,
            min_file_size: 102_400,  // 100 KB
        }
    }
}

impl Default for CopyConfig {
    fn default() -> (res: CopyConfig)
        ensures
            res.path_template@ == "{year}/{month}/{day}"@,
    {
        CopyConfig { path_template: "{year}/{month}/{day}".to_owned() }
    }
}

impl DbConfig {
    /// The catalog file `images.db` in the application's data directory, or
    /// in the working directory when there is none.
    pub fn in_data_dir(data_dir: Option<&str>) -> (res: DbConfig)
        ensures
            res.path@ == match data_dir {
                Some(d) => joined(d@, "images.db"@),
                None => "images.db"@,
            },
    {
        match data_dir {
            Some(d) => DbConfig { path: join_path(d, "images.db") },
            None => DbConfig { path: "images.db".to_owned() },
        }
    }
}

/// The settings file `config.toml` in the application's configuration
/// directory, or in the working directory when there is none.
pub fn default_config_path(config_dir: Option<&str>) -> (res: String)
    ensures
        res@ == match config_dir {
            Some(d) => joined(d@, "config.toml"@),
            None => "config.toml"@,
        },
{
    match config_dir {
        Some(d) => join_path(d, "config.toml"),
        None => "config.toml".to_owned(),
    }
}

/// A copy of an optional string.
fn clone_opt(o: &Option<String>) -> (res: Option<String>)
    ensures
        opt_view(res) == opt_view(*o),
{
    crate::models::clone_opt_string(o)
}

impl Config {
    /// The settings used when no settings file exists, with the catalog in
    /// `data_dir` (see [`DbConfig::in_data_dir`]).
    pub fn with_data_dir(data_dir: Option<&str>) -> (res: Config)
        ensures
            res.sd_path is None,
            res.external_drive_path is None,
            views(res.scan.extensions@) == default_extensions(),
            res.scan.threads == 0,
            res.scan.min_file_size == 102_400,
            res.db.path@ == match data_dir {
                Some(d) => joined(d@, "images.db"@),
                None => "images.db"@,
            },
            res.copy.path_template@ == "{year}/{month}/{day}"@,
    {
        Config {
            sd_path: None,
            external_drive_path: None,
            scan: ScanConfig::default(),
            db: DbConfig::in_data_dir(data_dir),
            copy: CopyConfig::default(),
        }
    }

    /// Resolve the effective SD path: CLI flag > env > config
    pub fn effective_sd_path(&self, cli_override: Option<String>) -> (res: Option<String>)
        ensures
            opt_view(res) == match cli_override {
                Some(p) => Some(p@),
                None => opt_view(self.sd_path),
            },
    {
        match cli_override {
            Some(p) => Some(p),
            None => clone_opt(&self.sd_path),
        }
    }

    /// Resolve the effective external drive path: CLI flag > env > config
    pub fn effective_drive_path(&self, cli_override: Option<String>) -> (res: Option<String>)
        ensures
            opt_view(res) == match cli_override {
                Some(p) => Some(p@),
                None => opt_view(self.external_drive_path),
            },
    {
        match cli_override {
            Some(p) => Some(p),
            None => clone_opt(&self.external_drive_path),
        }
    }
}

} // verus!

//! The service configuration and the structural checks a server performs on
//! it before starting: the volume table must be present and non-empty, every
//! volume name must be well-formed, and no storage path may be bound twice.
//!
//! Reading the configuration file and probing the paths for writability are
//! i/o and happen outside; this module owns the rules.

use crate::text::{dev_name_ok, spec_dev_name_ok};
use vstd::prelude::*;

verus! {

/// One configured storage volume: its name on the wire and the directory it
/// is bound to.
#[derive(Debug, Clone)]
pub struct RfsConfig {
    pub dev_name: String,
    pub bind_path: String,
}

/// General service settings.
#[derive(Debug, Clone)]
pub struct SetupConfig {
    pub mode: String,
    pub certificate: String,
    pub private_key: String,
    pub auth_token: String,
    pub log_level: String,
}

/// Addresses and the port the service binds or connects to.
#[derive(Debug, Clone)]
pub struct NetworkConfig {
    pub listen: String,
    pub address: String,
    pub port: u16,
}

/// The whole configuration; the volume table is only required in server
/// mode.
#[derive(Debug, Clone)]
pub struct Config {
    pub setup: SetupConfig,
    pub network: NetworkConfig,
    pub rfs: Option<Vec<RfsConfig>>,
}

/// Why a configuration was rejected for server mode.
#[derive(Debug, Clone, Copy, PartialEq, Eq, Structural)]
pub enum ConfigError {
    /// The volume table is missing entirely.
    MissingRfs,
    /// The volume table is present but empty.
    EmptyRfs,
    /// Some volume name holds a character outside its allowed set.
    BadDevName,
    /// Two volumes bind the same path.
    DuplicateBindPath,
}

/// Every volume name is well-formed.
pub open spec fn spec_dev_names_ok(vols: Seq<RfsConfig>) -> bool {
    forall|i: int| 0 <= i < vols.len() ==> spec_dev_name_ok(#[trigger] vols[i].dev_name@)
}

/// No two volumes bind the same path.
pub open spec fn spec_bind_paths_unique(vols: Seq<RfsConfig>) -> bool {
    forall|i: int, j: int|
        0 <= i < j < vols.len() ==> (#[trigger] vols[i].bind_path@) != (#[trigger] vols[
            j
        ].bind_path@)
}

/// Checks every volume name against its allowed character set.
fn check_dev_names(vols: &Vec<RfsConfig>) -> (r: bool)
    ensures
        r == spec_dev_names_ok(vols@),
{
    let mut i: usize = 0;
    while i < vols.len()
        invariant
            i <= vols@.len(),
            forall|k: int| 0 <= k < i ==> spec_dev_name_ok(#[trigger] vols@[k].dev_name@),
        decreases vols@.len() - i,
    {
        if !dev_name_ok(vols[i].dev_name.as_str()) {
            return false;
        }
        i = i + 1;
    }
    true
}

/// Checks that no two volumes bind the same path.
fn check_bind_paths_unique(vols: &Vec<RfsConfig>) -> (r: bool)
    ensures
        r == spec_bind_paths_unique(vols@),
{
    let mut j: usize = 0;
    while j < vols.len()
        invariant
            j <= vols@.len(),
            forall|a: int, b: int|
                0 <= a < b < j ==> (#[trigger] vols@[a].bind_path@) != (#[trigger] vols@[
                    b
                ].bind_path@),
        decreases vols@.len() - j,
    {
        let mut i: usize = 0;
        while i < j
            invariant
                i <= j < vols@.len(),
                forall|a: int| 0 <= a < i ==> (#[trigger] vols@[a].bind_path@) != vols@[
                    j as int
                ].bind_path@,
            decreases j - i,
        {
            if vols[i].bind_path == vols[j].bind_path {
                return false;
            }
            i = i + 1;
        }
        j = j + 1;
    }
    true
}

/// The structural checks a server runs on its configuration: the volume
/// table must exist and be non-empty, every volume name must be well-formed,
/// and bind paths must be pairwise distinct. The errors come in exactly that
/// order of precedence.
pub fn validate_server_config(config: &Config) -> (r: Result<(), ConfigError>)
    ensures
        r is Ok <==> (config.rfs matches Some(vols) && vols@.len() > 0 && spec_dev_names_ok(vols@)
            && spec_bind_paths_unique(vols@)),
        r == Err::<(), ConfigError>(ConfigError::MissingRfs) <==> config.rfs is None,
        r == Err::<(), ConfigError>(ConfigError::EmptyRfs) <==> (config.rfs matches Some(vols)
            && vols@.len() == 0),
        r == Err::<(), ConfigError>(ConfigError::BadDevName) <==> (config.rfs matches Some(vols)
            && vols@.len() > 0 && !spec_dev_names_ok(vols@)),
        r == Err::<(), ConfigError>(ConfigError::DuplicateBindPath) <==> (config.rfs matches Some(
            vols,
        ) && vols@.len() > 0 && spec_dev_names_ok(vols@) && !spec_bind_paths_unique(vols@)),
{
    match &config.rfs {
        None => Err(ConfigError::MissingRfs),
        Some(vols) => {
            if vols.len() == 0 {
                Err(ConfigError::EmptyRfs)
            } else if !check_dev_names(vols) {
                Err(ConfigError::BadDevName)
            } else if !check_bind_paths_unique(vols) {
                Err(ConfigError::DuplicateBindPath)
            } else {
                Ok(())
            }
        },
    }
}

} // verus!

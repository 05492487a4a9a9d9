//! The options and subcommands the binary accepts, as plain data, and the
//! rule that turns the override flags into a driver choice.

use crate::detect::{self, spec_find_version, Driver};
use crate::errors::Error;
use vstd::prelude::*;

verus! {

/// One subcommand of the tool.
#[derive(Debug, PartialEq, Eq, Structural, Clone, Copy)]
pub enum Commands {
    /// Show detected vs active driver and last sync info.
    Status,
    /// Show only the detected (auto- or forced) driver.
    Driver,
    /// Print the build descriptor for the symlink farm.
    Code,
    /// Build the symlink farm without switching to it.
    Build,
    /// Build and switch the active symlink to the newly built farm.
    Sync,
    /// Print the boot-time rule for the runtime symlink.
    Tmpfiles,
    /// Install and apply the boot-time rule.
    TmpfilesInstall,
    /// Remove the boot-time rule.
    TmpfilesUninstall,
    /// Print the boot-time sync service unit.
    Service,
    /// Install and enable the boot-time sync service.
    ServiceInstall,
    /// Disable and remove the boot-time sync service.
    ServiceUninstall,
    /// Install both the boot-time rule and the sync service.
    Install,
    /// Remove all state, GC-roots, the rule and the service.
    Uninstall,
    /// Dump the raw state file, or its backup.
    State,
    /// Dump the persisted version-to-hash map.
    HashStore,
}

/// The parsed command line. The two force flags are mutually exclusive;
/// argument parsing upholds that before a value of this type is built.
pub struct Cli {
    /// Only print the final result to stdout.
    pub quiet: bool,
    /// Force the open-source stack.
    pub force_mesa: bool,
    /// Force the proprietary driver, pinned to exactly this version.
    pub force_nvidia: Option<String>,
    /// Resolve real content hashes instead of leaving placeholders.
    pub resolve_hashes: bool,
    /// The subcommand to run.
    pub cmd: Commands,
}

/// The driver one invocation works with: a forced override wins over
/// detection, and a forced version bypasses the version file entirely.
pub fn pick_driver(cli: &Cli, version_text: Option<&str>) -> (r: Result<Driver, Error>)
    ensures
        cli.force_nvidia matches Some(v) ==> (
            r matches Ok(d) && d matches Driver::Nvidia(ver) && ver@ == v@),
        cli.force_nvidia is None && cli.force_mesa ==> (r matches Ok(d) && d is Mesa),
        cli.force_nvidia is None && !cli.force_mesa ==> {
            &&& (version_text is None ==> (r matches Ok(d) && d is Mesa))
            &&& (version_text matches Some(t) ==> (spec_find_version(t@, 0) matches Some(v) ==> (
                r matches Ok(d) && d matches Driver::Nvidia(ver) && ver@ == v)))
            &&& (version_text matches Some(t) ==> (spec_find_version(t@, 0) is None ==> (
                r matches Err(e) && e is Detection)))
        },
{
    if let Some(ver) = &cli.force_nvidia {
        Ok(Driver::Nvidia(ver.clone()))
    } else if cli.force_mesa {
        Ok(Driver::Mesa)
    } else {
        detect::detect_driver(version_text)
    }
}

} // verus!

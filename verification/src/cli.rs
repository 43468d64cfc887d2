//! The command line of `dsw`, as plain data. The program parses the
//! arguments into these values.

use vstd::prelude::*;

verus! {

/// The parsed command line.
#[derive(Debug)]
pub struct Cli {
    pub command: Option<Command>,
}

/// A subcommand.
#[derive(Debug)]
pub enum Command {
    /// First-run setup: create storage and import the current login as a profile
    Init(InitArgs),
    /// Launch `droid` to log in, then snapshot the result as a named profile
    Add(AddArgs),
    /// Snapshot the currently-live droid login as a named profile (no relogin)
    Import(ImportArgs),
    /// Activate a saved profile (auto-snapshots the previous active one)
    Use(UseArgs),
    /// List profiles, marking the active one
    List(ListArgs),
    /// Show the active profile and its email/expiry
    Status(StatusArgs),
    /// Save the live login back to the active profile (or to every profile
    /// of the same account)
    Sync(SyncArgs),
    /// Delete a saved profile
    Remove(RemoveArgs),
    /// Rename a saved profile
    Rename(RenameArgs),
    /// Diagnose the install (paths, permissions, token expiry)
    Doctor(DoctorArgs),
    /// Manage automatic backups created on every switch
    Backup(BackupArgs),
}

#[derive(Debug)]
pub struct InitArgs {
    /// Name to save the currently-live login as (skip if not logged in)
    pub import_as: Option<String>,
}

#[derive(Debug)]
pub struct AddArgs {
    /// Profile name to create
    pub name: String,
    /// Skip launching `droid`; just snapshot whatever is currently active
    pub no_login: bool,
}

#[derive(Debug)]
pub struct ImportArgs {
    /// Profile name to create from the currently-live login
    pub name: String,
    /// Overwrite an existing profile with the same name
    pub force: bool,
}

#[derive(Debug)]
pub struct UseArgs {
    /// Profile name to activate
    pub name: String,
}

#[derive(Debug)]
pub struct ListArgs {
    /// Output as JSON
    pub json: bool,
}

#[derive(Debug)]
pub struct StatusArgs {
    /// Output as JSON
    pub json: bool,
}

#[derive(Debug)]
pub struct SyncArgs {
    /// Save the live login to every saved profile of the same account
    pub all: bool,
}

#[derive(Debug)]
pub struct RemoveArgs {
    /// Profile name to delete
    pub name: String,
    /// Skip the confirmation prompt
    pub yes: bool,
}

#[derive(Debug)]
pub struct RenameArgs {
    /// Existing profile name
    pub old: String,
    /// New profile name
    pub new: String,
}

#[derive(Debug)]
pub struct DoctorArgs {
    /// Output as JSON
    pub json: bool,
}

#[derive(Debug)]
pub struct BackupArgs {
    pub command: BackupCommand,
}

/// A backup subcommand.
#[derive(Debug)]
pub enum BackupCommand {
    /// List backups
    List,
    /// Restore a backup by id (timestamp directory name)
    Restore {
        /// Backup id (timestamp directory under ~/.dsw/backups/)
        id: String,
        /// Skip confirmation
        yes: bool,
    },
    /// Prune backups older than N most recent (default: keep 10)
    Prune {
        /// How many recent backups to keep
        keep: usize,
    },
}

} // verus!

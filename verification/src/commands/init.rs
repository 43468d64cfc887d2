//! `dsw init [--import-as <name>]`: first-run setup.

use vstd::prelude::*;
use crate::backup::any_present;
use crate::cli::InitArgs;
use crate::paths::valid_profile_name;
use crate::profile::{snapshot_live, snapshot_ops, Snapshot};
use crate::store::ops_view;
use crate::text::{cat, cat3};

verus! {

/// What `init` does once dsw's directories exist.
#[derive(Debug)]
pub enum InitPlan {
    /// No import was asked for: suggest `dsw import <name>`.
    Tip,
    /// An import was asked for, but there is no live login to import.
    NoLiveLogin,
    /// Import the live login under the given name; on success it becomes
    /// the active profile.
    Import { name: String, snapshot: Snapshot },
}

/// Decide what `init` does; `live_present` tells which live auth files
/// exist.
pub fn run(args: &InitArgs, live_present: &[bool]) -> (r: InitPlan)
    ensures
        args.import_as is None ==> r matches InitPlan::Tip,
        args.import_as is Some && !any_present(live_present@) ==> r matches InitPlan::NoLiveLogin,
        args.import_as is Some && any_present(live_present@) ==> (r matches InitPlan::Import {
            name,
            snapshot,
        } && name@ == args.import_as->0@ && (valid_profile_name(name@) ==> ops_view(snapshot.ops@)
            == snapshot_ops(name@, live_present@) && snapshot.outcome is Ok) && (
        !valid_profile_name(name@) ==> snapshot.outcome is Err)),
{
    match &args.import_as {
        None => InitPlan::Tip,
        Some(name) => {
            let any = (0 < live_present.len() && live_present[0]) || (1 < live_present.len()
                && live_present[1]) || (2 < live_present.len() && live_present[2]);
            if !any {
                InitPlan::NoLiveLogin
            } else {
                let snapshot = snapshot_live(name.as_str(), live_present);
                InitPlan::Import { name: crate::text::owned(name.as_str()), snapshot }
            }
        },
    }
}

/// What `init` prints once dsw's home directory `home` exists.
pub fn created_text(home: &str) -> (r: String)
    ensures
        r@ == "created "@ + home@,
{
    cat("created ", home)
}

/// What `init` prints when an import was asked for but the live directory
/// `factory` holds no login.
pub fn no_live_login_text(factory: &str) -> (r: String)
    ensures
        r@ == "no live login found in "@ + factory@ + " - skipping import"@,
{
    cat3("no live login found in ", factory, " - skipping import")
}

/// What `init` prints after importing the live login as profile `name`,
/// given its identity as shown.
pub fn imported_text(name: &str, identity: &str) -> (r: String)
    ensures
        r@ == "imported current login as profile '"@ + name@ + "'  ("@ + identity@ + ")"@,
{
    let a = cat3("imported current login as profile '", name, "'  (");
    cat3(a.as_str(), identity, ")")
}

/// What `init` prints when no import was asked for.
pub fn tip_text() -> (r: &'static str)
    ensures
        r@ == "tip: run `dsw import <name>` to save the current `droid` login as a profile"@,
{
    "tip: run `dsw import <name>` to save the current `droid` login as a profile"
}

} // verus!

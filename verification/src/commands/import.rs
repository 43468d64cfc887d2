//! `dsw import <name>`: save the live login as a profile.

use vstd::prelude::*;
use crate::cli::ImportArgs;
use crate::paths::valid_profile_name;
use crate::profile::{name_error, snapshot_live, snapshot_ops, ProfileError, Snapshot};
use crate::store::{count_present, ops_view};
use crate::text::{cat, cat3, debug_str, quoted};

verus! {

/// Why an import was refused.
#[derive(Debug, Clone, Copy, PartialEq, Eq)]
pub enum ImportError {
    /// A profile of that name exists and `--force` was not given.
    AlreadyExists,
}

impl ImportError {
    /// The message of this refusal for the profile `name`.
    pub open spec fn spec_message(self, name: Seq<char>) -> Seq<char> {
        "profile "@ + debug_str(name) + " already exists - pass --force to overwrite"@
    }

    /// The message of this refusal (see `spec_message`).
    pub fn message(&self, name: &str) -> (r: String)
        ensures
            r@ == self.spec_message(name@),
    {
        let q = quoted(name);
        cat3("profile ", q.as_str(), " already exists - pass --force to overwrite")
    }
}

/// What a successful import prints, given the profile's name and its
/// identity as shown (see `fmt_identity`).
pub open spec fn spec_saved_text(name: Seq<char>, identity: Seq<char>) -> Seq<char> {
    "saved current login as profile '"@ + name + "'  ("@ + identity + ")"@
}

/// What a successful import prints (see `spec_saved_text`).
pub fn saved_text(name: &str, identity: &str) -> (r: String)
    ensures
        r@ == spec_saved_text(name@, identity@),
{
    let a = cat3("saved current login as profile '", name, "'  (");
    cat3(a.as_str(), identity, ")")
}

/// Decide an import; `profile_exists` tells whether anything exists under
/// the profile's name and `live_present` which live auth files exist. When
/// the snapshot succeeds, the profile becomes the active one.
pub fn run(args: &ImportArgs, profile_exists: bool, live_present: &[bool]) -> (r: Result<
    Snapshot,
    ImportError,
>)
    ensures
        profile_exists && !args.force ==> r matches Err(ImportError::AlreadyExists),
        !(profile_exists && !args.force) ==> (r matches Ok(s) && (valid_profile_name(args.name@)
            ==> ops_view(s.ops@) == snapshot_ops(args.name@, live_present@) && s.outcome == if count_present(
            live_present@,
        ) == 0 {
            Err(ProfileError::NoAuthFiles)
        } else {
            Ok(count_present(live_present@) as usize)
        }) && (!valid_profile_name(args.name@) ==> s.ops@.len() == 0 && s.outcome == Err::<
            usize,
            ProfileError,
        >(ProfileError::Name(name_error(args.name@))))),
{
    if profile_exists && !args.force {
        return Err(ImportError::AlreadyExists);
    }
    Ok(snapshot_live(args.name.as_str(), live_present))
}

} // verus!

//! `dsw rename <old> <new>`: rename a saved profile.

use vstd::prelude::*;
use crate::cli::RenameArgs;
use crate::paths::valid_profile_name;
use crate::profile::{self, name_error, ProfileError};
use crate::state::{opt_view, State};
use crate::store::{ops_view, FileOp, Loc, Op};
use crate::text::cat;

verus! {

/// What `rename` prints once profile `old` is renamed to `new`.
pub fn renamed_text(old: &str, new: &str) -> (r: String)
    ensures
        r@ == "renamed '"@ + old@ + "' -> '"@ + new@ + "'"@,
{
    let a = cat("renamed '", old);
    let b = cat(a.as_str(), "' -> '");
    let c = cat(b.as_str(), new);
    cat(c.as_str(), "'")
}

/// What a rename does: carry out the operations; then, when `save_state`,
/// save the state, whose active profile follows the rename.
#[derive(Debug)]
pub struct RenamePlan {
    pub ops: Vec<FileOp>,
    pub save_state: bool,
}

/// Decide a rename of profile `args.old` to `args.new`; `old_is_dir` tells
/// whether the old directory exists and `new_exists` whether anything
/// exists under the new name. When the renamed profile was the active one,
/// `state` makes the new name active.
pub fn run(args: &RenameArgs, old_is_dir: bool, new_exists: bool, state: &mut State) -> (r: Result<
    RenamePlan,
    ProfileError,
>)
    ensures
        !valid_profile_name(args.old@) ==> r == Err::<RenamePlan, ProfileError>(
            ProfileError::Name(name_error(args.old@)),
        ),
        valid_profile_name(args.old@) && !valid_profile_name(args.new@) ==> r == Err::<
            RenamePlan,
            ProfileError,
        >(ProfileError::NewName(name_error(args.new@))),
        valid_profile_name(args.old@) && valid_profile_name(args.new@) && !old_is_dir ==> r
            == Err::<RenamePlan, ProfileError>(ProfileError::NotFound),
        valid_profile_name(args.old@) && valid_profile_name(args.new@) && old_is_dir && new_exists
            ==> r == Err::<RenamePlan, ProfileError>(ProfileError::AlreadyExists),
        valid_profile_name(args.old@) && valid_profile_name(args.new@) && old_is_dir && !new_exists
            ==> (r matches Ok(RenamePlan { ops, save_state }) && ops_view(ops@) == seq![
            Op::RenameDir(Loc::Profile(args.old@), Loc::Profile(args.new@)),
        ] && save_state == (opt_view(old(state).active) == Some(args.old@))),
        r matches Ok(p) && p.save_state ==> opt_view(final(state).active) == Some(args.new@),
        !(r matches Ok(p) && p.save_state) ==> *final(state) == *old(state),
{
    let ops = profile::rename(args.old.as_str(), args.new.as_str(), old_is_dir, new_exists)?;
    let save_state = state.follow_rename(args.old.as_str(), args.new.as_str());
    Ok(RenamePlan { ops, save_state })
}

} // verus!

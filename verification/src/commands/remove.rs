//! `dsw remove <name> [--yes]`: delete a saved profile.

use vstd::prelude::*;
use crate::cli::RemoveArgs;
use crate::commands::{agrees, confirmed};
use crate::paths::valid_profile_name;
use crate::profile::{self, name_error, ProfileError};
use crate::state::{opt_view, State};
use crate::store::{ops_view, FileOp, Loc, Op};
use crate::text::{cat3, debug_str, quoted};

verus! {

/// The question asked before deleting profile `name`.
pub fn prompt_text(name: &str) -> (r: String)
    ensures
        r@ == "delete profile "@ + debug_str(name@) + "? [y/N] "@,
{
    let q = quoted(name);
    cat3("delete profile ", q.as_str(), "? [y/N] ")
}

/// What `remove` prints once profile `name` is deleted.
pub fn removed_text(name: &str) -> (r: String)
    ensures
        r@ == "removed profile '"@ + name@ + "'"@,
{
    cat3("removed profile '", name, "'")
}

/// What a removal does.
#[derive(Debug)]
pub enum RemovePlan {
    /// The question was not agreed to: nothing is deleted.
    Aborted,
    /// Carry out the operations; then, when `save_state`, save the state,
    /// which no longer has an active profile.
    Remove { ops: Vec<FileOp>, save_state: bool },
}

/// Decide a removal of profile `args.name`. Unless `--yes` was given, it
/// goes ahead only when `answer`, the answer to `prompt_text`, agrees.
/// `profile_is_dir` tells whether the profile's directory exists. When the
/// deleted profile was the active one, `state` is left with none.
pub fn run(args: &RemoveArgs, answer: Option<String>, profile_is_dir: bool, state: &mut State) -> (r:
    Result<RemovePlan, ProfileError>)
    ensures
        ({
            let agreed = args.yes || (answer matches Some(a) && agrees(a@));
            &&& !agreed ==> (r matches Ok(RemovePlan::Aborted))
            &&& agreed && !valid_profile_name(args.name@) ==> r == Err::<RemovePlan, ProfileError>(
                ProfileError::Name(name_error(args.name@)),
            )
            &&& agreed && valid_profile_name(args.name@) && !profile_is_dir ==> r == Err::<
                RemovePlan,
                ProfileError,
            >(ProfileError::NotFound)
            &&& agreed && valid_profile_name(args.name@) && profile_is_dir ==> (r matches Ok(
                RemovePlan::Remove { ops, save_state },
            ) && ops_view(ops@) == seq![Op::RemoveDir(Loc::Profile(args.name@), true)]
                && save_state == (opt_view(old(state).active) == Some(args.name@)))
        }),
        r matches Ok(RemovePlan::Remove { save_state: true, .. }) ==> final(state).active is None,
        !(r matches Ok(RemovePlan::Remove { save_state: true, .. })) ==> *final(state) == *old(state),
{
    let agreed = args.yes || match &answer {
        Some(a) => confirmed(a.as_str()),
        None => false,
    };
    if !agreed {
        return Ok(RemovePlan::Aborted);
    }
    let ops = profile::remove(args.name.as_str(), profile_is_dir)?;
    let save_state = state.forget(args.name.as_str());
    Ok(RemovePlan::Remove { ops, save_state })
}

} // verus!

//! `dsw use <name>`: activate a saved profile, after backing up the live
//! login and saving it back into the profile that was active.

use vstd::prelude::*;
use crate::backup::{self, any_present, backup_ops, law_backup_captures_live, law_backup_restore, BackupPlan};
use crate::paths::valid_profile_name;
use crate::profile::{self, law_restore, law_snapshot, restore_ops, snapshot_ops, ProfileError};
use crate::state::{opt_view, State};
use crate::clock::{clock_error_text, spec_clock_error_text, stamp_shape};
use crate::text::{cat, cat3, debug_str, quoted};
use crate::store::{bundle, has_files, lemma_frame, lemma_run_concat, ops_view, presence_of, run_ops, same_outside, Disk, FileOp, Loc, Op};

verus! {

/// Why a switch was refused.
#[derive(Debug, Clone, Copy, PartialEq, Eq)]
pub enum SwitchError {
    /// The target profile does not exist.
    NotFound,
    /// A backup was needed but the system clock cannot name one (see
    /// `BackupError::Clock`).
    Clock,
}

impl SwitchError {
    /// The message of this refusal for the target profile `target`.
    pub open spec fn spec_message(self, target: Seq<char>) -> Seq<char> {
        match self {
            SwitchError::NotFound => "profile "@ + debug_str(target)
                + " does not exist - run `dsw list` to see available profiles"@,
            SwitchError::Clock => spec_clock_error_text(),
        }
    }

    /// The message of this refusal (see `spec_message`).
    pub fn message(&self, target: &str) -> (r: String)
        ensures
            r@ == self.spec_message(target@),
    {
        match self {
            SwitchError::NotFound => {
                let q = quoted(target);
                cat3(
                    "profile ",
                    q.as_str(),
                    " does not exist - run `dsw list` to see available profiles",
                )
            },
            SwitchError::Clock => crate::text::owned(clock_error_text()),
        }
    }
}

/// What `use` prints when `target` is already the active profile, given
/// the live identity as shown.
pub fn already_text(target: &str, identity: &str) -> (r: String)
    ensures
        r@ == "already on '"@ + target@ + "'  ("@ + identity@ + ")"@,
{
    let a = cat3("already on '", target, "'  (");
    cat3(a.as_str(), identity, ")")
}

/// What `use` prints after switching to `target`: the new live identity
/// as shown and, when one was taken, the id of the backup, each on a line.
pub open spec fn spec_switched_text(target: Seq<char>, identity: Seq<char>, backup: Option<Seq<char>>) -> Seq<char> {
    "-> "@ + target + "  ("@ + identity + ")\n"@ + match backup {
        Some(id) => "  backup: "@ + id + "\n"@,
        None => Seq::empty(),
    }
}

/// What `use` prints after a switch (see `spec_switched_text`).
pub fn switched_text(target: &str, identity: &str, backup: &Option<String>) -> (r: String)
    ensures
        r@ == spec_switched_text(target@, identity@, opt_view(*backup)),
{
    let a = cat3("-> ", target, "  (");
    let b = cat3(a.as_str(), identity, ")\n");
    match backup {
        Some(id) => {
            let c = cat3(b.as_str(), "  backup: ", id.as_str());
            cat(c.as_str(), "\n")
        },
        None => {
            proof {
                assert(b@ + Seq::<char>::empty() =~= b@);
            }
            b
        },
    }
}

/// What the program knows of the disk before a switch.
#[derive(Debug)]
pub struct SwitchFacts {
    /// The target profile's directory exists.
    pub target_is_dir: bool,
    /// Which of the target profile's three auth files exist.
    pub target_present: Vec<bool>,
    /// The previously active profile's directory exists.
    pub prev_is_dir: bool,
    /// Which of the three live auth files exist.
    pub live_present: Vec<bool>,
    /// The email of the live login.
    pub live_email: Option<String>,
}

/// The steps of a switch, in order.
#[derive(Debug)]
pub struct SwitchPlan {
    /// First a backup of the live login, when there is one.
    pub backup: Option<BackupPlan>,
    /// Then, best-effort (failures ignored), the live login saved back into
    /// the previously active profile.
    pub refresh: Vec<FileOp>,
    /// Then the target profile copied over the live auth files, or why that
    /// is refused.
    pub restore: Result<Vec<FileOp>, ProfileError>,
    /// Run, best-effort, when the restore fails or is refused: the backup
    /// put back in place.
    pub rollback: Vec<FileOp>,
}

/// The decision of a switch.
#[derive(Debug)]
pub enum Switch {
    /// The target is already the active profile; nothing to do.
    AlreadyActive,
    /// Carry out the plan, then make the target the active profile.
    Go(SwitchPlan),
}

/// The best-effort refresh of the previously active profile `prev`: a
/// snapshot of the live login into it, when it exists on disk, has a valid
/// name, and there is a live login.
pub open spec fn refresh_ops(prev: Option<Seq<char>>, prev_is_dir: bool, live: Seq<bool>) -> Seq<Op> {
    match prev {
        Some(p) => if prev_is_dir && any_present(live) && valid_profile_name(p) {
            snapshot_ops(p, live)
        } else {
            Seq::empty()
        },
        None => Seq::empty(),
    }
}

/// The backup part of a switch.
pub open spec fn backup_part(id: Seq<char>, live: Seq<bool>) -> Seq<Op> {
    if any_present(live) {
        backup_ops(id, live)
    } else {
        Seq::empty()
    }
}

/// Decide a switch to profile `target`, given the state and what the disk
/// holds.
pub fn run(target: &str, state: &State, facts: SwitchFacts) -> (r: Result<Switch, SwitchError>)
    ensures
        !facts.target_is_dir ==> r matches Err(SwitchError::NotFound),
        facts.target_is_dir && opt_view(state.active) == Some(target@) ==> r matches Ok(
            Switch::AlreadyActive,
        ),
        facts.target_is_dir && opt_view(state.active) != Some(target@) ==> (r == Err::<
            Switch,
            SwitchError,
        >(SwitchError::Clock) && any_present(facts.live_present@)) || (r matches Ok(
            Switch::Go(plan),
        ) && {
            &&& plan.backup is None <==> !any_present(facts.live_present@)
            &&& plan.backup matches Some(b) ==> ops_view(b.ops@) == backup_ops(
                b.id@,
                facts.live_present@,
            )
            &&& plan.backup matches Some(b) ==> stamp_shape(b.id@)
            &&& plan.backup matches Some(b) ==> (b.ops@.last() matches FileOp::WriteMeta {
                place,
                meta,
            } && place@ == Loc::Backup(b.id@) && meta.previous_profile == state.active
                && meta.email == facts.live_email && meta.timestamp@ == b.id@)
            &&& ops_view(plan.refresh@) == refresh_ops(
                opt_view(state.active),
                facts.prev_is_dir,
                facts.live_present@,
            )
            &&& !valid_profile_name(target@) ==> plan.restore is Err && plan.restore->Err_0 is Name
            &&& valid_profile_name(target@) ==> plan.restore is Ok && ops_view(plan.restore->Ok_0@)
                == restore_ops(target@, facts.target_present@)
            &&& ops_view(plan.rollback@) == match plan.backup {
                Some(b) => backup::restore_ops(b.id@, facts.live_present@),
                None => Seq::empty(),
            }
        }),
{
    if !facts.target_is_dir {
        return Err(SwitchError::NotFound);
    }
    if state.is_active(target) {
        return Ok(Switch::AlreadyActive);
    }
    let live = facts.live_present;
    let prev = crate::text::copy_opt(&state.active);
    let any = (0 < live.len() && live[0]) || (1 < live.len() && live[1]) || (2 < live.len()
        && live[2]);
    // 1. Back up the live login.
    let backup = match backup::create(
        crate::text::copy_opt(&state.active),
        live.as_slice(),
        facts.live_email,
    ) {
        Ok(b) => b,
        Err(_) => return Err(SwitchError::Clock),
    };
    // 2. Save the live login back into the previously active profile, so a
    //    token refreshed in-session is kept before it is overwritten.
    let refresh = match &prev {
        Some(name) => if facts.prev_is_dir && any {
            let s = profile::snapshot_live(name.as_str(), live.as_slice());
            s.ops
        } else {
            Vec::new()
        },
        None => Vec::new(),
    };
    proof {
        if prev is Some && facts.prev_is_dir && any && !valid_profile_name(prev->0@) {
            assert(ops_view(refresh@) =~= Seq::<Op>::empty());
        }
        if !(prev is Some && facts.prev_is_dir && any) {
            assert(ops_view(refresh@) =~= Seq::<Op>::empty());
        }
    }
    // 3. Copy the target over the live files.
    let restore = profile::restore_to_live(target, true, facts.target_present.as_slice());
    // If that fails, the backup just taken is put back so the user is
    // never left half-switched.
    let rollback = match &backup {
        Some(b) => match backup::restore(b.id.as_str(), true, live.as_slice()) {
            Ok(ops) => ops,
            Err(_) => Vec::new(),
        },
        None => Vec::new(),
    };
    proof {
        if backup is None {
            assert(ops_view(rollback@) =~= Seq::<Op>::empty());
        }
    }
    Ok(Switch::Go(SwitchPlan { backup, refresh, restore, rollback }))
}

/// A switch to a saved profile leaves the live login exactly as the target
/// profile saved it, keeps the login that was live in the backup taken for
/// it, and saves that login back into the previously active profile when
/// it exists. (The backup id must be new, and the facts the decision was
/// made on must be those of the disk.)
pub proof fn law_switch(
    d: Disk,
    target: Seq<char>,
    prev: Option<Seq<char>>,
    prev_is_dir: bool,
    id: Seq<char>,
    live: Seq<bool>,
    saved: Seq<bool>,
)
    requires
        valid_profile_name(target),
        prev != Some(target),
        presence_of(live, d, Loc::Live),
        presence_of(saved, d, Loc::Profile(target)),
        !has_files(d, Loc::Backup(id)),
    ensures
        run_ops(d, backup_part(id, live) + refresh_ops(prev, prev_is_dir, live) + restore_ops(target, saved)) matches Some(
            d3,
        ) && {
            &&& bundle(d3, Loc::Live) == bundle(d, Loc::Profile(target))
            &&& any_present(live) ==> bundle(d3, Loc::Backup(id)) == bundle(d, Loc::Live)
            &&& (prev matches Some(p) && prev_is_dir && any_present(live) && valid_profile_name(p))
                ==> bundle(d3, Loc::Profile(prev->0)) == bundle(d, Loc::Live)
        },
{
    let b = backup_part(id, live);
    let f = refresh_ops(prev, prev_is_dir, live);
    let g = restore_ops(target, saved);
    // The backup.
    let d1 = if any_present(live) {
        law_backup_captures_live(d, id, live);
        run_ops(d, b)->0
    } else {
        assert(run_ops(d, b) == Some(d)) by {
            assert(b.len() == 0);
        }
        d
    };
    assert(same_outside(d, d1, Loc::Backup(id)));
    lemma_frame(d, d1, Loc::Backup(id), Loc::Live, live);
    lemma_frame(d, d1, Loc::Backup(id), Loc::Profile(target), saved);
    // The refresh.
    let refreshed = prev is Some && prev_is_dir && any_present(live) && valid_profile_name(prev->0);
    let d2 = if refreshed {
        law_snapshot(d1, prev->0, live);
        assert(has_files(d1, Loc::Live)) by {
            if live.len() > 0 && live[0] {
                assert(d1.files.contains_key((Loc::Live, 0)));
            } else if live.len() > 1 && live[1] {
                assert(d1.files.contains_key((Loc::Live, 1)));
            } else {
                assert(d1.files.contains_key((Loc::Live, 2)));
            }
        }
        run_ops(d1, f)->0
    } else {
        assert(run_ops(d1, f) == Some(d1)) by {
            assert(f.len() == 0);
        }
        d1
    };
    if refreshed {
        lemma_frame(d1, d2, Loc::Profile(prev->0), Loc::Profile(target), saved);
        lemma_frame(d1, d2, Loc::Profile(prev->0), Loc::Backup(id), saved);
        lemma_frame(d1, d2, Loc::Profile(prev->0), Loc::Live, live);
    }
    // The restore.
    law_restore(d2, target, saved);
    let d3 = run_ops(d2, g)->0;
    lemma_run_concat(d, b, f);
    lemma_run_concat(d, b + f, g);
    lemma_frame(d2, d3, Loc::Live, Loc::Backup(id), live);
    if refreshed {
        lemma_frame(d2, d3, Loc::Live, Loc::Profile(prev->0), live);
    }
}

/// When a switch fails after its backup was taken, the rollback brings
/// back the login that was live before the switch, whatever the failed
/// steps left behind, as long as the backup itself is intact.
pub proof fn law_switch_rollback(d: Disk, now: Disk, id: Seq<char>, live: Seq<bool>)
    requires
        presence_of(live, d, Loc::Live),
        bundle(now, Loc::Backup(id)) == bundle(d, Loc::Live),
    ensures
        run_ops(now, backup::restore_ops(id, live)) matches Some(d1) && bundle(d1, Loc::Live) == bundle(
            d,
            Loc::Live,
        ),
{
    assert forall|i: int| 0 <= i < 3 implies crate::store::present_at(live, i) == #[trigger] now.files.contains_key(
        (Loc::Backup(id), i),
    ) by {
        assert(bundle(now, Loc::Backup(id))[i] == bundle(d, Loc::Live)[i]);
    }
    law_backup_restore(now, id, live);
}

} // verus!

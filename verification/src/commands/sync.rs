//! `dsw sync [--all]`: save the live auth bundle, which Droid may have
//! refreshed, back into the active profile or into every saved profile of
//! the same account.

use vstd::prelude::*;
use crate::backup::any_present;
use crate::cli::SyncArgs;
use crate::factory::Identity;
use crate::paths::valid_profile_name;
use crate::profile::{snapshot_live, snapshot_ops, ProfileError, Snapshot};
use crate::state::{opt_view, State};
use crate::profile::law_snapshot;
use crate::store::{bundle, count_present, has_files, lemma_frame, lemma_run_concat, ops_view, presence_of, run_ops, Disk, Loc, Op};
use crate::text::{cat, cat3, debug_str, decimal, decimal_string, join_with, joined, owned, quoted, str_eq};

verus! {

/// Why a sync was refused.
#[derive(Debug, Clone, Copy, PartialEq, Eq)]
pub enum SyncError {
    /// There is no live auth file.
    NoLiveAuth,
    /// No profile is active.
    NoActiveProfile,
    /// The active profile does not exist on disk.
    ActiveProfileMissing,
    /// The live identity has neither an email nor a subject, so no profile
    /// can be matched safely.
    NoLiveIdentity,
}

impl SyncError {
    /// The message of this refusal, given the active profile from the state
    /// and the live directory as shown.
    pub open spec fn spec_message(self, active: Option<Seq<char>>, factory: Seq<char>) -> Seq<char> {
        match self {
            SyncError::NoLiveAuth => "no auth files found in "@ + factory
                + " - start `droid` and log in first"@,
            SyncError::NoActiveProfile => "no active profile - run `dsw use <name>` or `dsw import <name>` first"@,
            SyncError::ActiveProfileMissing => match active {
                Some(a) => "active profile "@ + debug_str(a)
                    + " does not exist - run `dsw list` to see available profiles"@,
                None => "active profile does not exist - run `dsw list` to see available profiles"@,
            },
            SyncError::NoLiveIdentity => "live identity has no email or subject - cannot match profiles safely"@,
        }
    }

    /// The message of this refusal (see `spec_message`).
    pub fn message(&self, active: &Option<String>, factory: &str) -> (r: String)
        ensures
            r@ == self.spec_message(opt_view(*active), factory@),
    {
        match self {
            SyncError::NoLiveAuth => cat3(
                "no auth files found in ",
                factory,
                " - start `droid` and log in first",
            ),
            SyncError::NoActiveProfile => owned(
                "no active profile - run `dsw use <name>` or `dsw import <name>` first",
            ),
            SyncError::ActiveProfileMissing => match active {
                Some(a) => {
                    let q = quoted(a.as_str());
                    cat3(
                        "active profile ",
                        q.as_str(),
                        " does not exist - run `dsw list` to see available profiles",
                    )
                },
                None => owned(
                    "active profile does not exist - run `dsw list` to see available profiles",
                ),
            },
            SyncError::NoLiveIdentity => owned(
                "live identity has no email or subject - cannot match profiles safely",
            ),
        }
    }
}

/// What a sync into the active profile `name` prints, given the identity
/// saved there as shown.
pub fn synced_text(name: &str, identity: &str) -> (r: String)
    ensures
        r@ == "synced current login to profile '"@ + name@ + "'  ("@ + identity@ + ")"@,
{
    let a = cat3("synced current login to profile '", name, "'  (");
    cat3(a.as_str(), identity, ")")
}

/// What `sync --all` prints after saving the live login into the profiles
/// `names`, given the live identity as shown: how many and which, or that
/// none matched.
pub open spec fn spec_synced_all_text(names: Seq<Seq<char>>, identity: Seq<char>) -> Seq<char> {
    if names.len() == 0 {
        "no matching profiles for current login  ("@ + identity + ")"@
    } else {
        "synced current login to "@ + decimal(names.len()) + " matching profile(s): "@ + joined(
            names,
            ", "@,
        ) + "  ("@ + identity + ")"@
    }
}

/// What `sync --all` prints (see `spec_synced_all_text`).
pub fn synced_all_text(names: &Vec<String>, identity: &str) -> (r: String)
    ensures
        r@ == spec_synced_all_text(names.deep_view(), identity@),
{
    if names.len() == 0 {
        return cat3("no matching profiles for current login  (", identity, ")");
    }
    let n = decimal_string(names.len() as u64);
    let list = join_with(names, ", ");
    let a = cat3("synced current login to ", n.as_str(), " matching profile(s): ");
    let b = cat3(a.as_str(), list.as_str(), "  (");
    cat3(b.as_str(), identity, ")")
}

/// The two identities name the same account: equal emails when both have
/// one, else an equal subject that the first one has.
pub open spec fn same_account(a: Identity, b: Identity) -> bool {
    if a.email is Some && b.email is Some {
        a.email->0@ == b.email->0@
    } else {
        a.subject is Some && b.subject is Some && a.subject->0@ == b.subject->0@
    }
}

/// Whether the two identities name the same account (see `same_account`).
pub fn identities_match(a: &Identity, b: &Identity) -> (r: bool)
    ensures
        r == same_account(*a, *b),
{
    match (&a.email, &b.email) {
        (Some(x), Some(y)) => {
            return str_eq(x.as_str(), y.as_str());
        },
        _ => {},
    }
    match (&a.subject, &b.subject) {
        (Some(x), Some(y)) => str_eq(x.as_str(), y.as_str()),
        _ => false,
    }
}

/// Matching accounts does not depend on the order of the two identities.
pub proof fn law_same_account_symmetric(a: Identity, b: Identity)
    ensures
        same_account(a, b) == same_account(b, a),
{
}

/// An identity with an email or a subject matches itself.
pub proof fn law_same_account_reflexive(a: Identity)
    requires
        a.email is Some || a.subject is Some,
    ensures
        same_account(a, a),
{
}

/// When both identities carry an email, they name the same account exactly
/// when the two emails are equal as whole strings: two different emails
/// never match, whatever their subjects or the parts before `@`.
pub proof fn law_same_account_by_email(a: Identity, b: Identity)
    requires
        a.email is Some,
        b.email is Some,
    ensures
        same_account(a, b) <==> a.email->0@ == b.email->0@,
        a.email->0@ != b.email->0@ ==> !same_account(a, b),
{
}

/// When either identity lacks an email, they name the same account exactly
/// when both carry a subject and the subjects are equal; two identities
/// with neither never match.
pub proof fn law_same_account_by_subject(a: Identity, b: Identity)
    requires
        a.email is None || b.email is None,
    ensures
        same_account(a, b) <==> (a.subject is Some && b.subject is Some && a.subject->0@
            == b.subject->0@),
{
}

/// A saved profile and the identity decoded from it.
#[derive(Debug)]
pub struct SavedProfile {
    pub name: String,
    pub identity: Identity,
}

/// What a sync does.
#[derive(Debug)]
pub enum SyncPlan {
    /// Save the live login into the active profile.
    Active { name: String, snapshot: Snapshot },
    /// Save the live login into each matching profile, in order; each
    /// snapshot is carried out and checked before the next.
    All { snapshots: Vec<(String, Snapshot)> },
}

/// The names of the saved profiles whose account is the live one, in
/// order.
pub open spec fn matching(live: Identity, saved: Seq<SavedProfile>) -> Seq<Seq<char>>
    decreases saved.len(),
{
    if saved.len() == 0 {
        Seq::empty()
    } else {
        let rest = matching(live, saved.drop_last());
        if same_account(live, saved.last().identity) {
            rest.push(saved.last().name@)
        } else {
            rest
        }
    }
}

/// Decide a sync. `live_present` tells which live auth files exist;
/// `active_is_dir` whether the active profile's directory exists; `live`
/// is the live identity and `saved` the saved profiles, in listing order,
/// with their identities.
pub fn run(
    args: &SyncArgs,
    state: &State,
    live_present: &[bool],
    active_is_dir: bool,
    live: &Identity,
    saved: Vec<SavedProfile>,
) -> (r: Result<SyncPlan, SyncError>)
    ensures
        !any_present(live_present@) ==> r matches Err(SyncError::NoLiveAuth),
        any_present(live_present@) && !args.all && state.active is None ==> r matches Err(
            SyncError::NoActiveProfile,
        ),
        any_present(live_present@) && !args.all && state.active is Some && !active_is_dir ==> r matches Err(
            SyncError::ActiveProfileMissing,
        ),
        any_present(live_present@) && !args.all && state.active is Some && active_is_dir ==> (
        r matches Ok(SyncPlan::Active { name, snapshot }) && name@ == state.active->0@ && (
        valid_profile_name(name@) ==> ops_view(snapshot.ops@) == snapshot_ops(
            name@,
            live_present@,
        ) && snapshot.outcome == Ok::<usize, ProfileError>(count_present(live_present@) as usize))
            && (!valid_profile_name(name@) ==> snapshot.outcome is Err)),
        any_present(live_present@) && args.all && live.email is None && live.subject is None
            ==> r matches Err(SyncError::NoLiveIdentity),
        any_present(live_present@) && args.all && (live.email is Some || live.subject is Some)
            ==> (r matches Ok(SyncPlan::All { snapshots }) && snapshots@.map_values(
            |p: (String, Snapshot)| p.0@,
        ) == matching(*live, saved@) && forall|i: int|
            0 <= i < snapshots@.len() ==> {
                let (n, s) = #[trigger] snapshots@[i];
                valid_profile_name(n@) ==> ops_view(s.ops@) == snapshot_ops(n@, live_present@)
            }),
{
    let any = (0 < live_present.len() && live_present[0]) || (1 < live_present.len()
        && live_present[1]) || (2 < live_present.len() && live_present[2]);
    if !any {
        return Err(SyncError::NoLiveAuth);
    }
    if args.all {
        return sync_all(live_present, live, saved);
    }
    sync_active(state, live_present, active_is_dir)
}

/// `sync` without `--all`: save the live login into the active profile,
/// which must be set and exist on disk; some live auth file must exist.
pub fn sync_active(state: &State, live_present: &[bool], active_is_dir: bool) -> (r: Result<
    SyncPlan,
    SyncError,
>)
    requires
        any_present(live_present@),
    ensures
        state.active is None ==> r matches Err(SyncError::NoActiveProfile),
        state.active is Some && !active_is_dir ==> r matches Err(SyncError::ActiveProfileMissing),
        state.active is Some && active_is_dir ==> (r matches Ok(SyncPlan::Active { name, snapshot })
            && name@ == state.active->0@ && (valid_profile_name(name@) ==> ops_view(snapshot.ops@)
            == snapshot_ops(name@, live_present@) && snapshot.outcome == Ok::<usize, ProfileError>(
            count_present(live_present@) as usize,
        )) && (!valid_profile_name(name@) ==> snapshot.outcome is Err)),
{
    let active = match &state.active {
        Some(a) => owned(a.as_str()),
        None => return Err(SyncError::NoActiveProfile),
    };
    if !active_is_dir {
        return Err(SyncError::ActiveProfileMissing);
    }
    let snapshot = snapshot_live(active.as_str(), live_present);
    Ok(SyncPlan::Active { name: active, snapshot })
}

/// `sync --all`: save the live login into every saved profile (given in
/// listing order, with its identity) whose account is the live one (see
/// `matching` and `law_sync_all_matching`); the live identity must have an
/// email or a subject, and some live auth file must exist.
pub fn sync_all(live_present: &[bool], live: &Identity, saved: Vec<SavedProfile>) -> (r: Result<
    SyncPlan,
    SyncError,
>)
    requires
        any_present(live_present@),
    ensures
        live.email is None && live.subject is None ==> r matches Err(SyncError::NoLiveIdentity),
        live.email is Some || live.subject is Some ==> (r matches Ok(SyncPlan::All { snapshots })
            && snapshots@.map_values(|p: (String, Snapshot)| p.0@) == matching(*live, saved@)
            && forall|i: int|
            0 <= i < snapshots@.len() ==> {
                let (n, s) = #[trigger] snapshots@[i];
                valid_profile_name(n@) ==> ops_view(s.ops@) == snapshot_ops(n@, live_present@)
            }),
{
    if live.email.is_none() && live.subject.is_none() {
        return Err(SyncError::NoLiveIdentity);
    }
    let ghost all = saved@;
    let mut snapshots: Vec<(String, Snapshot)> = Vec::new();
    let mut rest = saved;
    let n = rest.len();
    let mut k: usize = 0;
    proof {
        assert(rest@ =~= all.skip(0));
        assert(snapshots@.map_values(|p: (String, Snapshot)| p.0@) =~= matching(*live, all.take(0)));
    }
    while rest.len() > 0
        invariant
            k + rest.len() == n,
            all.len() == n,
            rest@ == all.skip(k as int),
            snapshots@.map_values(|p: (String, Snapshot)| p.0@) == matching(*live, all.take(k as int)),
            forall|i: int|
                0 <= i < snapshots@.len() ==> {
                    let (n, s) = #[trigger] snapshots@[i];
                    valid_profile_name(n@) ==> ops_view(s.ops@) == snapshot_ops(n@, live_present@)
                },
        decreases rest.len(),
    {
        let p = rest.remove(0);
        proof {
            assert(p == all[k as int]);
            assert(rest@ =~= all.skip(k + 1));
            assert(all.take(k + 1).drop_last() =~= all.take(k as int));
            assert(all.take(k + 1).last() == p);
        }
        if identities_match(live, &p.identity) {
            let s = snapshot_live(p.name.as_str(), live_present);
            let ghost before = snapshots@;
            snapshots.push((p.name, s));
            proof {
                assert(snapshots@.map_values(|p: (String, Snapshot)| p.0@) =~= before.map_values(
                    |p: (String, Snapshot)| p.0@,
                ).push(p.name@));
            }
        }
        k = k + 1;
    }
    proof {
        assert(all.take(n as int) =~= all);
    }
    Ok(SyncPlan::All { snapshots })
}

/// The operations of the snapshots of the live login into each of the
/// profiles `names`, one after the other.
pub open spec fn snapshots_ops(names: Seq<Seq<char>>, live: Seq<bool>) -> Seq<Op>
    decreases names.len(),
{
    if names.len() == 0 {
        Seq::empty()
    } else {
        snapshots_ops(names.drop_last(), live) + snapshot_ops(names.last(), live)
    }
}

/// `sync --all` leaves the live login as it is, saves it into each of the
/// matching profiles, and changes no other profile or backup.
pub proof fn law_sync_all(d: Disk, names: Seq<Seq<char>>, live: Seq<bool>)
    requires
        presence_of(live, d, Loc::Live),
        has_files(d, Loc::Live),
    ensures
        run_ops(d, snapshots_ops(names, live)) matches Some(d1) && {
            &&& bundle(d1, Loc::Live) == bundle(d, Loc::Live)
            &&& forall|i: int|
                0 <= i < names.len() ==> bundle(d1, Loc::Profile(#[trigger] names[i])) == bundle(
                    d,
                    Loc::Live,
                )
            &&& forall|l: Loc|
                l == Loc::Live || l is Backup || (l is Profile && !names.contains(l->Profile_0))
                    ==> #[trigger] bundle(d1, l) == bundle(d, l)
        },
    decreases names.len(),
{
    if names.len() == 0 {
        assert(run_ops(d, snapshots_ops(names, live)) == Some(d));
    } else {
        let init = names.drop_last();
        let last = names.last();
        law_sync_all(d, init, live);
        let d1 = run_ops(d, snapshots_ops(init, live))->0;
        assert(presence_of(live, d1, Loc::Live)) by {
            assert forall|i: int| 0 <= i < 3 implies crate::store::present_at(live, i)
                == #[trigger] d1.files.contains_key((Loc::Live, i)) by {
                assert(bundle(d1, Loc::Live)[i] == bundle(d, Loc::Live)[i]);
            }
        }
        assert(has_files(d1, Loc::Live)) by {
            let i = choose|i: int| 0 <= i < 3 && #[trigger] d.files.contains_key((Loc::Live, i));
            assert(bundle(d1, Loc::Live)[i] == bundle(d, Loc::Live)[i]);
        }
        law_snapshot(d1, last, live);
        let d2 = run_ops(d1, snapshot_ops(last, live))->0;
        lemma_run_concat(d, snapshots_ops(init, live), snapshot_ops(last, live));
        lemma_frame(d1, d2, Loc::Profile(last), Loc::Live, live);
        assert forall|i: int| 0 <= i < names.len() implies bundle(
            d2,
            Loc::Profile(#[trigger] names[i]),
        ) == bundle(d, Loc::Live) by {
            if names[i] != last {
                assert(names[i] == init[i]);
                lemma_frame(d1, d2, Loc::Profile(last), Loc::Profile(names[i]), live);
            }
        }
        assert forall|l: Loc|
            l == Loc::Live || l is Backup || (l is Profile && !names.contains(l->Profile_0)) implies #[trigger] bundle(
            d2,
            l,
        ) == bundle(d, l) by {
            if l is Profile {
                assert(!init.contains(l->Profile_0)) by {
                    if init.contains(l->Profile_0) {
                        let j = choose|j: int| 0 <= j < init.len() && init[j] == l->Profile_0;
                        assert(names[j] == init[j]);
                    }
                }
                assert(l != Loc::Profile(last)) by {
                    assert(names[names.len() - 1] == last);
                }
            }
            lemma_frame(d1, d2, Loc::Profile(last), l, live);
        }
    }
}


/// Every saved profile of the live account is among the matching names.
proof fn lemma_matching_has(live: Identity, saved: Seq<SavedProfile>, i: int)
    requires
        0 <= i < saved.len(),
        same_account(live, saved[i].identity),
    ensures
        matching(live, saved).contains(saved[i].name@),
    decreases saved.len(),
{
    let init = saved.drop_last();
    if i == saved.len() - 1 {
        let m = matching(live, saved);
        assert(m.last() == saved[i].name@);
        assert(m[m.len() - 1] == saved[i].name@);
    } else {
        assert(init[i] == saved[i]);
        lemma_matching_has(live, init, i);
        let m0 = matching(live, init);
        let j = choose|j: int| 0 <= j < m0.len() && m0[j] == saved[i].name@;
        let m = matching(live, saved);
        assert(m[j] == m0[j]);
    }
}

/// `sync --all` re-saves the live login into every saved profile of the
/// live account and leaves the live login, the backups and every profile
/// whose name is not among those as they were (see `run`, whose plan
/// snapshots exactly `matching(live, saved)`).
pub proof fn law_sync_all_matching(d: Disk, live_id: Identity, saved: Seq<SavedProfile>, live: Seq<bool>)
    requires
        presence_of(live, d, Loc::Live),
        has_files(d, Loc::Live),
    ensures
        run_ops(d, snapshots_ops(matching(live_id, saved), live)) matches Some(d1) && {
            &&& bundle(d1, Loc::Live) == bundle(d, Loc::Live)
            &&& forall|i: int|
                0 <= i < saved.len() && same_account(live_id, #[trigger] saved[i].identity) ==> bundle(
                    d1,
                    Loc::Profile(saved[i].name@),
                ) == bundle(d, Loc::Live)
            &&& forall|l: Loc|
                l is Backup || (l is Profile && !matching(live_id, saved).contains(l->Profile_0))
                    ==> #[trigger] bundle(d1, l) == bundle(d, l)
        },
{
    let names = matching(live_id, saved);
    law_sync_all(d, names, live);
    let d1 = run_ops(d, snapshots_ops(names, live))->0;
    assert forall|i: int|
        0 <= i < saved.len() && same_account(live_id, #[trigger] saved[i].identity) implies bundle(
        d1,
        Loc::Profile(saved[i].name@),
    ) == bundle(d, Loc::Live) by {
        lemma_matching_has(live_id, saved, i);
        let j = choose|j: int| 0 <= j < names.len() && names[j] == saved[i].name@;
        assert(bundle(d1, Loc::Profile(names[j])) == bundle(d, Loc::Live));
    }
}

} // verus!

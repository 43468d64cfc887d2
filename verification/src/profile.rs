//! Profiles: saved snapshots of the Factory droid auth bundle, one
//! directory per profile name.

use vstd::prelude::*;
use crate::paths::{name_verdict, valid_profile_name, validate_profile_name, NameError, AUTH_FILE_COUNT};
use crate::store::{apply, bundle, count_marked, count_present, has_files, lemma_mirror, lemma_run_concat, lemma_run_one, mirror, mirror_ops, ops_view, present_at, presence_of, run_ops, same_outside, Disk, FileOp, Loc, Op, Place};
use crate::commands::add::{rescue_profile, spec_rescue_profile};
use crate::text::{cat, debug_str, owned, quoted, sort_strings, sorted_asc, str_eq};
use vstd::utf8::encode_utf8;

verus! {

/// Why a profile operation was refused.
#[derive(Debug, Clone, Copy, PartialEq, Eq)]
pub enum ProfileError {
    /// The profile name (the old one, for a rename) is not valid.
    Name(NameError),
    /// The new name of a rename is not valid.
    NewName(NameError),
    /// There is no live auth file to save.
    NoAuthFiles,
    /// The profile (the old one, for a rename) does not exist.
    NotFound,
    /// The new name of a rename is taken.
    AlreadyExists,
}

impl ProfileError {
    /// The message of this error for an operation on profile `name` (for a
    /// rename, from `name` to `new`); `factory` is the live directory as
    /// shown to the user.
    pub open spec fn spec_message(self, name: Seq<char>, new: Seq<char>, factory: Seq<char>) -> Seq<char> {
        match self {
            ProfileError::Name(e) => e.spec_message(name),
            ProfileError::NewName(e) => e.spec_message(new),
            ProfileError::NoAuthFiles => "no auth files found in "@ + factory
                + " - log in with `droid` first"@,
            ProfileError::NotFound => "profile "@ + debug_str(name) + " does not exist"@,
            ProfileError::AlreadyExists => "profile "@ + debug_str(new) + " already exists"@,
        }
    }

    /// The message of this error (see `spec_message`).
    pub fn message(&self, name: &str, new: &str, factory: &str) -> (r: String)
        ensures
            r@ == self.spec_message(name@, new@, factory@),
    {
        match self {
            ProfileError::Name(e) => e.message(name),
            ProfileError::NewName(e) => e.message(new),
            ProfileError::NoAuthFiles => {
                let a = cat("no auth files found in ", factory);
                cat(a.as_str(), " - log in with `droid` first")
            },
            ProfileError::NotFound => {
                let q = quoted(name);
                let a = cat("profile ", q.as_str());
                cat(a.as_str(), " does not exist")
            },
            ProfileError::AlreadyExists => {
                let q = quoted(new);
                let a = cat("profile ", q.as_str());
                cat(a.as_str(), " already exists")
            },
        }
    }
}

/// The error of a name that `validate_profile_name` refuses.
pub open spec fn name_error(name: Seq<char>) -> NameError {
    name_verdict(name, encode_utf8(name).len())->Err_0
}

/// What saving the live bundle as a profile does, and its outcome.
#[derive(Debug)]
pub struct Snapshot {
    /// The operations, in order; they are carried out even when the outcome
    /// is an error.
    pub ops: Vec<FileOp>,
    /// How many files were saved, or why nothing was.
    pub outcome: Result<usize, ProfileError>,
}

/// The operations of a snapshot of the live bundle into profile `name`:
/// make the profile directory private, mirror the live bundle into it, and
/// remove the directory again when there was nothing to copy.
pub open spec fn snapshot_ops(name: Seq<char>, live: Seq<bool>) -> Seq<Op> {
    seq![Op::MakeDir(Loc::Profile(name))] + mirror_ops(Loc::Live, Loc::Profile(name), live) + (
    if count_present(live) == 0 {
        seq![Op::RemoveDir(Loc::Profile(name), false)]
    } else {
        Seq::<Op>::empty()
    })
}

/// Snapshot the live auth files into the profile `name`; `live_present`
/// tells which of the three live auth files exist. At least one must, or
/// the (emptied) profile directory is removed and the snapshot fails.
pub fn snapshot_live(name: &str, live_present: &[bool]) -> (r: Snapshot)
    ensures
        !valid_profile_name(name@) ==> r.ops@.len() == 0 && r.outcome == Err::<usize, ProfileError>(
            ProfileError::Name(name_error(name@)),
        ),
        valid_profile_name(name@) ==> {
            &&& ops_view(r.ops@) == snapshot_ops(name@, live_present@)
            &&& r.ops@[0] matches FileOp::MakeDir { private: true, .. }
            &&& r.outcome == if count_present(live_present@) == 0 {
                Err(ProfileError::NoAuthFiles)
            } else {
                Ok(count_present(live_present@) as usize)
            }
        },
{
    match validate_profile_name(name) {
        Err(e) => {
            return Snapshot { ops: Vec::new(), outcome: Err(ProfileError::Name(e)) };
        },
        Ok(()) => {},
    }
    let dst = Place::Profile(owned(name));
    let mut ops: Vec<FileOp> = Vec::new();
    ops.push(FileOp::MakeDir { place: dst.duplicate(), private: true });
    let mut copies = mirror(&Place::Live, &dst, live_present);
    ops.append(&mut copies);
    let copied = count_marked(live_present);
    let ghost before_tail = ops@;
    if copied == 0 {
        // Roll back the empty directory so that listing stays honest.
        ops.push(FileOp::RemoveDir { place: dst, must_succeed: false });
        proof {
            assert(ops_view(ops@) =~= snapshot_ops(name@, live_present@));
        }
        return Snapshot { ops, outcome: Err(ProfileError::NoAuthFiles) };
    }
    proof {
        assert(ops_view(ops@) =~= snapshot_ops(name@, live_present@));
    }
    Snapshot { ops, outcome: Ok(copied) }
}

/// The operations of activating profile `name`: make sure the live
/// directory exists, then mirror the profile's bundle onto it, so live
/// files missing from the profile are removed.
pub open spec fn restore_ops(name: Seq<char>, saved: Seq<bool>) -> Seq<Op> {
    seq![Op::MakeDir(Loc::Live)] + mirror_ops(Loc::Profile(name), Loc::Live, saved)
}

/// The operations that activate profile `name` by copying its files over
/// the live auth files; `profile_is_dir` tells whether the profile
/// directory exists and `saved_present` which of its three files exist.
pub fn restore_to_live(name: &str, profile_is_dir: bool, saved_present: &[bool]) -> (r: Result<
    Vec<FileOp>,
    ProfileError,
>)
    ensures
        !valid_profile_name(name@) ==> r == Err::<Vec<FileOp>, ProfileError>(
            ProfileError::Name(name_error(name@)),
        ),
        valid_profile_name(name@) && !profile_is_dir ==> r == Err::<Vec<FileOp>, ProfileError>(
            ProfileError::NotFound,
        ),
        valid_profile_name(name@) && profile_is_dir ==> (r matches Ok(ops) && ops_view(ops@)
            == restore_ops(name@, saved_present@) && (ops@[0] matches FileOp::MakeDir {
            private: false,
            ..
        })),
{
    match validate_profile_name(name) {
        Err(e) => {
            return Err(ProfileError::Name(e));
        },
        Ok(()) => {},
    }
    if !profile_is_dir {
        return Err(ProfileError::NotFound);
    }
    let src = Place::Profile(owned(name));
    let mut ops: Vec<FileOp> = Vec::new();
    ops.push(FileOp::MakeDir { place: Place::Live, private: false });
    let mut copies = mirror(&src, &Place::Live, saved_present);
    ops.append(&mut copies);
    proof {
        assert(ops_view(ops@) =~= restore_ops(name@, saved_present@));
    }
    Ok(ops)
}

/// The operations that delete profile `name`; `profile_is_dir` tells
/// whether its directory exists.
pub fn remove(name: &str, profile_is_dir: bool) -> (r: Result<Vec<FileOp>, ProfileError>)
    ensures
        !valid_profile_name(name@) ==> r == Err::<Vec<FileOp>, ProfileError>(
            ProfileError::Name(name_error(name@)),
        ),
        valid_profile_name(name@) && !profile_is_dir ==> r == Err::<Vec<FileOp>, ProfileError>(
            ProfileError::NotFound,
        ),
        valid_profile_name(name@) && profile_is_dir ==> (r matches Ok(ops) && ops_view(ops@)
            == seq![Op::RemoveDir(Loc::Profile(name@), true)]),
{
    match validate_profile_name(name) {
        Err(e) => {
            return Err(ProfileError::Name(e));
        },
        Ok(()) => {},
    }
    if !profile_is_dir {
        return Err(ProfileError::NotFound);
    }
    let mut ops: Vec<FileOp> = Vec::new();
    ops.push(FileOp::RemoveDir { place: Place::Profile(owned(name)), must_succeed: true });
    proof {
        assert(ops_view(ops@) =~= seq![Op::RemoveDir(Loc::Profile(name@), true)]);
    }
    Ok(ops)
}

/// The operations that rename profile `old` to `new`; `old_is_dir` tells
/// whether the old directory exists and `new_exists` whether anything
/// exists under the new name.
pub fn rename(old: &str, new: &str, old_is_dir: bool, new_exists: bool) -> (r: Result<
    Vec<FileOp>,
    ProfileError,
>)
    ensures
        !valid_profile_name(old@) ==> r == Err::<Vec<FileOp>, ProfileError>(
            ProfileError::Name(name_error(old@)),
        ),
        valid_profile_name(old@) && !valid_profile_name(new@) ==> r == Err::<
            Vec<FileOp>,
            ProfileError,
        >(ProfileError::NewName(name_error(new@))),
        valid_profile_name(old@) && valid_profile_name(new@) && !old_is_dir ==> r == Err::<
            Vec<FileOp>,
            ProfileError,
        >(ProfileError::NotFound),
        valid_profile_name(old@) && valid_profile_name(new@) && old_is_dir && new_exists ==> r
            == Err::<Vec<FileOp>, ProfileError>(ProfileError::AlreadyExists),
        valid_profile_name(old@) && valid_profile_name(new@) && old_is_dir && !new_exists ==> (r matches Ok(
            ops,
        ) && ops_view(ops@) == seq![Op::RenameDir(Loc::Profile(old@), Loc::Profile(new@))]),
{
    match validate_profile_name(old) {
        Err(e) => {
            return Err(ProfileError::Name(e));
        },
        Ok(()) => {},
    }
    match validate_profile_name(new) {
        Err(e) => {
            return Err(ProfileError::NewName(e));
        },
        Ok(()) => {},
    }
    if !old_is_dir {
        return Err(ProfileError::NotFound);
    }
    if new_exists {
        return Err(ProfileError::AlreadyExists);
    }
    let mut ops: Vec<FileOp> = Vec::new();
    ops.push(
        FileOp::RenameDir { from: Place::Profile(owned(old)), to: Place::Profile(owned(new)) },
    );
    proof {
        assert(ops_view(ops@) =~= seq![Op::RenameDir(Loc::Profile(old@), Loc::Profile(new@))]);
    }
    Ok(ops)
}

/// An entry of the profiles directory: its file name when that is valid
/// UTF-8, and whether it is a directory.
#[derive(Debug)]
pub struct DirEntry {
    pub name: Option<String>,
    pub is_dir: bool,
}

/// The names of the entries that are directories carrying a valid profile
/// name, in the order of the entries, leaving out the internal rescue
/// profile that `dsw add` keeps (see `commands::add::rescue_profile`).
pub open spec fn profile_names(entries: Seq<DirEntry>) -> Seq<Seq<char>>
    decreases entries.len(),
{
    if entries.len() == 0 {
        Seq::empty()
    } else {
        let rest = profile_names(entries.drop_last());
        let e = entries.last();
        if e.is_dir && e.name is Some && valid_profile_name(e.name->0@) && e.name->0@
            != spec_rescue_profile() {
            rest.push(e.name->0@)
        } else {
            rest
        }
    }
}

/// The profile names never include the rescue profile.
proof fn lemma_profile_names_no_rescue(entries: Seq<DirEntry>)
    ensures
        !profile_names(entries).contains(spec_rescue_profile()),
    decreases entries.len(),
{
    if entries.len() > 0 {
        lemma_profile_names_no_rescue(entries.drop_last());
        let rest = profile_names(entries.drop_last());
        let p = profile_names(entries);
        if p.len() > rest.len() {
            assert forall|i: int| 0 <= i < p.len() implies p[i] != spec_rescue_profile() by {
                if i < rest.len() {
                    assert(p[i] == rest[i]);
                }
            }
        }
    }
}

/// All user-facing profile names, sorted: the directory entries that are
/// directories with a valid profile name, in ascending order; the internal
/// rescue profile is hidden.
pub fn list(entries: Vec<DirEntry>) -> (r: Vec<String>)
    ensures
        r.deep_view().to_multiset() == profile_names(entries@).to_multiset(),
        sorted_asc(r.deep_view()),
        !r.deep_view().contains(spec_rescue_profile()),
{
    let ghost all = entries@;
    let mut names: Vec<String> = Vec::new();
    let mut rest = entries;
    let mut k: usize = 0;
    let n = rest.len();
    proof {
        assert(rest@ =~= all.skip(0));
        assert(names.deep_view() =~= profile_names(all.take(0)));
    }
    while rest.len() > 0
        invariant
            k + rest.len() == n,
            all.len() == n,
            rest@ == all.skip(k as int),
            names.deep_view() == profile_names(all.take(k as int)),
        decreases rest.len(),
    {
        let e = rest.remove(0);
        proof {
            assert(e == all[k as int]);
            assert(rest@ =~= all.skip(k + 1));
            assert(all.take(k + 1).drop_last() =~= all.take(k as int));
            assert(all.take(k + 1).last() == e);
        }
        if e.is_dir {
            match e.name {
                Some(s) => {
                    if validate_profile_name(s.as_str()).is_ok() && !str_eq(
                        s.as_str(),
                        rescue_profile(),
                    ) {
                        let ghost before = names.deep_view();
                        names.push(s);
                        proof {
                            assert(names.deep_view() =~= before.push(s@));
                        }
                    }
                },
                None => {},
            }
        }
        k = k + 1;
    }
    proof {
        assert(all.take(n as int) =~= all);
    }
    let r = sort_strings(names);
    proof {
        lemma_profile_names_no_rescue(all);
        r.deep_view().to_multiset_ensures();
        profile_names(all).to_multiset_ensures();
        let x = spec_rescue_profile();
        if r.deep_view().contains(x) {
            assert(r.deep_view().to_multiset().count(x) > 0);
            assert(profile_names(all).to_multiset().count(x) > 0);
            assert(profile_names(all).contains(x));
        }
    }
    r
}

/// Saving the live login as a profile and activating that profile again
/// gives back exactly the live auth bundle it was saved from: each of the
/// three files with the same content, and a file that was missing is
/// missing again.
pub proof fn law_snapshot_then_restore(d: Disk, name: Seq<char>, live: Seq<bool>, saved: Seq<bool>)
    requires
        valid_profile_name(name),
        presence_of(live, d, Loc::Live),
        has_files(d, Loc::Live),
        run_ops(d, snapshot_ops(name, live)) matches Some(d1) && presence_of(
            saved,
            d1,
            Loc::Profile(name),
        ),
    ensures
        run_ops(d, snapshot_ops(name, live)) matches Some(d1) && {
            &&& d1.dirs.contains(Loc::Profile(name))
            &&& bundle(d1, Loc::Profile(name)) == bundle(d, Loc::Live)
            &&& run_ops(d1, restore_ops(name, saved)) matches Some(d2)
            &&& bundle(d2, Loc::Live) == bundle(d, Loc::Live)
        },
{
    law_snapshot(d, name, live);
    let d1 = run_ops(d, snapshot_ops(name, live))->0;
    law_restore(d1, name, saved);
}

/// A snapshot with at least one live auth file makes the profile's bundle
/// equal to the live bundle and touches no other place; with none, it
/// leaves the profile without files and without a directory.
pub proof fn law_snapshot(d: Disk, name: Seq<char>, live: Seq<bool>)
    requires
        presence_of(live, d, Loc::Live),
    ensures
        run_ops(d, snapshot_ops(name, live)) matches Some(d1) && same_outside(
            d,
            d1,
            Loc::Profile(name),
        ) && (has_files(d, Loc::Live) ==> d1.dirs.contains(Loc::Profile(name)) && bundle(
            d1,
            Loc::Profile(name),
        ) == bundle(d, Loc::Live)) && (!has_files(d, Loc::Live) ==> !d1.dirs.contains(
            Loc::Profile(name),
        ) && !has_files(d1, Loc::Profile(name))),
{
    let p = Loc::Profile(name);
    let first = seq![Op::MakeDir(p)];
    let m = mirror_ops(Loc::Live, p, live);
    let d0 = apply(d, Op::MakeDir(p))->0;
    lemma_run_one(d, Op::MakeDir(p));
    assert(presence_of(live, d0, Loc::Live));
    lemma_mirror(d0, Loc::Live, p, live);
    let dm = run_ops(d0, m)->0;
    lemma_run_concat(d, first, m);
    if count_present(live) == 0 {
        let tail = seq![Op::RemoveDir(p, false)];
        lemma_run_concat(d, first + m, tail);
        let dr = apply(dm, Op::RemoveDir(p, false))->0;
        lemma_run_one(dm, Op::RemoveDir(p, false));
        assert(snapshot_ops(name, live) =~= first + m + tail);
        assert(!has_files(d, Loc::Live));
        assert(!has_files(dr, p));
        assert(same_outside(d, dr, p));
    } else {
        assert(snapshot_ops(name, live) =~= first + m + Seq::<Op>::empty());
        assert(first + m + Seq::<Op>::empty() =~= first + m);
        assert(has_files(d, Loc::Live)) by {
            if present_at(live, 0) {
                assert(d.files.contains_key((Loc::Live, 0)));
            } else if present_at(live, 1) {
                assert(d.files.contains_key((Loc::Live, 1)));
            } else {
                assert(d.files.contains_key((Loc::Live, 2)));
            }
        }
    }
}

/// Activating a profile whose directory exists makes the live bundle
/// exactly the profile's bundle, removing live files the profile lacks,
/// and touches no other place.
pub proof fn law_restore(d: Disk, name: Seq<char>, saved: Seq<bool>)
    requires
        presence_of(saved, d, Loc::Profile(name)),
    ensures
        run_ops(d, restore_ops(name, saved)) matches Some(d1) && bundle(d1, Loc::Live) == bundle(
            d,
            Loc::Profile(name),
        ) && same_outside(d, d1, Loc::Live),
{
    let p = Loc::Profile(name);
    let first = seq![Op::MakeDir(Loc::Live)];
    let m = mirror_ops(p, Loc::Live, saved);
    let d0 = apply(d, Op::MakeDir(Loc::Live))->0;
    lemma_run_one(d, Op::MakeDir(Loc::Live));
    assert(presence_of(saved, d0, p));
    lemma_mirror(d0, p, Loc::Live, saved);
    lemma_run_concat(d, first, m);
    assert(restore_ops(name, saved) == first + m);
}

/// Removing a profile takes away its directory and its files and touches
/// no other place.
pub proof fn law_remove(d: Disk, name: Seq<char>)
    requires
        d.dirs.contains(Loc::Profile(name)),
    ensures
        run_ops(d, seq![Op::RemoveDir(Loc::Profile(name), true)]) matches Some(d1) && !d1.dirs.contains(
            Loc::Profile(name),
        ) && !has_files(d1, Loc::Profile(name)) && same_outside(d, d1, Loc::Profile(name)),
{
    lemma_run_one(d, Op::RemoveDir(Loc::Profile(name), true));
}

/// Renaming a profile moves its bundle to the new name, unchanged, leaves
/// nothing under the old name, and touches no other place.
pub proof fn law_rename(d: Disk, old: Seq<char>, new: Seq<char>)
    requires
        d.dirs.contains(Loc::Profile(old)),
        !d.dirs.contains(Loc::Profile(new)),
    ensures
        run_ops(d, seq![Op::RenameDir(Loc::Profile(old), Loc::Profile(new))]) matches Some(d1)
            && bundle(d1, Loc::Profile(new)) == bundle(d, Loc::Profile(old)) && !has_files(
            d1,
            Loc::Profile(old),
        ) && d1.dirs.contains(Loc::Profile(new)) && !d1.dirs.contains(Loc::Profile(old))
            && forall|k: (Loc, int)|
            k.0 != Loc::Profile(old) && k.0 != Loc::Profile(new) ==> (
            #[trigger] d1.files.contains_key(k) == d.files.contains_key(k) && (
            d1.files.contains_key(k) ==> d1.files[k] == d.files[k])),
{
    lemma_run_one(d, Op::RenameDir(Loc::Profile(old), Loc::Profile(new)));
    let d1 = apply(d, Op::RenameDir(Loc::Profile(old), Loc::Profile(new)))->0;
    assert(bundle(d1, Loc::Profile(new)) =~= bundle(d, Loc::Profile(old)));
}

} // verus!

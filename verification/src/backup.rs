//! Automatic snapshots of the live auth files into
//! `~/.dsw/backups/<timestamp>/`, taken before each switch so that a wrong
//! switch can be rolled back.

use vstd::prelude::*;
use crate::clock::{clock_error_text, format_stamp, is_digit, now_utc, spec_clock_error_text, stamp_shape, stamp_text, MAX_STAMP_SECS};
use crate::paths::Paths;
use crate::store::{
    apply, bundle, has_files, lemma_mirror, lemma_run_concat, lemma_run_one, mirror, mirror_ops,
    ops_view, present_at, presence_of, run_ops, same_outside, Disk, FileOp, Loc, Op, Place,
};
use crate::paths::AUTH_FILE_COUNT;
use crate::text::{cat3, debug_str, quoted, lemma_insert_multiset, lemma_lex_total, lemma_lex_transitive, lex_le, owned, sorted_desc, str_le};

verus! {

/// What a backup records besides the auth files (`meta.json`).
#[derive(Debug, Clone, PartialEq, Eq)]
pub struct BackupMeta {
    /// Profile name that was active when this backup was taken (if known).
    pub previous_profile: Option<String>,
    /// Email of the account that was live (best-effort).
    pub email: Option<String>,
    /// UTC timestamp of the backup; also its id.
    pub timestamp: String,
}

/// A backup found on disk.
#[derive(Debug)]
pub struct BackupEntry {
    pub id: String,
    pub path: String,
    /// Its `meta.json`, when that could be read.
    pub meta: Option<BackupMeta>,
}

/// An entry of the backups directory, as read from disk: its file name, whether it is a
/// directory, and the `meta.json` it holds when that could be read.
#[derive(Debug)]
pub struct RawBackup {
    pub id: String,
    pub is_dir: bool,
    pub meta: Option<BackupMeta>,
}

/// Why a backup operation was refused.
#[derive(Debug, Clone, Copy, PartialEq, Eq)]
pub enum BackupError {
    /// There is no backup of that id.
    NotFound,
    /// The system clock is outside the years 1970 to 9999, so no backup id
    /// can be made of it.
    Clock,
}

impl BackupError {
    /// The message of this refusal for the backup `id`.
    pub open spec fn spec_message(self, id: Seq<char>) -> Seq<char> {
        match self {
            BackupError::NotFound => "backup "@ + debug_str(id) + " not found"@,
            BackupError::Clock => spec_clock_error_text(),
        }
    }

    /// The message of this refusal (see `spec_message`).
    pub fn message(&self, id: &str) -> (r: String)
        ensures
            r@ == self.spec_message(id@),
    {
        match self {
            BackupError::NotFound => {
                let q = quoted(id);
                cat3("backup ", q.as_str(), " not found")
            },
            BackupError::Clock => owned(clock_error_text()),
        }
    }
}

/// A backup id made of the current time: the UTC instant formatted as
/// `%Y%m%dT%H%M%S%3fZ`, or `None` when the system clock is outside the
/// years 1970 to 9999.
pub fn now_stamp() -> (r: Option<String>)
    ensures
        r matches Some(id) ==> stamp_shape(id@) && exists|s: i64, n: u32|
            0 <= s <= MAX_STAMP_SECS && n < 1_000_000_000 && id@ == #[trigger] stamp_text(s, n),
{
    match now_utc() {
        Some((secs, nanos)) => if secs <= MAX_STAMP_SECS {
            Some(format_stamp(secs, nanos))
        } else {
            None
        },
        None => None,
    }
}

/// A backup id names one plain entry inside the backups directory: it
/// holds no `/` and no `.`, and the backup's directory is the backups
/// directory, a `/`, and the id.
pub proof fn law_backup_dir_inside(p: Paths, id: Seq<char>)
    requires
        stamp_shape(id),
    ensures
        forall|i: int| 0 <= i < id.len() ==> #[trigger] id[i] != '/' && id[i] != '.',
        p.spec_backup_dir(id) == p.spec_backups_dir() + seq!['/'] + id,
{
    assert forall|i: int| 0 <= i < id.len() implies #[trigger] id[i] != '/' && id[i] != '.' by {
        if i < 8 {
            assert(is_digit(id[i]));
        } else if 9 <= i < 18 {
            assert(is_digit(id[i]));
        }
    }
    reveal_strlit("backups");
    let h = p.home@;
    let seg = "backups"@;
    assert(seg.len() == 7 && seg.last() == 's');
    if h.len() == 0 {
    } else if h.last() == '/' {
        assert((h + seg).last() == seg.last());
    } else {
        assert((h + seq!['/'] + seg).last() == seg.last());
    }
    assert(id[0] != '/');
}

/// The operations that copy the files marked present from `from` to `to`,
/// in bundle order; absent files are left alone.
pub open spec fn copy_present_ops(from: Loc, to: Loc, present: Seq<bool>) -> Seq<Op> {
    (if present_at(present, 0) { seq![Op::Copy(0, from, to)] } else { Seq::empty() }) + (
    if present_at(present, 1) {
        seq![Op::Copy(1, from, to)]
    } else {
        Seq::empty()
    }) + (if present_at(present, 2) { seq![Op::Copy(2, from, to)] } else { Seq::empty() })
}

/// The operations of a backup `id` of the live bundle: create its
/// directory, copy each live auth file that exists, and write its
/// `meta.json`.
pub open spec fn backup_ops(id: Seq<char>, live: Seq<bool>) -> Seq<Op> {
    seq![Op::MakeDir(Loc::Backup(id))] + copy_present_ops(Loc::Live, Loc::Backup(id), live) + seq![
        Op::WriteMeta(Loc::Backup(id)),
    ]
}

/// Whether any file is marked present.
pub open spec fn any_present(present: Seq<bool>) -> bool {
    present_at(present, 0) || present_at(present, 1) || present_at(present, 2)
}

/// A backup about to be taken: its id and its operations.
#[derive(Debug)]
pub struct BackupPlan {
    pub id: String,
    pub ops: Vec<FileOp>,
}

/// Snapshot the live auth files into a new backup named after the current
/// time; `live_present` tells which live auth files exist and `live_email`
/// is the email of the live account. Nothing is done (`Ok(None)`) when no
/// live auth file exists; the clock is read only when one does.
pub fn create(previous_profile: Option<String>, live_present: &[bool], live_email: Option<String>) -> (r:
    Result<Option<BackupPlan>, BackupError>)
    ensures
        !any_present(live_present@) ==> r == Ok::<Option<BackupPlan>, BackupError>(None),
        any_present(live_present@) ==> (r matches Ok(Some(_)) || r == Err::<
            Option<BackupPlan>,
            BackupError,
        >(BackupError::Clock)),
        r matches Ok(Some(p)) ==> {
            &&& stamp_shape(p.id@)
            &&& exists|s: i64, n: u32|
                0 <= s <= MAX_STAMP_SECS && n < 1_000_000_000 && p.id@ == #[trigger] stamp_text(s, n)
            &&& ops_view(p.ops@) == backup_ops(p.id@, live_present@)
            &&& p.ops@.last() matches FileOp::WriteMeta { place, meta }
            &&& place@ == Loc::Backup(p.id@)
            &&& meta.previous_profile == previous_profile
            &&& meta.email == live_email
            &&& meta.timestamp@ == p.id@
        },
{
    let any = (0 < live_present.len() && live_present[0]) || (1 < live_present.len()
        && live_present[1]) || (2 < live_present.len() && live_present[2]);
    if !any {
        return Ok(None);
    }
    match now_stamp() {
        Some(id) => Ok(Some(plan_backup(id, previous_profile, live_present, live_email))),
        None => Err(BackupError::Clock),
    }
}

/// The backup `id` of the live bundle (see `create`).
pub fn plan_backup(
    id: String,
    previous_profile: Option<String>,
    live_present: &[bool],
    live_email: Option<String>,
) -> (p: BackupPlan)
    ensures
        p.id == id,
        ops_view(p.ops@) == backup_ops(id@, live_present@),
        p.ops@[0] matches FileOp::MakeDir { private: false, .. },
        p.ops@.last() matches FileOp::WriteMeta { place, meta } && place@ == Loc::Backup(id@)
            && meta.previous_profile == previous_profile && meta.email == live_email
            && meta.timestamp@ == id@,
{
    let mut ops: Vec<FileOp> = Vec::new();
    ops.push(FileOp::MakeDir { place: Place::Backup(owned(id.as_str())), private: false });
    let mut i: usize = 0;
    while i < AUTH_FILE_COUNT
        invariant
            i <= AUTH_FILE_COUNT,
            ops@.len() >= 1,
            ops@[0] matches FileOp::MakeDir { private: false, .. },
            ops_view(ops@) == seq![Op::MakeDir(Loc::Backup(id@))] + (if i > 0 && present_at(
                live_present@,
                0,
            ) {
                seq![Op::Copy(0, Loc::Live, Loc::Backup(id@))]
            } else {
                Seq::empty()
            }) + (if i > 1 && present_at(live_present@, 1) {
                seq![Op::Copy(1, Loc::Live, Loc::Backup(id@))]
            } else {
                Seq::empty()
            }) + (if i > 2 && present_at(live_present@, 2) {
                seq![Op::Copy(2, Loc::Live, Loc::Backup(id@))]
            } else {
                Seq::empty()
            }),
        decreases AUTH_FILE_COUNT - i,
    {
        let ghost before = ops_view(ops@);
        if i < live_present.len() && live_present[i] {
            ops.push(FileOp::Copy { file: i, from: Place::Live, to: Place::Backup(owned(id.as_str())) });
            proof {
                assert(ops_view(ops@) =~= before.push(Op::Copy(i as int, Loc::Live, Loc::Backup(id@))));
            }
        }
        i = i + 1;
        proof {
            assert(ops_view(ops@) =~= seq![Op::MakeDir(Loc::Backup(id@))] + (if i > 0 && present_at(
                live_present@,
                0,
            ) {
                seq![Op::Copy(0, Loc::Live, Loc::Backup(id@))]
            } else {
                Seq::empty()
            }) + (if i > 1 && present_at(live_present@, 1) {
                seq![Op::Copy(1, Loc::Live, Loc::Backup(id@))]
            } else {
                Seq::empty()
            }) + (if i > 2 && present_at(live_present@, 2) {
                seq![Op::Copy(2, Loc::Live, Loc::Backup(id@))]
            } else {
                Seq::empty()
            }));
        }
    }
    let ghost before = ops_view(ops@);
    proof {
        assert(before =~= seq![Op::MakeDir(Loc::Backup(id@))] + copy_present_ops(
            Loc::Live,
            Loc::Backup(id@),
            live_present@,
        ));
    }
    let meta = BackupMeta {
        previous_profile,
        email: live_email,
        timestamp: owned(id.as_str()),
    };
    let ghost first = ops@[0];
    ops.push(FileOp::WriteMeta { place: Place::Backup(owned(id.as_str())), meta });
    assert(ops@[0] == first);
    proof {
        assert(ops_view(ops@) =~= before.push(Op::WriteMeta(Loc::Backup(id@))));
        assert(ops_view(ops@) =~= backup_ops(id@, live_present@));
    }
    BackupPlan { id, ops }
}

/// The backups among the directory entries, as (id, meta) pairs in the
/// order of the entries: the entries that are directories.
pub open spec fn backup_items(raw: Seq<RawBackup>) -> Seq<(Seq<char>, Option<BackupMeta>)>
    decreases raw.len(),
{
    if raw.len() == 0 {
        Seq::empty()
    } else {
        let rest = backup_items(raw.drop_last());
        if raw.last().is_dir {
            rest.push((raw.last().id@, raw.last().meta))
        } else {
            rest
        }
    }
}

/// The ids of the backups among the directory entries.
pub open spec fn backup_ids(raw: Seq<RawBackup>) -> Seq<Seq<char>> {
    backup_items(raw).map_values(|it: (Seq<char>, Option<BackupMeta>)| it.0)
}

/// The (id, meta) pairs of listed backups.
pub open spec fn entry_items(s: Seq<BackupEntry>) -> Seq<(Seq<char>, Option<BackupMeta>)> {
    s.map_values(|e: BackupEntry| (e.id@, e.meta))
}

/// The ids of listed backups.
pub open spec fn entry_ids(s: Seq<BackupEntry>) -> Seq<Seq<char>> {
    s.map_values(|e: BackupEntry| e.id@)
}

/// `r` lists the backups among the directory entries `raw`, newest
/// first: the entries that are directories, with their metas, ordered by
/// id from the greatest down (ids are timestamps), each with its path.
pub open spec fn is_listing(paths: Paths, raw: Seq<RawBackup>, r: Seq<BackupEntry>) -> bool {
    &&& entry_items(r).to_multiset() == backup_items(raw).to_multiset()
    &&& entry_ids(r).to_multiset() == backup_ids(raw).to_multiset()
    &&& sorted_desc(entry_ids(r))
    &&& forall|i: int| 0 <= i < r.len() ==> #[trigger] r[i].path@ == paths.spec_backup_dir(r[i].id@)
}

/// List the backups, newest first: the entries of the backups directory
/// that are directories, ordered by id from the greatest down (ids are
/// timestamps), each with its path.
pub fn list(paths: &Paths, raw: Vec<RawBackup>) -> (r: Vec<BackupEntry>)
    ensures
        is_listing(*paths, raw@, r@),
{
    let ghost all = raw@;
    let mut out: Vec<BackupEntry> = Vec::new();
    let mut rest = raw;
    let n = rest.len();
    let mut k: usize = 0;
    proof {
        assert(rest@ =~= all.skip(0));
        assert(entry_items(out@) =~= Seq::<(Seq<char>, Option<BackupMeta>)>::empty());
        assert(all.take(0) =~= Seq::<RawBackup>::empty());
        assert(backup_items(all.take(0)) =~= Seq::<(Seq<char>, Option<BackupMeta>)>::empty());
        assert(entry_ids(out@) =~= backup_ids(all.take(0)));
    }
    while rest.len() > 0
        invariant
            k + rest.len() == n,
            all.len() == n,
            rest@ == all.skip(k as int),
            entry_items(out@).to_multiset() == backup_items(all.take(k as int)).to_multiset(),
            entry_ids(out@).to_multiset() == backup_ids(all.take(k as int)).to_multiset(),
            sorted_desc(entry_ids(out@)),
            forall|i: int|
                0 <= i < out@.len() ==> #[trigger] out@[i].path@ == paths.spec_backup_dir(out@[i].id@),
        decreases rest.len(),
    {
        let e = rest.remove(0);
        proof {
            assert(e == all[k as int]);
            assert(rest@ =~= all.skip(k + 1));
            assert(all.take(k + 1).drop_last() =~= all.take(k as int));
            assert(all.take(k + 1).last() == e);
        }
        if e.is_dir {
            let path = paths.backup_dir(e.id.as_str());
            let entry = BackupEntry { id: e.id, path, meta: e.meta };
            let ghost old_out = out@;
            let mut pos: usize = 0;
            while pos < out.len() && str_le(entry.id.as_str(), out[pos].id.as_str())
                invariant
                    pos <= out.len(),
                    out@ == old_out,
                    forall|i: int| 0 <= i < pos ==> lex_le(entry.id@, #[trigger] old_out[i].id@),
                decreases out.len() - pos,
            {
                pos = pos + 1;
            }
            proof {
                if pos < out.len() {
                    lemma_lex_total(old_out[pos as int].id@, entry.id@);
                }
            }
            let ghost item = (entry.id@, entry.meta);
            let ghost eid = entry.id@;
            out.insert(pos, entry);
            proof {
                let ids = entry_ids(out@);
                let old_ids = entry_ids(old_out);
                assert(out@ =~= old_out.insert(pos as int, out@[pos as int]));
                assert(ids =~= old_ids.insert(pos as int, eid));
                assert forall|i: int, j: int| 0 <= i < j < ids.len() implies lex_le(
                    #[trigger] ids[j],
                    #[trigger] ids[i],
                ) by {
                    if j < pos {
                        assert(ids[i] == old_ids[i]);
                        assert(ids[j] == old_ids[j]);
                    } else if i < pos && j == pos {
                        assert(ids[i] == old_ids[i]);
                    } else if i < pos {
                        assert(ids[i] == old_ids[i]);
                        assert(ids[j] == old_ids[j - 1]);
                    } else if i == pos {
                        assert(ids[j] == old_ids[j - 1]);
                        if j - 1 > pos {
                            lemma_lex_transitive(old_ids[j - 1], old_ids[pos as int], eid);
                        }
                    } else {
                        assert(ids[i] == old_ids[i - 1]);
                        assert(ids[j] == old_ids[j - 1]);
                    }
                }
                assert(entry_items(out@) =~= entry_items(old_out).insert(pos as int, item));
                lemma_insert_multiset(entry_items(old_out), pos as int, item);
                assert(backup_items(all.take(k + 1)) =~= backup_items(all.take(k as int)).push(item));
                backup_items(all.take(k as int)).to_multiset_ensures();
                lemma_insert_multiset(old_ids, pos as int, eid);
                assert(backup_ids(all.take(k + 1)) =~= backup_ids(all.take(k as int)).push(eid));
                backup_ids(all.take(k as int)).to_multiset_ensures();
            }
        } else {
            proof {
                assert(backup_items(all.take(k + 1)) =~= backup_items(all.take(k as int)));
                assert(backup_ids(all.take(k + 1)) =~= backup_ids(all.take(k as int)));
            }
        }
        k = k + 1;
    }
    proof {
        assert(all.take(n as int) =~= all);
    }
    out
}

/// The operations that put backup `id` back in place of the live auth
/// files: make sure the live directory exists, then mirror the backup's
/// bundle onto it.
pub open spec fn restore_ops(id: Seq<char>, saved: Seq<bool>) -> Seq<Op> {
    seq![Op::MakeDir(Loc::Live)] + mirror_ops(Loc::Backup(id), Loc::Live, saved)
}

/// Restore the backup `id`, replacing the live auth files; `backup_is_dir`
/// tells whether its directory exists and `saved_present` which of its
/// three auth files exist.
pub fn restore(id: &str, backup_is_dir: bool, saved_present: &[bool]) -> (r: Result<
    Vec<FileOp>,
    BackupError,
>)
    ensures
        !backup_is_dir ==> r == Err::<Vec<FileOp>, BackupError>(BackupError::NotFound),
        backup_is_dir ==> (r matches Ok(ops) && ops_view(ops@) == restore_ops(id@, saved_present@)
            && (ops@[0] matches FileOp::MakeDir { private: false, .. })),
{
    if !backup_is_dir {
        return Err(BackupError::NotFound);
    }
    let src = Place::Backup(owned(id));
    let mut ops: Vec<FileOp> = Vec::new();
    ops.push(FileOp::MakeDir { place: Place::Live, private: false });
    let mut copies = mirror(&src, &Place::Live, saved_present);
    ops.append(&mut copies);
    proof {
        assert(ops_view(ops@) =~= restore_ops(id@, saved_present@));
    }
    Ok(ops)
}

/// What pruning does: the backups it removes, and how many.
#[derive(Debug)]
pub struct Prune {
    pub ops: Vec<FileOp>,
    pub removed: usize,
}

/// The id of the backup that an operation removes, if it removes one.
pub open spec fn removed_backup(op: Op) -> Seq<char> {
    match op {
        Op::RemoveDir(Loc::Backup(id), _) => id,
        _ => Seq::empty(),
    }
}

/// The ids of the backups that the operations remove.
pub open spec fn removed_ids(ops: Seq<Op>) -> Seq<Seq<char>> {
    ops.map_values(|o: Op| removed_backup(o))
}

/// `ops` prune the backups among the directory entries `raw` down to the
/// `keep` most recent: one forced removal of a backup directory for each
/// backup beyond the first `keep`, newest first, and every backup kept is
/// newer (by id) than every one removed.
pub open spec fn is_pruning(raw: Seq<RawBackup>, keep: usize, ops: Seq<FileOp>) -> bool {
    &&& ops.len() == (if backup_items(raw).len() > keep {
        backup_items(raw).len() - keep
    } else {
        0
    })
    &&& forall|i: int|
        0 <= i < ops.len() ==> ((#[trigger] ops[i])@ matches Op::RemoveDir(Loc::Backup(_), true))
    &&& sorted_desc(removed_ids(ops_view(ops)))
    &&& exists|kept: Seq<Seq<char>>|
        {
            &&& kept.len() + ops.len() == backup_items(raw).len()
            &&& (#[trigger] kept.to_multiset()).add(removed_ids(ops_view(ops)).to_multiset())
                == backup_ids(raw).to_multiset()
            &&& forall|a: int, b: int|
                0 <= a < kept.len() && 0 <= b < ops.len() ==> lex_le(
                    #[trigger] removed_ids(ops_view(ops))[b],
                    #[trigger] kept[a],
                )
        }
}

/// Keep only the `keep` most recent backups: remove every other one, newest
/// first.
pub fn prune(paths: &Paths, raw: Vec<RawBackup>, keep: usize) -> (r: Prune)
    ensures
        r.removed == r.ops@.len(),
        is_pruning(raw@, keep, r.ops@),
{
    let entries = list(paths, raw);
    let ghost ids = entry_ids(entries@);
    let mut ops: Vec<FileOp> = Vec::new();
    let mut i: usize = keep;
    let n = entries.len();
    while i < n
        invariant
            n == entries.len(),
            ids == entry_ids(entries@),
            keep <= n ==> keep <= i <= n,
            keep > n ==> i == keep,
            ops@.len() == (if i >= keep { i - keep } else { 0 }),
            forall|j: int|
                0 <= j < ops@.len() ==> (#[trigger] ops@[j])@ == Op::RemoveDir(
                    Loc::Backup(ids[keep + j]),
                    true,
                ),
        decreases n - i,
    {
        ops.push(
            FileOp::RemoveDir { place: Place::Backup(owned(entries[i].id.as_str())), must_succeed: true },
        );
        i = i + 1;
    }
    let removed = ops.len();
    proof {
        let items = backup_items(raw@);
        let all_ids = backup_ids(raw@);
        assert(ids.len() == all_ids.len()) by {
            ids.to_multiset_ensures();
            all_ids.to_multiset_ensures();
        }
        let cut = if keep <= n { keep as int } else { n as int };
        let kept = ids.take(cut);
        let gone = removed_ids(ops_view(ops@));
        assert(gone =~= ids.skip(cut));
        assert(ids =~= kept + gone);
        vstd::seq_lib::lemma_multiset_commutative(kept, gone);
        assert forall|a: int, b: int| 0 <= a < kept.len() && 0 <= b < ops@.len() implies lex_le(
            #[trigger] gone[b],
            #[trigger] kept[a],
        ) by {
            assert(gone[b] == ids[cut + b]);
            assert(kept[a] == ids[a]);
        }
        assert(sorted_desc(gone)) by {
            assert forall|x: int, y: int| 0 <= x < y < gone.len() implies lex_le(
                #[trigger] gone[y],
                #[trigger] gone[x],
            ) by {
                assert(gone[x] == ids[cut + x]);
                assert(gone[y] == ids[cut + y]);
            }
        }
        assert(kept.to_multiset().add(gone.to_multiset()) == all_ids.to_multiset());
    }
    Prune { ops, removed }
}

/// Pruning twice removes nothing more: once a prune of the entries `raw`
/// down to `keep` is carried out, at most `keep` backups are left, and a
/// prune of the entries `after` that list exactly those removes none.
pub proof fn law_prune_again_removes_nothing(
    raw: Seq<RawBackup>,
    keep: usize,
    ops: Seq<FileOp>,
    after: Seq<RawBackup>,
    again: Seq<FileOp>,
)
    requires
        is_pruning(raw, keep, ops),
        backup_items(after).len() + ops.len() == backup_items(raw).len(),
        is_pruning(after, keep, again),
    ensures
        backup_items(after).len() == if backup_items(raw).len() > keep {
            keep as nat
        } else {
            backup_items(raw).len()
        },
        again.len() == 0,
{
}

/// Carrying out a prune's removals changes no live or profile bundle.
pub proof fn law_prune_keeps_logins(d: Disk, ops: Seq<Op>)
    requires
        forall|i: int| 0 <= i < ops.len() ==> (#[trigger] ops[i] matches Op::RemoveDir(Loc::Backup(_), true)),
    ensures
        run_ops(d, ops) matches Some(d1) ==> forall|l: Loc|
            !(l is Backup) ==> #[trigger] bundle(d1, l) == bundle(d, l),
    decreases ops.len(),
{
    if ops.len() > 0 {
        assert(ops[0] matches Op::RemoveDir(Loc::Backup(_), true));
        match apply(d, ops[0]) {
            None => {},
            Some(d0) => {
                let rest = ops.drop_first();
                assert forall|i: int| 0 <= i < rest.len() implies (#[trigger] rest[i] matches Op::RemoveDir(
                    Loc::Backup(_),
                    true,
                )) by {
                    assert(rest[i] == ops[i + 1]);
                }
                law_prune_keeps_logins(d0, rest);
                assert forall|l: Loc| !(l is Backup) implies #[trigger] bundle(d0, l) == bundle(d, l) by {
                    assert(bundle(d0, l) =~= bundle(d, l));
                }
            },
        }
    }
}

/// The operation part for file `i` of `copy_present_ops`.
pub open spec fn copy_part(from: Loc, to: Loc, present: Seq<bool>, i: int) -> Seq<Op> {
    if present_at(present, i) {
        seq![Op::Copy(i, from, to)]
    } else {
        Seq::empty()
    }
}

/// One part of a copy of the present files: when the file is present it
/// is copied, else nothing changes; no other file changes.
proof fn lemma_copy_part(d: Disk, from: Loc, to: Loc, present: Seq<bool>, i: int)
    requires
        from != to,
        0 <= i < AUTH_FILE_COUNT,
        present_at(present, i) ==> d.files.contains_key((from, i)),
    ensures
        run_ops(d, copy_part(from, to, present, i)) matches Some(d1) && {
            &&& forall|k: (Loc, int)|
                k != (to, i) ==> (#[trigger] d1.files.contains_key(k) == d.files.contains_key(k) && (
                d1.files.contains_key(k) ==> d1.files[k] == d.files[k]))
            &&& present_at(present, i) ==> d1.files.contains_key((to, i)) && d1.files[(to, i)]
                == d.files[(from, i)]
            &&& !present_at(present, i) ==> d1.files.contains_key((to, i)) == d.files.contains_key(
                (to, i),
            )
            &&& d.dirs.subset_of(d1.dirs)
        },
{
    if present_at(present, i) {
        lemma_run_one(d, Op::Copy(i, from, to));
    } else {
        assert(copy_part(from, to, present, i).len() == 0);
    }
}

/// Copying the present files of `from` into a place `to` that holds no
/// auth file makes the bundle at `to` equal to the one at `from` and
/// touches no other place.
pub proof fn lemma_copy_present(d: Disk, from: Loc, to: Loc, present: Seq<bool>)
    requires
        from != to,
        presence_of(present, d, from),
        !has_files(d, to),
    ensures
        run_ops(d, copy_present_ops(from, to, present)) matches Some(d1) && bundle(d1, to) == bundle(
            d,
            from,
        ) && same_outside(d, d1, to) && d.dirs.subset_of(d1.dirs),
{
    let p0 = copy_part(from, to, present, 0);
    let p1 = copy_part(from, to, present, 1);
    let p2 = copy_part(from, to, present, 2);
    assert(copy_present_ops(from, to, present) == p0 + p1 + p2);
    assert(d.files.contains_key((from, 0)) == present_at(present, 0));
    assert(d.files.contains_key((from, 1)) == present_at(present, 1));
    assert(d.files.contains_key((from, 2)) == present_at(present, 2));
    assert(!d.files.contains_key((to, 0)));
    assert(!d.files.contains_key((to, 1)));
    assert(!d.files.contains_key((to, 2)));
    lemma_copy_part(d, from, to, present, 0);
    let d1 = run_ops(d, p0)->0;
    lemma_copy_part(d1, from, to, present, 1);
    let d2 = run_ops(d1, p1)->0;
    lemma_copy_part(d2, from, to, present, 2);
    let d3 = run_ops(d2, p2)->0;
    lemma_run_concat(d, p0, p1);
    lemma_run_concat(d, p0 + p1, p2);
    assert(run_ops(d, p0 + p1 + p2) == Some(d3));
    assert(bundle(d3, to) =~= bundle(d, from));
}

/// A backup of the live login holds exactly the live auth bundle (each
/// file with the same content, missing files missing), provided its id was
/// not in use, and it touches no other place.
pub proof fn law_backup_captures_live(d: Disk, id: Seq<char>, live: Seq<bool>)
    requires
        presence_of(live, d, Loc::Live),
        !has_files(d, Loc::Backup(id)),
    ensures
        run_ops(d, backup_ops(id, live)) matches Some(d1) && bundle(d1, Loc::Backup(id)) == bundle(
            d,
            Loc::Live,
        ) && same_outside(d, d1, Loc::Backup(id)) && d1.dirs.contains(Loc::Backup(id)),
{
    let b = Loc::Backup(id);
    let first = seq![Op::MakeDir(b)];
    let mid = copy_present_ops(Loc::Live, b, live);
    let last = seq![Op::WriteMeta(b)];
    lemma_run_one(d, Op::MakeDir(b));
    let d0 = apply(d, Op::MakeDir(b))->0;
    assert(!has_files(d0, b));
    assert(presence_of(live, d0, Loc::Live));
    lemma_copy_present(d0, Loc::Live, b, live);
    let dm = run_ops(d0, mid)->0;
    lemma_run_one(dm, Op::WriteMeta(b));
    lemma_run_concat(d, first, mid);
    lemma_run_concat(d, first + mid, last);
    assert(backup_ops(id, live) == first + mid + last);
}

/// Restoring a backup whose directory exists makes the live bundle
/// exactly the backup's bundle, removing live files the backup lacks, and
/// touches no other place.
pub proof fn law_backup_restore(d: Disk, id: Seq<char>, saved: Seq<bool>)
    requires
        presence_of(saved, d, Loc::Backup(id)),
    ensures
        run_ops(d, restore_ops(id, saved)) matches Some(d1) && bundle(d1, Loc::Live) == bundle(
            d,
            Loc::Backup(id),
        ) && same_outside(d, d1, Loc::Live),
{
    let b = Loc::Backup(id);
    let first = seq![Op::MakeDir(Loc::Live)];
    let m = mirror_ops(b, Loc::Live, saved);
    lemma_run_one(d, Op::MakeDir(Loc::Live));
    let d0 = apply(d, Op::MakeDir(Loc::Live))->0;
    assert(presence_of(saved, d0, b));
    lemma_mirror(d0, b, Loc::Live, saved);
    lemma_run_concat(d, first, m);
    assert(restore_ops(id, saved) == first + m);
}

} // verus!


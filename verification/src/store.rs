//! An abstract model of the files dsw works on, and the file operations
//! that its commands perform.
//!
//! Every command is computed as a list of `FileOp`s; the program carries
//! them out, in order, on the real file system. The model gives each
//! operation a meaning over a `Disk`, the auth files held in each place, so
//! that what a command leaves behind can be stated and proved.

use vstd::prelude::*;
use crate::backup::BackupMeta;
use crate::paths::AUTH_FILE_COUNT;
use crate::text::owned;

verus! {

/// A directory that holds an auth bundle.
#[derive(Debug, PartialEq, Eq)]
pub enum Place {
    /// The live Factory directory.
    Live,
    /// The saved profile of the given name.
    Profile(String),
    /// The backup of the given id.
    Backup(String),
}

/// The model of a `Place`.
pub enum Loc {
    Live,
    Profile(Seq<char>),
    Backup(Seq<char>),
}

impl View for Place {
    type V = Loc;

    open spec fn view(&self) -> Loc {
        match self {
            Place::Live => Loc::Live,
            Place::Profile(n) => Loc::Profile(n@),
            Place::Backup(id) => Loc::Backup(id@),
        }
    }
}

impl Place {
    /// A copy of this place.
    pub fn duplicate(&self) -> (r: Place)
        ensures
            r@ == self@,
    {
        match self {
            Place::Live => Place::Live,
            Place::Profile(n) => Place::Profile(owned(n.as_str())),
            Place::Backup(id) => Place::Backup(owned(id.as_str())),
        }
    }
}

/// One file-system operation of a command. Auth files are named by their
/// index in the auth bundle (see `paths::auth_file`).
#[derive(Debug, PartialEq, Eq)]
pub enum FileOp {
    /// Create the directory and its parents; `private` also restricts it to
    /// its owner (`0700`, on Unix).
    MakeDir { place: Place, private: bool },
    /// Copy an auth file from one place to the other, creating the target
    /// directory if needed and restricting the copy to its owner (`0600`).
    Copy { file: usize, from: Place, to: Place },
    /// Remove an auth file; a failure is ignored.
    Remove { file: usize, at: Place },
    /// Remove the directory and all it holds; a failure is ignored unless
    /// `must_succeed`.
    RemoveDir { place: Place, must_succeed: bool },
    /// Rename a directory.
    RenameDir { from: Place, to: Place },
    /// Write the `meta.json` of a backup.
    WriteMeta { place: Place, meta: BackupMeta },
}

/// The model of a `FileOp`.
pub enum Op {
    MakeDir(Loc),
    Copy(int, Loc, Loc),
    Remove(int, Loc),
    RemoveDir(Loc, bool),
    RenameDir(Loc, Loc),
    WriteMeta(Loc),
}

impl View for FileOp {
    type V = Op;

    open spec fn view(&self) -> Op {
        match self {
            FileOp::MakeDir { place, .. } => Op::MakeDir(place@),
            FileOp::Copy { file, from, to } => Op::Copy(*file as int, from@, to@),
            FileOp::Remove { file, at } => Op::Remove(*file as int, at@),
            FileOp::RemoveDir { place, must_succeed } => Op::RemoveDir(place@, *must_succeed),
            FileOp::RenameDir { from, to } => Op::RenameDir(from@, to@),
            FileOp::WriteMeta { place, .. } => Op::WriteMeta(place@),
        }
    }
}

/// The model of a list of operations.
pub open spec fn ops_view(ops: Seq<FileOp>) -> Seq<Op> {
    ops.map_values(|o: FileOp| o@)
}

/// The files dsw works on: the content of each auth file (a place and the
/// index of the file in the bundle) that exists, and the directories that
/// exist.
pub struct Disk {
    pub files: Map<(Loc, int), Seq<u8>>,
    pub dirs: Set<Loc>,
}

/// The auth bundle held at a place: for each of the three files, its
/// content if it exists.
pub open spec fn bundle(d: Disk, l: Loc) -> Seq<Option<Seq<u8>>> {
    Seq::new(
        AUTH_FILE_COUNT as nat,
        |i: int|
            if d.files.contains_key((l, i)) {
                Some(d.files[(l, i)])
            } else {
                None
            },
    )
}

/// Whether the bundle at `l` holds at least one file.
pub open spec fn has_files(d: Disk, l: Loc) -> bool {
    exists|i: int| 0 <= i < AUTH_FILE_COUNT && #[trigger] d.files.contains_key((l, i))
}

/// The files outside the place `l` are the same on both disks.
pub open spec fn same_outside(d1: Disk, d2: Disk, l: Loc) -> bool {
    forall|k: (Loc, int)|
        k.0 != l ==> (#[trigger] d1.files.contains_key(k) == d2.files.contains_key(k) && (
        d1.files.contains_key(k) ==> d1.files[k] == d2.files[k]))
}

/// The disk after one operation, or `None` when the operation fails: a
/// copy from a file that does not exist, a rename of a directory that does
/// not exist or onto one that does, a required removal of a directory that
/// does not exist.
pub open spec fn apply(d: Disk, op: Op) -> Option<Disk> {
    match op {
        Op::MakeDir(l) => Some(Disk { files: d.files, dirs: d.dirs.insert(l) }),
        Op::Copy(f, a, b) => if d.files.contains_key((a, f)) {
            Some(Disk { files: d.files.insert((b, f), d.files[(a, f)]), dirs: d.dirs.insert(b) })
        } else {
            None
        },
        Op::Remove(f, l) => Some(Disk { files: d.files.remove((l, f)), dirs: d.dirs }),
        Op::RemoveDir(l, must) => if must && !d.dirs.contains(l) {
            None
        } else {
            Some(
                Disk {
                    files: d.files.restrict(Set::new(|k: (Loc, int)| k.0 != l)),
                    dirs: d.dirs.remove(l),
                },
            )
        },
        Op::RenameDir(a, b) => if d.dirs.contains(a) && !d.dirs.contains(b) {
            Some(
                Disk {
                    files: Map::new(
                        |k: (Loc, int)|
                            if k.0 == b {
                                d.files.contains_key((a, k.1))
                            } else {
                                k.0 != a && d.files.contains_key(k)
                            },
                        |k: (Loc, int)|
                            if k.0 == b {
                                d.files[(a, k.1)]
                            } else {
                                d.files[k]
                            },
                    ),
                    dirs: d.dirs.remove(a).insert(b),
                },
            )
        } else {
            None
        },
        Op::WriteMeta(l) => Some(d),
    }
}

/// The disk after the operations, in order, or `None` when one fails.
pub open spec fn run_ops(d: Disk, ops: Seq<Op>) -> Option<Disk>
    decreases ops.len(),
{
    if ops.len() == 0 {
        Some(d)
    } else {
        match apply(d, ops[0]) {
            None => None,
            Some(d1) => run_ops(d1, ops.drop_first()),
        }
    }
}

/// Running two lists one after the other is running their concatenation.
pub proof fn lemma_run_concat(d: Disk, a: Seq<Op>, b: Seq<Op>)
    ensures
        run_ops(d, a + b) == (match run_ops(d, a) {
            None => None,
            Some(d1) => run_ops(d1, b),
        }),
    decreases a.len(),
{
    if a.len() == 0 {
        assert(a + b =~= b);
    } else {
        assert((a + b).drop_first() =~= a.drop_first() + b);
        assert((a + b)[0] == a[0]);
        match apply(d, a[0]) {
            None => {},
            Some(d1) => {
                lemma_run_concat(d1, a.drop_first(), b);
            },
        }
    }
}

/// Running a single operation is applying it.
pub proof fn lemma_run_one(d: Disk, op: Op)
    ensures
        run_ops(d, seq![op]) == apply(d, op),
{
    let s = seq![op];
    assert(s[0] == op);
    assert(s.drop_first().len() == 0);
    match apply(d, op) {
        None => {},
        Some(d1) => {
            assert(run_ops(d1, s.drop_first()) == Some(d1));
        },
    }
}

/// Whether the `i`-th file is marked present.
pub open spec fn present_at(present: Seq<bool>, i: int) -> bool {
    0 <= i < present.len() && present[i]
}

/// `present` tells which files of the bundle at `l` exist on `d`.
pub open spec fn presence_of(present: Seq<bool>, d: Disk, l: Loc) -> bool {
    forall|i: int| 0 <= i < AUTH_FILE_COUNT ==> present_at(present, i) == #[trigger] d.files.contains_key((l, i))
}

/// A place that an operation did not touch keeps its bundle, and facts
/// about which of its files exist stay true.
pub proof fn lemma_frame(d: Disk, d1: Disk, changed: Loc, l: Loc, present: Seq<bool>)
    requires
        same_outside(d, d1, changed),
        l != changed,
    ensures
        bundle(d1, l) == bundle(d, l),
        presence_of(present, d, l) ==> presence_of(present, d1, l),
{
    assert forall|i: int| 0 <= i < AUTH_FILE_COUNT implies #[trigger] d1.files.contains_key((l, i))
        == d.files.contains_key((l, i)) && (d.files.contains_key((l, i)) ==> d1.files[(l, i)]
        == d.files[(l, i)]) by {
        let k = (l, i);
        assert(k.0 != changed);
        assert(d1.files.contains_key(k) == d.files.contains_key(k));
    }
    assert(bundle(d1, l) =~= bundle(d, l));
}

/// The operation that makes file `i` at `to` mirror file `i` at `from`.
pub open spec fn mirror_op(from: Loc, to: Loc, present: Seq<bool>, i: int) -> Op {
    if present_at(present, i) {
        Op::Copy(i, from, to)
    } else {
        Op::Remove(i, to)
    }
}

/// The operations that make the bundle at `to` a copy of the bundle at
/// `from`, given which files of `from` exist: copy each that exists,
/// remove each that does not.
pub open spec fn mirror_ops(from: Loc, to: Loc, present: Seq<bool>) -> Seq<Op> {
    seq![
        mirror_op(from, to, present, 0),
        mirror_op(from, to, present, 1),
        mirror_op(from, to, present, 2),
    ]
}

/// The number of files marked present.
pub open spec fn count_present(present: Seq<bool>) -> nat {
    (if present_at(present, 0) { 1nat } else { 0nat }) + (if present_at(present, 1) {
        1nat
    } else {
        0nat
    }) + (if present_at(present, 2) { 1nat } else { 0nat })
}

/// The operations that make the bundle at `to` a copy of the bundle at
/// `from`; `present` tells which files of `from` exist.
pub fn mirror(from: &Place, to: &Place, present: &[bool]) -> (r: Vec<FileOp>)
    ensures
        ops_view(r@) == mirror_ops(from@, to@, present@),
{
    let mut r: Vec<FileOp> = Vec::new();
    let mut i: usize = 0;
    while i < AUTH_FILE_COUNT
        invariant
            i <= AUTH_FILE_COUNT,
            r@.len() == i,
            forall|j: int| 0 <= j < i ==> #[trigger] r@[j]@ == mirror_op(from@, to@, present@, j),
        decreases AUTH_FILE_COUNT - i,
    {
        let here = i < present.len() && present[i];
        if here {
            r.push(FileOp::Copy { file: i, from: from.duplicate(), to: to.duplicate() });
        } else {
            r.push(FileOp::Remove { file: i, at: to.duplicate() });
        }
        i = i + 1;
    }
    proof {
        assert(ops_view(r@) =~= mirror_ops(from@, to@, present@));
    }
    r
}

/// The number of files marked present.
pub fn count_marked(present: &[bool]) -> (n: usize)
    ensures
        n == count_present(present@),
{
    let mut n: usize = 0;
    let mut i: usize = 0;
    while i < AUTH_FILE_COUNT
        invariant
            i <= AUTH_FILE_COUNT,
            n <= i,
            n == (if i > 0 && present_at(present@, 0) { 1nat } else { 0nat }) + (if i > 1
                && present_at(present@, 1) {
                1nat
            } else {
                0nat
            }) + (if i > 2 && present_at(present@, 2) { 1nat } else { 0nat }),
        decreases AUTH_FILE_COUNT - i,
    {
        if i < present.len() && present[i] {
            n = n + 1;
        }
        i = i + 1;
    }
    n
}

/// Mirroring a bundle succeeds when `present` tells the truth about the
/// source, makes the bundle at `to` equal to the one at `from`, and leaves
/// every other place as it was.
pub proof fn lemma_mirror(d: Disk, from: Loc, to: Loc, present: Seq<bool>)
    requires
        from != to,
        presence_of(present, d, from),
    ensures
        run_ops(d, mirror_ops(from, to, present)) is Some,
        bundle(run_ops(d, mirror_ops(from, to, present))->0, to) == bundle(d, from),
        same_outside(d, run_ops(d, mirror_ops(from, to, present))->0, to),
        run_ops(d, mirror_ops(from, to, present))->0.dirs.subset_of(d.dirs.insert(to)),
        d.dirs.subset_of(run_ops(d, mirror_ops(from, to, present))->0.dirs),
        has_files(d, from) ==> run_ops(d, mirror_ops(from, to, present))->0.dirs.contains(to),
{
    let ops = mirror_ops(from, to, present);
    let d1 = apply(d, ops[0])->0;
    let d2 = apply(d1, ops[1])->0;
    let d3 = apply(d2, ops[2])->0;
    assert(d.files.contains_key((from, 0)) == present_at(present, 0));
    assert(d.files.contains_key((from, 1)) == present_at(present, 1));
    assert(d.files.contains_key((from, 2)) == present_at(present, 2));
    let t1 = ops.drop_first();
    let t2 = t1.drop_first();
    let t3 = t2.drop_first();
    assert(apply(d, ops[0]) is Some);
    assert(apply(d1, t1[0]) is Some);
    assert(apply(d2, t2[0]) is Some);
    assert(t3.len() == 0);
    assert(run_ops(d3, t3) == Some(d3));
    assert(run_ops(d2, t2) == Some(d3));
    assert(run_ops(d1, t1) == Some(d3));
    assert(run_ops(d, ops) == Some(d3));
    assert(bundle(d3, to) =~= bundle(d, from));
    assert(d3.dirs.subset_of(d.dirs.insert(to)));
    if has_files(d, from) {
        let i = choose|i: int| 0 <= i < AUTH_FILE_COUNT && #[trigger] d.files.contains_key((from, i));
        assert(d3.dirs.contains(to));
    }
}

} // verus!

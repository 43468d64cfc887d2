//! `dsw backup list | restore <id> | prune`.

use vstd::prelude::*;
use crate::backup::{self, is_listing, is_pruning, restore_ops, BackupEntry, BackupError, BackupMeta, RawBackup};
use crate::cli::{BackupArgs, BackupCommand};
use crate::commands::{agrees, confirmed};
use crate::paths::Paths;
use crate::store::{ops_view, FileOp};
use crate::factory::Identity;
use crate::table::{ascii_table, draw};
use crate::text::{cat, decimal, decimal_string, owned};

verus! {

/// The header of the backup table.
pub open spec fn backup_header() -> Seq<Seq<char>> {
    seq!["id"@, "previous profile"@, "email"@]
}

/// The cells of a backup: its id, the profile that was active when it was
/// taken, and the live email then, each `-` when unknown.
pub open spec fn backup_cells(e: BackupEntry) -> Seq<Seq<char>> {
    seq![
        e.id@,
        match e.meta {
            Some(m) => match m.previous_profile {
                Some(p) => p@,
                None => "-"@,
            },
            None => "-"@,
        },
        match e.meta {
            Some(m) => match m.email {
                Some(x) => x@,
                None => "-"@,
            },
            None => "-"@,
        },
    ]
}

/// Each cell of a backup's row sits under the header naming it: the id
/// under `id`, the profile that was active under `previous profile` and the
/// live email under `email`, each `-` when its meta does not record it.
pub proof fn law_backup_cells(e: BackupEntry)
    ensures
        backup_header().len() == 3 && backup_cells(e).len() == 3,
        forall|j: int|
            0 <= j < 3 && #[trigger] backup_header()[j] == "id"@ ==> backup_cells(e)[j] == e.id@,
        forall|j: int|
            0 <= j < 3 && #[trigger] backup_header()[j] == "previous profile"@ ==> backup_cells(e)[j]
                == match e.meta {
                Some(m) => match m.previous_profile {
                    Some(p) => p@,
                    None => "-"@,
                },
                None => "-"@,
            },
        forall|j: int|
            0 <= j < 3 && #[trigger] backup_header()[j] == "email"@ ==> backup_cells(e)[j] == match e.meta {
                Some(m) => match m.email {
                    Some(x) => x@,
                    None => "-"@,
                },
                None => "-"@,
            },
{
    reveal_strlit("id");
    reveal_strlit("previous profile");
    reveal_strlit("email");
    assert("id"@.len() == 2 && "email"@.len() == 5 && "previous profile"@.len() == 16);
}

/// What `dsw backup list` prints for the backups `entries`: `no backups`,
/// or their table.
pub open spec fn spec_list_text(entries: Seq<BackupEntry>) -> Seq<char> {
    if entries.len() == 0 {
        "no backups\n"@
    } else {
        ascii_table(backup_header(), entries.map_values(|e: BackupEntry| backup_cells(e))) + "\n"@
    }
}

fn meta_field(meta: &Option<BackupMeta>, previous: bool) -> (r: String)
    ensures
        previous ==> r@ == (match meta {
            Some(m) => match m.previous_profile {
                Some(p) => p@,
                None => "-"@,
            },
            None => "-"@,
        }),
        !previous ==> r@ == (match meta {
            Some(m) => match m.email {
                Some(x) => x@,
                None => "-"@,
            },
            None => "-"@,
        }),
{
    match meta {
        Some(m) => {
            let f = if previous {
                &m.previous_profile
            } else {
                &m.email
            };
            match f {
                Some(x) => owned(x.as_str()),
                None => owned("-"),
            }
        },
        None => owned("-"),
    }
}

/// What `dsw backup list` prints (see `spec_list_text`).
pub fn list_text(entries: &Vec<BackupEntry>) -> (r: String)
    ensures
        r@ == spec_list_text(entries@),
{
    if entries.len() == 0 {
        return owned("no backups\n");
    }
    let mut header: Vec<String> = Vec::new();
    header.push(owned("id"));
    header.push(owned("previous profile"));
    header.push(owned("email"));
    let mut cells: Vec<Vec<String>> = Vec::new();
    let mut i: usize = 0;
    while i < entries.len()
        invariant
            i <= entries.len(),
            cells.deep_view() == entries@.take(i as int).map_values(|e: BackupEntry| backup_cells(e)),
        decreases entries.len() - i,
    {
        let e = &entries[i];
        let mut c: Vec<String> = Vec::new();
        c.push(owned(e.id.as_str()));
        c.push(meta_field(&e.meta, true));
        c.push(meta_field(&e.meta, false));
        let ghost before = cells.deep_view();
        proof {
            assert(c.deep_view() =~= backup_cells(*e));
        }
        cells.push(c);
        proof {
            assert(entries@.take(i + 1) =~= entries@.take(i as int).push(*e));
            assert(cells.deep_view() =~= before.push(backup_cells(*e)));
        }
        i = i + 1;
    }
    proof {
        assert(entries@.take(entries.len() as int) =~= entries@);
        assert(header.deep_view() =~= backup_header());
    }
    let t = draw(&header, &cells);
    cat(t.as_str(), "\n")
}

/// The question asked before restoring backup `id` whose login is
/// `identity`.
pub fn restore_prompt(id: &str, identity: &Identity) -> (r: String)
    ensures
        r@ == "restore backup "@ + id@ + " ("@ + identity.spec_display_email()
            + ")? this will overwrite the live droid login. [y/N] "@,
{
    let a = cat("restore backup ", id);
    let b = cat(a.as_str(), " (");
    let email = identity.display_email();
    let c = cat(b.as_str(), email.as_str());
    cat(c.as_str(), ")? this will overwrite the live droid login. [y/N] ")
}

/// The report of a prune that removed `removed` backups, asked to keep
/// `keep`.
pub fn prune_message(removed: usize, keep: usize) -> (r: String)
    ensures
        r@ == "pruned "@ + decimal(removed as nat) + " backup(s); kept "@ + decimal(keep as nat)
            + " most recent"@,
{
    let a = decimal_string(removed as u64);
    let b = decimal_string(keep as u64);
    let c = cat("pruned ", a.as_str());
    let d = cat(c.as_str(), " backup(s); kept ");
    let e = cat(d.as_str(), b.as_str());
    cat(e.as_str(), " most recent")
}

/// What `dsw backup restore` prints once backup `id` is restored.
pub fn restored_text(id: &str) -> (r: String)
    ensures
        r@ == "restored backup "@ + id@,
{
    cat("restored backup ", id)
}

/// What the program read before a `dsw backup` subcommand.
#[derive(Debug)]
pub struct BackupFacts {
    /// The entries of the backups directory (for `list` and `prune`).
    pub entries: Vec<RawBackup>,
    /// For `restore`: whether the backup's directory exists, and which of
    /// its three auth files exist.
    pub target_is_dir: bool,
    pub target_present: Vec<bool>,
    /// For `restore` without `--yes`: the answer to `restore_prompt`, if
    /// one was read.
    pub answer: Option<String>,
}

/// What a `dsw backup` subcommand does.
#[derive(Debug)]
pub enum BackupAction {
    /// Print the text.
    Show(String),
    /// The restore was not agreed to: print `aborted`.
    Aborted,
    /// Carry out the operations, then print the text.
    Apply { ops: Vec<FileOp>, text: String },
}

/// Decide a `dsw backup` subcommand: `list` shows the backups, newest
/// first; `restore` asks first unless `--yes` was given, then puts the
/// backup's files in place of the live ones; `prune` removes all but the
/// `keep` newest backups.
pub fn run(paths: &Paths, args: &BackupArgs, facts: BackupFacts) -> (r: Result<
    BackupAction,
    BackupError,
>)
    ensures
        args.command is List ==> (r matches Ok(BackupAction::Show(t)) && exists|es: Seq<BackupEntry>|
            #[trigger] is_listing(*paths, facts.entries@, es) && t@ == spec_list_text(es)),
        args.command matches BackupCommand::Restore { id, yes } ==> {
            let agreed = yes || (facts.answer matches Some(a) && agrees(a@));
            &&& !agreed ==> (r matches Ok(BackupAction::Aborted))
            &&& agreed && !facts.target_is_dir ==> r == Err::<BackupAction, BackupError>(
                BackupError::NotFound,
            )
            &&& agreed && facts.target_is_dir ==> (r matches Ok(BackupAction::Apply { ops, text })
                && ops_view(ops@) == restore_ops(id@, facts.target_present@) && text@
                == "restored backup "@ + id@)
        },
        args.command matches BackupCommand::Prune { keep } ==> (r matches Ok(
            BackupAction::Apply { ops, text },
        ) && is_pruning(facts.entries@, keep, ops@) && text@ == "pruned "@ + decimal(ops@.len())
            + " backup(s); kept "@ + decimal(keep as nat) + " most recent"@),
{
    match &args.command {
        BackupCommand::List => {
            let entries = backup::list(paths, facts.entries);
            let t = list_text(&entries);
            proof {
                assert(is_listing(*paths, facts.entries@, entries@));
            }
            Ok(BackupAction::Show(t))
        },
        BackupCommand::Restore { id, yes } => {
            let agreed = *yes || match &facts.answer {
                Some(a) => confirmed(a.as_str()),
                None => false,
            };
            if !agreed {
                return Ok(BackupAction::Aborted);
            }
            let ops = backup::restore(id.as_str(), facts.target_is_dir, facts.target_present.as_slice())?;
            Ok(BackupAction::Apply { ops, text: restored_text(id.as_str()) })
        },
        BackupCommand::Prune { keep } => {
            let p = backup::prune(paths, facts.entries, *keep);
            let text = prune_message(p.removed, *keep);
            Ok(BackupAction::Apply { ops: p.ops, text })
        },
    }
}

} // verus!

//! Whole commands played against an in-memory file system: the library
//! decides, these helpers carry out its file operations the way the
//! program does, and the outputs are the library's texts.

use std::collections::{BTreeMap, BTreeSet};

use dsw::backup::{self, BackupError, BackupMeta, RawBackup};
use dsw::cli::{
    AddArgs, BackupArgs, BackupCommand, ImportArgs, InitArgs, RemoveArgs, RenameArgs, SyncArgs,
};
use dsw::commands;
use dsw::commands::add::{Seen, Watch};
use dsw::commands::backup::{BackupAction, BackupFacts};
use dsw::commands::init::InitPlan;
use dsw::commands::list::ProfileRow;
use dsw::commands::remove::RemovePlan;
use dsw::commands::sync::{SavedProfile, SyncError, SyncPlan};
use dsw::commands::use_::{Switch, SwitchFacts};
use dsw::factory::Identity;
use dsw::paths::{Paths, AUTH_FILE_COUNT};
use dsw::profile::{self, DirEntry, ProfileError, Snapshot};
use dsw::state::State;
use dsw::store::{FileOp, Place};

const EXP: i64 = 1_900_000_000;

fn key(p: &Place) -> String {
    match p {
        Place::Live => "live".to_string(),
        Place::Profile(n) => format!("profile/{n}"),
        Place::Backup(id) => format!("backup/{id}"),
    }
}

/// The auth files and directories of a machine, and the backups' metas.
#[derive(Default, Clone, PartialEq, Debug)]
struct MemDisk {
    files: BTreeMap<(String, usize), Vec<u8>>,
    dirs: BTreeSet<String>,
    metas: BTreeMap<String, BackupMeta>,
}

impl MemDisk {
    /// Carry out the operations in order, stopping at the first failure of
    /// one that must succeed.
    fn run(&mut self, ops: &[FileOp]) -> Result<(), String> {
        for op in ops {
            match op {
                FileOp::MakeDir { place, .. } => {
                    self.dirs.insert(key(place));
                }
                FileOp::Copy { file, from, to } => {
                    let bytes = self
                        .files
                        .get(&(key(from), *file))
                        .cloned()
                        .ok_or_else(|| format!("copy from {}: no such file", key(from)))?;
                    self.dirs.insert(key(to));
                    self.files.insert((key(to), *file), bytes);
                }
                FileOp::Remove { file, at } => {
                    self.files.remove(&(key(at), *file));
                }
                FileOp::RemoveDir {
                    place,
                    must_succeed,
                } => {
                    let k = key(place);
                    if !self.dirs.remove(&k) {
                        if *must_succeed {
                            return Err(format!("remove {k}: no such directory"));
                        }
                        continue;
                    }
                    for i in 0..AUTH_FILE_COUNT {
                        self.files.remove(&(k.clone(), i));
                    }
                    self.metas.remove(&k);
                }
                FileOp::RenameDir { from, to } => {
                    let (f, t) = (key(from), key(to));
                    if !self.dirs.remove(&f) {
                        return Err(format!("rename {f}: no such directory"));
                    }
                    self.dirs.insert(t.clone());
                    for i in 0..AUTH_FILE_COUNT {
                        if let Some(b) = self.files.remove(&(f.clone(), i)) {
                            self.files.insert((t.clone(), i), b);
                        }
                    }
                }
                FileOp::WriteMeta { place, meta } => {
                    let k = key(place);
                    if !self.dirs.contains(&k) {
                        return Err(format!("write meta in {k}: no such directory"));
                    }
                    self.metas.insert(k, meta.clone());
                }
            }
        }
        Ok(())
    }

    fn present(&self, p: &Place) -> Vec<bool> {
        (0..AUTH_FILE_COUNT)
            .map(|i| self.files.contains_key(&(key(p), i)))
            .collect()
    }

    fn is_dir(&self, p: &Place) -> bool {
        self.dirs.contains(&key(p))
    }

    fn file(&self, p: &Place, i: usize) -> Option<Vec<u8>> {
        self.files.get(&(key(p), i)).cloned()
    }
}

/// A dsw home and a Factory directory in memory. Auth files hold the
/// account's email as their text; the identity of a bundle is read from
/// `auth.v2.file` when the v2 pair is there, else from `auth.encrypted`.
struct Machine {
    disk: MemDisk,
    state: State,
    paths: Paths,
    /// Bumped on each write of the live bundle, as a file's mtime would be.
    live_mtime: u128,
}

impl Machine {
    fn new() -> Self {
        let mut disk = MemDisk::default();
        disk.dirs.insert(key(&Place::Live));
        Machine {
            disk,
            state: State::empty(),
            paths: Paths::new("/m/dsw".to_string(), "/m/factory".to_string()),
            live_mtime: 1,
        }
    }

    fn write_live(&mut self, email: &str) {
        for i in 0..AUTH_FILE_COUNT {
            self.disk.files.remove(&(key(&Place::Live), i));
        }
        self.disk
            .files
            .insert(("live".to_string(), 0), email.as_bytes().to_vec());
        self.disk
            .files
            .insert(("live".to_string(), 1), b"key".to_vec());
        self.live_mtime += 1;
    }

    fn write_legacy_live(&mut self, email: &str) {
        self.disk
            .files
            .insert(("live".to_string(), 2), email.as_bytes().to_vec());
    }

    fn wipe_live(&mut self) {
        for i in 0..AUTH_FILE_COUNT {
            self.disk.files.remove(&(key(&Place::Live), i));
        }
    }

    fn identity(&self, p: &Place) -> Identity {
        let pr = self.disk.present(p);
        let from = if pr[0] && pr[1] {
            Some(0)
        } else if pr[2] {
            Some(2)
        } else {
            None
        };
        match from {
            Some(i) => Identity {
                email: Some(String::from_utf8(self.disk.file(p, i).unwrap()).unwrap()),
                subject: Some("user_test".to_string()),
                expires_at: Some(EXP),
            },
            None => Identity::unknown(),
        }
    }

    fn shown(&self, p: &Place) -> String {
        commands::fmt_identity(&self.identity(p)).unwrap()
    }

    fn profile_names(&self) -> Vec<String> {
        let entries = self
            .disk
            .dirs
            .iter()
            .filter_map(|d| d.strip_prefix("profile/"))
            .map(|n| DirEntry {
                name: Some(n.to_string()),
                is_dir: true,
            })
            .collect();
        profile::list(entries)
    }

    fn backups(&self) -> Vec<RawBackup> {
        self.disk
            .dirs
            .iter()
            .filter_map(|d| d.strip_prefix("backup/"))
            .map(|id| RawBackup {
                id: id.to_string(),
                is_dir: true,
                meta: self.disk.metas.get(&format!("backup/{id}")).cloned(),
            })
            .collect()
    }

    fn run_snapshot(&mut self, name: &str, s: Snapshot) -> Result<usize, String> {
        self.disk.run(&s.ops)?;
        s.outcome
            .map_err(|e| e.message(name, name, &self.paths.factory))
    }

    fn import(&mut self, name: &str, force: bool) -> Result<String, String> {
        let args = ImportArgs {
            name: name.to_string(),
            force,
        };
        let exists = self.disk.is_dir(&Place::Profile(name.to_string()));
        let live = self.disk.present(&Place::Live);
        let s = commands::import::run(&args, exists, &live).map_err(|e| e.message(name))?;
        self.run_snapshot(name, s)?;
        self.state.activate(name);
        let shown = self.shown(&Place::Profile(name.to_string()));
        Ok(commands::import::saved_text(name, &shown))
    }

    fn use_(&mut self, target: &str) -> Result<String, String> {
        let target_place = Place::Profile(target.to_string());
        let prev_is_dir = match &self.state.active {
            Some(p) => self.disk.is_dir(&Place::Profile(p.clone())),
            None => false,
        };
        let facts = SwitchFacts {
            target_is_dir: self.disk.is_dir(&target_place),
            target_present: self.disk.present(&target_place),
            prev_is_dir,
            live_present: self.disk.present(&Place::Live),
            live_email: self.identity(&Place::Live).email,
        };
        let plan = match commands::use_::run(target, &self.state, facts) {
            Err(e) => return Err(e.message(target)),
            Ok(Switch::AlreadyActive) => {
                return Ok(commands::use_::already_text(target, &self.shown(&Place::Live)))
            }
            Ok(Switch::Go(plan)) => plan,
        };
        if let Some(b) = &plan.backup {
            self.disk.run(&b.ops)?;
        }
        let _ = self.disk.run(&plan.refresh);
        let restored = match plan.restore {
            Ok(ops) => self.disk.run(&ops),
            Err(e) => Err(e.message(target, target, &self.paths.factory)),
        };
        if let Err(e) = restored {
            let _ = self.disk.run(&plan.rollback);
            return Err(format!("switch failed; rolled back to backup: {e}"));
        }
        self.state.activate(target);
        let backup_id = plan.backup.map(|b| b.id);
        Ok(commands::use_::switched_text(
            target,
            &self.shown(&Place::Live),
            &backup_id,
        ))
    }

    fn rows(&self) -> Vec<ProfileRow> {
        let profiles = self
            .profile_names()
            .into_iter()
            .map(|n| {
                let id = self.identity(&Place::Profile(n.clone()));
                (n, id)
            })
            .collect();
        commands::list::rows(&self.state, profiles)
    }

    fn list(&self) -> String {
        let rows = self.rows();
        if rows.is_empty() {
            let live = self.disk.present(&Place::Live);
            return commands::list::empty_text(&self.paths.factory, commands::has_live_login(&live));
        }
        commands::list::table(&rows).unwrap()
    }

    fn list_json(&self) -> String {
        let rows: Vec<serde_json::Value> = self
            .rows()
            .into_iter()
            .map(|r| {
                let mut o = serde_json::Map::new();
                o.insert("name".to_string(), serde_json::Value::String(r.name));
                o.insert("active".to_string(), serde_json::Value::Bool(r.active));
                o.insert(
                    "email".to_string(),
                    r.email
                        .map(serde_json::Value::String)
                        .unwrap_or(serde_json::Value::Null),
                );
                o.insert(
                    "expires_at".to_string(),
                    commands::list::expiry_rfc3339(r.expires_at)
                        .map(serde_json::Value::String)
                        .unwrap_or(serde_json::Value::Null),
                );
                serde_json::Value::Object(o)
            })
            .collect();
        serde_json::to_string_pretty(&serde_json::Value::Array(rows)).unwrap()
    }

    fn status(&self) -> String {
        commands::status::text(
            &self.state,
            &self.identity(&Place::Live),
            &self.paths.factory,
            &self.paths.home,
        )
        .unwrap()
    }

    fn sync(&mut self, all: bool) -> Result<String, String> {
        let args = SyncArgs { all };
        let active_is_dir = match &self.state.active {
            Some(a) => self.disk.is_dir(&Place::Profile(a.clone())),
            None => false,
        };
        let live = self.identity(&Place::Live);
        let saved = if all {
            self.profile_names()
                .into_iter()
                .map(|name| {
                    let identity = self.identity(&Place::Profile(name.clone()));
                    SavedProfile { name, identity }
                })
                .collect()
        } else {
            Vec::new()
        };
        let present = self.disk.present(&Place::Live);
        let plan = commands::sync::run(&args, &self.state, &present, active_is_dir, &live, saved)
            .map_err(|e| e.message(&self.state.active, &self.paths.factory))?;
        match plan {
            SyncPlan::Active { name, snapshot } => {
                self.run_snapshot(&name, snapshot)?;
                let shown = self.shown(&Place::Profile(name.clone()));
                Ok(commands::sync::synced_text(&name, &shown))
            }
            SyncPlan::All { snapshots } => {
                let mut synced = Vec::new();
                for (name, s) in snapshots {
                    self.run_snapshot(&name, s)?;
                    synced.push(name);
                }
                Ok(commands::sync::synced_all_text(
                    &synced,
                    &commands::fmt_identity(&live).unwrap(),
                ))
            }
        }
    }

    fn remove(&mut self, name: &str, yes: bool, answer: Option<&str>) -> Result<String, String> {
        let args = RemoveArgs {
            name: name.to_string(),
            yes,
        };
        let is_dir = self.disk.is_dir(&Place::Profile(name.to_string()));
        let plan = commands::remove::run(&args, answer.map(str::to_string), is_dir, &mut self.state)
            .map_err(|e| e.message(name, name, &self.paths.factory))?;
        match plan {
            RemovePlan::Aborted => Ok(commands::aborted_text().to_string()),
            RemovePlan::Remove { ops, .. } => {
                self.disk.run(&ops)?;
                Ok(commands::remove::removed_text(name))
            }
        }
    }

    fn rename(&mut self, old: &str, new: &str) -> Result<String, String> {
        let args = RenameArgs {
            old: old.to_string(),
            new: new.to_string(),
        };
        let old_is_dir = self.disk.is_dir(&Place::Profile(old.to_string()));
        let new_exists = self.disk.is_dir(&Place::Profile(new.to_string()));
        let plan = commands::rename::run(&args, old_is_dir, new_exists, &mut self.state)
            .map_err(|e| e.message(old, new, &self.paths.factory))?;
        self.disk.run(&plan.ops)?;
        Ok(commands::rename::renamed_text(old, new))
    }

    fn add_no_login(&mut self, name: &str) -> Result<String, String> {
        let args = AddArgs {
            name: name.to_string(),
            no_login: true,
        };
        let exists = self.disk.is_dir(&Place::Profile(name.to_string()));
        commands::add::check(&args, exists).map_err(|e| e.message(name))?;
        self.finish_add(name)
    }

    fn finish_add(&mut self, name: &str) -> Result<String, String> {
        let live = self.disk.present(&Place::Live);
        let s = profile::snapshot_live(name, &live);
        self.run_snapshot(name, s)?;
        self.state.activate(name);
        let shown = self.shown(&Place::Profile(name.to_string()));
        Ok(commands::add::saved_text(name, &shown))
    }

    /// `add` with a login: `droid` runs while `login` plays the user (it
    /// may write a new live bundle); then the watcher's verdict decides.
    fn add_with_login(
        &mut self,
        name: &str,
        login: impl FnOnce(&mut Machine),
    ) -> Result<String, String> {
        let args = AddArgs {
            name: name.to_string(),
            no_login: false,
        };
        let exists = self.disk.is_dir(&Place::Profile(name.to_string()));
        commands::add::check(&args, exists).map_err(|e| e.message(name))?;
        let before = self.identity(&Place::Live);
        let before_mtime = self.disk.present(&Place::Live)[0].then_some(self.live_mtime);
        let rescue_dir = self.disk.is_dir(&Place::Profile(
            commands::add::rescue_profile().to_string(),
        ));
        let rescue = commands::add::rescue(
            &before.email,
            rescue_dir,
            &self.disk.present(&Place::Live),
        );
        let _ = self.disk.run(&rescue);
        login(self);
        let now_mtime = self.disk.present(&Place::Live)[0].then_some(self.live_mtime);
        let now = self.identity(&Place::Live);
        // One poll while `droid` runs; then the settle check, or, once
        // `droid` has exited, the stop.
        let poll = Seen::Poll {
            mtime: now_mtime,
            email: now.email,
        };
        let mut state = commands::add::watch_step(before_mtime, &before.email, Watch::Polling, poll);
        let next = if state == Watch::Settling {
            Seen::AfterSettle {
                live_present: self.disk.present(&Place::Live),
            }
        } else {
            Seen::Stop
        };
        state = commands::add::watch_step(before_mtime, &before.email, state, next);
        if state != (Watch::Done { detected: true }) {
            return Err(commands::add::AddError::NoNewLogin.message(name));
        }
        self.finish_add(name)
    }

    fn backup(&mut self, command: BackupCommand, answer: Option<&str>) -> Result<String, String> {
        let mut facts = BackupFacts {
            entries: self.backups(),
            target_is_dir: false,
            target_present: Vec::new(),
            answer: answer.map(str::to_string),
        };
        let mut id_asked = String::new();
        if let BackupCommand::Restore { id, .. } = &command {
            let place = Place::Backup(id.clone());
            facts.target_is_dir = self.disk.is_dir(&place);
            facts.target_present = self.disk.present(&place);
            id_asked = id.clone();
        }
        let args = BackupArgs { command };
        match commands::backup::run(&self.paths, &args, facts).map_err(|e| e.message(&id_asked))? {
            BackupAction::Show(t) => Ok(t),
            BackupAction::Aborted => Ok(commands::aborted_text().to_string()),
            BackupAction::Apply { ops, text } => {
                self.disk.run(&ops)?;
                Ok(text)
            }
        }
    }

    fn onboarding(&self) -> String {
        let live = self.disk.present(&Place::Live);
        commands::onboarding(&self.paths.factory, commands::has_live_login(&live))
    }
}

fn profile_file(sb: &Machine, name: &str) -> Vec<u8> {
    sb.disk.file(&Place::Profile(name.to_string()), 0).unwrap()
}

fn live_file(sb: &Machine) -> Vec<u8> {
    sb.disk.file(&Place::Live, 0).unwrap()
}

// ---------------------------------------------------------------------------
// Profiles
// ---------------------------------------------------------------------------

#[test]
fn snapshot_then_restore() {
    let mut sb = Machine::new();
    sb.write_live("a@x.com");
    let s = profile::snapshot_live("main", &sb.disk.present(&Place::Live));
    let copied = sb.run_snapshot("main", s).unwrap();
    assert_eq!(copied, 2); // auth.v2.file + auth.v2.key

    sb.wipe_live();
    let ops = profile::restore_to_live("main", true, &sb.disk.present(&Place::Profile("main".into())))
        .unwrap();
    // The live directory is created as it is, not restricted.
    assert_eq!(
        ops[0],
        FileOp::MakeDir {
            place: Place::Live,
            private: false
        }
    );
    sb.disk.run(&ops).unwrap();
    assert_eq!(sb.disk.present(&Place::Live), vec![true, true, false]);
    assert_eq!(live_file(&sb), b"a@x.com".to_vec());
}

#[test]
fn snapshot_errors_when_no_live_auth() {
    let mut sb = Machine::new();
    let s = profile::snapshot_live("main", &sb.disk.present(&Place::Live));
    let err = sb.run_snapshot("main", s).unwrap_err();
    assert!(err.contains("no auth files"));
    // The emptied profile directory was rolled back.
    assert!(!sb.disk.is_dir(&Place::Profile("main".into())));
}

#[test]
fn restore_errors_for_missing_profile() {
    let sb = Machine::new();
    let err = profile::restore_to_live("nope", false, &[false, false, false]).unwrap_err();
    assert_eq!(err, ProfileError::NotFound);
    assert!(err.message("nope", "nope", &sb.paths.factory).contains("does not exist"));
}

#[test]
fn list_sorted() {
    let mut sb = Machine::new();
    for name in ["work", "main", "client-1"] {
        sb.write_live(&format!("{name}@x.com"));
        let s = profile::snapshot_live(name, &sb.disk.present(&Place::Live));
        sb.run_snapshot(name, s).unwrap();
    }
    assert_eq!(sb.profile_names(), vec!["client-1", "main", "work"]);
}

#[test]
fn rename_works() {
    let mut sb = Machine::new();
    sb.write_live("a@x.com");
    let s = profile::snapshot_live("old", &sb.disk.present(&Place::Live));
    sb.run_snapshot("old", s).unwrap();
    let ops = profile::rename("old", "new", true, false).unwrap();
    sb.disk.run(&ops).unwrap();
    assert_eq!(sb.profile_names(), vec!["new"]);
}

#[test]
fn rename_collision() {
    let mut sb = Machine::new();
    sb.write_live("a@x.com");
    for name in ["a", "b"] {
        let s = profile::snapshot_live(name, &sb.disk.present(&Place::Live));
        sb.run_snapshot(name, s).unwrap();
    }
    let err = sb.rename("a", "b").unwrap_err();
    assert!(err.contains("already exists"));
    assert_eq!(profile::rename("a", "b", true, true), Err(ProfileError::AlreadyExists));
}

#[test]
fn restore_removes_stale_files() {
    let mut sb = Machine::new();
    sb.write_live("a@x.com");
    let s = profile::snapshot_live("p1", &sb.disk.present(&Place::Live));
    sb.run_snapshot("p1", s).unwrap();
    sb.disk
        .files
        .insert(("live".to_string(), 2), b"stale".to_vec());
    let ops = profile::restore_to_live("p1", true, &sb.disk.present(&Place::Profile("p1".into())))
        .unwrap();
    sb.disk.run(&ops).unwrap();
    assert!(sb.disk.file(&Place::Live, 2).is_none());
}

#[test]
fn snapshot_drops_stale_profile_files() {
    let mut sb = Machine::new();
    sb.write_live("a@x.com");
    sb.write_legacy_live("a@x.com");
    let s = profile::snapshot_live("p", &sb.disk.present(&Place::Live));
    assert_eq!(sb.run_snapshot("p", s), Ok(3));
    sb.write_live("b@x.com");
    let s = profile::snapshot_live("p", &sb.disk.present(&Place::Live));
    assert_eq!(sb.run_snapshot("p", s), Ok(2));
    assert_eq!(
        sb.disk.present(&Place::Profile("p".into())),
        vec![true, true, false]
    );
}

#[test]
fn profile_errors_and_messages() {
    assert_eq!(
        profile::snapshot_live("Bad", &[true, true, true]).outcome,
        Err(ProfileError::Name(dsw::paths::NameError::BadChar('B')))
    );
    assert!(profile::snapshot_live("Bad", &[true, true, true]).ops.is_empty());
    assert_eq!(profile::remove("gone", false).unwrap_err(), ProfileError::NotFound);
    assert_eq!(
        profile::rename("a", "-b", true, false),
        Err(ProfileError::NewName(dsw::paths::NameError::DashAtEdge))
    );
    assert_eq!(profile::rename("a", "b", false, false), Err(ProfileError::NotFound));
    assert_eq!(
        ProfileError::NotFound.message("nope", "x", "/f"),
        "profile \"nope\" does not exist"
    );
    assert_eq!(
        ProfileError::AlreadyExists.message("a", "b", "/f"),
        "profile \"b\" already exists"
    );
    assert_eq!(
        ProfileError::NoAuthFiles.message("a", "a", "/f"),
        "no auth files found in /f - log in with `droid` first"
    );
    assert_eq!(
        ProfileError::NewName(dsw::paths::NameError::Length).message("a", "", "/f"),
        "profile name must be 1..=64 chars: \"\""
    );
}

#[test]
fn listing_skips_files_and_bad_names() {
    let entries = vec![
        DirEntry {
            name: Some("zeta".to_string()),
            is_dir: true,
        },
        DirEntry {
            name: Some("notes.txt".to_string()),
            is_dir: false,
        },
        DirEntry {
            name: Some("Bad Name".to_string()),
            is_dir: true,
        },
        DirEntry {
            name: None,
            is_dir: true,
        },
        DirEntry {
            name: Some("alpha".to_string()),
            is_dir: true,
        },
        DirEntry {
            name: Some("_pre_add".to_string()),
            is_dir: true,
        },
    ];
    assert_eq!(profile::list(entries), vec!["alpha", "zeta"]);
}

// ---------------------------------------------------------------------------
// Backups
// ---------------------------------------------------------------------------

#[test]
fn create_and_list_and_restore() {
    let mut sb = Machine::new();
    sb.write_live("a@x.com");
    let b = backup::create(
        Some("main".to_string()),
        &sb.disk.present(&Place::Live),
        sb.identity(&Place::Live).email,
    )
    .unwrap()
    .unwrap();
    sb.disk.run(&b.ops).unwrap();
    let place = Place::Backup(b.id.clone());
    assert!(sb.disk.file(&place, 0).is_some());
    assert!(matches!(b.ops[0], FileOp::MakeDir { private: false, .. }));
    assert!(sb.disk.metas.contains_key(&key(&place)));

    // Mutate live, then restore.
    sb.disk
        .files
        .insert(("live".to_string(), 0), b"broken".to_vec());
    let ops = backup::restore(&b.id, sb.disk.is_dir(&place), &sb.disk.present(&place)).unwrap();
    sb.disk.run(&ops).unwrap();
    assert_ne!(live_file(&sb), b"broken".to_vec());

    let entries = backup::list(&sb.paths, sb.backups());
    assert_eq!(entries.len(), 1);
    assert_eq!(entries[0].id, b.id);
    assert_eq!(
        entries[0].meta.as_ref().unwrap().previous_profile.as_deref(),
        Some("main")
    );
    assert_eq!(entries[0].path, format!("/m/dsw/backups/{}", b.id));
    assert_eq!(sb.paths.backup_dir(&b.id), format!("{}/{}", sb.paths.backups_dir(), b.id));
}

#[test]
fn create_noop_without_live_files() {
    assert!(backup::create(None, &[false, false, false], None).unwrap().is_none());
}

#[test]
fn backup_ids_are_timestamps() {
    let b = backup::create(None, &[false, false, true], None).unwrap().unwrap();
    // `%Y%m%dT%H%M%S%3fZ`
    assert_eq!(b.id.len(), 19);
    assert_eq!(&b.id[8..9], "T");
    assert!(b.id.ends_with('Z'));
    assert!(b.id[..8].chars().all(|c| c.is_ascii_digit()));
    assert!(b.id[9..18].chars().all(|c| c.is_ascii_digit()));
    assert!(b.id.starts_with("20"));
    assert_eq!(
        BackupError::Clock.message("x"),
        "the system clock is set outside the years 1970 to 9999"
    );
}

#[test]
fn prune_keeps_n_newest() {
    let mut sb = Machine::new();
    sb.write_live("a@x.com");
    for i in 0..5 {
        let id = format!("20260101T00000{i}000Z");
        let plan = backup::plan_backup(id, None, &sb.disk.present(&Place::Live), None);
        sb.disk.run(&plan.ops).unwrap();
    }
    assert_eq!(backup::list(&sb.paths, sb.backups()).len(), 5);
    let p = backup::prune(&sb.paths, sb.backups(), 2);
    assert_eq!(p.removed, 3);
    sb.disk.run(&p.ops).unwrap();
    let left: Vec<String> = backup::list(&sb.paths, sb.backups())
        .into_iter()
        .map(|e| e.id)
        .collect();
    assert_eq!(left, vec!["20260101T000004000Z", "20260101T000003000Z"]);
    // A second prune removes nothing, and the logins are untouched.
    let again = backup::prune(&sb.paths, sb.backups(), 2);
    assert_eq!(again.removed, 0);
    assert!(again.ops.is_empty());
    assert_eq!(live_file(&sb), b"a@x.com".to_vec());
}

#[test]
fn prune_keeping_more_than_exist_removes_nothing() {
    let raw = vec![RawBackup {
        id: "x".to_string(),
        is_dir: true,
        meta: None,
    }];
    let p = backup::prune(&Paths::new("/h".into(), "/f".into()), raw, 10);
    assert_eq!(p.removed, 0);
    assert!(p.ops.is_empty());
}

#[test]
fn backup_list_ignores_files_and_orders_newest_first() {
    let raw = vec![
        RawBackup {
            id: "20260101T000000000Z".to_string(),
            is_dir: true,
            meta: None,
        },
        RawBackup {
            id: "stray.txt".to_string(),
            is_dir: false,
            meta: None,
        },
        RawBackup {
            id: "20270101T000000000Z".to_string(),
            is_dir: true,
            meta: None,
        },
    ];
    let ids: Vec<String> = backup::list(&Paths::new("/h".into(), "/f".into()), raw)
        .into_iter()
        .map(|e| e.id)
        .collect();
    assert_eq!(ids, vec!["20270101T000000000Z", "20260101T000000000Z"]);
}

#[test]
fn backup_commands() {
    let mut sb = Machine::new();
    assert_eq!(sb.backup(BackupCommand::List, None).unwrap(), "no backups\n");
    sb.write_live("a@x.com");
    let plan = backup::plan_backup(
        "20260101T000000000Z".to_string(),
        Some("main".to_string()),
        &sb.disk.present(&Place::Live),
        Some("a@x.com".to_string()),
    );
    sb.disk.run(&plan.ops).unwrap();
    let listed = sb.backup(BackupCommand::List, None).unwrap();
    assert!(listed.contains("20260101T000000000Z"));
    assert!(listed.contains("main"));
    assert!(listed.contains("a@x.com"));

    sb.write_live("b@x.com");
    let restore = |yes| BackupCommand::Restore {
        id: "20260101T000000000Z".to_string(),
        yes,
    };
    assert_eq!(sb.backup(restore(false), Some("n\n")).unwrap(), "aborted");
    assert_eq!(live_file(&sb), b"b@x.com".to_vec());
    assert_eq!(
        sb.backup(restore(false), Some(" YES \n")).unwrap(),
        "restored backup 20260101T000000000Z"
    );
    assert_eq!(live_file(&sb), b"a@x.com".to_vec());
    let missing = BackupCommand::Restore {
        id: "nope".to_string(),
        yes: true,
    };
    assert_eq!(sb.backup(missing, None).unwrap_err(), "backup \"nope\" not found");
    assert_eq!(BackupError::NotFound.message("x"), "backup \"x\" not found");
    assert_eq!(
        sb.backup(BackupCommand::Prune { keep: 0 }, None).unwrap(),
        "pruned 1 backup(s); kept 0 most recent"
    );
    assert_eq!(sb.backup(BackupCommand::List, None).unwrap(), "no backups\n");
}

// ---------------------------------------------------------------------------
// The commands, as the command line runs them
// ---------------------------------------------------------------------------

#[test]
fn import_then_status_then_list() {
    let mut sb = Machine::new();
    sb.write_live("alice@example.com");
    assert!(sb.import("main", false).unwrap().contains("alice@example.com"));
    let status = sb.status();
    assert!(status.contains("alice@example.com"));
    assert!(status.contains("main"));
    let list = sb.list();
    assert!(list.contains("main"));
    assert!(list.contains("alice@example.com"));
}

#[test]
fn no_args_suggests_import_when_live_login_exists() {
    let mut sb = Machine::new();
    sb.write_live("alice@example.com");
    assert!(sb.onboarding().contains("dsw import main"));
}

#[test]
fn no_args_suggests_login_when_no_live_login_exists() {
    let sb = Machine::new();
    let out = sb.onboarding();
    assert!(out.contains("No Droid login was found"));
    assert!(out.contains("droid"));
    assert!(out.contains("dsw add main"));
}

#[test]
fn empty_list_suggests_import_when_live_login_exists() {
    let mut sb = Machine::new();
    sb.write_live("alice@example.com");
    let out = sb.list();
    assert!(out.contains("No profiles yet"));
    assert!(out.contains("dsw import main"));
}

#[test]
fn empty_list_suggests_login_when_no_live_login_exists() {
    let sb = Machine::new();
    let out = sb.list();
    assert!(out.contains("No Droid login was found"));
    assert!(out.contains("dsw add main"));
}

#[test]
fn switch_between_two_profiles_round_trips() {
    let mut sb = Machine::new();
    sb.write_live("alice@example.com");
    sb.import("main", false).unwrap();
    let alice_bytes = live_file(&sb);

    sb.write_live("bob@example.com");
    sb.import("work", false).unwrap();
    let bob_bytes = live_file(&sb);
    assert_ne!(alice_bytes, bob_bytes);

    assert!(sb.use_("main").unwrap().contains("alice@example.com"));
    assert_eq!(live_file(&sb), alice_bytes);

    assert!(sb.use_("work").unwrap().contains("bob@example.com"));
    assert_eq!(live_file(&sb), bob_bytes);
}

#[test]
fn use_unknown_profile_errors() {
    let mut sb = Machine::new();
    assert!(sb.use_("nope").unwrap_err().contains("does not exist"));
}

#[test]
fn import_force_overwrites() {
    let mut sb = Machine::new();
    sb.write_live("alice@example.com");
    sb.import("main", false).unwrap();
    sb.write_live("bob@example.com");
    assert!(sb.import("main", false).unwrap_err().contains("already exists"));
    sb.import("main", true).unwrap();
    assert!(sb.list().contains("bob@example.com"));
}

#[test]
fn rename_updates_active_marker() {
    let mut sb = Machine::new();
    sb.write_live("alice@example.com");
    sb.import("main", false).unwrap();
    assert_eq!(sb.rename("main", "personal").unwrap(), "renamed 'main' -> 'personal'");
    assert!(sb.status().contains("personal"));
}

#[test]
fn remove_yes_clears_active() {
    let mut sb = Machine::new();
    sb.write_live("alice@example.com");
    sb.import("main", false).unwrap();
    assert_eq!(sb.remove("main", true, None).unwrap(), "removed profile 'main'");
    assert_eq!(sb.state.active, None);
    assert!(sb.list().contains("No profiles yet"));
}

#[test]
fn remove_asks_first() {
    let mut sb = Machine::new();
    sb.write_live("alice@example.com");
    sb.import("main", false).unwrap();
    assert_eq!(
        commands::remove::prompt_text("main"),
        "delete profile \"main\"? [y/N] "
    );
    assert_eq!(sb.remove("main", false, Some("no\n")).unwrap(), "aborted");
    assert_eq!(sb.remove("main", false, None).unwrap(), "aborted");
    assert_eq!(sb.state.active.as_deref(), Some("main"));
    assert_eq!(sb.remove("main", false, Some("y\n")).unwrap(), "removed profile 'main'");
    assert!(sb
        .remove("main", true, None)
        .unwrap_err()
        .contains("does not exist"));
}

#[test]
fn remove_of_inactive_profile_keeps_active() {
    let mut sb = Machine::new();
    sb.write_live("alice@example.com");
    sb.import("main", false).unwrap();
    sb.import("spare", false).unwrap();
    sb.use_("main").unwrap();
    sb.remove("spare", true, None).unwrap();
    assert_eq!(sb.state.active.as_deref(), Some("main"));
}

#[test]
fn legacy_only_bundle_still_identified() {
    let mut sb = Machine::new();
    sb.write_legacy_live("legacy@example.com");
    sb.import("old", false).unwrap();
    assert!(sb.status().contains("legacy@example.com"));
}

#[test]
fn switch_creates_backup() {
    let mut sb = Machine::new();
    sb.write_live("alice@example.com");
    sb.import("main", false).unwrap();
    sb.write_live("bob@example.com");
    sb.import("work", false).unwrap();
    let out = sb.use_("main").unwrap();
    assert!(out.contains("  backup: "));
    assert!(sb
        .backup(BackupCommand::List, None)
        .unwrap()
        .contains("bob@example.com"));
}

#[test]
fn switch_refreshes_previous_profile() {
    let mut sb = Machine::new();
    sb.write_live("alice@example.com");
    sb.import("main", false).unwrap();
    sb.write_live("bob@example.com");
    sb.import("work", false).unwrap();
    // Droid refreshed bob's token in-session.
    sb.write_live("bob@example.com");
    sb.disk
        .files
        .insert(("live".to_string(), 1), b"refreshed-key".to_vec());
    sb.use_("main").unwrap();
    assert_eq!(
        sb.disk.file(&Place::Profile("work".into()), 1),
        Some(b"refreshed-key".to_vec())
    );
}

#[test]
fn switch_rolls_back_when_restore_fails() {
    let mut sb = Machine::new();
    sb.write_live("alice@example.com");
    sb.import("main", false).unwrap();
    // A profile directory whose name the library refuses.
    sb.disk.dirs.insert("profile/Bad".to_string());
    let before = sb.disk.files.clone();
    let err = sb.use_("Bad").unwrap_err();
    assert!(err.contains("switch failed; rolled back to backup"));
    assert!(err.contains("profile name may only contain"));
    let live_now: Vec<_> = sb
        .disk
        .files
        .iter()
        .filter(|((p, _), _)| p == "live")
        .collect();
    let live_before: Vec<_> = before.iter().filter(|((p, _), _)| p == "live").collect();
    assert_eq!(live_now, live_before);
    assert_eq!(sb.state.active.as_deref(), Some("main"));
}

#[test]
fn list_json_is_parseable() {
    let mut sb = Machine::new();
    sb.write_live("alice@example.com");
    sb.import("main", false).unwrap();
    let v: serde_json::Value = serde_json::from_str(&sb.list_json()).unwrap();
    assert!(v.is_array());
    assert_eq!(v[0]["name"], "main");
    assert_eq!(v[0]["email"], "alice@example.com");
    assert_eq!(v[0]["active"], true);
    assert_eq!(v[0]["expires_at"], "2030-03-17T17:46:40+00:00");
}

#[test]
fn invalid_profile_name_rejected() {
    let mut sb = Machine::new();
    sb.write_live("alice@example.com");
    let err = sb.import("Bad Name", false).unwrap_err();
    assert!(err.contains("profile name"));
    assert_eq!(
        err,
        "profile name may only contain a-z 0-9 - _ (got 'B' in \"Bad Name\")"
    );
}

#[test]
fn use_same_profile_is_idempotent() {
    let mut sb = Machine::new();
    sb.write_live("alice@example.com");
    sb.import("main", false).unwrap();
    let before = sb.disk.clone();
    assert!(sb.use_("main").unwrap().contains("already on 'main'"));
    assert_eq!(sb.disk, before);
}

#[test]
fn sync_updates_active_profile_from_live_auth() {
    let mut sb = Machine::new();
    sb.write_live("alice@example.com");
    sb.import("main", false).unwrap();
    sb.write_live("alice.fresh@example.com");
    assert!(sb.sync(false).unwrap().contains("alice.fresh@example.com"));
    assert!(sb.list().contains("alice.fresh@example.com"));
}

#[test]
fn sync_requires_active_profile() {
    let mut sb = Machine::new();
    sb.write_live("alice@example.com");
    assert!(sb.sync(false).unwrap_err().contains("no active profile"));
}

#[test]
fn sync_requires_live_auth_without_deleting_profile() {
    let mut sb = Machine::new();
    sb.write_live("alice@example.com");
    sb.import("main", false).unwrap();
    sb.wipe_live();
    assert!(sb.sync(false).unwrap_err().contains("no auth files found"));
    assert!(sb.list().contains("alice@example.com"));
}

#[test]
fn sync_all_updates_matching_profiles_only() {
    let mut sb = Machine::new();
    sb.write_live("alice@example.com");
    sb.import("main", false).unwrap();
    sb.disk
        .files
        .insert(("profile/main".to_string(), 1), b"old-key".to_vec());
    let old_main_key = sb.disk.file(&Place::Profile("main".into()), 1);

    sb.write_live("bob@example.com");
    sb.import("work", false).unwrap();
    let old_work = profile_file(&sb, "work");

    sb.write_live("alice@example.com");
    assert!(sb
        .sync(true)
        .unwrap()
        .contains("1 matching profile(s): main"));
    assert_ne!(sb.disk.file(&Place::Profile("main".into()), 1), old_main_key);
    assert_eq!(profile_file(&sb, "main"), live_file(&sb));
    assert_eq!(profile_file(&sb, "work"), old_work);
}

#[test]
fn sync_all_does_not_require_active_profile() {
    let mut sb = Machine::new();
    sb.write_live("alice@example.com");
    assert!(sb.sync(true).unwrap().contains("no matching profiles"));
}

#[test]
fn sync_messages() {
    assert_eq!(
        SyncError::ActiveProfileMissing.message(&Some("gone".to_string()), "/f"),
        "active profile \"gone\" does not exist - run `dsw list` to see available profiles"
    );
    assert_eq!(
        SyncError::NoLiveAuth.message(&None, "/f"),
        "no auth files found in /f - start `droid` and log in first"
    );
    assert_eq!(
        SyncError::NoLiveIdentity.message(&None, "/f"),
        "live identity has no email or subject - cannot match profiles safely"
    );
    assert_eq!(
        commands::sync::synced_all_text(&vec!["a".to_string(), "b".to_string()], "x"),
        "synced current login to 2 matching profile(s): a, b  (x)"
    );
}

#[test]
fn add_no_login_just_snapshots() {
    let mut sb = Machine::new();
    sb.write_live("alice@example.com");
    assert!(sb.add_no_login("main").unwrap().contains("alice@example.com"));
    assert_eq!(sb.state.active.as_deref(), Some("main"));
    assert!(sb.add_no_login("main").unwrap_err().contains("already exists"));
}

#[test]
fn add_watcher_detects_login_and_snapshots() {
    let mut sb = Machine::new();
    sb.write_live("alice@example.com");
    let out = sb
        .add_with_login("bob", |sb| sb.write_live("bob@example.com"))
        .unwrap();
    assert!(out.contains("bob@example.com"));
    assert!(sb.list().contains("bob@example.com"));
    // The previous login was kept in the hidden rescue profile, which the
    // list does not show.
    assert_eq!(profile_file(&sb, "_pre_add"), b"alice@example.com".to_vec());
    assert!(!sb.list().contains("_pre_add"));
}

#[test]
fn add_watcher_fails_when_droid_exits_without_login() {
    let mut sb = Machine::new();
    sb.write_live("alice@example.com");
    let err = sb.add_with_login("newone", |_| {}).unwrap_err();
    assert!(err.contains("no new login detected"));
    assert!(sb.status().contains("alice@example.com"));
    // Logging in again to the same account is no new login either.
    let err = sb
        .add_with_login("again", |sb| sb.write_live("alice@example.com"))
        .unwrap_err();
    assert!(err.contains("no new login detected"));
}

#[test]
fn init_imports_when_asked() {
    let mut sb = Machine::new();
    let tip = commands::init::run(&InitArgs { import_as: None }, &sb.disk.present(&Place::Live));
    assert!(matches!(tip, InitPlan::Tip));
    let none = commands::init::run(
        &InitArgs {
            import_as: Some("main".to_string()),
        },
        &sb.disk.present(&Place::Live),
    );
    assert!(matches!(none, InitPlan::NoLiveLogin));
    sb.write_live("alice@example.com");
    match commands::init::run(
        &InitArgs {
            import_as: Some("main".to_string()),
        },
        &sb.disk.present(&Place::Live),
    ) {
        InitPlan::Import { name, snapshot } => {
            assert_eq!(name, "main");
            assert_eq!(sb.run_snapshot("main", snapshot), Ok(2));
        }
        other => panic!("unexpected plan {other:?}"),
    }
    assert_eq!(profile_file(&sb, "main"), b"alice@example.com".to_vec());
    assert_eq!(commands::init::created_text("/h"), "created /h");
    assert_eq!(
        commands::init::no_live_login_text("/f"),
        "no live login found in /f - skipping import"
    );
}

#[test]
fn list_hides_rescue_profile() {
    let mut sb = Machine::new();
    sb.write_live("a@x.com");
    for name in ["main", "_pre_add"] {
        let s = profile::snapshot_live(name, &sb.disk.present(&Place::Live));
        sb.run_snapshot(name, s).unwrap();
    }
    assert_eq!(sb.profile_names(), vec!["main"]);
    // `sync --all` does not write into the rescue profile either.
    sb.disk
        .files
        .insert(("profile/_pre_add".to_string(), 1), b"rescued-key".to_vec());
    assert!(sb.sync(true).unwrap().contains("1 matching profile(s): main"));
    assert_eq!(
        sb.disk.file(&Place::Profile("_pre_add".into()), 1),
        Some(b"rescued-key".to_vec())
    );
}

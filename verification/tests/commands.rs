use dsw::cli::{AddArgs, ImportArgs, SyncArgs};
use dsw::commands::add::{self, AddError, Seen, Watch};
use dsw::commands::doctor::{self, Check, DoctorFacts};
use dsw::commands::import::{self, ImportError};
use dsw::commands::list::{self, ProfileRow};
use dsw::commands::sync::{self, SavedProfile, SyncError, SyncPlan};
use dsw::commands::use_::{self, Switch, SwitchError, SwitchFacts};
use dsw::commands::{
    aborted_text, confirmed, fmt_expiry, fmt_expiry_at, fmt_identity, fmt_identity_at, onboarding,
    status,
};
use dsw::factory::Identity;
use dsw::paths::NameError;
use dsw::profile::ProfileError;
use dsw::state::State;
use dsw::store::{FileOp, Place};
use dsw::table::draw;
use dsw::text::{
    cat, cat3, decimal_string, join_with, lex_le_chars, octal_string, sort_strings, split_chars,
    str_eq, str_le, trim_chars, white_space,
};

const DAY: i64 = 86_400;

fn id(email: Option<&str>, sub: Option<&str>, exp: Option<i64>) -> Identity {
    Identity {
        email: email.map(str::to_string),
        subject: sub.map(str::to_string),
        expires_at: exp,
    }
}

#[test]
fn expiry_reads_days_then_hours() {
    let now = 1_000_000;
    assert_eq!(fmt_expiry_at(now, now, 0), "expired");
    assert_eq!(fmt_expiry_at(now - 5, now, 0), "expired");
    assert_eq!(fmt_expiry_at(now + 3 * DAY, now, 0), "expires in 3d");
    // A fraction of a second already gone leaves a little less than 3 days.
    assert_eq!(fmt_expiry_at(now + 3 * DAY, now, 1), "expires in 2d");
    assert_eq!(fmt_expiry_at(now + DAY, now, 0), "expires in 1d");
    assert_eq!(fmt_expiry_at(now + DAY - 1, now, 0), "expires in 23h");
    assert_eq!(fmt_expiry_at(now + 2 * 3600 + 59, now, 0), "expires in 2h");
    // Under an hour still reads as one hour.
    assert_eq!(fmt_expiry_at(now + 1, now, 0), "expires in 1h");
    assert_eq!(fmt_expiry_at(now + 1, now, 999_999_999), "expires in 1h");
}

#[test]
fn identity_reads_with_expiry() {
    let now = 1_000_000;
    assert_eq!(
        fmt_identity_at(&id(Some("a@x.com"), None, Some(now + 2 * DAY)), now, 0),
        "a@x.com  (expires in 2d)"
    );
    assert_eq!(fmt_identity_at(&id(None, Some("s"), None), now, 0), "s");
    assert_eq!(fmt_identity_at(&id(None, None, Some(1)), now, 0), "-  (expired)");
}

#[test]
fn prompt_answers() {
    for yes in ["y", "Y", "yes", "YES", "Yes", "  y\n", "yEs\r\n"] {
        assert!(confirmed(yes), "{yes:?}");
    }
    for no in ["", "n", "no", "ye", "yess", "y e s", "oui", "\n"] {
        assert!(!confirmed(no), "{no:?}");
    }
    assert_eq!(aborted_text(), "aborted");
}

#[test]
fn onboarding_texts() {
    assert_eq!(
        onboarding("/f", true),
        "Droid Switch (dsw)\n\nA Droid login was found in /f.\n\nStart by saving it as your main profile:\n  dsw import main\n\nUseful commands:\n  dsw list\n  dsw use <name>\n  dsw status\n"
    );
    let without = onboarding("/f", false);
    assert!(without.starts_with("Droid Switch (dsw)\n\nNo Droid login was found in /f."));
    assert!(without.contains("  droid\n  dsw import main\n"));
    assert!(without.contains("  dsw add main\n"));
    assert!(without.ends_with("  dsw status\n"));
}

#[test]
fn empty_list_texts() {
    assert_eq!(
        list::empty_text("/f", true),
        "No profiles yet.\n\nA Droid login was found in /f.\n\nSave it as your first profile:\n  dsw import main\n"
    );
    assert!(list::empty_text("/f", false).contains("No Droid login was found in /f."));
}

#[test]
fn status_text_lines() {
    let mut state = State::empty();
    let live = id(Some("a@x.com"), None, None);
    assert_eq!(
        status::text_at(&state, &live, "/f", "/h", 0, 0),
        "profile : (none)\nidentity: a@x.com\nfactory : /f\nhome    : /h\n"
    );
    state.activate("main");
    assert!(status::text_at(&state, &live, "/f", "/h", 0, 0).starts_with("profile : main\n"));
}

#[test]
fn rows_mark_active_and_hide_rescue_profile() {
    let mut state = State::empty();
    state.activate("work");
    let rows = list::rows(
        &state,
        vec![
            ("_pre_add".to_string(), id(Some("r@x.com"), None, None)),
            ("main".to_string(), id(Some("m@x.com"), None, Some(5))),
            ("work".to_string(), id(None, Some("s"), None)),
        ],
    );
    assert_eq!(
        rows,
        vec![
            ProfileRow {
                name: "main".to_string(),
                active: false,
                email: Some("m@x.com".to_string()),
                expires_at: Some(5),
            },
            ProfileRow {
                name: "work".to_string(),
                active: true,
                email: None,
                expires_at: None,
            },
        ]
    );
    let table = list::table_at(&rows, 10, 0);
    assert!(table.contains("main"));
    assert!(table.contains("m@x.com"));
    assert!(table.contains("expired"));
    assert!(table.contains("*"));
    assert_eq!(list::expiry_rfc3339(Some(0)).as_deref(), Some("1970-01-01T00:00:00+00:00"));
    assert_eq!(list::expiry_rfc3339(Some(i64::MAX)), None);
    assert_eq!(list::expiry_rfc3339(None), None);
}

#[test]
fn table_has_the_cells() {
    let t = draw(
        &vec!["a".to_string(), "b".to_string()],
        &vec![vec!["x".to_string(), "yy".to_string()]],
    );
    assert!(t.contains("a"));
    assert!(t.contains("yy"));
    assert!(t.contains("+"));
}

fn facts(live: Identity) -> DoctorFacts {
    DoctorFacts {
        droid_path: None,
        factory: "/f".to_string(),
        factory_is_dir: true,
        home: "/h".to_string(),
        home_is_dir: true,
        home_mode: Some(0o755),
        live,
        profiles: vec![
            ("main".to_string(), id(Some("m@x.com"), None, Some(50))),
            ("work".to_string(), id(None, None, None)),
        ],
    }
}

#[test]
fn doctor_checks() {
    let checks = doctor::checks_at(&facts(id(Some("a@x.com"), None, Some(200))), 100);
    let view: Vec<(&str, bool, &str)> = checks
        .iter()
        .map(|c| (c.name.as_str(), c.ok, c.detail.as_str()))
        .collect();
    assert_eq!(
        view,
        vec![
            ("droid binary", false, "not found on PATH (install Factory droid)"),
            ("factory dir", true, "/f"),
            ("dsw home", true, "/h"),
            ("home perms", false, "0o755"),
            ("live identity", true, "a@x.com exp 1970-01-01"),
            ("profile main", false, "m@x.com (EXPIRED)"),
            ("profile work", false, "-"),
        ]
    );
    assert!(doctor::any_failed(&checks));
    let expired_live = doctor::checks_at(&facts(id(Some("a@x.com"), None, Some(100))), 100);
    assert_eq!(expired_live[4].detail, "a@x.com EXPIRED");
    assert!(!expired_live[4].ok);
    let no_expiry = doctor::checks_at(&facts(id(Some("a@x.com"), None, None)), 100);
    assert_eq!(no_expiry[4].detail, "a@x.com ");
    assert!(no_expiry[4].ok);
    let fine = vec![Check {
        name: "x".to_string(),
        ok: true,
        detail: String::new(),
    }];
    assert!(!doctor::any_failed(&fine));
    assert!(doctor::table(&checks).contains("fail"));
    assert_eq!(doctor::failed_text(), "some checks failed");
}

#[test]
fn doctor_skips_perms_without_home() {
    let mut f = facts(Identity::unknown());
    f.home_is_dir = false;
    let checks = doctor::checks_at(&f, 0);
    assert!(checks.iter().all(|c| c.name != "home perms"));
    f.home_is_dir = true;
    f.home_mode = Some(0o700);
    let checks = doctor::checks_at(&f, 0);
    assert_eq!(checks[3].detail, "0o700");
    assert!(checks[3].ok);
}

#[test]
fn command_messages() {
    assert_eq!(
        ImportError::AlreadyExists.message("main"),
        "profile \"main\" already exists - pass --force to overwrite"
    );
    assert_eq!(
        import::saved_text("main", "a@x.com"),
        "saved current login as profile 'main'  (a@x.com)"
    );
    assert_eq!(
        AddError::AlreadyExists.message("main"),
        "profile \"main\" already exists - use `dsw remove main` first or pick a new name"
    );
    assert!(AddError::NoNewLogin
        .message("x")
        .starts_with("no new login detected. nothing was saved."));
    assert_eq!(add::saved_text("bob", "b@x.com"), "saved as profile 'bob'  (b@x.com)");
    assert!(add::launching_text("bob").contains("call 'bob' in the browser.\n"));
    assert_eq!(
        SwitchError::NotFound.message("nope"),
        "profile \"nope\" does not exist - run `dsw list` to see available profiles"
    );
    assert_eq!(use_::already_text("main", "a"), "already on 'main'  (a)");
    assert_eq!(use_::switched_text("w", "b", &None), "-> w  (b)\n");
    assert_eq!(
        use_::switched_text("w", "b", &Some("123Z".to_string())),
        "-> w  (b)\n  backup: 123Z\n"
    );
    assert_eq!(
        SyncError::NoActiveProfile.message(&None, "/f"),
        "no active profile - run `dsw use <name>` or `dsw import <name>` first"
    );
    assert_eq!(
        sync::synced_all_text(&vec![], "x"),
        "no matching profiles for current login  (x)"
    );
    assert_eq!(
        sync::synced_text("main", "x"),
        "synced current login to profile 'main'  (x)"
    );
    assert_eq!(
        dsw::commands::rename::renamed_text("a", "b"),
        "renamed 'a' -> 'b'"
    );
    assert_eq!(
        dsw::commands::backup::prune_message(3, 2),
        "pruned 3 backup(s); kept 2 most recent"
    );
    assert_eq!(
        dsw::commands::backup::restore_prompt("123Z", &id(None, Some("s"), None)),
        "restore backup 123Z (s)? this will overwrite the live droid login. [y/N] "
    );
    assert_eq!(dsw::commands::init::tip_text(), "tip: run `dsw import <name>` to save the current `droid` login as a profile");
}

#[test]
fn name_error_messages() {
    assert_eq!(
        NameError::Length.message(""),
        "profile name must be 1..=64 chars: \"\""
    );
    assert_eq!(
        NameError::DashAtEdge.message("-a"),
        "profile name cannot start or end with '-': \"-a\""
    );
    assert_eq!(
        NameError::BadChar('"').message("a\"b"),
        "profile name may only contain a-z 0-9 - _ (got '\"' in \"a\\\"b\")"
    );
    assert_eq!(
        NameError::BadChar('x').text("NAME", "CH"),
        "profile name may only contain a-z 0-9 - _ (got CH in NAME)"
    );
    assert_eq!(
        ProfileError::Name(NameError::Length).message("", "", "/f"),
        "profile name must be 1..=64 chars: \"\""
    );
}

#[test]
fn import_decisions() {
    let args = |name: &str, force| ImportArgs {
        name: name.to_string(),
        force,
    };
    assert_eq!(
        import::run(&args("main", false), true, &[true, true, false]).unwrap_err(),
        ImportError::AlreadyExists
    );
    let s = import::run(&args("main", true), true, &[true, true, false]).unwrap();
    assert_eq!(s.outcome, Ok(2));
    let s = import::run(&args("main", false), false, &[false, false, false]).unwrap();
    assert_eq!(s.outcome, Err(ProfileError::NoAuthFiles));
    assert_eq!(
        s.ops.last(),
        Some(&FileOp::RemoveDir {
            place: Place::Profile("main".to_string()),
            must_succeed: false
        })
    );
}

#[test]
fn add_decisions() {
    let args = AddArgs {
        name: "n".to_string(),
        no_login: false,
    };
    assert_eq!(add::check(&args, true), Err(AddError::AlreadyExists));
    assert_eq!(add::check(&args, false), Ok(()));
    assert!(add::rescue(&None, true, &[true, true, true]).is_empty());
    let ops = add::rescue(&Some("a@x.com".to_string()), true, &[true, false, false]);
    assert_eq!(
        ops[0],
        FileOp::RemoveDir {
            place: Place::Profile("_pre_add".to_string()),
            must_succeed: true
        }
    );
    let e = |s: &str| Some(s.to_string());
    assert!(add::new_login(Some(1), &e("a"), Some(2), &e("b")));
    assert!(add::new_login(None, &None, Some(2), &e("b")));
    assert!(!add::new_login(Some(1), &e("a"), Some(1), &e("b")));
    assert!(!add::new_login(Some(1), &e("a"), Some(2), &e("a")));
    assert!(!add::new_login(Some(1), &e("a"), None, &e("b")));
    assert!(!add::new_login(Some(1), &e("a"), Some(2), &None));
    // Settled means both v2 files are written; the legacy file alone is not enough.
    assert!(add::settled(&[true, true, false]));
    assert!(add::settled(&[true, true, true]));
    assert!(!add::settled(&[false, false, true]));
    assert!(!add::settled(&[true, false, true]));
    assert!(!add::settled(&[false, false, false]));
    assert!(dsw::commands::has_live_login(&[false, false, true]));
    assert!(!dsw::commands::has_live_login(&[false, false, false]));
    assert_eq!(add::rescue_profile(), "_pre_add");
}

#[test]
fn switch_decisions() {
    let facts = |target_is_dir| SwitchFacts {
        target_is_dir,
        target_present: vec![true, true, false],
        prev_is_dir: true,
        live_present: vec![true, true, false],
        live_email: Some("a@x.com".to_string()),
    };
    let mut state = State::empty();
    assert!(matches!(
        use_::run("t", &state, facts(false)),
        Err(SwitchError::NotFound)
    ));
    state.activate("t");
    assert!(matches!(
        use_::run("t", &state, facts(true)),
        Ok(Switch::AlreadyActive)
    ));
    state.activate("p");
    match use_::run("t", &state, facts(true)) {
        Ok(Switch::Go(plan)) => {
            let b = plan.backup.unwrap();
            assert_eq!(b.ops.len(), 4); // make dir, two copies, meta
            assert!(!plan.refresh.is_empty());
            assert!(plan.restore.is_ok());
            assert_eq!(plan.rollback.len(), 4); // make live dir, mirror of 3 files
        }
        _ => panic!("expected a switch"),
    }
    let empty_live = SwitchFacts {
        target_is_dir: true,
        target_present: vec![true, true, false],
        prev_is_dir: true,
        live_present: vec![false, false, false],
        live_email: None,
    };
    match use_::run("t", &state, empty_live) {
        Ok(Switch::Go(plan)) => {
            assert!(plan.backup.is_none());
            assert!(plan.refresh.is_empty());
            assert!(plan.rollback.is_empty());
        }
        _ => panic!("expected a switch"),
    }
}

#[test]
fn sync_decisions() {
    let alice = id(Some("a@x.com"), Some("s1"), None);
    let mut state = State::empty();
    let live = [true, true, false];
    assert_eq!(
        sync::run(&SyncArgs { all: false }, &state, &[false, false, false], true, &alice, vec![])
            .unwrap_err(),
        SyncError::NoLiveAuth
    );
    assert_eq!(
        sync::run(&SyncArgs { all: false }, &state, &live, false, &alice, vec![]).unwrap_err(),
        SyncError::NoActiveProfile
    );
    state.activate("main");
    assert_eq!(
        sync::run(&SyncArgs { all: false }, &state, &live, false, &alice, vec![]).unwrap_err(),
        SyncError::ActiveProfileMissing
    );
    assert!(matches!(
        sync::run(&SyncArgs { all: false }, &state, &live, true, &alice, vec![]),
        Ok(SyncPlan::Active { .. })
    ));
    assert_eq!(
        sync::run(
            &SyncArgs { all: true },
            &state,
            &live,
            true,
            &Identity::unknown(),
            vec![]
        )
        .unwrap_err(),
        SyncError::NoLiveIdentity
    );
    let saved = vec![
        SavedProfile {
            name: "main".to_string(),
            identity: id(Some("a@x.com"), None, None),
        },
        SavedProfile {
            name: "work".to_string(),
            identity: id(Some("b@x.com"), Some("s1"), None),
        },
        SavedProfile {
            name: "sub".to_string(),
            identity: id(None, Some("s1"), None),
        },
    ];
    match sync::run(&SyncArgs { all: true }, &state, &live, false, &alice, saved) {
        Ok(SyncPlan::All { snapshots }) => {
            let names: Vec<&str> = snapshots.iter().map(|(n, _)| n.as_str()).collect();
            assert_eq!(names, vec!["main", "sub"]);
        }
        _ => panic!("expected sync --all"),
    }
}

#[test]
fn accounts_match_by_email_then_subject() {
    let a = id(Some("a@x.com"), Some("s"), None);
    assert!(sync::identities_match(&a, &id(Some("a@x.com"), None, None)));
    assert!(!sync::identities_match(&a, &id(Some("b@x.com"), Some("s"), None)));
    assert!(sync::identities_match(&a, &id(None, Some("s"), None)));
    assert!(!sync::identities_match(&id(None, None, None), &id(None, None, None)));
    assert!(!sync::identities_match(&a, &id(None, Some("t"), None)));
    // Matching does not depend on the order of the two identities.
    let pairs = [
        (a.clone(), id(None, Some("s"), None)),
        (a.clone(), id(Some("a@x.com"), Some("t"), None)),
        (id(None, Some("s"), None), id(Some("b@x.com"), Some("s"), None)),
    ];
    for (x, y) in pairs {
        assert_eq!(sync::identities_match(&x, &y), sync::identities_match(&y, &x));
    }
    assert!(sync::identities_match(&a, &a));
}

#[test]
fn state_follows_removals_and_renames() {
    let mut s = State::empty();
    assert!(!s.is_active("a"));
    s.activate("a");
    assert!(s.is_active("a"));
    assert!(!s.follow_rename("b", "c"));
    assert!(s.follow_rename("a", "b"));
    assert_eq!(s.active.as_deref(), Some("b"));
    assert!(!s.forget("a"));
    assert!(s.forget("b"));
    assert_eq!(s.active, None);
}

#[test]
fn text_helpers() {
    assert_eq!(decimal_string(0), "0");
    assert_eq!(decimal_string(1234567890), "1234567890");
    assert_eq!(decimal_string(u64::MAX), u64::MAX.to_string());
    assert_eq!(octal_string(0o700), "700");
    assert_eq!(octal_string(0), "0");
    assert_eq!(cat("ab", "c"), "abc");
    assert_eq!(cat3("a", "", "c"), "ac");
    assert_eq!(join_with(&vec![], ", "), "");
    assert_eq!(join_with(&vec!["a".to_string()], ", "), "a");
    assert_eq!(
        join_with(&vec!["a".to_string(), "b".to_string(), "c".to_string()], ", "),
        "a, b, c"
    );
    assert!(str_eq("é", "é"));
    assert!(!str_eq("a", "ab"));
    let chars = |s: &str| s.chars().collect::<Vec<char>>();
    assert_eq!(trim_chars(&chars("\u{3000} a b\t\n")), chars("a b"));
    assert_eq!(trim_chars(&chars("   ")), chars(""));
    assert_eq!(
        split_chars(&chars("a::b"), ':'),
        vec![chars("a"), chars(""), chars("b")]
    );
    assert_eq!(split_chars(&chars(""), ':'), vec![chars("")]);
    assert!(white_space('\u{85}'));
    assert!(!white_space('x'));
    assert!(str_le("a", "ab"));
    assert!(str_le("ab", "b"));
    assert!(!str_le("b", "ab"));
    assert!(lex_le_chars(&chars(""), &chars("")));
    assert_eq!(
        sort_strings(vec!["work".into(), "main".into(), "client-1".into(), "main".into()]),
        vec!["client-1", "main", "main", "work"]
    );
}

#[test]
fn executable_names_on_path() {
    assert_eq!(doctor::exe_names("droid", false, false, None), vec!["droid"]);
    assert_eq!(
        doctor::exe_names("droid", false, true, None),
        vec!["droid", "droid.COM", "droid.EXE", "droid.BAT", "droid.CMD"]
    );
    assert_eq!(
        doctor::exe_names("droid", false, true, Some(";.EXE;;.PS1;".to_string())),
        vec!["droid", "droid.EXE", "droid.PS1"]
    );
    assert_eq!(
        doctor::exe_names("droid.exe", true, true, Some(".EXE".to_string())),
        vec!["droid.exe"]
    );
    assert_eq!(doctor::exe_names("d", false, true, Some(String::new())), vec!["d"]);
}

#[test]
fn readings_at_the_current_time() {
    assert_eq!(fmt_expiry(0).unwrap(), "expired");
    assert_eq!(fmt_expiry(i64::MIN).unwrap(), "expired");
    assert!(fmt_expiry(i64::MAX).unwrap().starts_with("expires in "));
    assert!(fmt_expiry(i64::MAX).unwrap().ends_with("d"));
    assert_eq!(fmt_identity(&Identity::unknown()).unwrap(), "-");
    assert_eq!(
        fmt_identity(&id(Some("a@x.com"), None, Some(1))).unwrap(),
        "a@x.com  (expired)"
    );
    let (secs, nanos) = dsw::clock::now_utc().unwrap();
    assert!(secs > 1_600_000_000);
    assert!(nanos < 1_000_000_000);
    let checks = doctor::checks(&facts(id(Some("a@x.com"), None, Some(1)))).unwrap();
    assert_eq!(checks.len(), 7);
    assert_eq!(checks[4].detail, "a@x.com EXPIRED");
    assert!(status::text(&State::empty(), &Identity::unknown(), "/f", "/h")
        .unwrap()
        .contains("identity: -\n"));
}

#[test]
fn login_watcher_steps() {
    let before = Some("a@x.com".to_string());
    let step = |state, seen| add::watch_step(Some(10), &before, state, seen);
    let poll = |mtime: Option<u128>, email: Option<&str>| Seen::Poll {
        mtime,
        email: email.map(str::to_string),
    };
    // Nothing new yet.
    assert_eq!(step(Watch::Polling, poll(Some(10), Some("b@x.com"))), Watch::Polling);
    assert_eq!(step(Watch::Polling, poll(Some(11), Some("a@x.com"))), Watch::Polling);
    assert_eq!(step(Watch::Polling, poll(None, None)), Watch::Polling);
    // A new login, then the files settle.
    assert_eq!(step(Watch::Polling, poll(Some(11), Some("b@x.com"))), Watch::Settling);
    assert_eq!(
        step(
            Watch::Settling,
            Seen::AfterSettle {
                live_present: vec![true, true, false]
            }
        ),
        Watch::Done { detected: true }
    );
    assert_eq!(
        step(
            Watch::Settling,
            Seen::AfterSettle {
                live_present: vec![false, false, false]
            }
        ),
        Watch::Done { detected: false }
    );
    // The legacy file alone, or one v2 file, is no settled login.
    assert_eq!(
        step(
            Watch::Settling,
            Seen::AfterSettle {
                live_present: vec![true, false, true]
            }
        ),
        Watch::Done { detected: false }
    );
    // A stop ends a watch that is still polling; a stopped watch stays so.
    assert_eq!(step(Watch::Polling, Seen::Stop), Watch::Done { detected: false });
    assert_eq!(step(Watch::Settling, Seen::Stop), Watch::Settling);
    assert_eq!(
        step(Watch::Done { detected: true }, poll(Some(12), Some("c@x.com"))),
        Watch::Done { detected: true }
    );
}

#[test]
fn switch_backup_records_previous_profile_and_email() {
    let mut state = State::empty();
    state.activate("work");
    let facts = SwitchFacts {
        target_is_dir: true,
        target_present: vec![true, true, false],
        prev_is_dir: true,
        live_present: vec![true, true, false],
        live_email: Some("bob@example.com".to_string()),
    };
    match use_::run("main", &state, facts) {
        Ok(Switch::Go(plan)) => {
            let b = plan.backup.unwrap();
            match b.ops.last() {
                Some(FileOp::WriteMeta { place, meta }) => {
                    assert_eq!(place, &Place::Backup(b.id.clone()));
                    assert_eq!(meta.previous_profile.as_deref(), Some("work"));
                    assert_eq!(meta.email.as_deref(), Some("bob@example.com"));
                    assert_eq!(meta.timestamp, b.id);
                }
                other => panic!("unexpected last op {other:?}"),
            }
        }
        _ => panic!("expected a switch"),
    }
    assert_eq!(
        SwitchError::Clock.message("x"),
        "the system clock is set outside the years 1970 to 9999"
    );
}

#[test]
fn sync_all_saves_only_matching_profiles() {
    let live = id(Some("a@x.com"), None, None);
    let saved = vec![
        SavedProfile {
            name: "main".to_string(),
            identity: id(Some("a@x.com"), None, None),
        },
        SavedProfile {
            name: "work".to_string(),
            identity: id(Some("b@x.com"), None, None),
        },
    ];
    match sync::sync_all(&[true, true, false], &live, saved) {
        Ok(SyncPlan::All { snapshots }) => {
            assert_eq!(snapshots.len(), 1);
            assert_eq!(snapshots[0].0, "main");
            assert_eq!(snapshots[0].1.outcome, Ok(2));
        }
        _ => panic!("expected sync --all"),
    }
    assert_eq!(
        sync::sync_all(&[true, true, false], &Identity::unknown(), vec![]).unwrap_err(),
        SyncError::NoLiveIdentity
    );
    let mut state = State::empty();
    assert_eq!(
        sync::sync_active(&state, &[true, false, false], true).unwrap_err(),
        SyncError::NoActiveProfile
    );
    state.activate("main");
    assert!(matches!(
        sync::sync_active(&state, &[true, false, false], true),
        Ok(SyncPlan::Active { .. })
    ));
}

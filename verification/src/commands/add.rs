//! `dsw add <name>`: launch `droid`, wait for a new login, and save it as
//! a profile.
//!
//! The program runs `droid` and polls the live directory; these functions
//! decide what each observation means.

use vstd::prelude::*;
use crate::backup::any_present;
use crate::cli::AddArgs;
use crate::paths::valid_profile_name;
use crate::profile::{law_remove, law_snapshot, remove, snapshot_live, snapshot_ops, ProfileError};
use crate::state::opt_view;
use crate::store::{bundle, has_files, lemma_frame, lemma_run_concat, ops_view, present_at, presence_of, run_ops, same_outside, Disk, FileOp, Loc, Op};
use crate::text::{cat3, debug_str, owned, quoted, str_eq};

verus! {

/// The name of the hidden profile that keeps the login that was live
/// before `add` launched `droid`, so it can be recovered if the user
/// aborts.
pub open spec fn spec_rescue_profile() -> Seq<char> {
    "_pre_add"@
}

/// The name of the hidden rescue profile.
pub fn rescue_profile() -> (r: &'static str)
    ensures
        r@ == spec_rescue_profile(),
{
    "_pre_add"
}

/// Why `add` stopped.
#[derive(Debug, Clone, Copy, PartialEq, Eq)]
pub enum AddError {
    /// Something already exists under the profile's name.
    AlreadyExists,
    /// `droid` exited without a login to a new account.
    NoNewLogin,
}

impl AddError {
    /// The message of this error for the profile `name`.
    pub open spec fn spec_message(self, name: Seq<char>) -> Seq<char> {
        match self {
            AddError::AlreadyExists => "profile "@ + debug_str(name)
                + " already exists - use `dsw remove "@ + name + "` first or pick a new name"@,
            AddError::NoNewLogin => "no new login detected. nothing was saved. (if you logged in to the same email you already had, droid kept the same account - try `droid /logout` first.)"@,
        }
    }

    /// The message of this error (see `spec_message`).
    pub fn message(&self, name: &str) -> (r: String)
        ensures
            r@ == self.spec_message(name@),
    {
        match self {
            AddError::AlreadyExists => {
                let q = quoted(name);
                let a = cat3("profile ", q.as_str(), " already exists - use `dsw remove ");
                cat3(a.as_str(), name, "` first or pick a new name")
            },
            AddError::NoNewLogin => owned(
                "no new login detected. nothing was saved. (if you logged in to the same email you already had, droid kept the same account - try `droid /logout` first.)",
            ),
        }
    }
}

/// What `add` prints before it launches `droid` for the profile `name`.
pub fn launching_text(name: &str) -> (r: String)
    ensures
        r@ == "launching `droid`. log in to the account you want to call '"@ + name@
            + "' in the browser.\n  (we'll detect the new login automatically and exit droid for you)\n"@,
{
    cat3(
        "launching `droid`. log in to the account you want to call '",
        name,
        "' in the browser.\n  (we'll detect the new login automatically and exit droid for you)\n",
    )
}

/// What `add` prints once the new login is saved as profile `name`, given
/// its identity as shown.
pub fn saved_text(name: &str, identity: &str) -> (r: String)
    ensures
        r@ == "saved as profile '"@ + name@ + "'  ("@ + identity@ + ")"@,
{
    let a = cat3("saved as profile '", name, "'  (");
    cat3(a.as_str(), identity, ")")
}

/// Whether `add` may go on: nothing may exist yet under the profile's
/// name.
pub fn check(args: &AddArgs, profile_exists: bool) -> (r: Result<(), AddError>)
    ensures
        r is Err <==> profile_exists,
        r is Err ==> r == Err::<(), AddError>(AddError::AlreadyExists),
{
    if profile_exists {
        Err(AddError::AlreadyExists)
    } else {
        Ok(())
    }
}

/// The operations of the rescue: delete the old rescue profile when its
/// directory exists, then snapshot the live login into it.
pub open spec fn rescue_ops(rescue_is_dir: bool, live: Seq<bool>) -> Seq<Op> {
    (if rescue_is_dir {
        seq![Op::RemoveDir(Loc::Profile(spec_rescue_profile()), true)]
    } else {
        Seq::<Op>::empty()
    }) + snapshot_ops(spec_rescue_profile(), live)
}

/// The rescue keeps the login that was live before `droid` is launched:
/// afterwards the rescue profile holds exactly the live bundle, whatever it
/// held before, and no other place has changed.
pub proof fn law_rescue(d: Disk, live: Seq<bool>)
    requires
        presence_of(live, d, Loc::Live),
        has_files(d, Loc::Live),
    ensures
        run_ops(d, rescue_ops(d.dirs.contains(Loc::Profile(spec_rescue_profile())), live)) matches Some(
            d2,
        ) && bundle(d2, Loc::Profile(spec_rescue_profile())) == bundle(d, Loc::Live)
            && same_outside(d, d2, Loc::Profile(spec_rescue_profile())),
{
    let p = Loc::Profile(spec_rescue_profile());
    let is_dir = d.dirs.contains(p);
    let first = if is_dir {
        seq![Op::RemoveDir(p, true)]
    } else {
        Seq::<Op>::empty()
    };
    let d1 = if is_dir {
        law_remove(d, spec_rescue_profile());
        run_ops(d, first)->0
    } else {
        assert(run_ops(d, first) == Some(d));
        d
    };
    assert(same_outside(d, d1, p));
    lemma_frame(d, d1, p, Loc::Live, live);
    assert(has_files(d1, Loc::Live)) by {
        let i = choose|i: int| 0 <= i < 3 && #[trigger] d.files.contains_key((Loc::Live, i));
        assert(bundle(d1, Loc::Live)[i] == bundle(d, Loc::Live)[i]);
    }
    law_snapshot(d1, spec_rescue_profile(), live);
    lemma_run_concat(d, first, snapshot_ops(spec_rescue_profile(), live));
    let d2 = run_ops(d1, snapshot_ops(spec_rescue_profile(), live))->0;
    assert(same_outside(d, d2, p));
}

/// The best-effort saving of the current login into the rescue profile
/// before `droid` is launched, done when the live login has an email:
/// delete the old rescue profile if there is one, then snapshot the live
/// login into it. Failures of either part are ignored.
pub fn rescue(before_email: &Option<String>, rescue_is_dir: bool, live_present: &[bool]) -> (r: Vec<FileOp>)
    ensures
        before_email is None ==> r@.len() == 0,
        before_email is Some ==> ops_view(r@) == rescue_ops(rescue_is_dir, live_present@),
{
    if before_email.is_none() {
        return Vec::new();
    }
    proof {
        reveal_strlit("_pre_add");
        assert(valid_profile_name(spec_rescue_profile())) by {
            let s = spec_rescue_profile();
            assert(s.len() == 8);
            vstd::utf8::is_ascii_chars_encode_utf8(s);
            assert(crate::paths::first_bad_char(s) is None) by {
                assert(forall|i: int| 0 <= i < s.len() ==> crate::paths::name_char_ok(#[trigger] s[i]));
            }
        }
    }
    let mut ops = match remove(rescue_profile(), rescue_is_dir) {
        Ok(o) => o,
        Err(_) => Vec::new(),
    };
    let ghost first = ops_view(ops@);
    let mut snap = snapshot_live(rescue_profile(), live_present).ops;
    ops.append(&mut snap);
    proof {
        if !rescue_is_dir {
            assert(first =~= Seq::<Op>::empty());
        }
        assert(ops_view(ops@) =~= rescue_ops(rescue_is_dir, live_present@));
    }
    ops
}

/// A poll of the live directory shows a new login: `auth.v2.file` exists
/// with another modification time than before launch, and the live
/// identity has an email that differs from the one before launch.
pub open spec fn spec_new_login(
    before_mtime: Option<u128>,
    before_email: Option<Seq<char>>,
    now_mtime: Option<u128>,
    now_email: Option<Seq<char>>,
) -> bool {
    &&& now_mtime is Some
    &&& now_mtime != before_mtime
    &&& now_email is Some
    &&& now_email != before_email
}

/// A poll shows a new login exactly when `auth.v2.file` exists with a
/// modification time other than the one before launch and the live email
/// exists and differs, as a whole string, from the email before launch. In
/// particular an unchanged file, a missing email, or the same email never
/// counts, and any other email on a rewritten file always does.
pub proof fn law_new_login(
    before_mtime: Option<u128>,
    before_email: Option<Seq<char>>,
    now_mtime: Option<u128>,
    now_email: Option<Seq<char>>,
)
    ensures
        (now_mtime is Some && now_mtime != before_mtime && now_email is Some && now_email
            != before_email) ==> spec_new_login(before_mtime, before_email, now_mtime, now_email),
        spec_new_login(before_mtime, before_email, now_mtime, now_email) ==> now_mtime is Some
            && now_mtime != before_mtime && now_email is Some && now_email != before_email,
        (before_email matches Some(b) && now_email matches Some(e) && e != b && now_mtime is Some
            && now_mtime != before_mtime) ==> spec_new_login(
            before_mtime,
            before_email,
            now_mtime,
            now_email,
        ),
{
}

/// Whether a poll shows a new login (see `spec_new_login`). Modification
/// times are in nanoseconds since the epoch.
pub fn new_login(
    before_mtime: Option<u128>,
    before_email: &Option<String>,
    now_mtime: Option<u128>,
    now_email: &Option<String>,
) -> (r: bool)
    ensures
        r == spec_new_login(before_mtime, opt_view(*before_email), now_mtime, opt_view(*now_email)),
{
    let changed = match (now_mtime, before_mtime) {
        (Some(a), Some(b)) => a != b,
        (Some(_), None) => true,
        (None, _) => false,
    };
    if !changed {
        return false;
    }
    match now_email {
        None => false,
        Some(e) => match before_email {
            None => true,
            Some(b) => !str_eq(e.as_str(), b.as_str()),
        },
    }
}

/// A new login has settled: `droid` has finished writing both
/// `auth.v2.file` and `auth.v2.key`.
pub open spec fn spec_settled(live: Seq<bool>) -> bool {
    present_at(live, 0) && present_at(live, 1)
}

/// Once a new login was seen and `droid` was given time to finish writing,
/// whether the login counts as settled (see `spec_settled`).
pub fn settled(live_present: &[bool]) -> (r: bool)
    ensures
        r == spec_settled(live_present@),
{
    (0 < live_present.len() && live_present[0]) && (1 < live_present.len() && live_present[1])
}


/// Where the login watcher stands while `droid` runs.
#[derive(Debug, Clone, Copy, PartialEq, Eq)]
pub enum Watch {
    /// Polling `auth.v2.file` for a new login.
    Polling,
    /// A new login was seen; `droid` is given time to finish writing it.
    Settling,
    /// The watcher has stopped; `detected` tells whether it saw a new login
    /// that settled.
    Done { detected: bool },
}

/// What the watcher observed.
#[derive(Debug)]
pub enum Seen {
    /// A poll: the modification time of the live `auth.v2.file` (when it
    /// exists) and the live email (when read).
    Poll { mtime: Option<u128>, email: Option<String> },
    /// The end of the settle delay: which live auth files exist.
    AfterSettle { live_present: Vec<bool> },
    /// The program asked the watcher to stop.
    Stop,
}

/// The watcher's next state after `seen`, given the modification time of
/// `auth.v2.file` and the live email before `droid` was launched. While
/// polling, a stop ends the watch with nothing detected and a poll that
/// shows a new login (see `spec_new_login`) starts the settle delay; after
/// that delay the watch ends, with a detection exactly when the login has
/// settled (see `spec_settled`). Anything else leaves the state as it is.
pub open spec fn spec_watch_step(
    before_mtime: Option<u128>,
    before_email: Option<Seq<char>>,
    state: Watch,
    seen: Seen,
) -> Watch {
    match (state, seen) {
        (Watch::Polling, Seen::Stop) => Watch::Done { detected: false },
        (Watch::Polling, Seen::Poll { mtime, email }) => if spec_new_login(
            before_mtime,
            before_email,
            mtime,
            opt_view(email),
        ) {
            Watch::Settling
        } else {
            Watch::Polling
        },
        (Watch::Settling, Seen::AfterSettle { live_present }) => Watch::Done {
            detected: spec_settled(live_present@),
        },
        (s, _) => s,
    }
}

/// The watcher's next state (see `spec_watch_step`).
pub fn watch_step(before_mtime: Option<u128>, before_email: &Option<String>, state: Watch, seen: Seen) -> (r:
    Watch)
    ensures
        r == spec_watch_step(before_mtime, opt_view(*before_email), state, seen),
{
    match (state, seen) {
        (Watch::Polling, Seen::Stop) => Watch::Done { detected: false },
        (Watch::Polling, Seen::Poll { mtime, email }) => if new_login(
            before_mtime,
            before_email,
            mtime,
            &email,
        ) {
            Watch::Settling
        } else {
            Watch::Polling
        },
        (Watch::Settling, Seen::AfterSettle { live_present }) => Watch::Done {
            detected: settled(live_present.as_slice()),
        },
        (s, _) => s,
    }
}


/// The watcher's state after the observations `events`, in order.
pub open spec fn watch_run(
    before_mtime: Option<u128>,
    before_email: Option<Seq<char>>,
    state: Watch,
    events: Seq<Seen>,
) -> Watch
    decreases events.len(),
{
    if events.len() == 0 {
        state
    } else {
        watch_run(
            before_mtime,
            before_email,
            spec_watch_step(before_mtime, before_email, state, events[0]),
            events.drop_first(),
        )
    }
}

/// A poll that shows a new login.
pub open spec fn shows_new_login(before_mtime: Option<u128>, before_email: Option<Seq<char>>, e: Seen) -> bool {
    e matches Seen::Poll { mtime, email } && spec_new_login(before_mtime, before_email, mtime, opt_view(email))
}

/// A settle check that finds the new bundle written.
pub open spec fn finds_files(e: Seen) -> bool {
    e matches Seen::AfterSettle { live_present } && spec_settled(live_present@)
}

/// Once the watcher has stopped, its verdict no longer changes.
pub proof fn lemma_watch_done(
    before_mtime: Option<u128>,
    before_email: Option<Seq<char>>,
    detected: bool,
    events: Seq<Seen>,
)
    ensures
        watch_run(before_mtime, before_email, Watch::Done { detected }, events) == (Watch::Done {
            detected,
        }),
    decreases events.len(),
{
    if events.len() > 0 {
        lemma_watch_done(before_mtime, before_email, detected, events.drop_first());
    }
}

/// From the settle delay, a detection needs a settle check that found
/// both v2 files.
proof fn lemma_watch_settling(before_mtime: Option<u128>, before_email: Option<Seq<char>>, events: Seq<Seen>)
    ensures
        watch_run(before_mtime, before_email, Watch::Settling, events) == (Watch::Done {
            detected: true,
        }) ==> exists|j: int| 0 <= j < events.len() && finds_files(#[trigger] events[j]),
    decreases events.len(),
{
    if events.len() > 0 {
        let rest = events.drop_first();
        let next = spec_watch_step(before_mtime, before_email, Watch::Settling, events[0]);
        match next {
            Watch::Done { detected } => {
                lemma_watch_done(before_mtime, before_email, detected, rest);
                if detected {
                    assert(finds_files(events[0]));
                }
            },
            _ => {
                lemma_watch_settling(before_mtime, before_email, rest);
                if watch_run(before_mtime, before_email, Watch::Settling, events) == (Watch::Done {
                    detected: true,
                }) {
                    let j = choose|j: int| 0 <= j < rest.len() && finds_files(#[trigger] rest[j]);
                    assert(finds_files(events[j + 1]));
                }
            },
        }
    }
}

/// The watcher reports a login only after a poll that showed a new login
/// and, after it, a settle check that found both v2 files; a watch
/// stopped before that reports none.
pub proof fn law_watch(before_mtime: Option<u128>, before_email: Option<Seq<char>>, events: Seq<Seen>)
    ensures
        watch_run(before_mtime, before_email, Watch::Polling, events) == (Watch::Done {
            detected: true,
        }) ==> exists|i: int, j: int|
            0 <= i < j < events.len() && shows_new_login(before_mtime, before_email, #[trigger] events[i])
                && finds_files(#[trigger] events[j]),
    decreases events.len(),
{
    if events.len() > 0 {
        let rest = events.drop_first();
        let next = spec_watch_step(before_mtime, before_email, Watch::Polling, events[0]);
        if watch_run(before_mtime, before_email, Watch::Polling, events) == (Watch::Done {
            detected: true,
        }) {
            match next {
                Watch::Done { detected } => {
                    lemma_watch_done(before_mtime, before_email, detected, rest);
                },
                Watch::Settling => {
                    assert(shows_new_login(before_mtime, before_email, events[0]));
                    lemma_watch_settling(before_mtime, before_email, rest);
                    let j = choose|j: int| 0 <= j < rest.len() && finds_files(#[trigger] rest[j]);
                    assert(finds_files(events[j + 1]));
                },
                Watch::Polling => {
                    law_watch(before_mtime, before_email, rest);
                    let (i, j) = choose|i: int, j: int|
                        0 <= i < j < rest.len() && shows_new_login(
                            before_mtime,
                            before_email,
                            #[trigger] rest[i],
                        ) && finds_files(#[trigger] rest[j]);
                    assert(shows_new_login(before_mtime, before_email, events[i + 1]));
                    assert(finds_files(events[j + 1]));
                },
            }
        }
    }
}

} // verus!

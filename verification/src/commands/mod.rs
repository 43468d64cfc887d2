//! The decisions of each command of the tool. The program gathers what
//! the disk holds, asks these functions what to do, and carries out the
//! file operations they return.

pub mod add;
pub mod backup;
pub mod doctor;
pub mod import;
pub mod init;
pub mod list;
pub mod remove;
pub mod rename;
pub mod status;
pub mod sync;
pub mod use_;

use vstd::prelude::*;
use crate::backup::any_present;
use crate::clock::now_utc;
use crate::factory::Identity;
use crate::text::{cat, chars_of, decimal, decimal_string, owned, trim, trim_chars};

verus! {

/// How the expiry `exp` (seconds since the epoch) reads at the instant
/// `now_secs` seconds and `now_nanos` nanoseconds after the epoch:
/// `expired` when it is not later than now; else the whole days left as
/// `expires in <d>d`, or, under a day, the whole hours left (at least one)
/// as `expires in <h>h`.
pub open spec fn spec_fmt_expiry(exp: i64, now_secs: i64, now_nanos: u32) -> Seq<char> {
    if exp <= now_secs {
        "expired"@
    } else {
        let left: int = exp - now_secs - if now_nanos > 0 {
            1int
        } else {
            0int
        };
        let days = left / 86400;
        let hours = left / 3600;
        if days >= 1 {
            "expires in "@ + decimal(days as nat) + "d"@
        } else {
            "expires in "@ + decimal(if hours >= 1 { hours as nat } else { 1nat }) + "h"@
        }
    }
}

/// How the expiry `exp` reads at the given instant (see `spec_fmt_expiry`).
pub fn fmt_expiry_at(exp: i64, now_secs: i64, now_nanos: u32) -> (r: String)
    requires
        0 <= now_secs,
    ensures
        r@ == spec_fmt_expiry(exp, now_secs, now_nanos),
{
    proof {
        reveal_strlit("expired");
        reveal_strlit("expires in ");
        reveal_strlit("d");
        reveal_strlit("h");
    }
    if exp <= now_secs {
        return owned("expired");
    }
    let left: i64 = if now_nanos > 0 {
        exp - now_secs - 1
    } else {
        exp - now_secs
    };
    let days = left / 86400;
    let hours = left / 3600;
    if days >= 1 {
        let n = decimal_string(days as u64);
        let a = cat("expires in ", n.as_str());
        cat(a.as_str(), "d")
    } else {
        let h: u64 = if hours >= 1 {
            hours as u64
        } else {
            1
        };
        let n = decimal_string(h);
        let a = cat("expires in ", n.as_str());
        cat(a.as_str(), "h")
    }
}

/// How the expiry `exp` reads now; `None` when the system clock cannot
/// be read (see `clock::now_utc`).
pub fn fmt_expiry(exp: i64) -> (r: Option<String>)
    ensures
        r matches Some(t) ==> exists|now_secs: i64, now_nanos: u32|
            0 <= now_secs && t@ == #[trigger] spec_fmt_expiry(exp, now_secs, now_nanos),
{
    match now_utc() {
        Some((now_secs, now_nanos)) => Some(fmt_expiry_at(exp, now_secs, now_nanos)),
        None => None,
    }
}

/// An identity as shown on a terminal: its display email, followed by its
/// expiry in parentheses when it has one.
pub open spec fn spec_fmt_identity(id: Identity, now_secs: i64, now_nanos: u32) -> Seq<char> {
    match id.expires_at {
        Some(exp) => id.spec_display_email() + "  ("@ + spec_fmt_expiry(exp, now_secs, now_nanos)
            + ")"@,
        None => id.spec_display_email(),
    }
}

/// An identity as shown at the given instant.
pub fn fmt_identity_at(id: &Identity, now_secs: i64, now_nanos: u32) -> (r: String)
    requires
        0 <= now_secs,
    ensures
        r@ == spec_fmt_identity(*id, now_secs, now_nanos),
{
    let email = id.display_email();
    match id.expires_at {
        Some(exp) => {
            let e = fmt_expiry_at(exp, now_secs, now_nanos);
            let a = cat(email.as_str(), "  (");
            let b = cat(a.as_str(), e.as_str());
            proof {
                reveal_strlit("  (");
                reveal_strlit(")");
            }
            cat(b.as_str(), ")")
        },
        None => email,
    }
}

/// An identity as shown now, for terminal output; `None` when the system
/// clock cannot be read (see `clock::now_utc`).
pub fn fmt_identity(id: &Identity) -> (r: Option<String>)
    ensures
        r matches Some(t) ==> exists|now_secs: i64, now_nanos: u32|
            0 <= now_secs && t@ == #[trigger] spec_fmt_identity(*id, now_secs, now_nanos),
{
    match now_utc() {
        Some((now_secs, now_nanos)) => Some(fmt_identity_at(id, now_secs, now_nanos)),
        None => None,
    }
}

/// `c` is the lowercase ASCII letter `l` in either case.
pub open spec fn same_letter(c: char, l: char) -> bool {
    c == l || (('a' <= l && l <= 'z') && (c as u32) + 32 == (l as u32))
}

/// An answer to a `[y/N]` prompt that agrees: once white space is trimmed
/// and ASCII letters are lowercased, `y` or `yes`.
pub open spec fn agrees(answer: Seq<char>) -> bool {
    let t = trim(answer);
    ||| (t.len() == 1 && same_letter(t[0], 'y'))
    ||| (t.len() == 3 && same_letter(t[0], 'y') && same_letter(t[1], 'e') && same_letter(
        t[2],
        's',
    ))
}

fn is_letter(c: char, lower: char, upper: char) -> (r: bool)
    requires
        'a' <= lower <= 'z',
        (upper as u32) + 32 == (lower as u32),
    ensures
        r == same_letter(c, lower),
{
    c == lower || c == upper
}

/// Whether an answer to a `[y/N]` prompt agrees (see `agrees`).
pub fn confirmed(answer: &str) -> (r: bool)
    ensures
        r == agrees(answer@),
{
    let cs = chars_of(answer);
    let t = trim_chars(cs.as_slice());
    if t.len() == 1 {
        is_letter(t[0], 'y', 'Y')
    } else if t.len() == 3 {
        is_letter(t[0], 'y', 'Y') && is_letter(t[1], 'e', 'E') && is_letter(t[2], 's', 'S')
    } else {
        false
    }
}

/// What `dsw` prints when run without a command: how to save the live
/// login when there is one (`factory` is the live directory as shown),
/// else how to log in first; then a few useful commands.
pub open spec fn spec_onboarding(factory: Seq<char>, has_live_login: bool) -> Seq<char> {
    "Droid Switch (dsw)\n\n"@ + if has_live_login {
        "A Droid login was found in "@ + factory
            + ".\n\nStart by saving it as your main profile:\n  dsw import main\n"@
    } else {
        "No Droid login was found in "@ + factory
            + ".\n\nLog in first, then save the account:\n  droid\n  dsw import main\n\nOr let dsw launch Droid for a new profile:\n  dsw add main\n"@
    } + "\nUseful commands:\n  dsw list\n  dsw use <name>\n  dsw status\n"@
}

/// What `dsw` prints when run without a command (see `spec_onboarding`).
pub fn onboarding(factory: &str, has_live_login: bool) -> (r: String)
    ensures
        r@ == spec_onboarding(factory@, has_live_login),
{
    let middle = if has_live_login {
        let a = cat("A Droid login was found in ", factory);
        cat(a.as_str(), ".\n\nStart by saving it as your main profile:\n  dsw import main\n")
    } else {
        let a = cat("No Droid login was found in ", factory);
        cat(
            a.as_str(),
            ".\n\nLog in first, then save the account:\n  droid\n  dsw import main\n\nOr let dsw launch Droid for a new profile:\n  dsw add main\n",
        )
    };
    let b = cat("Droid Switch (dsw)\n\n", middle.as_str());
    cat(b.as_str(), "\nUseful commands:\n  dsw list\n  dsw use <name>\n  dsw status\n")
}

/// What a command prints when its question was not agreed to.
pub fn aborted_text() -> (r: &'static str)
    ensures
        r@ == "aborted"@,
{
    "aborted"
}


/// Whether there is a live login: some live auth file exists.
pub fn has_live_login(live_present: &[bool]) -> (r: bool)
    ensures
        r == any_present(live_present@),
{
    (0 < live_present.len() && live_present[0]) || (1 < live_present.len() && live_present[1]) || (
    2 < live_present.len() && live_present[2])
}

} // verus!

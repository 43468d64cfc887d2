//! `dsw status`: the active profile and the live identity.

use vstd::prelude::*;
use crate::clock::now_utc;
use crate::commands::{fmt_identity_at, spec_fmt_identity};
use crate::factory::Identity;
use crate::state::State;
use crate::text::cat;

verus! {

/// The status report at the given instant: the active profile (or
/// `(none)`), the live identity, and the two directories.
pub open spec fn spec_text(
    active: Option<Seq<char>>,
    live: Identity,
    factory: Seq<char>,
    home: Seq<char>,
    now_secs: i64,
    now_nanos: u32,
) -> Seq<char> {
    "profile : "@ + match active {
        Some(a) => a,
        None => "(none)"@,
    } + "\nidentity: "@ + spec_fmt_identity(live, now_secs, now_nanos) + "\nfactory : "@ + factory
        + "\nhome    : "@ + home + "\n"@
}

/// The status report at the given instant (see `spec_text`).
pub fn text_at(
    state: &State,
    live: &Identity,
    factory: &str,
    home: &str,
    now_secs: i64,
    now_nanos: u32,
) -> (r: String)
    requires
        0 <= now_secs,
    ensures
        r@ == spec_text(crate::state::opt_view(state.active), *live, factory@, home@, now_secs, now_nanos),
{
    let a = match &state.active {
        Some(name) => cat("profile : ", name.as_str()),
        None => cat("profile : ", "(none)"),
    };
    let b = cat(a.as_str(), "\nidentity: ");
    let id = fmt_identity_at(live, now_secs, now_nanos);
    let c = cat(b.as_str(), id.as_str());
    let d = cat(c.as_str(), "\nfactory : ");
    let e = cat(d.as_str(), factory);
    let f = cat(e.as_str(), "\nhome    : ");
    let g = cat(f.as_str(), home);
    cat(g.as_str(), "\n")
}

/// The status report, with the expiry read now; `None` when the system
/// clock cannot be read (see `clock::now_utc`).
pub fn text(state: &State, live: &Identity, factory: &str, home: &str) -> (r: Option<String>)
    ensures
        r matches Some(t) ==> exists|now_secs: i64, now_nanos: u32|
            0 <= now_secs && t@ == #[trigger] spec_text(
                crate::state::opt_view(state.active),
                *live,
                factory@,
                home@,
                now_secs,
                now_nanos,
            ),
{
    match now_utc() {
        Some((now_secs, now_nanos)) => Some(text_at(state, live, factory, home, now_secs, now_nanos)),
        None => None,
    }
}

} // verus!

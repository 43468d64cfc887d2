//! `dsw list`: the saved profiles, marking the active one.

use vstd::prelude::*;
use crate::clock::now_utc;
use crate::commands::add::{rescue_profile, spec_rescue_profile};
use crate::commands::{fmt_expiry_at, spec_fmt_expiry};
use crate::factory::{timestamp_in_range, Identity, MAX_TIMESTAMP, MIN_TIMESTAMP};
use crate::state::{opt_view, State};
use crate::table::{ascii_table, draw};
use crate::text::{cat, copy_opt, owned, str_eq};

verus! {

/// One listed profile.
#[derive(Debug, Clone, PartialEq, Eq)]
pub struct ProfileRow {
    pub name: String,
    pub active: bool,
    pub email: Option<String>,
    /// The token expiry, in seconds since the epoch.
    pub expires_at: Option<i64>,
}

/// The model of a listed profile: name, active mark, email, expiry.
pub open spec fn row_view(r: ProfileRow) -> (Seq<char>, bool, Option<Seq<char>>, Option<i64>) {
    (r.name@, r.active, opt_view(r.email), r.expires_at)
}

/// The rows of the saved profiles (name and decoded identity, in listing
/// order), leaving out the hidden rescue profile: each with its active
/// mark, email and expiry.
pub open spec fn spec_rows(active: Option<Seq<char>>, profiles: Seq<(String, Identity)>) -> Seq<
    (Seq<char>, bool, Option<Seq<char>>, Option<i64>),
>
    decreases profiles.len(),
{
    if profiles.len() == 0 {
        Seq::empty()
    } else {
        let rest = spec_rows(active, profiles.drop_last());
        let (name, id) = profiles.last();
        if name@ == spec_rescue_profile() {
            rest
        } else {
            rest.push((name@, active == Some(name@), opt_view(id.email), id.expires_at))
        }
    }
}

/// The rows of `dsw list` (see `spec_rows`).
pub fn rows(state: &State, profiles: Vec<(String, Identity)>) -> (r: Vec<ProfileRow>)
    ensures
        r@.map_values(|x: ProfileRow| row_view(x)) == spec_rows(opt_view(state.active), profiles@),
{
    let ghost all = profiles@;
    let mut out: Vec<ProfileRow> = Vec::new();
    let mut rest = profiles;
    let n = rest.len();
    let mut k: usize = 0;
    proof {
        assert(rest@ =~= all.skip(0));
        assert(out@.map_values(|x: ProfileRow| row_view(x)) =~= spec_rows(
            opt_view(state.active),
            all.take(0),
        ));
    }
    while rest.len() > 0
        invariant
            k + rest.len() == n,
            all.len() == n,
            rest@ == all.skip(k as int),
            out@.map_values(|x: ProfileRow| row_view(x)) == spec_rows(
                opt_view(state.active),
                all.take(k as int),
            ),
        decreases rest.len(),
    {
        let p = rest.remove(0);
        proof {
            assert(p == all[k as int]);
            assert(rest@ =~= all.skip(k + 1));
            assert(all.take(k + 1).drop_last() =~= all.take(k as int));
            assert(all.take(k + 1).last() == p);
        }
        let (name, id) = p;
        if !str_eq(name.as_str(), rescue_profile()) {
            let active = state.is_active(name.as_str());
            let ghost before = out@;
            let row = ProfileRow { name, active, email: copy_opt(&id.email), expires_at: id.expires_at };
            out.push(row);
            proof {
                assert(out@.map_values(|x: ProfileRow| row_view(x)) =~= before.map_values(
                    |x: ProfileRow| row_view(x),
                ).push(row_view(row)));
            }
        }
        k = k + 1;
    }
    proof {
        assert(all.take(n as int) =~= all);
    }
    out
}

/// The header of the profile table.
pub open spec fn profile_header() -> Seq<Seq<char>> {
    seq![""@, "name"@, "email"@, "token"@]
}

/// The text of an expiry in a table: its reading at the given instant when
/// chrono can hold it, else `-`.
pub open spec fn expiry_cell(exp: Option<i64>, now_secs: i64, now_nanos: u32) -> Seq<char> {
    match exp {
        Some(e) => if MIN_TIMESTAMP <= e <= MAX_TIMESTAMP {
            spec_fmt_expiry(e, now_secs, now_nanos)
        } else {
            "-"@
        },
        None => "-"@,
    }
}

/// The cells of a profile row: `*` for the active profile, the name, the
/// email or `-`, the expiry.
pub open spec fn profile_cells(r: ProfileRow, now_secs: i64, now_nanos: u32) -> Seq<Seq<char>> {
    seq![
        if r.active { "*"@ } else { ""@ },
        r.name@,
        match r.email {
            Some(e) => e@,
            None => "-"@,
        },
        expiry_cell(r.expires_at, now_secs, now_nanos),
    ]
}

/// In the profile table a row's first cell is `*` exactly when the row's
/// profile is the active one, and empty otherwise; the next cells are the
/// name and the email (`-` when unknown), under the headers `name` and
/// `email`.
pub proof fn law_table_cells(r: ProfileRow, now_secs: i64, now_nanos: u32)
    ensures
        profile_cells(r, now_secs, now_nanos).len() == 4,
        profile_cells(r, now_secs, now_nanos)[0] == "*"@ <==> r.active,
        !r.active ==> profile_cells(r, now_secs, now_nanos)[0] == ""@,
        profile_header()[1] == "name"@ && profile_cells(r, now_secs, now_nanos)[1] == r.name@,
        profile_header()[2] == "email"@ && profile_cells(r, now_secs, now_nanos)[2] == match r.email {
            Some(e) => e@,
            None => "-"@,
        },
{
    reveal_strlit("*");
    reveal_strlit("");
    assert("*"@.len() == 1);
    assert(""@.len() == 0);
}

/// A listed row is marked active exactly when its name is the active
/// profile of the state, and the rescue profile is never listed.
pub proof fn law_rows_active(active: Option<Seq<char>>, profiles: Seq<(String, Identity)>)
    ensures
        forall|i: int|
            0 <= i < spec_rows(active, profiles).len() ==> (#[trigger] spec_rows(active, profiles)[i]).1
                == (active == Some(spec_rows(active, profiles)[i].0)) && spec_rows(
                active,
                profiles,
            )[i].0 != spec_rescue_profile(),
    decreases profiles.len(),
{
    if profiles.len() > 0 {
        law_rows_active(active, profiles.drop_last());
        let rest = spec_rows(active, profiles.drop_last());
        let all = spec_rows(active, profiles);
        assert forall|i: int| 0 <= i < all.len() implies (#[trigger] all[i]).1 == (active == Some(
            all[i].0,
        )) && all[i].0 != spec_rescue_profile() by {
            if i < rest.len() {
                assert(all[i] == rest[i]);
            }
        }
    }
}

/// The profile table of `rows` with expiries read at the given instant.
pub open spec fn profile_table(rows: Seq<ProfileRow>, now_secs: i64, now_nanos: u32) -> Seq<char> {
    ascii_table(profile_header(), rows.map_values(|x: ProfileRow| profile_cells(x, now_secs, now_nanos)))
}

/// The table of the given rows, at the given instant.
pub fn table_at(rows: &Vec<ProfileRow>, now_secs: i64, now_nanos: u32) -> (r: String)
    requires
        0 <= now_secs,
    ensures
        r@ == profile_table(rows@, now_secs, now_nanos),
{
    let mut header: Vec<String> = Vec::new();
    header.push(owned(""));
    header.push(owned("name"));
    header.push(owned("email"));
    header.push(owned("token"));
    let mut cells: Vec<Vec<String>> = Vec::new();
    let mut i: usize = 0;
    while i < rows.len()
        invariant
            i <= rows.len(),
            0 <= now_secs,
            cells.deep_view() == rows@.take(i as int).map_values(
                |x: ProfileRow| profile_cells(x, now_secs, now_nanos),
            ),
        decreases rows.len() - i,
    {
        let row = &rows[i];
        let mut c: Vec<String> = Vec::new();
        c.push(if row.active {
            owned("*")
        } else {
            owned("")
        });
        c.push(owned(row.name.as_str()));
        c.push(
            match &row.email {
                Some(e) => owned(e.as_str()),
                None => owned("-"),
            },
        );
        c.push(
            match row.expires_at {
                Some(e) => if timestamp_in_range(e) {
                    fmt_expiry_at(e, now_secs, now_nanos)
                } else {
                    owned("-")
                },
                None => owned("-"),
            },
        );
        let ghost before = cells.deep_view();
        proof {
            assert(c.deep_view() =~= profile_cells(*row, now_secs, now_nanos));
        }
        cells.push(c);
        proof {
            assert(rows@.take(i + 1) =~= rows@.take(i as int).push(*row));
            assert(cells.deep_view() =~= before.push(profile_cells(*row, now_secs, now_nanos)));
        }
        i = i + 1;
    }
    proof {
        assert(rows@.take(rows.len() as int) =~= rows@);
        assert(header.deep_view() =~= profile_header());
    }
    draw(&header, &cells)
}

/// The table of the given rows, with expiries read now; `None` when the
/// system clock cannot be read (see `clock::now_utc`).
pub fn table(rows: &Vec<ProfileRow>) -> (r: Option<String>)
    ensures
        r matches Some(t) ==> exists|now_secs: i64, now_nanos: u32|
            0 <= now_secs && t@ == #[trigger] profile_table(rows@, now_secs, now_nanos),
{
    match now_utc() {
        Some((now_secs, now_nanos)) => Some(table_at(rows, now_secs, now_nanos)),
        None => None,
    }
}

/// The RFC 3339 text of an expiry for JSON output, when chrono can hold it.
pub fn expiry_rfc3339(exp: Option<i64>) -> (r: Option<String>)
    ensures
        r is Some <==> (exp matches Some(e) && MIN_TIMESTAMP <= e <= MAX_TIMESTAMP),
        r matches Some(s) ==> s@ == crate::clock::rfc3339_text(exp->0),
{
    match exp {
        Some(e) => if timestamp_in_range(e) {
            Some(crate::clock::rfc3339(e))
        } else {
            None
        },
        None => None,
    }
}

/// What `dsw list` prints when there is no profile yet: how to save the
/// live login when there is one, else how to log in first.
pub open spec fn spec_empty_text(factory: Seq<char>, has_live_login: bool) -> Seq<char> {
    if has_live_login {
        "No profiles yet.\n\nA Droid login was found in "@ + factory
            + ".\n\nSave it as your first profile:\n  dsw import main\n"@
    } else {
        "No profiles yet.\n\nNo Droid login was found in "@ + factory
            + ".\n\nLog in first, then save the account:\n  droid\n  dsw import main\n\nOr let dsw launch Droid for a new profile:\n  dsw add main\n"@
    }
}

/// What `dsw list` prints when there is no profile yet; `factory` is the
/// live directory as shown to the user.
pub fn empty_text(factory: &str, has_live_login: bool) -> (r: String)
    ensures
        r@ == spec_empty_text(factory@, has_live_login),
{
    if has_live_login {
        let a = cat("No profiles yet.\n\nA Droid login was found in ", factory);
        cat(a.as_str(), ".\n\nSave it as your first profile:\n  dsw import main\n")
    } else {
        let a = cat("No profiles yet.\n\nNo Droid login was found in ", factory);
        cat(
            a.as_str(),
            ".\n\nLog in first, then save the account:\n  droid\n  dsw import main\n\nOr let dsw launch Droid for a new profile:\n  dsw add main\n",
        )
    }
}

} // verus!

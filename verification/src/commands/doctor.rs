//! `dsw doctor`: check the install (droid on the path, directories,
//! permissions, tokens).

use vstd::prelude::*;
use crate::clock::{day_text, format_day, now_utc};
use crate::factory::{timestamp_in_range, Identity, MAX_TIMESTAMP, MIN_TIMESTAMP};
use crate::state::opt_view;
use crate::table::{ascii_table, draw};
use crate::text::{cat, chars_of, in_base, octal_string, owned, split, split_chars, string_of};

verus! {

/// The result of one check.
#[derive(Debug, Clone, PartialEq, Eq)]
pub struct Check {
    pub name: String,
    pub ok: bool,
    pub detail: String,
}

/// What the program found on the machine.
#[derive(Debug)]
pub struct DoctorFacts {
    /// Where `droid` was found on the `PATH`, if it was.
    pub droid_path: Option<String>,
    /// The live Factory directory, as shown, and whether it is a directory.
    pub factory: String,
    pub factory_is_dir: bool,
    /// dsw's home, as shown, and whether it is a directory.
    pub home: String,
    pub home_is_dir: bool,
    /// The permission bits of dsw's home (`0` when they cannot be read);
    /// `None` where the platform has none.
    pub home_mode: Option<u32>,
    /// The live identity.
    pub live: Identity,
    /// The saved profiles, in listing order, with their identities.
    pub profiles: Vec<(String, Identity)>,
}

/// The model of a check: name, verdict, detail.
pub open spec fn check_view(c: Check) -> (Seq<char>, bool, Seq<char>) {
    (c.name@, c.ok, c.detail@)
}

/// The expiry of an identity that chrono can hold.
pub open spec fn held_expiry(id: Identity) -> Option<i64> {
    match id.expires_at {
        Some(e) => if MIN_TIMESTAMP <= e <= MAX_TIMESTAMP {
            Some(e)
        } else {
            None
        },
        None => None,
    }
}

/// The identity's token has expired at `now` (seconds since the epoch).
pub open spec fn expired(id: Identity, now: i64) -> bool {
    held_expiry(id) matches Some(e) && e <= now
}

/// The check of the live identity: it must have an email and an
/// unexpired token; the detail shows the identity and `EXPIRED` or the
/// day the token expires.
pub open spec fn live_check(id: Identity, now: i64) -> (Seq<char>, bool, Seq<char>) {
    (
        "live identity"@,
        id.email is Some && !expired(id, now),
        id.spec_display_email() + " "@ + match held_expiry(id) {
            Some(e) => if e <= now {
                "EXPIRED"@
            } else {
                "exp "@ + day_text(e)
            },
            None => ""@,
        },
    )
}

/// The check of a saved profile: it must have an email and an unexpired
/// token.
pub open spec fn profile_check(name: Seq<char>, id: Identity, now: i64) -> (Seq<char>, bool, Seq<char>) {
    (
        "profile "@ + name,
        id.email is Some && !expired(id, now),
        id.spec_display_email() + if expired(id, now) {
            " (EXPIRED)"@
        } else {
            ""@
        },
    )
}

/// The checks, in order: `droid` on the path, the Factory directory, dsw's
/// home, (where the platform has them) the home's permissions, the live
/// identity, and each saved profile.
pub open spec fn spec_checks(f: DoctorFacts, now: i64) -> Seq<(Seq<char>, bool, Seq<char>)> {
    seq![
        (
            "droid binary"@,
            f.droid_path is Some,
            match f.droid_path {
                Some(p) => p@,
                None => "not found on PATH (install Factory droid)"@,
            },
        ),
        ("factory dir"@, f.factory_is_dir, f.factory@),
        ("dsw home"@, f.home_is_dir, f.home@),
    ] + (if f.home_is_dir && f.home_mode is Some {
        seq![("home perms"@, f.home_mode->0 == 0o700, "0o"@ + in_base(f.home_mode->0 as nat, 8))]
    } else {
        Seq::empty()
    }) + seq![live_check(f.live, now)] + f.profiles@.map_values(
        |p: (String, Identity)| profile_check(p.0@, p.1, now),
    )
}

fn held(id: &Identity) -> (r: Option<i64>)
    ensures
        r == held_expiry(*id),
{
    match id.expires_at {
        Some(e) => if timestamp_in_range(e) {
            Some(e)
        } else {
            None
        },
        None => None,
    }
}

/// The checks at the instant `now` (seconds since the epoch).
pub fn checks_at(facts: &DoctorFacts, now: i64) -> (r: Vec<Check>)
    ensures
        r@.map_values(|c: Check| check_view(c)) == spec_checks(*facts, now),
{
    let mut out: Vec<Check> = Vec::new();
    out.push(
        Check {
            name: owned("droid binary"),
            ok: facts.droid_path.is_some(),
            detail: match &facts.droid_path {
                Some(p) => owned(p.as_str()),
                None => owned("not found on PATH (install Factory droid)"),
            },
        },
    );
    out.push(
        Check {
            name: owned("factory dir"),
            ok: facts.factory_is_dir,
            detail: owned(facts.factory.as_str()),
        },
    );
    out.push(
        Check { name: owned("dsw home"), ok: facts.home_is_dir, detail: owned(facts.home.as_str()) },
    );
    if facts.home_is_dir {
        match facts.home_mode {
            Some(mode) => {
                let digits = octal_string(mode);
                out.push(
                    Check {
                        name: owned("home perms"),
                        ok: mode == 0o700,
                        detail: cat("0o", digits.as_str()),
                    },
                );
            },
            None => {},
        }
    }
    let live = &facts.live;
    let exp = held(live);
    let live_expired = match exp {
        Some(e) => e <= now,
        None => false,
    };
    let suffix = match exp {
        Some(e) => if e <= now {
            owned("EXPIRED")
        } else {
            let day = format_day(e);
            cat("exp ", day.as_str())
        },
        None => owned(""),
    };
    let shown = live.display_email();
    let with_space = cat(shown.as_str(), " ");
    out.push(
        Check {
            name: owned("live identity"),
            ok: live.email.is_some() && !live_expired,
            detail: cat(with_space.as_str(), suffix.as_str()),
        },
    );
    let ghost head = out@.map_values(|c: Check| check_view(c));
    proof {
        assert(head =~= spec_checks(*facts, now).take(head.len() as int));
        assert(spec_checks(*facts, now) =~= head + facts.profiles@.map_values(
            |p: (String, Identity)| profile_check(p.0@, p.1, now),
        ));
    }
    let mut i: usize = 0;
    while i < facts.profiles.len()
        invariant
            i <= facts.profiles.len(),
            out@.map_values(|c: Check| check_view(c)) == head + facts.profiles@.take(
                i as int,
            ).map_values(|p: (String, Identity)| profile_check(p.0@, p.1, now)),
        decreases facts.profiles.len() - i,
    {
        let (name, id) = &facts.profiles[i];
        let e = held(id);
        let is_expired = match e {
            Some(x) => x <= now,
            None => false,
        };
        let shown = id.display_email();
        let detail = if is_expired {
            cat(shown.as_str(), " (EXPIRED)")
        } else {
            cat(shown.as_str(), "")
        };
        let c = Check {
            name: cat("profile ", name.as_str()),
            ok: id.email.is_some() && !is_expired,
            detail,
        };
        let ghost before = out@.map_values(|c: Check| check_view(c));
        out.push(c);
        proof {
            assert(facts.profiles@.take(i + 1) =~= facts.profiles@.take(i as int).push(
                facts.profiles@[i as int],
            ));
            assert(out@.map_values(|c: Check| check_view(c)) =~= before.push(check_view(c)));
        }
        i = i + 1;
    }
    proof {
        assert(facts.profiles@.take(facts.profiles.len() as int) =~= facts.profiles@);
    }
    out
}

/// The checks, with tokens judged against the current time; `None` when
/// the system clock cannot be read (see `clock::now_utc`).
pub fn checks(facts: &DoctorFacts) -> (r: Option<Vec<Check>>)
    ensures
        r matches Some(cs) ==> exists|now: i64|
            0 <= now && cs@.map_values(|c: Check| check_view(c)) == #[trigger] spec_checks(
                *facts,
                now,
            ),
{
    match now_utc() {
        Some((now, _)) => Some(checks_at(facts, now)),
        None => None,
    }
}

/// Whether some check failed (the command then fails).
pub fn any_failed(checks: &Vec<Check>) -> (r: bool)
    ensures
        r == exists|i: int| 0 <= i < checks@.len() && !(#[trigger] checks@[i]).ok,
{
    let mut i: usize = 0;
    while i < checks.len()
        invariant
            i <= checks.len(),
            forall|j: int| 0 <= j < i ==> (#[trigger] checks@[j]).ok,
        decreases checks.len() - i,
    {
        if !checks[i].ok {
            return true;
        }
        i = i + 1;
    }
    false
}

/// The header of the check table.
pub open spec fn check_header() -> Seq<Seq<char>> {
    seq![""@, "check"@, "detail"@]
}

/// The cells of a check: `ok` or `fail`, its name, its detail.
pub open spec fn check_cells(c: Check) -> Seq<Seq<char>> {
    seq![if c.ok { "ok"@ } else { "fail"@ }, c.name@, c.detail@]
}

/// A row of the check table reads `ok` exactly when its check passed and
/// `fail` exactly when it failed; its other cells are the check's name and
/// detail.
pub proof fn law_check_cells(c: Check)
    ensures
        check_cells(c).len() == 3,
        check_cells(c)[0] == "ok"@ <==> c.ok,
        check_cells(c)[0] == "fail"@ <==> !c.ok,
        check_cells(c)[1] == c.name@ && check_cells(c)[2] == c.detail@,
{
    reveal_strlit("ok");
    reveal_strlit("fail");
    assert("ok"@.len() == 2 && "fail"@.len() == 4);
}

/// The table of the checks.
pub fn table(checks: &Vec<Check>) -> (r: String)
    ensures
        r@ == ascii_table(check_header(), checks@.map_values(|c: Check| check_cells(c))),
{
    let mut header: Vec<String> = Vec::new();
    header.push(owned(""));
    header.push(owned("check"));
    header.push(owned("detail"));
    let mut cells: Vec<Vec<String>> = Vec::new();
    let mut i: usize = 0;
    while i < checks.len()
        invariant
            i <= checks.len(),
            cells.deep_view() == checks@.take(i as int).map_values(|c: Check| check_cells(c)),
        decreases checks.len() - i,
    {
        let c = &checks[i];
        let mut row: Vec<String> = Vec::new();
        row.push(if c.ok {
            owned("ok")
        } else {
            owned("fail")
        });
        row.push(owned(c.name.as_str()));
        row.push(owned(c.detail.as_str()));
        let ghost before = cells.deep_view();
        proof {
            assert(row.deep_view() =~= check_cells(*c));
        }
        cells.push(row);
        proof {
            assert(checks@.take(i + 1) =~= checks@.take(i as int).push(*c));
            assert(cells.deep_view() =~= before.push(check_cells(*c)));
        }
        i = i + 1;
    }
    proof {
        assert(checks@.take(checks.len() as int) =~= checks@);
        assert(header.deep_view() =~= check_header());
    }
    draw(&header, &cells)
}

/// The error `doctor` ends with when a check failed.
pub fn failed_text() -> (r: &'static str)
    ensures
        r@ == "some checks failed"@,
{
    "some checks failed"
}


/// The executable extensions Windows tries when `PATHEXT` is not set.
pub open spec fn default_pathext() -> Seq<char> {
    ".COM;.EXE;.BAT;.CMD"@
}

/// The pieces that are not empty, in order.
pub open spec fn non_empty(parts: Seq<Seq<char>>) -> Seq<Seq<char>>
    decreases parts.len(),
{
    if parts.len() == 0 {
        Seq::empty()
    } else if parts.last().len() == 0 {
        non_empty(parts.drop_last())
    } else {
        non_empty(parts.drop_last()).push(parts.last())
    }
}

/// The file names under which a `PATH` directory may hold the program
/// `name`: the name itself, and on Windows, when the name has no extension,
/// the name followed by each extension of `PATHEXT` (`;`-separated, empty
/// entries skipped; `default_pathext` when unset), in order.
pub open spec fn spec_exe_names(
    name: Seq<char>,
    has_extension: bool,
    windows: bool,
    pathext: Option<Seq<char>>,
) -> Seq<Seq<char>> {
    seq![name] + if windows && !has_extension {
        non_empty(
            split(
                match pathext {
                    Some(p) => p,
                    None => default_pathext(),
                },
                ';',
            ),
        ).map_values(|e: Seq<char>| name + e)
    } else {
        Seq::empty()
    }
}

/// The file names to look for when searching `PATH` for `name` (see
/// `spec_exe_names`); `has_extension` tells whether the name has one, as
/// `Path::extension` sees it.
pub fn exe_names(name: &str, has_extension: bool, windows: bool, pathext: Option<String>) -> (r: Vec<
    String,
>)
    ensures
        r.deep_view() == spec_exe_names(name@, has_extension, windows, opt_view(pathext)),
{
    let mut out: Vec<String> = Vec::new();
    out.push(owned(name));
    if !windows || has_extension {
        proof {
            assert(out.deep_view() =~= spec_exe_names(name@, has_extension, windows, opt_view(pathext)));
        }
        return out;
    }
    let text = match &pathext {
        Some(p) => owned(p.as_str()),
        None => owned(".COM;.EXE;.BAT;.CMD"),
    };
    let cs = chars_of(text.as_str());
    let parts = split_chars(cs.as_slice(), ';');
    let ghost all = split(text@, ';');
    let mut i: usize = 0;
    proof {
        assert(parts@.len() == all.len());
        assert(all.take(0) =~= Seq::<Seq<char>>::empty());
        assert(out.deep_view() =~= seq![name@] + non_empty(all.take(0)).map_values(
            |e: Seq<char>| name@ + e,
        ));
    }
    while i < parts.len()
        invariant
            i <= parts.len(),
            parts@.len() == all.len(),
            forall|j: int| 0 <= j < parts@.len() ==> #[trigger] parts@[j]@ == all[j],
            out.deep_view() == seq![name@] + non_empty(all.take(i as int)).map_values(
                |e: Seq<char>| name@ + e,
            ),
        decreases parts.len() - i,
    {
        let ghost before = out.deep_view();
        proof {
            assert(all.take(i + 1).drop_last() =~= all.take(i as int));
            assert(all.take(i + 1).last() == all[i as int]);
        }
        if parts[i].len() > 0 {
            let ext = string_of(parts[i].as_slice());
            out.push(cat(name, ext.as_str()));
            proof {
                let ne = non_empty(all.take(i as int));
                assert(non_empty(all.take(i + 1)) == ne.push(all[i as int]));
                assert(ne.push(all[i as int]).map_values(|e: Seq<char>| name@ + e) =~= ne.map_values(
                    |e: Seq<char>| name@ + e,
                ).push(name@ + all[i as int]));
                assert(out.deep_view() =~= before.push(name@ + all[i as int]));
            }
        } else {
            proof {
                assert(non_empty(all.take(i + 1)) == non_empty(all.take(i as int)));
            }
        }
        i = i + 1;
    }
    proof {
        assert(all.take(parts.len() as int) =~= all);
        reveal_strlit(".COM;.EXE;.BAT;.CMD");
    }
    out
}

} // verus!

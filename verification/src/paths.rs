//! Filesystem layout of dsw and of the Factory `droid` CLI.
//!
//! Paths are held as strings and joined with the rules of a Unix path
//! join, so the layout can be stated and proved; the program converts them
//! to real paths at its edge.

use vstd::prelude::*;
use vstd::utf8::{encode_utf8, encode_scalar, is_scalar};
use crate::text::{cat, chars_of, debug_char, debug_str, owned, quoted, quoted_char};

verus! {

/// The number of credential files in an auth bundle.
pub const AUTH_FILE_COUNT: usize = 3;

/// The file names of the auth bundle: `auth.v2.file`, `auth.v2.key` and
/// `auth.encrypted`. Nothing else under the Factory directory is touched.
pub open spec fn auth_file_name(i: int) -> Seq<char> {
    if i == 0 {
        "auth.v2.file"@
    } else if i == 1 {
        "auth.v2.key"@
    } else {
        "auth.encrypted"@
    }
}

/// The name of the `i`-th credential file of the auth bundle.
pub fn auth_file(i: usize) -> (r: &'static str)
    requires
        i < AUTH_FILE_COUNT,
    ensures
        r@ == auth_file_name(i as int),
{
    if i == 0 {
        "auth.v2.file"
    } else if i == 1 {
        "auth.v2.key"
    } else {
        "auth.encrypted"
    }
}

/// Appending the path `seg` to the path `base`, as a Unix path join does:
/// an absolute `seg` replaces `base`; otherwise a `/` is put between them
/// unless `base` is empty or already ends in one.
pub open spec fn join(base: Seq<char>, seg: Seq<char>) -> Seq<char> {
    if seg.len() > 0 && seg[0] == '/' {
        seg
    } else if base.len() == 0 {
        seg
    } else if base.last() == '/' {
        base + seg
    } else {
        base + seq!['/'] + seg
    }
}

/// `base` joined with `seg` (see `join`).
pub fn join_path(base: &str, seg: &str) -> (r: String)
    ensures
        r@ == join(base@, seg@),
{
    let b = chars_of(base);
    let s = chars_of(seg);
    if s.len() > 0 && s[0] == '/' {
        return owned(seg);
    }
    if b.len() == 0 {
        return owned(seg);
    }
    let mut r = owned(base);
    if b[b.len() - 1] != '/' {
        r.append("/");
        proof {
            reveal_strlit("/");
        }
    }
    r.append(seg);
    r
}

/// Where dsw keeps its own data, and where the live Factory configuration
/// lives.
#[derive(Debug, Clone)]
pub struct Paths {
    /// `~/.dsw` (or `$DSW_HOME`)
    pub home: String,
    /// `~/.factory` (or `$FACTORY_DIR`): the live Factory droid config dir
    pub factory: String,
}

impl Paths {
    pub open spec fn spec_profiles_dir(&self) -> Seq<char> {
        join(self.home@, "profiles"@)
    }

    pub open spec fn spec_profile_dir(&self, name: Seq<char>) -> Seq<char> {
        join(self.spec_profiles_dir(), name)
    }

    pub open spec fn spec_backups_dir(&self) -> Seq<char> {
        join(self.home@, "backups"@)
    }

    pub open spec fn spec_backup_dir(&self, id: Seq<char>) -> Seq<char> {
        join(self.spec_backups_dir(), id)
    }

    pub open spec fn spec_state_file(&self) -> Seq<char> {
        join(self.home@, "state.json"@)
    }

    /// Construct paths explicitly.
    pub fn new(home: String, factory: String) -> (p: Paths)
        ensures
            p.home@ == home@,
            p.factory@ == factory@,
    {
        Paths { home, factory }
    }

    /// Picks the two roots from the environment: `$DSW_HOME` or
    /// `<home>/.dsw`, and `$FACTORY_DIR` or `<home>/.factory`. The home
    /// directory is only needed where a variable is missing; `None` when it
    /// is needed and unknown.
    pub fn from_env_values(
        dsw_home: Option<String>,
        factory_dir: Option<String>,
        home_dir: Option<String>,
    ) -> (r: Option<Paths>)
        ensures
            r is None <==> ((dsw_home is None || factory_dir is None) && home_dir is None),
            r matches Some(p) ==> {
                &&& p.home@ == (match dsw_home {
                    Some(h) => h@,
                    None => join(home_dir->0@, ".dsw"@),
                })
                &&& p.factory@ == (match factory_dir {
                    Some(f) => f@,
                    None => join(home_dir->0@, ".factory"@),
                })
            },
    {
        let home = match dsw_home {
            Some(h) => h,
            None => match &home_dir {
                Some(d) => join_path(d.as_str(), ".dsw"),
                None => return None,
            },
        };
        let factory = match factory_dir {
            Some(f) => f,
            None => match &home_dir {
                Some(d) => join_path(d.as_str(), ".factory"),
                None => return None,
            },
        };
        Some(Paths { home, factory })
    }

    pub fn profiles_dir(&self) -> (r: String)
        ensures
            r@ == self.spec_profiles_dir(),
    {
        join_path(self.home.as_str(), "profiles")
    }

    pub fn profile_dir(&self, name: &str) -> (r: String)
        ensures
            r@ == self.spec_profile_dir(name@),
    {
        let d = self.profiles_dir();
        join_path(d.as_str(), name)
    }

    pub fn backups_dir(&self) -> (r: String)
        ensures
            r@ == self.spec_backups_dir(),
    {
        join_path(self.home.as_str(), "backups")
    }

    /// The directory of the backup `id`.
    pub fn backup_dir(&self, id: &str) -> (r: String)
        ensures
            r@ == self.spec_backup_dir(id@),
    {
        let d = self.backups_dir();
        join_path(d.as_str(), id)
    }

    pub fn state_file(&self) -> (r: String)
        ensures
            r@ == self.spec_state_file(),
    {
        join_path(self.home.as_str(), "state.json")
    }

    /// Live Factory auth file paths inside the Factory directory.
    pub fn live_auth_files(&self) -> (r: Vec<String>)
        ensures
            r.len() == AUTH_FILE_COUNT,
            forall|i: int|
                0 <= i < AUTH_FILE_COUNT ==> #[trigger] r[i]@ == join(self.factory@, auth_file_name(i)),
    {
        files_in(self.factory.as_str())
    }

    /// Saved auth file paths inside a profile directory.
    pub fn profile_auth_files(&self, name: &str) -> (r: Vec<String>)
        ensures
            r.len() == AUTH_FILE_COUNT,
            forall|i: int|
                0 <= i < AUTH_FILE_COUNT ==> #[trigger] r[i]@ == join(
                    self.spec_profile_dir(name@),
                    auth_file_name(i),
                ),
    {
        let dir = self.profile_dir(name);
        files_in(dir.as_str())
    }
}

/// The paths of the three auth files inside `dir`.
pub fn files_in(dir: &str) -> (r: Vec<String>)
    ensures
        r.len() == AUTH_FILE_COUNT,
        forall|i: int| 0 <= i < AUTH_FILE_COUNT ==> #[trigger] r[i]@ == join(dir@, auth_file_name(i)),
{
    let mut r: Vec<String> = Vec::new();
    let mut i: usize = 0;
    while i < AUTH_FILE_COUNT
        invariant
            i <= AUTH_FILE_COUNT,
            r.len() == i,
            forall|j: int| 0 <= j < i ==> #[trigger] r[j]@ == join(dir@, auth_file_name(j)),
        decreases AUTH_FILE_COUNT - i,
    {
        r.push(join_path(dir, auth_file(i)));
        i = i + 1;
    }
    r
}

/// Why a profile name was refused.
#[derive(Debug, Clone, Copy, PartialEq, Eq)]
pub enum NameError {
    /// Empty, or longer than 64 bytes.
    Length,
    /// Starts or ends with `-`.
    DashAtEdge,
    /// Holds a character other than `a-z`, `0-9`, `-` and `_`; the first one.
    BadChar(char),
}

/// The message of a name refused with `e`, given the name (`name_q`) and,
/// for `BadChar`, the character (`ch_q`) as the `{:?}` format writes
/// them.
pub open spec fn name_error_text(e: NameError, name_q: Seq<char>, ch_q: Seq<char>) -> Seq<char> {
    match e {
        NameError::Length => "profile name must be 1..=64 chars: "@ + name_q,
        NameError::DashAtEdge => "profile name cannot start or end with '-': "@ + name_q,
        NameError::BadChar(_) => "profile name may only contain a-z 0-9 - _ (got "@ + ch_q
            + " in "@ + name_q + ")"@,
    }
}

impl NameError {
    /// The message of the refusal of the name `name`.
    pub open spec fn spec_message(self, name: Seq<char>) -> Seq<char> {
        name_error_text(
            self,
            debug_str(name),
            match self {
                NameError::BadChar(c) => debug_char(c),
                _ => Seq::empty(),
            },
        )
    }

    /// The message of this refusal, given the quoted name and character
    /// (see `name_error_text`).
    pub fn text(&self, name_q: &str, ch_q: &str) -> (r: String)
        ensures
            r@ == name_error_text(*self, name_q@, ch_q@),
    {
        match self {
            NameError::Length => cat("profile name must be 1..=64 chars: ", name_q),
            NameError::DashAtEdge => cat("profile name cannot start or end with '-': ", name_q),
            NameError::BadChar(_) => {
                let a = cat("profile name may only contain a-z 0-9 - _ (got ", ch_q);
                let b = cat(a.as_str(), " in ");
                let c = cat(b.as_str(), name_q);
                cat(c.as_str(), ")")
            },
        }
    }

    /// The message of the refusal of the name `name`.
    pub fn message(&self, name: &str) -> (r: String)
        ensures
            r@ == self.spec_message(name@),
    {
        let name_q = quoted(name);
        let ch_q = match self {
            NameError::BadChar(c) => quoted_char(*c),
            _ => owned(""),
        };
        proof {
            reveal_strlit("");
        }
        self.text(name_q.as_str(), ch_q.as_str())
    }
}

/// A character a profile name may hold: lowercase ASCII letters, digits,
/// `-` and `_`.
pub open spec fn name_char_ok(c: char) -> bool {
    ('a' <= c && c <= 'z') || ('0' <= c && c <= '9') || c == '-' || c == '_'
}

/// The index of the first character of `s` that a profile name may not
/// hold, if there is one.
pub open spec fn first_bad_char(s: Seq<char>) -> Option<int> {
    if exists|i: int| 0 <= i < s.len() && !name_char_ok(#[trigger] s[i]) {
        Some(
            choose|i: int|
                0 <= i < s.len() && !name_char_ok(#[trigger] s[i]) && forall|j: int|
                    0 <= j < i ==> name_char_ok(#[trigger] s[j]),
        )
    } else {
        None
    }
}

/// The verdict on a profile name of the characters `s` that takes
/// `byte_len` bytes in UTF-8: 1 to 64 bytes, no `-` at either end, and only
/// `a-z 0-9 - _`; the checks are made in this order.
pub open spec fn name_verdict(s: Seq<char>, byte_len: nat) -> Result<(), NameError> {
    if s.len() == 0 || byte_len > 64 {
        Err(NameError::Length)
    } else if s[0] == '-' || s.last() == '-' {
        Err(NameError::DashAtEdge)
    } else {
        match first_bad_char(s) {
            Some(i) => Err(NameError::BadChar(s[i])),
            None => Ok(()),
        }
    }
}

/// A name that `validate_profile_name` accepts.
pub open spec fn valid_profile_name(s: Seq<char>) -> bool {
    name_verdict(s, encode_utf8(s).len()) is Ok
}

/// Validate a profile name: lowercase ASCII letters, digits, `-` and `_`,
/// 1 to 64 bytes, no leading or trailing dash. This keeps file names
/// portable and keeps out characters that mean something to a shell.
pub fn validate_profile_name(name: &str) -> (r: Result<(), NameError>)
    ensures
        r == name_verdict(name@, encode_utf8(name@).len()),
{
    let cs = chars_of(name);
    if cs.len() == 0 {
        return Err(NameError::Length);
    }
    // The UTF-8 length, summed from the end and given up once above 64.
    let mut total: usize = 0;
    let mut j: usize = cs.len();
    while j > 0
        invariant
            j <= cs.len(),
            cs@ == name@,
            total <= 64,
            total == encode_utf8(cs@.skip(j as int)).len(),
        decreases j,
    {
        j = j - 1;
        let w = utf8_width(cs[j]);
        proof {
            assert(cs@.skip(j as int).drop_first() =~= cs@.skip(j + 1));
            assert(cs@.skip(j as int)[0] == cs@[j as int]);
        }
        total = total + w;
        if total > 64 {
            proof {
                lemma_encode_utf8_len_skip(cs@, j as int);
            }
            return Err(NameError::Length);
        }
    }
    proof {
        assert(cs@.skip(0) =~= cs@);
    }
    if cs[0] == '-' || cs[cs.len() - 1] == '-' {
        return Err(NameError::DashAtEdge);
    }
    let mut i: usize = 0;
    while i < cs.len()
        invariant
            i <= cs.len(),
            cs@ == name@,
            cs.len() > 0,
            encode_utf8(name@).len() <= 64,
            cs@[0] != '-',
            cs@.last() != '-',
            forall|j: int| 0 <= j < i ==> name_char_ok(#[trigger] cs@[j]),
        decreases cs.len() - i,
    {
        let ch = cs[i];
        let ok = ('a' <= ch && ch <= 'z') || ('0' <= ch && ch <= '9') || ch == '-' || ch == '_';
        if !ok {
            proof {
                let s = name@;
                assert(exists|k: int| 0 <= k < s.len() && !name_char_ok(#[trigger] s[k]));
                assert(0 <= i < s.len() && !name_char_ok(s[i as int]) && forall|j: int|
                    0 <= j < i ==> name_char_ok(#[trigger] s[j]));
                let k = first_bad_char(s)->0;
                if k < i {
                    assert(name_char_ok(s[k]));
                } else if k > i {
                    assert(name_char_ok(s[i as int]));
                }
            }
            return Err(NameError::BadChar(ch));
        }
        i = i + 1;
    }
    Ok(())
}

/// The number of bytes of the UTF-8 encoding of `c`.
fn utf8_width(c: char) -> (w: usize)
    ensures
        w == encode_scalar(c as u32).len(),
        1 <= w <= 4,
{
    proof {
        broadcast use vstd::utf8::char_is_scalar;
        assert(is_scalar(c as u32));
    }
    let u = c as u32;
    if u < 0x80 {
        1
    } else if u < 0x800 {
        2
    } else if u < 0x10000 {
        3
    } else {
        4
    }
}

/// A suffix of a character sequence never takes more UTF-8 bytes than the
/// whole sequence.
proof fn lemma_encode_utf8_len_skip(s: Seq<char>, j: int)
    requires
        0 <= j <= s.len(),
    ensures
        encode_utf8(s.skip(j)).len() <= encode_utf8(s).len(),
    decreases j,
{
    if j == 0 {
        assert(s.skip(0) =~= s);
    } else {
        lemma_encode_utf8_len_skip(s.drop_first(), j - 1);
        assert(s.drop_first().skip(j - 1) =~= s.skip(j));
    }
}

/// A valid profile name names one plain directory entry inside the
/// profiles directory: it is not empty, holds only `a-z 0-9 - _` (so no
/// path separator and no dot, and it is never `.` or `..`), and the
/// profile's directory is the profiles directory, a `/`, and the name.
pub proof fn law_valid_name_is_plain(p: Paths, name: Seq<char>)
    requires
        valid_profile_name(name),
    ensures
        name.len() > 0,
        forall|i: int| 0 <= i < name.len() ==> name_char_ok(#[trigger] name[i]),
        forall|i: int|
            0 <= i < name.len() ==> #[trigger] name[i] != '/' && name[i] != '\\' && name[i]
                != '.',
        p.spec_profile_dir(name) == p.spec_profiles_dir() + seq!['/'] + name,
{
    reveal_strlit("profiles");
    let dir = p.spec_profiles_dir();
    assert(dir.len() > 0 && dir.last() == 's') by {
        let h = p.home@;
        let seg = "profiles"@;
        assert(seg.len() == 8 && seg[0] == 'p' && seg.last() == 's');
        if h.len() == 0 {
        } else if h.last() == '/' {
            assert((h + seg).last() == seg.last());
        } else {
            assert((h + seq!['/'] + seg).last() == seg.last());
        }
    }
}

/// Whether a directory looks like a populated profile: it is a directory
/// and it holds an `auth.v2.file` regular file.
pub fn looks_like_profile(is_dir: bool, has_auth_v2_file: bool) -> (r: bool)
    ensures
        r == (is_dir && has_auth_v2_file),
{
    is_dir && has_auth_v2_file
}

} // verus!

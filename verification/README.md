# dsw (Droid Switch)

`dsw` keeps several Factory `droid` logins side by side and swaps the live
one. Each login is saved as a named profile (a copy of the three auth files
`auth.v2.file`, `auth.v2.key` and `auth.encrypted`), and switching copies a
profile's bundle over the live one after backing the live one up.

## Layout

- `src/` is the library, verified with Verus. Every command is a function
  from what the program read (which files exist, the decoded identities, the
  answers to prompts) to a plan of file operations and the text to print.
  `store.rs` gives those operations a meaning over an abstract disk, and the
  `law_*` proof functions state what the plans do to it: a snapshot saves
  exactly the live bundle, activating a profile brings back exactly its
  bundle, a switch backs the live login up first and can roll back to it,
  `sync --all` touches only the profiles of the live account, and so on.
- `app/` is the command-line program around it: argument parsing, reading
  and writing files, JSON, running `droid`, and printing.
- `tests/` holds the tests; `tests/flows.rs` plays whole commands against an
  in-memory file system.

Outside crates are called through small trusted functions whose contracts
name what the crate computes: `base64` and `aes-gcm` to open the auth
bundle, `chrono` for date formats, `comfy-table` for tables; the clock is read
through std and checked before use.

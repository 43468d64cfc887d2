//! Droid Switch: keep several Factory `droid` logins side by side and swap
//! the live one.
//!
//! The library holds the rules of the tool: which names a profile may
//! carry, where every file lives, how an auth bundle is read, and which file
//! operations each command performs. Every command is stated as a plan of
//! operations over an abstract model of the files on disk, so that the
//! promises of the tool (a switch brings back exactly the saved login, a
//! backup keeps exactly the live login, ...) are proved over that model.

pub mod text;
pub mod paths;
pub mod factory;
pub mod store;
pub mod backup;
pub mod profile;
pub mod state;
pub mod clock;
pub mod commands;
pub mod cli;
pub mod table;

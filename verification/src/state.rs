//! The small `~/.dsw/state.json` record of which profile is live.

use vstd::prelude::*;
use crate::text::{owned, str_eq};

verus! {

/// Which profile is live, if dsw knows.
#[derive(Debug, Default, Clone, PartialEq, Eq)]
pub struct State {
    pub active: Option<String>,
}

/// The view of an optional string.
pub open spec fn opt_view(o: Option<String>) -> Option<Seq<char>> {
    match o {
        Some(s) => Some(s@),
        None => None,
    }
}

impl State {
    /// The state of a fresh install: no active profile.
    pub fn empty() -> (r: State)
        ensures
            r.active is None,
    {
        State { active: None }
    }

    /// Whether `name` is the active profile.
    pub fn is_active(&self, name: &str) -> (r: bool)
        ensures
            r == (opt_view(self.active) == Some(name@)),
    {
        match &self.active {
            Some(a) => str_eq(a.as_str(), name),
            None => false,
        }
    }

    /// Make `name` the active profile.
    pub fn activate(&mut self, name: &str)
        ensures
            opt_view(final(self).active) == Some(name@),
    {
        self.active = Some(owned(name));
    }

    /// Forget that `name` is active after it was deleted. Returns whether
    /// the state changed (and must be saved): exactly when `name` was the
    /// active profile, which leaves no profile active.
    pub fn forget(&mut self, name: &str) -> (changed: bool)
        ensures
            changed == (opt_view(old(self).active) == Some(name@)),
            changed ==> final(self).active is None,
            !changed ==> *final(self) == *old(self),
    {
        if self.is_active(name) {
            self.active = None;
            true
        } else {
            false
        }
    }

    /// Follow a rename from `from` to `to`. Returns whether the state changed
    /// (and must be saved): exactly when `from` was the active profile,
    /// which makes `to` the active one.
    pub fn follow_rename(&mut self, from: &str, to: &str) -> (changed: bool)
        ensures
            changed == (opt_view(old(self).active) == Some(from@)),
            changed ==> opt_view(final(self).active) == Some(to@),
            !changed ==> *final(self) == *old(self),
    {
        if self.is_active(from) {
            self.active = Some(owned(to));
            true
        } else {
            false
        }
    }
}

} // verus!

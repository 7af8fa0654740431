//! The user-analytics screen: the user list, the selection, and the details
//! of the selected user.
//!
//! Rows are kept with the user's id beside them; the row, the detailed
//! statistics and the session records are carried as they come. Times are
//! seconds on a monotonic clock that the caller reads.

use vstd::prelude::*;
use crate::text::str_eq;

verus! {

/// How long, in seconds, the user list stays fresh.
pub const USERS_REFRESH_SECS: u64 = 60;

/// User analytics state: rows `U`, detailed statistics `S`, sessions `D`.
pub struct UsersState<U, S, D> {
    /// The users, each with its id, in list order
    pub users: Vec<(String, U)>,
    /// Currently selected user index in list
    pub selected_index: usize,
    /// Selected user's detailed stats
    pub selected_user_stats: Option<S>,
    /// Selected user's DM sessions
    pub selected_user_sessions: Vec<D>,
    /// Whether viewing user details (vs list)
    pub viewing_details: bool,
    /// Last refresh time
    pub last_refresh: Option<u64>,
    /// Whether a refresh is in progress
    pub refreshing: bool,
}

impl<U, S, D> UsersState<U, S, D> {
    pub fn new() -> (s: Self)
        ensures
            s.users@.len() == 0,
            s.selected_index == 0,
            s.selected_user_stats is None,
            s.selected_user_sessions@.len() == 0,
            !s.viewing_details,
            s.last_refresh is None,
            !s.refreshing,
    {
        UsersState {
            users: Vec::new(),
            selected_index: 0,
            selected_user_stats: None,
            selected_user_sessions: Vec::new(),
            viewing_details: false,
            last_refresh: None,
            refreshing: false,
        }
    }

    /// Set the user list, refreshed at `now`.
    pub fn set_users(&mut self, users: Vec<(String, U)>, now: u64)
        ensures
            final(self).users@ == users@,
            final(self).last_refresh == Some(now),
            !final(self).refreshing,
            final(self).selected_index == old(self).selected_index,
            final(self).selected_user_stats == old(self).selected_user_stats,
            final(self).selected_user_sessions@ == old(self).selected_user_sessions@,
            final(self).viewing_details == old(self).viewing_details,
    {
        self.users = users;
        self.last_refresh = Some(now);
        self.refreshing = false;
    }

    /// Take the details of `user_id` if that user is the one selected;
    /// otherwise they are dropped.
    pub fn set_user_details(&mut self, user_id: &str, stats: S, dm_sessions: Vec<D>)
        ensures
            ({
                let selected_is_user = old(self).selected_index < old(self).users@.len()
                    && old(self).users@[old(self).selected_index as int].0@ == user_id@;
                &&& selected_is_user ==> final(self).selected_user_stats == Some(stats)
                    && final(self).selected_user_sessions@ == dm_sessions@
                &&& !selected_is_user ==> final(self).selected_user_stats == old(self).selected_user_stats
                    && final(self).selected_user_sessions@ == old(self).selected_user_sessions@
            }),
            final(self).users@ == old(self).users@,
            final(self).selected_index == old(self).selected_index,
            final(self).viewing_details == old(self).viewing_details,
            final(self).last_refresh == old(self).last_refresh,
            final(self).refreshing == old(self).refreshing,
    {
        if self.selected_index < self.users.len() && str_eq(self.users[self.selected_index].0.as_str(), user_id) {
            self.selected_user_stats = Some(stats);
            self.selected_user_sessions = dm_sessions;
        }
    }

    /// The selected user, if the selection is within the list.
    pub fn selected_user(&self) -> (r: Option<&(String, U)>)
        ensures
            self.selected_index < self.users@.len() ==> r == Some(&self.users@[self.selected_index as int]),
            self.selected_index >= self.users@.len() ==> r is None,
    {
        if self.selected_index < self.users.len() {
            Some(&self.users[self.selected_index])
        } else {
            None
        }
    }

    /// Select the previous user; moving drops the details shown.
    pub fn select_previous(&mut self)
        ensures
            old(self).selected_index > 0 ==> final(self).selected_index == old(self).selected_index - 1
                && final(self).selected_user_stats is None && final(self).selected_user_sessions@.len() == 0
                && !final(self).viewing_details,
            old(self).selected_index == 0 ==> final(self).selected_index == 0
                && final(self).selected_user_stats == old(self).selected_user_stats
                && final(self).selected_user_sessions@ == old(self).selected_user_sessions@
                && final(self).viewing_details == old(self).viewing_details,
            final(self).users@ == old(self).users@,
            final(self).last_refresh == old(self).last_refresh,
            final(self).refreshing == old(self).refreshing,
    {
        if self.selected_index > 0 {
            self.selected_index -= 1;
            self.clear_details();
        }
    }

    /// Select the next user (up to the last); moving drops the details shown.
    pub fn select_next(&mut self)
        ensures
            old(self).selected_index + 1 < old(self).users@.len() ==> final(self).selected_index
                == old(self).selected_index + 1 && final(self).selected_user_stats is None
                && final(self).selected_user_sessions@.len() == 0 && !final(self).viewing_details,
            old(self).selected_index + 1 >= old(self).users@.len() ==> final(self).selected_index
                == old(self).selected_index && final(self).selected_user_stats == old(self).selected_user_stats
                && final(self).selected_user_sessions@ == old(self).selected_user_sessions@
                && final(self).viewing_details == old(self).viewing_details,
            final(self).users@ == old(self).users@,
            final(self).last_refresh == old(self).last_refresh,
            final(self).refreshing == old(self).refreshing,
    {
        if self.selected_index < self.users.len().saturating_sub(1) {
            self.selected_index += 1;
            self.clear_details();
        }
    }

    /// Open the details of the selected user, if there is one.
    pub fn enter_details(&mut self)
        ensures
            final(self).viewing_details == (old(self).viewing_details || old(self).selected_index
                < old(self).users@.len()),
            final(self).users@ == old(self).users@,
            final(self).selected_index == old(self).selected_index,
            final(self).selected_user_stats == old(self).selected_user_stats,
            final(self).selected_user_sessions@ == old(self).selected_user_sessions@,
            final(self).last_refresh == old(self).last_refresh,
            final(self).refreshing == old(self).refreshing,
    {
        if self.selected_user().is_some() {
            self.viewing_details = true;
        }
    }

    /// Close the details view.
    pub fn exit_details(&mut self)
        ensures
            !final(self).viewing_details,
            final(self).users@ == old(self).users@,
            final(self).selected_index == old(self).selected_index,
            final(self).selected_user_stats == old(self).selected_user_stats,
            final(self).selected_user_sessions@ == old(self).selected_user_sessions@,
            final(self).last_refresh == old(self).last_refresh,
            final(self).refreshing == old(self).refreshing,
    {
        self.viewing_details = false;
    }

    fn clear_details(&mut self)
        ensures
            final(self).selected_user_stats is None,
            final(self).selected_user_sessions@.len() == 0,
            !final(self).viewing_details,
            final(self).users@ == old(self).users@,
            final(self).selected_index == old(self).selected_index,
            final(self).last_refresh == old(self).last_refresh,
            final(self).refreshing == old(self).refreshing,
    {
        self.selected_user_stats = None;
        self.selected_user_sessions.clear();
        self.viewing_details = false;
    }

    /// The list needs a refresh when it never had one or the last is 60
    /// seconds old.
    pub fn needs_refresh(&self, now: u64) -> (b: bool)
        ensures
            b == match self.last_refresh {
                None => true,
                Some(t) => crate::tui::state::errors::since(now, t) >= USERS_REFRESH_SECS,
            },
    {
        match self.last_refresh {
            None => true,
            Some(t) => {
                let e = if now >= t {
                    now - t
                } else {
                    0
                };
                e >= USERS_REFRESH_SECS
            },
        }
    }

    /// Mark a refresh as started.
    pub fn start_refresh(&mut self)
        ensures
            final(self).refreshing,
            final(self).users@ == old(self).users@,
            final(self).selected_index == old(self).selected_index,
            final(self).selected_user_stats == old(self).selected_user_stats,
            final(self).selected_user_sessions@ == old(self).selected_user_sessions@,
            final(self).viewing_details == old(self).viewing_details,
            final(self).last_refresh == old(self).last_refresh,
    {
        self.refreshing = true;
    }
}

} // verus!

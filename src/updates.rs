//! When the desktop host should look for a new release.
use vstd::prelude::*;

verus! {

/// The time between two automatic update checks, in hours.
pub const MAX_UPDATE_CHECK_HOURS: u64 = 12;

/// Remembers when updates were last looked for, in seconds since the Unix
/// epoch.
pub struct MVUpdater {
    last_update_check: Option<u64>,
}

impl MVUpdater {
    pub closed spec fn last_check(&self) -> Option<u64> {
        self.last_update_check
    }

    /// An updater that has never checked.
    pub fn new() -> (r: Self)
        ensures
            r.last_check() is None,
    {
        MVUpdater { last_update_check: None }
    }

    /// Whether a check is due at time `now`: always before the first check,
    /// and afterwards once the period has passed since the last one. A clock
    /// that went back before the last check makes no check due.
    pub fn is_update_check_due(&self, now: u64) -> (r: bool)
        ensures
            r == match self.last_check() {
                None => true,
                Some(t) => now >= t && now - t >= MAX_UPDATE_CHECK_HOURS * 3600,
            },
    {
        match self.last_update_check {
            None => true,
            Some(t) => now >= t && now - t >= MAX_UPDATE_CHECK_HOURS * 3600,
        }
    }

    /// Records a check made at time `now`.
    pub fn record_check(&mut self, now: u64)
        ensures
            final(self).last_check() == Some(now),
    {
        self.last_update_check = Some(now);
    }
}

} // verus!

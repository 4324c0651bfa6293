//! Debouncing theme-change notifications.
use vstd::prelude::*;

verus! {

/// The debounce window, in milliseconds.
pub const DEBOUNCE_MS: u64 = 200;

/// Whether a notification at `now` is acted upon, given the last reload at
/// `last`: only once more than the debounce window has passed.
pub open spec fn accepts(last: u64, now: u64) -> bool {
    now > last && now - last > DEBOUNCE_MS
}

/// The reading of the last applied reload.
pub struct ThemeWatch {
    pub last_reload: u64,
}

impl ThemeWatch {
    /// A watcher whose last reload happened at `now`.
    pub fn new(now: u64) -> (r: ThemeWatch)
        ensures
            r.last_reload == now,
    {
        ThemeWatch { last_reload: now }
    }

    /// Handles one change notification at `now`: returns whether the theme is
    /// to be resolved again, and if so records `now` as the last reload.
    pub fn on_change(&mut self, now: u64) -> (reload: bool)
        ensures
            reload == accepts(old(self).last_reload, now),
            final(self).last_reload == if reload {
                now
            } else {
                old(self).last_reload
            },
    {
        let since = now.saturating_sub(self.last_reload);
        if since > DEBOUNCE_MS {
            self.last_reload = now;
            true
        } else {
            false
        }
    }
}

/// The number of resolutions that two notifications, at `t1` and then `t2`,
/// bring about.
pub open spec fn reloads_for_two(last: u64, t1: u64, t2: u64) -> nat {
    let first = accepts(last, t1);
    let last2 = if first {
        t1
    } else {
        last
    };
    (if first {
        1nat
    } else {
        0nat
    }) + (if accepts(last2, t2) {
        1nat
    } else {
        0nat
    })
}

/// Of two notifications, the first of which is acted upon, the second is acted
/// upon too exactly when it comes more than the debounce window later: a burst
/// within the window brings one resolution, two notifications further apart
/// bring two.
pub proof fn lemma_debounce_two_notifications(w: ThemeWatch, t1: u64, gap: u64)
    requires
        accepts(w.last_reload, t1),
        t1 + gap <= u64::MAX,
    ensures
        reloads_for_two(w.last_reload, t1, (t1 + gap) as u64) == if gap > DEBOUNCE_MS {
            2nat
        } else {
            1nat
        },
{
}

} // verus!

//! The focus session: a countdown that can be paused, resumed and reset.
//!
//! Times are plain millisecond counts. A clock reading (`now`) is the number of
//! milliseconds since a fixed, monotonic origin chosen by the caller.
use vstd::prelude::*;

verus! {

/// One countdown session.
///
/// While paused, `paused_at` holds the frozen elapsed time; while running,
/// elapsed time is measured from the reference reading `start`.
pub struct FocusTime {
    pub start: u64,
    pub duration: u64,
    pub quit: bool,
    pub paused: bool,
    pub paused_at: Option<u64>,
}

impl FocusTime {
    /// Exactly one of the two ways of measuring elapsed time is in force.
    pub open spec fn wf(&self) -> bool {
        self.paused <==> self.paused_at is Some
    }

    /// Elapsed time at clock reading `now`.
    pub open spec fn elapsed_spec(&self, now: u64) -> u64 {
        if self.paused {
            match self.paused_at {
                Some(p) => p,
                None => 0,
            }
        } else if now >= self.start {
            (now - self.start) as u64
        } else {
            0
        }
    }

    /// Time left at clock reading `now`, floored at zero.
    pub open spec fn remaining_spec(&self, now: u64) -> u64 {
        let e = self.elapsed_spec(now);
        if e <= self.duration {
            (self.duration - e) as u64
        } else {
            0
        }
    }

    /// The state after `toggle_paused(elapsed, now)`.
    pub open spec fn toggled(self, elapsed: u64, now: u64) -> FocusTime {
        if self.paused {
            FocusTime {
                start: match self.paused_at {
                    Some(p) => (now - p) as u64,
                    None => self.start,
                },
                paused: false,
                paused_at: None,
                ..self
            }
        } else {
            FocusTime { paused: true, paused_at: Some(elapsed), ..self }
        }
    }

    /// What `toggle_paused` needs: a resume cannot rebase before the clock's origin.
    pub open spec fn can_toggle(&self, now: u64) -> bool {
        self.paused ==> match self.paused_at {
            Some(p) => p <= now,
            None => true,
        }
    }

    /// A new session of `duration` milliseconds: paused, with nothing elapsed.
    pub fn new(duration: u64, now: u64) -> (r: FocusTime)
        ensures
            r.wf(),
            r.duration == duration,
            r.start == now,
            !r.quit,
            r.paused,
            r.paused_at == Some(0u64),
            r.elapsed_spec(now) == 0,
    {
        FocusTime { start: now, duration, quit: false, paused: true, paused_at: Some(0) }
    }

    /// Pauses a running session, freezing `elapsed`, or resumes a paused one,
    /// rebasing the reference reading so that elapsed time continues from the
    /// frozen value.
    pub fn toggle_paused(&mut self, elapsed: u64, now: u64)
        requires
            old(self).can_toggle(now),
        ensures
            *final(self) == old(self).toggled(elapsed, now),
    {
        if self.paused {
            if let Some(paused_at) = self.paused_at {
                self.start = now - paused_at;
            }
            self.paused = false;
            self.paused_at = None;
        } else {
            self.paused = true;
            self.paused_at = Some(elapsed);
        }
    }

    /// Starts the session over: paused, nothing elapsed, not quitting.
    pub fn reset(&mut self, now: u64)
        ensures
            final(self).wf(),
            final(self).start == now,
            final(self).duration == old(self).duration,
            !final(self).quit,
            final(self).paused,
            final(self).paused_at == Some(0u64),
            final(self).elapsed_spec(now) == 0,
    {
        self.start = now;
        self.quit = false;
        self.paused = true;
        self.paused_at = Some(0);
    }

    /// Elapsed time at clock reading `now`: the frozen value while paused,
    /// else the time since the reference reading (zero if the reading is later).
    pub fn elapsed(&self, now: u64) -> (r: u64)
        ensures
            r == self.elapsed_spec(now),
    {
        if self.paused {
            match self.paused_at {
                Some(p) => p,
                None => 0,
            }
        } else {
            now.saturating_sub(self.start)
        }
    }

    /// Time left at clock reading `now`; zero once the duration is used up.
    pub fn remaining(&self, now: u64) -> (r: u64)
        ensures
            r == self.remaining_spec(now),
            self.elapsed_spec(now) >= self.duration ==> r == 0,
            r <= self.duration,
    {
        self.duration.saturating_sub(self.elapsed(now))
    }
}

/// A key press, as far as the session cares.
#[derive(Clone, Copy, Debug, PartialEq, Eq, Structural)]
pub enum Key {
    Quit,
    TogglePause,
    Reset,
    Other,
}

/// The meaning of a typed character: `q` quits, space pauses or resumes, `r`
/// resets.
pub fn key_of(c: char) -> (k: Key)
    ensures
        k == (if c == 'q' {
            Key::Quit
        } else if c == ' ' {
            Key::TogglePause
        } else if c == 'r' {
            Key::Reset
        } else {
            Key::Other
        }),
{
    if c == 'q' {
        Key::Quit
    } else if c == ' ' {
        Key::TogglePause
    } else if c == 'r' {
        Key::Reset
    } else {
        Key::Other
    }
}

/// Minutes and seconds of the `MM:SS` countdown for `remaining` milliseconds,
/// whole seconds only.
pub fn clock_face(remaining: u64) -> (r: (u64, u64))
    ensures
        r.0 == remaining / 1000 / 60,
        r.1 == remaining / 1000 % 60,
        r.1 < 60,
{
    let secs = remaining / 1000;
    (secs / 60, secs % 60)
}

impl FocusTime {
    /// Acts on a key press at clock reading `now`. A pause freezes the elapsed
    /// time measured just before it.
    pub fn handle_key(&mut self, key: Key, now: u64)
        requires
            old(self).can_toggle(now),
        ensures
            key == Key::Quit ==> *final(self) == (FocusTime { quit: true, ..*old(self) }),
            key == Key::TogglePause ==> *final(self) == old(self).toggled(
                old(self).elapsed_spec(now),
                now,
            ),
            key == Key::Reset ==> *final(self) == (FocusTime {
                start: now,
                quit: false,
                paused: true,
                paused_at: Some(0u64),
                ..*old(self)
            }),
            key == Key::Other ==> *final(self) == *old(self),
    {
        match key {
            Key::Quit => {
                self.quit = true;
            },
            Key::TogglePause => {
                let e = self.elapsed(now);
                self.toggle_paused(e, now);
            },
            Key::Reset => {
                self.reset(now);
            },
            Key::Other => {},
        }
    }

    /// One tick of the session at clock reading `now`: returns the time left,
    /// and once none is left starts the session over (paused, nothing elapsed),
    /// so the countdown never sticks at zero.
    pub fn tick(&mut self, now: u64) -> (r: u64)
        ensures
            r == old(self).remaining_spec(now),
            r > 0 ==> *final(self) == *old(self),
            r == 0 ==> *final(self) == (FocusTime {
                start: now,
                quit: false,
                paused: true,
                paused_at: Some(0u64),
                ..*old(self)
            }),
            r == 0 ==> final(self).elapsed_spec(now) == 0,
    {
        let r = self.remaining(now);
        if r == 0 {
            self.reset(now);
        }
        r
    }
}

/// The state after `n` presses of the pause key, all at clock reading `now`.
pub open spec fn toggled_n(s: FocusTime, now: u64, n: nat) -> FocusTime
    decreases n,
{
    if n == 0 {
        s
    } else {
        let t = toggled_n(s, now, (n - 1) as nat);
        t.toggled(t.elapsed_spec(now), now)
    }
}

/// Pausing and resuming loses no time: any number of presses of the pause key
/// with no time passing in between leave the elapsed time as it was, and each
/// press in the series is allowed.
pub proof fn lemma_pause_resume_lossless(s: FocusTime, now: u64, n: nat)
    requires
        s.wf(),
        s.can_toggle(now),
    ensures
        toggled_n(s, now, n).wf(),
        toggled_n(s, now, n).can_toggle(now),
        toggled_n(s, now, n).elapsed_spec(now) == s.elapsed_spec(now),
        toggled_n(s, now, n).duration == s.duration,
        toggled_n(s, now, n).paused == if n % 2 == 0 {
            s.paused
        } else {
            !s.paused
        },
    decreases n,
{
    if n > 0 {
        lemma_pause_resume_lossless(s, now, (n - 1) as nat);
    }
}

/// Time left is never negative: it is the duration less the elapsed time
/// while that is smaller, and zero once the elapsed time reaches the duration.
pub proof fn lemma_remaining_floored(s: FocusTime, now: u64)
    ensures
        s.elapsed_spec(now) >= s.duration ==> s.remaining_spec(now) == 0,
        s.elapsed_spec(now) < s.duration ==> s.remaining_spec(now) == s.duration
            - s.elapsed_spec(now),
        0 <= s.remaining_spec(now) <= s.duration,
{
}

} // verus!

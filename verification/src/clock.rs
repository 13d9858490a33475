//! Frame timing: the time between frames and a once-per-second frame rate.

use vstd::prelude::*;

verus! {

/// The length of the window over which frames are counted, in nanoseconds:
/// one second.
pub const RATE_WINDOW: u64 = 1_000_000_000;

/// What a tick reports: the nanoseconds since the previous tick and the
/// frame rate as last computed.
#[derive(Clone, Copy, Debug, PartialEq, Eq, Structural)]
pub struct ClockReading {
    pub delta_time: u64,
    pub frames_per_second: usize,
}

/// The clock as a mathematical value. Times are nanoseconds on the host's
/// monotonic clock.
pub struct ClockView {
    /// When the clock last ticked, if it ever did.
    pub last_tick: Option<u64>,
    /// When the current counting window began.
    pub window_start: u64,
    /// The ticks counted in the current window.
    pub frame_counter: usize,
    /// The count of the last window that was closed.
    pub frames_per_second: usize,
}

impl ClockView {
    /// A clock started at `now`: no tick yet, an empty window, no rate.
    pub open spec fn started(now: u64) -> Self {
        ClockView { last_tick: None, window_start: now, frame_counter: 0, frames_per_second: 0 }
    }

    /// The time from `earlier` to `now`, zero where `now` is not later.
    pub open spec fn elapsed(earlier: u64, now: u64) -> u64 {
        if now >= earlier {
            (now - earlier) as u64
        } else {
            0
        }
    }

    /// The count of the current window with the tick at hand added. It stops
    /// at the largest `usize`.
    pub open spec fn counted(self) -> usize {
        if self.frame_counter < usize::MAX {
            (self.frame_counter + 1) as usize
        } else {
            self.frame_counter
        }
    }

    /// Whether a tick at `now` closes the current window.
    pub open spec fn closes_window(self, now: u64) -> bool {
        Self::elapsed(self.window_start, now) >= RATE_WINDOW
    }

    /// The clock after a tick at `now`.
    pub open spec fn ticked(self, now: u64) -> Self {
        if self.closes_window(now) {
            ClockView {
                last_tick: Some(now),
                window_start: now,
                frame_counter: 0,
                frames_per_second: self.counted(),
            }
        } else {
            ClockView { last_tick: Some(now), frame_counter: self.counted(), ..self }
        }
    }

    /// What a tick at `now` reports.
    pub open spec fn reading(self, now: u64) -> ClockReading {
        ClockReading {
            delta_time: match self.last_tick {
                Some(last) => Self::elapsed(last, now),
                None => 0,
            },
            frames_per_second: self.ticked(now).frames_per_second,
        }
    }
}

/// Measures the time between frames and counts frames per second.
pub struct FrameClock {
    last_tick: Option<u64>,
    window_start: u64,
    frame_counter: usize,
    frames_per_second: usize,
}

impl View for FrameClock {
    type V = ClockView;

    closed spec fn view(&self) -> ClockView {
        ClockView {
            last_tick: self.last_tick,
            window_start: self.window_start,
            frame_counter: self.frame_counter,
            frames_per_second: self.frames_per_second,
        }
    }
}

impl FrameClock {
    /// A clock whose first counting window begins at `now`.
    pub fn new(now: u64) -> (clock: Self)
        ensures
            clock@ == ClockView::started(now),
    {
        FrameClock { last_tick: None, window_start: now, frame_counter: 0, frames_per_second: 0 }
    }

    /// Registers a frame at `now`. The first tick reports no elapsed time.
    /// The frame rate changes only on a tick that comes a full window after
    /// the window began; it is then the number of ticks of that window, this
    /// one included.
    pub fn tick(&mut self, now: u64) -> (reading: ClockReading)
        ensures
            final(self)@ == old(self)@.ticked(now),
            reading == old(self)@.reading(now),
    {
        if self.frame_counter < usize::MAX {
            self.frame_counter = self.frame_counter + 1;
        }
        if now >= self.window_start && now - self.window_start >= RATE_WINDOW {
            self.window_start = now;
            self.frames_per_second = self.frame_counter;
            self.frame_counter = 0;
        }
        let delta_time: u64 = match self.last_tick {
            Some(last) => if now >= last {
                now - last
            } else {
                0
            },
            None => 0,
        };
        self.last_tick = Some(now);
        ClockReading { delta_time, frames_per_second: self.frames_per_second }
    }

    /// The frame rate as last computed.
    pub fn frames_per_second(&self) -> (rate: usize)
        ensures
            rate == self@.frames_per_second,
    {
        self.frames_per_second
    }

}

impl ClockView {
    /// The clock after ticks at all of `times`, oldest first.
    pub open spec fn ticked_all(self, times: Seq<u64>) -> Self
        decreases times.len(),
    {
        if times.len() == 0 {
            self
        } else {
            self.ticked_all(times.drop_last()).ticked(times.last())
        }
    }

    /// A tick inside the current window leaves the rate and the window as
    /// they are and counts one frame more.
    pub proof fn lemma_rate_kept_within_window(self, now: u64)
        requires
            !self.closes_window(now),
        ensures
            self.ticked(now).frames_per_second == self.frames_per_second,
            self.ticked(now).window_start == self.window_start,
            self.ticked(now).frame_counter == self.counted(),
            self.reading(now).frames_per_second == self.frames_per_second,
    {
    }

    /// Ticks that all fall inside the current window leave the rate as it
    /// is, and each of them is counted.
    pub proof fn lemma_window_counts_its_ticks(self, times: Seq<u64>)
        requires
            forall|i: int| 0 <= i < times.len() ==> !self.closes_window(#[trigger] times[i]),
            self.frame_counter + times.len() <= usize::MAX,
        ensures
            self.ticked_all(times).frames_per_second == self.frames_per_second,
            self.ticked_all(times).window_start == self.window_start,
            self.ticked_all(times).frame_counter == self.frame_counter + times.len(),
        decreases times.len(),
    {
        if times.len() > 0 {
            let earlier = times.drop_last();
            assert forall|i: int| 0 <= i < earlier.len() implies !self.closes_window(
                #[trigger] earlier[i],
            ) by {
                assert(earlier[i] == times[i]);
            }
            self.lemma_window_counts_its_ticks(earlier);
            assert(!self.closes_window(times[times.len() - 1]));
        }
    }

    /// The rate is the number of frames of a window: after ticks inside the
    /// window, the tick that closes it reports them all and itself, and a
    /// new window begins with it.
    pub proof fn lemma_rate_is_frames_of_window(self, times: Seq<u64>, closing: u64)
        requires
            forall|i: int| 0 <= i < times.len() ==> !self.closes_window(#[trigger] times[i]),
            self.closes_window(closing),
            self.frame_counter + times.len() < usize::MAX,
        ensures
            self.ticked_all(times).reading(closing).frames_per_second == self.frame_counter
                + times.len() + 1,
            self.ticked_all(times).ticked(closing).frames_per_second == self.frame_counter
                + times.len() + 1,
            self.ticked_all(times).ticked(closing).window_start == closing,
            self.ticked_all(times).ticked(closing).frame_counter == 0,
    {
        self.lemma_window_counts_its_ticks(times);
    }

    /// The first tick reports no elapsed time; every later one reports the
    /// time since the tick before it, and none where the clock went back.
    pub proof fn lemma_delta_is_time_between_ticks(self, first: u64, second: u64)
        requires
            self.last_tick is None,
        ensures
            self.reading(first).delta_time == 0,
            self.ticked(first).reading(second).delta_time == Self::elapsed(first, second),
            first <= second ==> self.ticked(first).reading(second).delta_time == second - first,
    {
    }
}

} // verus!

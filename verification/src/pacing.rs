//! Frame pacing for window animations: the frame-rate cap a platform imposes
//! and the per-flight statistics the sleeping pacer keeps.

use vstd::prelude::*;

verus! {

/// The frame rate actually used under an optional platform cap.
pub open spec fn capped(fps: u32, cap: Option<u32>) -> u32 {
    match cap {
        Some(c) => if fps < c {
            fps
        } else {
            c
        },
        None => fps,
    }
}

/// The configured frame rate, lowered to the platform's cap if it has one.
pub fn capped_fps(fps: u32, cap: Option<u32>) -> (r: u32)
    ensures
        r == capped(fps, cap),
{
    match cap {
        Some(c) => if fps < c {
            fps
        } else {
            c
        },
        None => fps,
    }
}

/// A cap never raises the rate, and a rate already below it is left alone.
pub proof fn lemma_cap_bounds_rate(fps: u32, cap: Option<u32>)
    ensures
        capped(fps, cap) <= fps,
        cap matches Some(c) ==> capped(fps, cap) <= c,
        (cap matches Some(c) && fps <= c) ==> capped(fps, cap) == fps,
        cap is None ==> capped(fps, cap) == fps,
{
}

/// Diagnostics for one retained window flight. Times are nanoseconds.
#[derive(Debug, Clone, Copy, PartialEq, Eq, Structural)]
pub struct PumpStats {
    pub id: u64,
    pub started: u64,
    pub interval: u64,
    pub frames: u32,
    pub overruns: u32,
}

impl PumpStats {
    pub fn new(id: u64, interval: u64, now: u64) -> (r: PumpStats)
        ensures
            r == (PumpStats { id, started: now, interval, frames: 0, overruns: 0 }),
    {
        PumpStats { id, started: now, interval, frames: 0, overruns: 0 }
    }

    /// Counts one frame, and an overrun when its work took longer than the
    /// frame interval.
    pub fn record_frame(&mut self, elapsed: u64)
        requires
            old(self).frames < u32::MAX,
            old(self).overruns < u32::MAX,
        ensures
            *final(self) == (PumpStats {
                frames: (old(self).frames + 1) as u32,
                overruns: if elapsed > old(self).interval {
                    (old(self).overruns + 1) as u32
                } else {
                    old(self).overruns
                },
                ..*old(self)
            }),
    {
        self.frames = self.frames + 1;
        if elapsed > self.interval {
            self.overruns = self.overruns + 1;
        }
    }
}

/// The pacer that sleeps out whatever is left of each frame's budget. It
/// decides; the caller reads the clock, sleeps and logs.
#[derive(Debug)]
pub struct SleepPacer {
    pub previous: u64,
    pub stats: Option<PumpStats>,
}

impl SleepPacer {
    pub fn new(now: u64) -> (r: SleepPacer)
        ensures
            r.previous == now,
            r.stats is None,
    {
        SleepPacer { previous: now, stats: None }
    }

    /// Starts the clock for a run of frames.
    pub fn reset(&mut self, now: u64)
        ensures
            final(self).previous == now,
            final(self).stats == old(self).stats,
    {
        self.previous = now;
    }

    /// How long to sleep so the frame lasts `interval`, if anything is left.
    pub fn remaining(&self, interval: u64, now: u64) -> (r: Option<u64>)
        ensures
            r == (if now >= self.previous && interval >= now - self.previous {
                Some((interval - (now - self.previous)) as u64)
            } else if now < self.previous {
                Some(interval)
            } else {
                None
            }),
    {
        let spent: u64 = if now >= self.previous {
            now - self.previous
        } else {
            0
        };
        if interval >= spent {
            Some(interval - spent)
        } else {
            None
        }
    }

    /// Ends a frame at `now`: returns how long it took in total, which is the
    /// next step handed to the animator.
    pub fn frame_done(&mut self, now: u64) -> (elapsed: u64)
        ensures
            elapsed == (if now >= old(self).previous {
                now - old(self).previous
            } else {
                0
            }),
            final(self).previous == now,
            final(self).stats == old(self).stats,
    {
        let elapsed: u64 = if now >= self.previous {
            now - self.previous
        } else {
            0
        };
        self.previous = now;
        elapsed
    }

    /// Starts or resumes diagnostics for the flight of window `id`. Retargets
    /// of the same window keep aggregating; another window's flight
    /// supersedes the current one, which is returned for logging.
    pub fn begin_stats(&mut self, id: u64, interval: u64, now: u64) -> (superseded: Option<
        PumpStats,
    >)
        ensures
            final(self).previous == old(self).previous,
            match old(self).stats {
                Some(s) => if s.id == id {
                    superseded is None && final(self).stats == Some(s)
                } else {
                    superseded == Some(s) && final(self).stats == Some(
                        PumpStats { id, started: now, interval, frames: 0, overruns: 0 },
                    )
                },
                None => superseded is None && final(self).stats == Some(
                    PumpStats { id, started: now, interval, frames: 0, overruns: 0 },
                ),
            },
    {
        let mut superseded: Option<PumpStats> = None;
        if let Some(s) = self.stats {
            if s.id != id {
                superseded = Some(s);
                self.stats = None;
            }
        }
        if self.stats.is_none() {
            self.stats = Some(PumpStats::new(id, interval, now));
        }
        superseded
    }

    /// Records the work of one frame in the current flight, if there is one.
    pub fn record_frame_work(&mut self, elapsed: u64)
        requires
            old(self).stats matches Some(s) ==> s.frames < u32::MAX && s.overruns < u32::MAX,
        ensures
            final(self).previous == old(self).previous,
            match old(self).stats {
                Some(s) => final(self).stats == Some(
                    PumpStats {
                        frames: (s.frames + 1) as u32,
                        overruns: if elapsed > s.interval {
                            (s.overruns + 1) as u32
                        } else {
                            s.overruns
                        },
                        ..s
                    },
                ),
                None => final(self).stats is None,
            },
    {
        if let Some(mut s) = self.stats {
            s.record_frame(elapsed);
            self.stats = Some(s);
        }
    }

    /// Ends the current flight, handing back its statistics for logging.
    pub fn finish_stats(&mut self) -> (r: Option<PumpStats>)
        ensures
            r == old(self).stats,
            final(self).stats is None,
            final(self).previous == old(self).previous,
    {
        let r = self.stats;
        self.stats = None;
        r
    }
}

} // verus!

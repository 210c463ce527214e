//! Frame pacing bookkeeping: a sliding window of recent frame durations
//! and the clock that feeds it once per frame. Reading the platform clock
//! goes through two trusted calls; everything done with the durations is
//! verified. Turning the window into a rate and sleeping out the
//! remainder of a frame is floating-point work left to the caller.

use vstd::prelude::*;

use std::collections::VecDeque;
use std::time::Duration;
use std::time::Instant;

verus! {

/// A monotonic timestamp of the platform clock.
#[verifier::external_type_specification]
#[verifier::external_body]
pub struct ExInstant(Instant);

/// Relies on std::time::Instant::now: an opaque monotonic timestamp.
#[verifier::external_body]
fn instant_now() -> Instant {
    Instant::now()
}

/// Relies on std::time::Instant::elapsed: the span since `since`. Which
/// span comes back depends on the clock, so nothing is promised of it;
/// the call does not panic.
#[verifier::external_body]
fn instant_elapsed(since: &Instant) -> Duration {
    since.elapsed()
}

/// A sliding window over the most recent frame durations. The very first
/// push is swallowed: the duration measured before any frame completed
/// would only distort the window.
pub struct TickBuffer {
    buffer: VecDeque<Duration>,
    first_frame: bool,
}

/// What one push makes of a primed window: append the new duration, then
/// drop the oldest entries until at most `max` remain.
pub open spec fn tick_buffer_push_spec(ticks: Seq<Duration>, v: Duration, max: int) -> Seq<
    Duration,
> {
    let appended = ticks.push(v);
    if appended.len() > max {
        appended.skip(appended.len() - max)
    } else {
        appended
    }
}

impl TickBuffer {
    /// The recorded durations, oldest first.
    pub closed spec fn ticks(self) -> Seq<Duration> {
        self.buffer@
    }

    /// Whether the window has swallowed its first push and records from
    /// now on.
    pub closed spec fn primed(self) -> bool {
        self.first_frame
    }

    pub fn new() -> (r: TickBuffer)
        ensures
            r.ticks() == Seq::<Duration>::empty(),
            !r.primed(),
    {
        TickBuffer { buffer: VecDeque::new(), first_frame: false }
    }

    /// Record one frame duration, keeping only the `max` most recent
    /// entries; the first push ever only primes the window.
    pub fn push(&mut self, v: Duration, max: usize)
        ensures
            final(self).primed(),
            final(self).ticks() == (if old(self).primed() {
                tick_buffer_push_spec(old(self).ticks(), v, max as int)
            } else {
                old(self).ticks()
            }),
    {
        if self.first_frame {
            self.buffer.push_back(v);
            let ghost appended = self.buffer@;
            while self.buffer.len() > max
                invariant
                    self.buffer@.len() <= appended.len(),
                    appended.skip(appended.len() - self.buffer@.len()) == self.buffer@,
                    appended.len() > max ==> self.buffer@.len() >= max,
                    appended.len() <= max ==> self.buffer@.len() == appended.len(),
                decreases self.buffer@.len(),
            {
                let ghost before = self.buffer@;
                self.buffer.pop_front();
                proof {
                    assert(appended.skip(appended.len() - self.buffer@.len()) =~= before.subrange(
                        1,
                        before.len() as int,
                    ));
                }
            }
            proof {
                if appended.len() <= max {
                    assert(appended.skip(0) =~= appended);
                }
            }
        }
        self.first_frame = true;
    }

    /// The recorded durations as a vector, oldest first, for rate
    /// computations outside the library.
    pub fn items(&self) -> (r: Vec<Duration>)
        ensures
            r@ == self.ticks(),
    {
        let n = self.buffer.len();
        let mut out: Vec<Duration> = Vec::new();
        let mut i: usize = 0;
        while i < n
            invariant
                i <= n,
                n == self.buffer@.len(),
                out@.len() == i,
                forall|j: int| 0 <= j < i ==> out@[j] == self.buffer@[j],
            decreases n - i,
        {
            out.push(self.buffer[i]);
            i = i + 1;
        }
        proof {
            assert(out@ =~= self.buffer@);
        }
        out
    }
}

/// How many recent durations the clock keeps for a target rate: half the
/// rate, capped at 1000.
pub open spec fn tick_window_spec(target_rate: u32) -> int {
    if target_rate / 2 < 1000 {
        (target_rate / 2) as int
    } else {
        1000
    }
}

/// Per-frame clock: remembers when the last frame started and maintains
/// the duration window that frame pacing is computed from.
pub struct Clock {
    last_tick: Instant,
    /// Frames per second the loop aims for.
    pub target_rate: u32,
    buffer: TickBuffer,
}

impl Clock {
    /// The target rate, as a spec-level view of the public field.
    pub closed spec fn rate(self) -> u32 {
        self.target_rate
    }

    /// The recorded recent frame durations, oldest first.
    pub closed spec fn ticks(self) -> Seq<Duration> {
        self.buffer.ticks()
    }

    /// Whether the first frame has passed and durations are recorded.
    pub closed spec fn primed(self) -> bool {
        self.buffer.primed()
    }

    pub fn new(target_rate: u32) -> (r: Clock)
        ensures
            r.rate() == target_rate,
            r.ticks() == Seq::<Duration>::empty(),
            !r.primed(),
    {
        Clock { last_tick: instant_now(), target_rate, buffer: TickBuffer::new() }
    }

    /// Mark the start of a new frame: measure the duration of the one
    /// that just ended and record it in the window.
    pub fn tick(&mut self)
        ensures
            final(self).rate() == old(self).rate(),
            final(self).primed(),
            !old(self).primed() ==> final(self).ticks() == old(self).ticks(),
            old(self).primed() ==> exists|d: Duration|
                final(self).ticks() == #[trigger] tick_buffer_push_spec(
                    old(self).ticks(),
                    d,
                    tick_window_spec(old(self).rate()),
                ),
    {
        let tick_time = instant_elapsed(&self.last_tick);
        self.last_tick = instant_now();
        let half = self.target_rate / 2;
        let max: usize = if half < 1000 {
            half as usize
        } else {
            1000
        };
        self.buffer.push(tick_time, max);
        proof {
            assert(max as int == tick_window_spec(old(self).rate()));
            assert(old(self).primed() ==> self.ticks() == tick_buffer_push_spec(
                old(self).ticks(),
                tick_time,
                tick_window_spec(old(self).rate()),
            ));
        }
    }

    /// Time spent since the current frame started, for pacing the wait
    /// until the next one. Depends on the platform clock, so nothing is
    /// promised of the value.
    pub fn since_tick(&self) -> Duration {
        instant_elapsed(&self.last_tick)
    }

    /// The recorded durations as a vector, oldest first.
    pub fn recent_ticks(&self) -> (r: Vec<Duration>)
        ensures
            r@ == self.ticks(),
    {
        self.buffer.items()
    }
}

} // verus!

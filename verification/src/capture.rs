//! The pacing of screen capture: a frame is taken at most every
//! [`FRAME_INTERVAL_MS`] milliseconds (about 30 per second), and each frame
//! that is sent gets the next frame id.
use vstd::prelude::*;

verus! {

/// Width of the captured picture.
pub const CAPTURE_WIDTH: usize = 1280;

/// Height of the captured picture.
pub const CAPTURE_HEIGHT: usize = 720;

/// Shortest time between two captured frames, in milliseconds.
pub const FRAME_INTERVAL_MS: u64 = 33;

/// The capture loop's state: when the last frame was taken and the id of the
/// last frame sent.
#[derive(Debug, Clone, Copy, PartialEq, Eq, Structural)]
pub struct CapturePacer {
    pub last_frame_ms: u64,
    pub frame_id: u32,
}

/// What the capture loop does next.
#[derive(Debug, Clone, Copy, PartialEq, Eq, Structural)]
pub enum CaptureStep {
    /// Too early: sleep a millisecond and ask again.
    Sleep,
    /// Take a frame now.
    Capture,
}

impl CapturePacer {
    /// The state when capture starts at `start_ms`: no frame sent yet, and
    /// the first one is due an interval later.
    pub fn new(start_ms: u64) -> (r: Self)
        ensures
            r == (CapturePacer { last_frame_ms: start_ms, frame_id: 0 }),
    {
        CapturePacer { last_frame_ms: start_ms, frame_id: 0 }
    }

    /// Whether a frame is due at `now_ms`: at least [`FRAME_INTERVAL_MS`] after
    /// the last one (a clock that went back counts as no time passed).
    pub fn next_step(&self, now_ms: u64) -> (r: CaptureStep)
        ensures
            r == if now_ms >= self.last_frame_ms + FRAME_INTERVAL_MS {
                CaptureStep::Capture
            } else {
                CaptureStep::Sleep
            },
    {
        if now_ms.saturating_sub(self.last_frame_ms) < FRAME_INTERVAL_MS {
            CaptureStep::Sleep
        } else {
            CaptureStep::Capture
        }
    }

    /// Records that the frame taken at `now_ms` was encoded and is being sent,
    /// and returns its id: one more than the last, wrapping at 2^32. A frame
    /// that could not be taken or converted is not recorded, so the next try
    /// comes at once.
    pub fn frame_sent(&mut self, now_ms: u64) -> (r: u32)
        ensures
            r == (old(self).frame_id as int + 1) % 0x1_0000_0000,
            *final(self) == (CapturePacer { last_frame_ms: now_ms, frame_id: r }),
    {
        self.frame_id = self.frame_id.wrapping_add(1);
        self.last_frame_ms = now_ms;
        self.frame_id
    }
}

/// The pacer after a frame was sent at each time of `times`, in turn,
/// starting from `start` (see [`CapturePacer::frame_sent`]).
pub open spec fn pacer_after(start: CapturePacer, times: Seq<u64>) -> CapturePacer
    decreases times.len(),
{
    if times.len() == 0 {
        start
    } else {
        let p = pacer_after(start, times.drop_last());
        CapturePacer { last_frame_ms: times.last(), frame_id: ((p.frame_id + 1) % 0x1_0000_0000) as u32 }
    }
}

/// Whether, in a capture that started at `start_ms`, every frame of `times`
/// was sent only when [`CapturePacer::next_step`] said one was due.
pub open spec fn sent_when_due(start_ms: u64, times: Seq<u64>) -> bool {
    forall|i: int|
        0 <= i < times.len() ==> #[trigger] times[i] >= pacer_after(
            CapturePacer { last_frame_ms: start_ms, frame_id: 0 },
            times.take(i),
        ).last_frame_ms + FRAME_INTERVAL_MS
}

proof fn lemma_pacer_after(start_ms: u64, times: Seq<u64>, n: int)
    requires
        0 <= n <= times.len(),
    ensures
        pacer_after(CapturePacer { last_frame_ms: start_ms, frame_id: 0 }, times.take(n)) == (CapturePacer {
            last_frame_ms: if n == 0 {
                start_ms
            } else {
                times[n - 1]
            },
            frame_id: (n % 0x1_0000_0000) as u32,
        }),
    decreases n,
{
    if n > 0 {
        lemma_pacer_after(start_ms, times, n - 1);
        assert(times.take(n).drop_last() =~= times.take(n - 1));
    }
}

/// A capture loop that sends a frame only when one is due sends frames at
/// least [`FRAME_INTERVAL_MS`] apart, the first one at least that long after
/// the start, and numbers them 1, 2, 3 and so on (wrapping at 2^32), none
/// skipped or repeated.
pub proof fn law_capture_paced(start_ms: u64, times: Seq<u64>)
    requires
        sent_when_due(start_ms, times),
    ensures
        times.len() > 0 ==> times[0] >= start_ms + FRAME_INTERVAL_MS,
        forall|i: int| 0 < i < times.len() ==> #[trigger] times[i] >= times[i - 1] + FRAME_INTERVAL_MS,
        forall|i: int|
            0 <= i < times.len() ==> #[trigger] pacer_after(
                CapturePacer { last_frame_ms: start_ms, frame_id: 0 },
                times.take(i + 1),
            ).frame_id == (i + 1) % 0x1_0000_0000,
{
    if times.len() > 0 {
        assert(times[0] >= start_ms + FRAME_INTERVAL_MS) by {
            lemma_pacer_after(start_ms, times, 0);
        }
    }
    assert forall|i: int| 0 < i < times.len() implies #[trigger] times[i] >= times[i - 1] + FRAME_INTERVAL_MS by {
        lemma_pacer_after(start_ms, times, i);
    }
    assert forall|i: int| 0 <= i < times.len() implies #[trigger] pacer_after(
        CapturePacer { last_frame_ms: start_ms, frame_id: 0 },
        times.take(i + 1),
    ).frame_id == (i + 1) % 0x1_0000_0000 by {
        lemma_pacer_after(start_ms, times, i + 1);
    }
}

} // verus!

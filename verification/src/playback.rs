//! The playback schedule: a fixed cadence derived from the frame rate, and
//! deadlines measured from one reference start, so per-frame jitter cannot
//! accumulate drift.

use vstd::prelude::*;

verus! {

/// The cadence for a frame rate: `1000 / fps` milliseconds, but at least one.
pub open spec fn frame_time_spec(fps: int) -> int
    recommends
        fps >= 1,
{
    if 1000int / fps >= 1 {
        1000int / fps
    } else {
        1
    }
}

/// Compute the per-frame cadence in milliseconds.
pub fn frame_time_millis(fps: u32) -> (r: u64)
    requires
        fps >= 1,
    ensures
        r == frame_time_spec(fps as int),
        r >= 1,
{
    let t: u64 = 1000 / (fps as u64);
    if t >= 1 {
        t
    } else {
        1
    }
}

/// The deadline, in milliseconds after the reference start, at which frame
/// `i + 1` may begin to display: frame `i`'s slot ends `frame_time * (i + 1)`
/// after the start, whatever happened while frame `i` was drawn.
pub open spec fn deadline_spec(frame_time: int, i: int) -> int {
    frame_time * (i + 1)
}

/// How long to block after displaying frame `i`: until that frame's deadline,
/// or not at all when the deadline has already passed. Frames are never
/// dropped; a late frame only starts late.
pub fn wait_before_next(frame_time: u64, i: usize, elapsed: u64) -> (r: u64)
    requires
        frame_time >= 1,
        frame_time * (i + 1) <= u64::MAX,
    ensures
        r == if elapsed < deadline_spec(frame_time as int, i as int) {
            deadline_spec(frame_time as int, i as int) - elapsed
        } else {
            0
        },
        elapsed + r >= deadline_spec(frame_time as int, i as int),
{
    proof {
        assert((i as int) + 1 <= (frame_time as int) * ((i as int) + 1)) by (nonlinear_arith)
            requires
                frame_time >= 1,
                i >= 0,
        ;
    }
    let deadline: u64 = frame_time * ((i as u64) + 1);
    if elapsed < deadline {
        deadline - elapsed
    } else {
        0
    }
}

/// Cadence of the whole run: when every frame from the second on begins at or
/// after its predecessor's deadline, the last frame begins at least
/// `frame_time * (N - 1)` after the reference start; and when the first frame
/// begins at the start itself, the span from first display to last is at
/// least that long as well.
pub proof fn lemma_playback_duration(frame_time: int, start: int, times: Seq<int>)
    requires
        times.len() >= 1,
        frame_time >= 0,
        times[0] >= start,
        forall|i: int| 1 <= i < times.len()
            ==> #[trigger] times[i] >= start + deadline_spec(frame_time, i - 1),
    ensures
        times[times.len() - 1] >= start + frame_time * (times.len() - 1),
        times[0] == start
            ==> times[times.len() - 1] - times[0] >= frame_time * (times.len() - 1),
{
    let n = times.len() as int;
    if n >= 2 {
        assert(times[n - 1] >= start + deadline_spec(frame_time, n - 2));
    } else {
        assert(frame_time * 0 == 0);
    }
}

} // verus!

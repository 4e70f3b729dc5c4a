//! The arithmetic of the queues around the analysis thread. The capture side never
//! waits: it pushes the whole frames that fit in the ring, drops the rest and counts
//! them. The ring, the thread and the samples themselves are the app's.

use vstd::prelude::*;

verus! {

/// `samples` interleaved stereo samples, cut down to whole frames.
pub open spec fn whole_frames(samples: int) -> int {
    samples - samples % 2
}

/// How many of `samples` interleaved stereo samples go into a ring with `free` slots
/// left: whole frames only, as many as there are and as fit.
pub fn samples_to_push(samples: usize, free: usize) -> (n: usize)
    ensures
        n == if whole_frames(samples as int) <= whole_frames(free as int) {
            whole_frames(samples as int)
        } else {
            whole_frames(free as int)
        },
        n % 2 == 0,
        n <= samples,
        n <= free,
{
    let wanted = samples - samples % 2;
    let space = free - free % 2;
    if wanted <= space {
        wanted
    } else {
        space
    }
}

/// The frames a push of `samples` interleaved samples left out, having put `pushed` of
/// them in the ring.
pub fn frames_dropped(samples: usize, pushed: usize) -> (r: u64)
    requires
        pushed <= whole_frames(samples as int),
    ensures
        r == (whole_frames(samples as int) - pushed) / 2,
{
    let wanted = samples - samples % 2;
    ((wanted - pushed) / 2) as u64
}

} // verus!

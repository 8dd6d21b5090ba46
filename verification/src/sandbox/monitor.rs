//! When monitors look at their clocks, and when they end a call. Times are in microseconds.

use vstd::prelude::*;

verus! {

/// The shortest pause between two looks at the CPU clock.
pub const MIN_CPU_PAUSE: u64 = 1_000;

/// The longest pause between two looks at the CPU clock.
pub const MAX_CPU_PAUSE: u64 = 10_000;

/// How long the wall-clock monitor waits before it looks again: until the limit, unless that is
/// reached.
pub fn wall_clock_pause(limit: u64, elapsed: u64) -> (pause: Option<u64>)
    ensures
        pause == (if elapsed >= limit {
            None
        } else {
            Some((limit - elapsed) as u64)
        }),
{
    if elapsed >= limit {
        None
    } else {
        Some(limit - elapsed)
    }
}

/// The pause of the CPU-time monitor.
pub open spec fn cpu_pause(limit: u64, used: u64) -> Option<u64> {
    if used >= limit {
        None
    } else {
        let half = (limit - used) / 2;
        Some(
            if half < MIN_CPU_PAUSE {
                MIN_CPU_PAUSE
            } else if half > MAX_CPU_PAUSE {
                MAX_CPU_PAUSE
            } else {
                half as u64
            },
        )
    }
}

/// How long the CPU-time monitor waits before it looks again: half of what is left, from
/// [`MIN_CPU_PAUSE`] to [`MAX_CPU_PAUSE`], unless the limit is reached.
pub fn cpu_time_pause(limit: u64, used: u64) -> (pause: Option<u64>)
    ensures
        pause == cpu_pause(limit, used),
        pause is None <==> used >= limit,
        pause matches Some(time) ==> MIN_CPU_PAUSE <= time <= MAX_CPU_PAUSE,
{
    if used >= limit {
        return None;
    }
    let half: u64 = (limit - used) / 2;
    if half < MIN_CPU_PAUSE {
        Some(MIN_CPU_PAUSE)
    } else if half > MAX_CPU_PAUSE {
        Some(MAX_CPU_PAUSE)
    } else {
        Some(half)
    }
}

/// What to do about a call that monitors watch.
#[derive(Debug, Clone, Copy, PartialEq, Eq, Structural)]
pub enum Watch {
    /// The monitor with this index ends it.
    Fire(usize),
    /// It goes on. The monitors look again after this time.
    Wait(u64),
}

/// What to do about a call, given the pause that each monitor asks for (none where its limit is
/// reached): any monitor ends it whose limit is reached, the first one where there are several;
/// else they wait as long as none of them misses its next look.
pub fn watch_step(pauses: &Vec<Option<u64>>) -> (w: Watch)
    ensures
        w is Fire <==> pauses@.contains(None),
        match w {
            Watch::Fire(i) => {
                &&& i < pauses@.len()
                &&& pauses@[i as int] is None
                &&& forall|j: int| 0 <= j < i ==> (#[trigger] pauses@[j]) is Some
            },
            Watch::Wait(time) => {
                &&& forall|j: int|
                    0 <= j < pauses@.len() ==> (#[trigger] pauses@[j] matches Some(p) && time <= p)
                &&& pauses@.len() == 0 ==> time == u64::MAX
                &&& pauses@.len() > 0 ==> pauses@.contains(Some(time))
            },
        },
{
    let mut least: u64 = u64::MAX;
    let mut i: usize = 0;
    while i < pauses.len()
        invariant
            i <= pauses@.len(),
            forall|j: int| 0 <= j < i ==> (#[trigger] pauses@[j] matches Some(p) && least <= p),
            i == 0 ==> least == u64::MAX,
            i > 0 ==> exists|j: int| 0 <= j < i && #[trigger] pauses@[j] == Some(least),
        decreases pauses@.len() - i,
    {
        match pauses[i] {
            None => {
                return Watch::Fire(i);
            },
            Some(pause) => {
                if i == 0 || pause < least {
                    least = pause;
                    assert(pauses@[i as int] == Some(least));
                }
            },
        }
        i += 1;
    }
    Watch::Wait(least)
}

/// The CPU-time monitor ends a call just where its limit is reached, and however much more is used
/// then, the call stays ended. Before that it looks again: never later than where the use has come
/// closer to the limit, after half of what is left where that is neither too short nor too long.
pub proof fn law_cpu_limit_ends_the_call(limit: u64, used: u64, later: u64)
    requires
        used <= later,
    ensures
        cpu_pause(limit, used) is None <==> used >= limit,
        cpu_pause(limit, used) is None ==> cpu_pause(limit, later) is None,
        cpu_pause(limit, used) matches Some(pause) ==> {
            &&& 1_000 <= pause <= 10_000
            &&& pause > 1_000 ==> 2 * pause <= limit - used
            &&& pause < 10_000 ==> limit - used < 2 * pause + 2
            &&& cpu_pause(limit, later) matches Some(next) ==> next <= pause
        },
{
}

} // verus!

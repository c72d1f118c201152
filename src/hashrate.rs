//! Throughput: work done per second of wall-clock time since a start.
use vstd::prelude::*;
use crate::session::saturating;

verus! {

#[verifier::external_type_specification]
#[verifier::external_body]
pub struct ExInstant(std::time::Instant);

/// Relies on `Instant::now`: the current instant; nothing is known of it.
pub assume_specification[ std::time::Instant::now ]() -> std::time::Instant;

/// Relies on `Instant::elapsed`: the time since the instant; nothing is known
/// of it.
pub assume_specification[ std::time::Instant::elapsed ](
    i: &std::time::Instant,
) -> std::time::Duration;

/// Relies on `Duration::as_nanos`: the whole nanoseconds in the duration.
pub assume_specification[ std::time::Duration::as_nanos ](d: &std::time::Duration) -> u128;

/// Nanoseconds in a second.
pub const NANOS_PER_SECOND: u128 = 1_000_000_000;

/// `count` per second over `nanos` nanoseconds, rounded to the nearest whole
/// number (halves up) and held at `u64::MAX`; zero when no time has passed.
pub open spec fn rate_spec(count: nat, nanos: nat) -> nat {
    if nanos == 0 {
        0
    } else {
        let x = count * 1_000_000_000;
        let q = x / nanos;
        let up: nat = if 2 * (x % nanos) >= nanos {
            1
        } else {
            0
        };
        if q + up > u64::MAX {
            u64::MAX as nat
        } else {
            q + up
        }
    }
}

/// `count` per second over `elapsed_nanos` nanoseconds, rounded to the
/// nearest whole number; zero when no time has passed.
pub fn rate_per_second(count: u64, elapsed_nanos: u128) -> (r: u64)
    ensures
        r == rate_spec(count as nat, elapsed_nanos as nat),
{
    if elapsed_nanos == 0 {
        return 0;
    }
    proof {
        assert(count as nat * 1_000_000_000 <= 0xffff_ffff_ffff_ffffnat * 1_000_000_000)
            by (nonlinear_arith)
            requires
                count <= 0xffff_ffff_ffff_ffffnat,
        ;
    }
    let x: u128 = count as u128 * NANOS_PER_SECOND;
    let q: u128 = x / elapsed_nanos;
    let rem: u128 = x % elapsed_nanos;
    let up: u128 = if rem >= elapsed_nanos - rem {
        1
    } else {
        0
    };
    proof {
        assert(q <= x) by (nonlinear_arith)
            requires
                elapsed_nanos >= 1,
                q == x / elapsed_nanos,
        ;
    }
    if q + up > u64::MAX as u128 {
        u64::MAX
    } else {
        (q + up) as u64
    }
}

/// Hashes attempted since a start instant.
pub struct HashrateTracker {
    hashes_attempted: u64,
    started_at: std::time::Instant,
}

impl View for HashrateTracker {
    type V = nat;

    /// The hashes recorded so far.
    closed spec fn view(&self) -> nat {
        self.hashes_attempted as nat
    }
}

impl HashrateTracker {
    /// A tracker started now, with nothing recorded.
    pub fn new() -> (r: HashrateTracker)
        ensures
            r@ == 0,
    {
        HashrateTracker { hashes_attempted: 0, started_at: std::time::Instant::now() }
    }

    /// Adds `hashes` to the count, held at `u64::MAX`.
    pub fn record(&mut self, hashes: u64)
        ensures
            final(self)@ == saturating(old(self)@, hashes as nat),
    {
        self.hashes_attempted = self.hashes_attempted.saturating_add(hashes);
    }

    pub fn hashes_attempted(&self) -> (r: u64)
        ensures
            r == self@,
    {
        self.hashes_attempted
    }

    /// Time since the start.
    pub fn elapsed(&self) -> std::time::Duration {
        self.started_at.elapsed()
    }

    /// Hashes per second since the start, rounded; zero before any time has
    /// passed.
    pub fn throughput(&self) -> (r: u64)
        ensures
            exists|nanos: nat| r == rate_spec(self@, nanos),
    {
        let nanos = self.started_at.elapsed().as_nanos();
        let r = rate_per_second(self.hashes_attempted, nanos);
        proof {
            assert(r == rate_spec(self@, nanos as nat));
        }
        r
    }
}

/// Frames since a start instant.
pub struct FpsCounter {
    instant: std::time::Instant,
    counter: usize,
}

impl View for FpsCounter {
    type V = nat;

    /// The frames counted so far.
    closed spec fn view(&self) -> nat {
        self.counter as nat
    }
}

impl FpsCounter {
    /// A counter started now, with no frames counted.
    pub fn new() -> (r: FpsCounter)
        ensures
            r@ == 0,
    {
        FpsCounter { instant: std::time::Instant::now(), counter: 0 }
    }

    /// Counts one frame (held at `usize::MAX`) and returns the time since the
    /// start with the frames per second over it, rounded.
    pub fn hint_and_get(&mut self) -> (r: (std::time::Duration, u64))
        ensures
            final(self)@ == (if old(self)@ + 1 > usize::MAX {
                usize::MAX as nat
            } else {
                (old(self)@ + 1) as nat
            }),
            exists|nanos: nat| r.1 == rate_spec(final(self)@, nanos),
    {
        self.counter = self.counter.saturating_add(1);
        let duration = self.instant.elapsed();
        let nanos = duration.as_nanos();
        let fps = rate_per_second(self.counter as u64, nanos);
        proof {
            assert(fps == rate_spec(self@, nanos as nat));
        }
        (duration, fps)
    }
}

} // verus!

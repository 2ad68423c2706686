//! Monotonic time from the 1 kHz timer, and wall-clock time.
use vstd::prelude::*;

verus! {

/// Timer interrupts per second.
pub const PIT_FREQUENCY: u64 = 1000;

/// Seconds from the Unix epoch the wall clock reports (about 2026).
pub const WALL_CLOCK_SECONDS: u64 = 1_766_016_000;

pub const NANOS_PER_SEC: u32 = 1_000_000_000;

/// A span of time: whole seconds and the nanoseconds beyond them.
#[derive(Clone, Copy, Debug, PartialEq, Eq, Structural)]
pub struct Duration {
    pub secs: u64,
    pub nanos: u32,
}

impl Duration {
    pub open spec fn wf(&self) -> bool {
        self.nanos < NANOS_PER_SEC
    }

    /// Whole milliseconds of the span.
    pub open spec fn millis(&self) -> int {
        self.secs * 1000 + self.nanos / 1_000_000
    }

    pub fn zero() -> (r: Self)
        ensures
            r.secs == 0 && r.nanos == 0,
    {
        Duration { secs: 0, nanos: 0 }
    }

    pub fn from_secs(secs: u64) -> (r: Self)
        ensures
            r.wf(),
            r.secs == secs && r.nanos == 0,
    {
        Duration { secs, nanos: 0 }
    }

    pub fn from_millis(ms: u64) -> (r: Self)
        ensures
            r.wf(),
            r.secs == ms / 1000,
            r.nanos == (ms % 1000) * 1_000_000,
            r.millis() == ms,
    {
        Duration { secs: ms / 1000, nanos: ((ms % 1000) * 1_000_000) as u32 }
    }

    pub fn as_secs(&self) -> (r: u64)
        ensures
            r == self.secs,
    {
        self.secs
    }

    pub fn as_millis(&self) -> (r: u128)
        requires
            self.wf(),
        ensures
            r == self.millis(),
    {
        self.secs as u128 * 1000 + (self.nanos / 1_000_000) as u128
    }
}

/// The tick counter the timer interrupt advances.
#[derive(Clone, Copy, Debug, PartialEq, Eq, Structural)]
pub struct TickCounter {
    pub ticks: u64,
}

impl TickCounter {
    pub fn new() -> (r: Self)
        ensures
            r.ticks == 0,
    {
        TickCounter { ticks: 0 }
    }

    /// One timer interrupt.
    pub fn tick(&mut self)
        ensures
            final(self).ticks == (old(self).ticks + 1) % 0x1_0000_0000_0000_0000,
    {
        self.ticks = self.ticks.wrapping_add(1);
    }
}

/// A point on the monotonic clock, in timer ticks; at `PIT_FREQUENCY` a
/// tick is one millisecond.
#[derive(Clone, Copy, Debug, PartialEq, Eq, Structural)]
pub struct Instant {
    pub ticks: u64,
}

impl Instant {
    /// The clock's current reading.
    pub fn now(clock: &TickCounter) -> (r: Instant)
        ensures
            r.ticks == clock.ticks,
    {
        Instant { ticks: clock.ticks }
    }

    /// Time from `other` to `self`; `None` when `other` is later.
    pub fn checked_sub_instant(&self, other: &Instant) -> (r: Option<Duration>)
        ensures
            self.ticks >= other.ticks ==> (r matches Some(d) && d.wf() && d.millis() == self.ticks - other.ticks),
            self.ticks < other.ticks ==> r is None,
    {
        if self.ticks >= other.ticks {
            let ticks_diff = self.ticks - other.ticks;
            Some(Duration::from_millis(ticks_diff))
        } else {
            None
        }
    }

    /// `self` moved later by `d` (whole milliseconds); `None` on overflow.
    pub fn checked_add_duration(&self, d: &Duration) -> (r: Option<Instant>)
        requires
            d.wf(),
        ensures
            self.ticks + d.millis() <= u64::MAX ==> r == Some(Instant { ticks: (self.ticks + d.millis()) as u64 }),
            self.ticks + d.millis() > u64::MAX ==> r is None,
    {
        let millis = d.as_millis();
        if millis > (u64::MAX - self.ticks) as u128 {
            return None;
        }
        Some(Instant { ticks: self.ticks + millis as u64 })
    }

    /// `self` moved earlier by `d` (whole milliseconds); `None` before tick 0.
    pub fn checked_sub_duration(&self, d: &Duration) -> (r: Option<Instant>)
        requires
            d.wf(),
        ensures
            d.millis() <= self.ticks ==> r == Some(Instant { ticks: (self.ticks - d.millis()) as u64 }),
            d.millis() > self.ticks ==> r is None,
    {
        let millis = d.as_millis();
        if millis > self.ticks as u128 {
            return None;
        }
        Some(Instant { ticks: self.ticks - millis as u64 })
    }

    /// Time since `self` on `clock`; zero if `self` is later.
    pub fn elapsed(&self, clock: &TickCounter) -> (r: Duration)
        ensures
            r.wf(),
            clock.ticks >= self.ticks ==> r.millis() == clock.ticks - self.ticks,
            clock.ticks < self.ticks ==> r.millis() == 0,
    {
        match Instant::now(clock).checked_sub_instant(self) {
            Some(d) => d,
            None => Duration::zero(),
        }
    }
}

/// Wall-clock time in whole seconds since the Unix epoch.
#[derive(Clone, Copy, Debug, PartialEq, Eq, Structural)]
pub struct SystemTime {
    pub seconds: u64,
}

impl SystemTime {
    /// The platform has no real-time clock: a fixed date.
    pub fn now() -> (r: SystemTime)
        ensures
            r.seconds == WALL_CLOCK_SECONDS,
    {
        SystemTime { seconds: WALL_CLOCK_SECONDS }
    }

    /// Time from `other` to `self`; `Err` when `other` is later.
    pub fn sub_time(&self, other: &SystemTime) -> (r: Result<Duration, ()>)
        ensures
            self.seconds >= other.seconds ==> r == Ok::<Duration, ()>(
                Duration { secs: (self.seconds - other.seconds) as u64, nanos: 0 },
            ),
            self.seconds < other.seconds ==> r is Err,
    {
        if self.seconds >= other.seconds {
            Ok(Duration::from_secs(self.seconds - other.seconds))
        } else {
            Err(())
        }
    }

    /// `self` moved later by the whole seconds of `d`; `None` on overflow.
    pub fn checked_add_duration(&self, d: &Duration) -> (r: Option<SystemTime>)
        ensures
            self.seconds + d.secs <= u64::MAX ==> r == Some(SystemTime { seconds: (self.seconds + d.secs) as u64 }),
            self.seconds + d.secs > u64::MAX ==> r is None,
    {
        match self.seconds.checked_add(d.as_secs()) {
            Some(s) => Some(SystemTime { seconds: s }),
            None => None,
        }
    }

    /// `self` moved earlier by the whole seconds of `d`; `None` before the
    /// epoch.
    pub fn checked_sub_duration(&self, d: &Duration) -> (r: Option<SystemTime>)
        ensures
            d.secs <= self.seconds ==> r == Some(SystemTime { seconds: (self.seconds - d.secs) as u64 }),
            d.secs > self.seconds ==> r is None,
    {
        match self.seconds.checked_sub(d.as_secs()) {
            Some(s) => Some(SystemTime { seconds: s }),
            None => None,
        }
    }
}

} // verus!

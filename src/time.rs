use vstd::prelude::*;

verus! {

/// Nanoseconds in one second.
pub const NANOS_PER_SECOND: u128 = 1_000_000_000;

/// Nanoseconds in one millisecond.
pub const NANOS_PER_MILLI: u128 = 1_000_000;

/// A point in time: a count of nanoseconds since the Unix epoch.
///
/// The value zero is reserved: a transform stamped with it is static, valid
/// at every instant.
#[derive(Debug, Clone, Copy, PartialEq, Eq, Structural, PartialOrd, Ord, Hash)]
pub struct Timestamp {
    pub nanoseconds: u128,
}

/// A non-negative span of time, in nanoseconds.
#[derive(Debug, Clone, Copy, PartialEq, Eq, Structural, PartialOrd, Ord, Hash)]
pub struct Duration {
    pub nanoseconds: u128,
}

/// Why an arithmetic step on timestamps left the representable range.
#[derive(Debug, Clone, Copy, PartialEq, Eq, Structural)]
pub enum TimestampError {
    DurationUnderflow,
    DurationOverflow,
    AccuracyLoss,
}

/// Why an arithmetic step on durations failed.
#[derive(Debug, Clone, Copy, PartialEq, Eq, Structural)]
pub enum DurationError {
    /// Seconds that are not finite, or negative.
    InvalidInput,
    DurationOverflow,
    AccuracyLoss,
    DivisionByZero,
}

#[verifier::external_type_specification]
#[verifier::external_body]
pub struct ExSystemTime(std::time::SystemTime);

/// Relies on std::time::SystemTime::now: the current wall-clock reading.
#[verifier::external_body]
fn wall_clock() -> std::time::SystemTime {
    std::time::SystemTime::now()
}

/// Relies on std::time::SystemTime::duration_since with UNIX_EPOCH: the
/// reading's distance past the epoch in whole nanoseconds, or None where it
/// lies before the epoch.
#[verifier::external_body]
fn nanos_since_epoch(t: std::time::SystemTime) -> Option<u128> {
    t.duration_since(std::time::UNIX_EPOCH).ok().map(|d| d.as_nanos())
}

impl Timestamp {
    /// The current wall-clock reading. A clock set before the epoch reads as
    /// the epoch itself.
    pub fn now() -> Timestamp {
        match nanos_since_epoch(wall_clock()) {
            Some(n) => Timestamp { nanoseconds: n },
            None => Timestamp { nanoseconds: 0 },
        }
    }

    /// The epoch, reserved as the stamp of static transforms.
    pub fn zero() -> (r: Timestamp)
        ensures
            r.nanoseconds == 0,
    {
        Timestamp { nanoseconds: 0 }
    }

    /// `self + d`, or `DurationOverflow` where the sum does not fit.
    pub fn checked_add(self, d: Duration) -> (r: Result<Timestamp, TimestampError>)
        ensures
            self.nanoseconds + d.nanoseconds <= u128::MAX ==> r == Ok::<Timestamp, TimestampError>(
                Timestamp { nanoseconds: (self.nanoseconds + d.nanoseconds) as u128 },
            ),
            self.nanoseconds + d.nanoseconds > u128::MAX ==> r == Err::<Timestamp, TimestampError>(
                TimestampError::DurationOverflow,
            ),
    {
        match self.nanoseconds.checked_add(d.nanoseconds) {
            Some(n) => Ok(Timestamp { nanoseconds: n }),
            None => Err(TimestampError::DurationOverflow),
        }
    }

    /// `self - d`, or `DurationUnderflow` where `d` reaches before the epoch.
    pub fn checked_sub(self, d: Duration) -> (r: Result<Timestamp, TimestampError>)
        ensures
            d.nanoseconds <= self.nanoseconds ==> r == Ok::<Timestamp, TimestampError>(
                Timestamp { nanoseconds: (self.nanoseconds - d.nanoseconds) as u128 },
            ),
            d.nanoseconds > self.nanoseconds ==> r == Err::<Timestamp, TimestampError>(
                TimestampError::DurationUnderflow,
            ),
    {
        if d.nanoseconds <= self.nanoseconds {
            Ok(Timestamp { nanoseconds: self.nanoseconds - d.nanoseconds })
        } else {
            Err(TimestampError::DurationUnderflow)
        }
    }

    /// The span from `earlier` to `self`, or `DurationUnderflow` where
    /// `earlier` comes later.
    pub fn since(self, earlier: Timestamp) -> (r: Result<Duration, TimestampError>)
        ensures
            earlier.nanoseconds <= self.nanoseconds ==> r == Ok::<Duration, TimestampError>(
                Duration { nanoseconds: (self.nanoseconds - earlier.nanoseconds) as u128 },
            ),
            earlier.nanoseconds > self.nanoseconds ==> r == Err::<Duration, TimestampError>(
                TimestampError::DurationUnderflow,
            ),
    {
        if earlier.nanoseconds <= self.nanoseconds {
            Ok(Duration { nanoseconds: self.nanoseconds - earlier.nanoseconds })
        } else {
            Err(TimestampError::DurationUnderflow)
        }
    }
}

impl Duration {
    /// A span of whole seconds.
    pub fn from_secs(secs: u64) -> (r: Duration)
        ensures
            r.nanoseconds == secs * NANOS_PER_SECOND,
    {
        assert(secs * NANOS_PER_SECOND <= u64::MAX * NANOS_PER_SECOND) by (nonlinear_arith);
        Duration { nanoseconds: secs as u128 * NANOS_PER_SECOND }
    }

    /// A span of whole milliseconds.
    pub fn from_millis(millis: u64) -> (r: Duration)
        ensures
            r.nanoseconds == millis * NANOS_PER_MILLI,
    {
        assert(millis * NANOS_PER_MILLI <= u64::MAX * NANOS_PER_MILLI) by (nonlinear_arith);
        Duration { nanoseconds: millis as u128 * NANOS_PER_MILLI }
    }

    /// A span of whole nanoseconds.
    pub fn from_nanos(nanos: u128) -> (r: Duration)
        ensures
            r.nanoseconds == nanos,
    {
        Duration { nanoseconds: nanos }
    }

    /// The longest representable span, for a window that never expires.
    pub fn max_value() -> (r: Duration)
        ensures
            r.nanoseconds == u128::MAX,
    {
        Duration { nanoseconds: u128::MAX }
    }
}

impl core::ops::Add<Duration> for Timestamp {
    type Output = Result<Timestamp, TimestampError>;

    fn add(self, rhs: Duration) -> Result<Timestamp, TimestampError> {
        self.checked_add(rhs)
    }
}

impl vstd::std_specs::ops::AddSpecImpl<Duration> for Timestamp {
    open spec fn obeys_add_spec() -> bool {
        true
    }

    open spec fn add_req(self, rhs: Duration) -> bool {
        true
    }

    open spec fn add_spec(self, rhs: Duration) -> Result<Timestamp, TimestampError> {
        if self.nanoseconds + rhs.nanoseconds <= u128::MAX {
            Ok(Timestamp { nanoseconds: (self.nanoseconds + rhs.nanoseconds) as u128 })
        } else {
            Err(TimestampError::DurationOverflow)
        }
    }
}

impl core::ops::Sub<Duration> for Timestamp {
    type Output = Result<Timestamp, TimestampError>;

    fn sub(self, rhs: Duration) -> Result<Timestamp, TimestampError> {
        self.checked_sub(rhs)
    }
}

impl vstd::std_specs::ops::SubSpecImpl<Duration> for Timestamp {
    open spec fn obeys_sub_spec() -> bool {
        true
    }

    open spec fn sub_req(self, rhs: Duration) -> bool {
        true
    }

    open spec fn sub_spec(self, rhs: Duration) -> Result<Timestamp, TimestampError> {
        if rhs.nanoseconds <= self.nanoseconds {
            Ok(Timestamp { nanoseconds: (self.nanoseconds - rhs.nanoseconds) as u128 })
        } else {
            Err(TimestampError::DurationUnderflow)
        }
    }
}

impl core::ops::Add<Timestamp> for Duration {
    type Output = Result<Timestamp, TimestampError>;

    fn add(self, rhs: Timestamp) -> Result<Timestamp, TimestampError> {
        rhs.checked_add(self)
    }
}

impl vstd::std_specs::ops::AddSpecImpl<Timestamp> for Duration {
    open spec fn obeys_add_spec() -> bool {
        true
    }

    open spec fn add_req(self, rhs: Timestamp) -> bool {
        true
    }

    open spec fn add_spec(self, rhs: Timestamp) -> Result<Timestamp, TimestampError> {
        if rhs.nanoseconds + self.nanoseconds <= u128::MAX {
            Ok(Timestamp { nanoseconds: (rhs.nanoseconds + self.nanoseconds) as u128 })
        } else {
            Err(TimestampError::DurationOverflow)
        }
    }
}

impl core::ops::Sub<Timestamp> for Duration {
    type Output = Result<Timestamp, TimestampError>;

    /// `rhs - self`: the stamp `self` before `rhs`.
    fn sub(self, rhs: Timestamp) -> Result<Timestamp, TimestampError> {
        rhs.checked_sub(self)
    }
}

impl vstd::std_specs::ops::SubSpecImpl<Timestamp> for Duration {
    open spec fn obeys_sub_spec() -> bool {
        true
    }

    open spec fn sub_req(self, rhs: Timestamp) -> bool {
        true
    }

    open spec fn sub_spec(self, rhs: Timestamp) -> Result<Timestamp, TimestampError> {
        if self.nanoseconds <= rhs.nanoseconds {
            Ok(Timestamp { nanoseconds: (rhs.nanoseconds - self.nanoseconds) as u128 })
        } else {
            Err(TimestampError::DurationUnderflow)
        }
    }
}

impl core::ops::Sub<Timestamp> for Timestamp {
    type Output = Result<Duration, TimestampError>;

    fn sub(self, rhs: Timestamp) -> Result<Duration, TimestampError> {
        self.since(rhs)
    }
}

impl vstd::std_specs::ops::SubSpecImpl<Timestamp> for Timestamp {
    open spec fn obeys_sub_spec() -> bool {
        true
    }

    open spec fn sub_req(self, rhs: Timestamp) -> bool {
        true
    }

    open spec fn sub_spec(self, rhs: Timestamp) -> Result<Duration, TimestampError> {
        if rhs.nanoseconds <= self.nanoseconds {
            Ok(Duration { nanoseconds: (self.nanoseconds - rhs.nanoseconds) as u128 })
        } else {
            Err(TimestampError::DurationUnderflow)
        }
    }
}

} // verus!

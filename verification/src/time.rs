//! Instants in UTC, as seconds and nanoseconds since the Unix epoch, with
//! chrono's model of leap seconds: an instant inside a leap second is the
//! 59th second of a minute with 1,000,000,000 or more nanoseconds.

use vstd::prelude::*;

verus! {

pub const NANOS_PER_SEC: i64 = 1_000_000_000;

pub const SECS_PER_DAY: i64 = 86_400;

/// Bound on the seconds of an instant: every instant that chrono can
/// represent (about 262,000 years on each side of the epoch) lies within it.
pub const MAX_EPOCH_SECS: i64 = 1_125_899_906_842_624;

/// A whole number of days, at least `MAX_EPOCH_SECS`: adding it makes the
/// seconds of an instant non-negative without changing their place in the
/// day or in the minute.
const DAY_ALIGNED_OFFSET: i64 = 1_125_900_000_000_000;

/// Integer division that rounds toward zero.
pub open spec fn div_toward_zero(a: int, b: int) -> int {
    if a >= 0 {
        a / b
    } else {
        -((-a) / b)
    }
}

/// An instant.
#[derive(Clone, Copy, Debug)]
pub struct Timestamp {
    secs: i64,
    nanos: u32,
}

impl Timestamp {
    #[verifier::type_invariant]
    spec fn well_formed(self) -> bool {
        Self::valid_parts(self.secs, self.nanos)
    }

    /// Whole seconds since the epoch, leap seconds left out.
    pub closed spec fn epoch_secs(self) -> int {
        self.secs as int
    }

    /// Nanoseconds past `epoch_secs`; 1,000,000,000 or more inside a leap
    /// second.
    pub closed spec fn subsec(self) -> int {
        self.nanos as int
    }

    /// The parts that an instant can have, as chrono allows them: seconds
    /// within range, and nanoseconds below one second, or below two seconds
    /// in the last second of a minute (a leap second).
    pub open spec fn valid_parts(secs: i64, nanos: u32) -> bool {
        &&& -MAX_EPOCH_SECS <= secs <= MAX_EPOCH_SECS
        &&& nanos < NANOS_PER_SEC || (nanos < 2 * NANOS_PER_SEC && secs % 60 == 59)
    }

    /// The instant lies inside a leap second.
    pub open spec fn in_leap_second(self) -> bool {
        self.subsec() >= NANOS_PER_SEC
    }

    /// The second of the day of the instant.
    pub open spec fn second_of_day(self) -> int {
        self.epoch_secs() % 86_400
    }

    /// The instant has parts that chrono allows (which every `Timestamp`
    /// has).
    pub open spec fn valid(self) -> bool {
        &&& -MAX_EPOCH_SECS <= self.epoch_secs() <= MAX_EPOCH_SECS
        &&& 0 <= self.subsec() < NANOS_PER_SEC || (NANOS_PER_SEC <= self.subsec() < 2 * NANOS_PER_SEC
            && self.epoch_secs() % 60 == 59)
    }

    /// The second that chrono adds when it measures from `other` to `self`
    /// across a leap second within the day: +1 when `other` lies in a leap
    /// second earlier in the day, -1 when `self` does and `other` lies later
    /// in the day.
    pub open spec fn leap_adjustment(self, other: Timestamp) -> int {
        if self.second_of_day() > other.second_of_day() && other.in_leap_second() {
            1
        } else if self.second_of_day() < other.second_of_day() && self.in_leap_second() {
            -1
        } else {
            0
        }
    }

    /// Nanoseconds from `other` to `self`, as chrono's
    /// `signed_duration_since` measures them.
    pub open spec fn nanos_since(self, other: Timestamp) -> int {
        (self.epoch_secs() - other.epoch_secs() + self.leap_adjustment(other)) * NANOS_PER_SEC
            + self.subsec() - other.subsec()
    }

    /// Whole seconds from `now` until `self`, rounded toward zero, as
    /// chrono's `(self - now).num_seconds()` gives them: negative once
    /// `self` lies a full second or more in the past.
    pub open spec fn seconds_until_spec(self, now: Timestamp) -> int {
        div_toward_zero(self.nanos_since(now), NANOS_PER_SEC as int)
    }

    /// `self` is not later than `other`, as chrono orders instants.
    pub open spec fn not_after(self, other: Timestamp) -> bool {
        self.epoch_secs() < other.epoch_secs() || (self.epoch_secs() == other.epoch_secs()
            && self.subsec() <= other.subsec())
    }

    /// The instant with the given parts, or `None` where chrono has no such
    /// instant.
    pub fn from_parts(secs: i64, nanos: u32) -> (r: Option<Timestamp>)
        ensures
            r is Some <==> Self::valid_parts(secs, nanos),
            r matches Some(t) ==> t.epoch_secs() == secs && t.subsec() == nanos,
    {
        if secs < -MAX_EPOCH_SECS || secs > MAX_EPOCH_SECS {
            return None;
        }
        let in_minute = second_of_minute(secs);
        if nanos < 1_000_000_000 || (nanos < 2_000_000_000 && in_minute == 59) {
            Some(Timestamp { secs, nanos })
        } else {
            None
        }
    }

    pub fn secs(&self) -> (r: i64)
        ensures
            r == self.epoch_secs(),
    {
        self.secs
    }

    pub fn subsec_nanos(&self) -> (r: u32)
        ensures
            r == self.subsec(),
    {
        self.nanos
    }

    /// The current instant, read from the system clock; it is never inside
    /// a leap second.
    pub fn now() -> (t: Timestamp)
        ensures
            !t.in_leap_second(),
    {
        read_utc_clock()
    }

    /// Whole seconds from `now` until `self`, rounded toward zero, as
    /// `(self - now).num_seconds()` gives them in chrono.
    pub fn seconds_until(&self, now: &Timestamp) -> (r: i64)
        ensures
            r == self.seconds_until_spec(*now),
    {
        proof {
            use_type_invariant(self);
            use_type_invariant(now);
        }
        let (a_day, b_day) = (second_of_day(self.secs), second_of_day(now.secs));
        let adjustment: i128 = if a_day > b_day && now.nanos >= 1_000_000_000 {
            1
        } else if a_day < b_day && self.nanos >= 1_000_000_000 {
            -1
        } else {
            0
        };
        let d: i128 = ((self.secs as i128) - (now.secs as i128) + adjustment) * 1_000_000_000
            + (self.nanos as i128) - (now.nanos as i128);
        assert(d == self.nanos_since(*now));
        let q: i128 = if d >= 0 {
            d / 1_000_000_000
        } else {
            -((-d) / 1_000_000_000)
        };
        assert(-4 * MAX_EPOCH_SECS - 4 <= q <= 4 * MAX_EPOCH_SECS + 4) by (nonlinear_arith)
            requires
                -4 * MAX_EPOCH_SECS * 1_000_000_000 - 4_000_000_000 <= d,
                d <= 4 * MAX_EPOCH_SECS * 1_000_000_000 + 4_000_000_000,
                q == (if d >= 0 {
                    d / 1_000_000_000
                } else {
                    -((-d) / 1_000_000_000)
                }),
        ;
        q as i64
    }

    /// Whether `self` is not later than `other`.
    pub fn is_not_after(&self, other: &Timestamp) -> (r: bool)
        ensures
            r == self.not_after(*other),
    {
        self.secs < other.secs || (self.secs == other.secs && self.nanos <= other.nanos)
    }

    /// An instant lying at least a full second in the future is later than
    /// `now`, and one at least a full second in the past is not: the sign
    /// of `seconds_until` agrees with `not_after`.
    pub proof fn lemma_seconds_until_sign(self, now: Timestamp)
        requires
            self.valid(),
            now.valid(),
        ensures
            self.seconds_until_spec(now) < 0 ==> self.not_after(now),
            self.seconds_until_spec(now) > 0 ==> !self.not_after(now),
    {
        let d = self.nanos_since(now);
        if d >= 0 {
            assert(d / 1_000_000_000 >= 0) by (nonlinear_arith)
                requires
                    d >= 0,
            ;
            if d / 1_000_000_000 > 0 {
                assert(d >= 1_000_000_000) by (nonlinear_arith)
                    requires
                        d >= 0,
                        d / 1_000_000_000 > 0,
                ;
            }
        } else {
            assert((-d) / 1_000_000_000 >= 0) by (nonlinear_arith)
                requires
                    d < 0,
            ;
            if (-d) / 1_000_000_000 > 0 {
                assert(d <= -1_000_000_000) by (nonlinear_arith)
                    requires
                        d < 0,
                        (-d) / 1_000_000_000 > 0,
                ;
            }
        }
    }

    /// Outside leap seconds, as time passes the seconds left until an
    /// instant never grow.
    pub proof fn lemma_seconds_until_antitone(self, earlier: Timestamp, later: Timestamp)
        requires
            earlier.not_after(later),
            !self.in_leap_second(),
            !earlier.in_leap_second(),
            !later.in_leap_second(),
        ensures
            self.seconds_until_spec(later) <= self.seconds_until_spec(earlier),
    {
        let d1 = self.nanos_since(earlier);
        let d2 = self.nanos_since(later);
        assert(d2 <= d1);
        assert(div_toward_zero(d2, 1_000_000_000) <= div_toward_zero(d1, 1_000_000_000)) by (nonlinear_arith)
            requires
                d2 <= d1,
                div_toward_zero(d1, 1_000_000_000) == (if d1 >= 0 {
                    d1 / 1_000_000_000
                } else {
                    -((-d1) / 1_000_000_000)
                }),
                div_toward_zero(d2, 1_000_000_000) == (if d2 >= 0 {
                    d2 / 1_000_000_000
                } else {
                    -((-d2) / 1_000_000_000)
                }),
        ;
    }
}

/// The second of the minute of an instant's seconds.
fn second_of_minute(secs: i64) -> (r: i64)
    requires
        -MAX_EPOCH_SECS <= secs <= MAX_EPOCH_SECS,
    ensures
        r == secs % 60,
{
    let shifted: i64 = secs + DAY_ALIGNED_OFFSET;
    assert(shifted % 60 == secs % 60) by (nonlinear_arith)
        requires
            shifted == secs + 1_125_900_000_000_000,
    ;
    shifted % 60
}

/// The second of the day of an instant's seconds.
fn second_of_day(secs: i64) -> (r: i64)
    requires
        -MAX_EPOCH_SECS <= secs <= MAX_EPOCH_SECS,
    ensures
        r == secs % 86_400,
{
    let shifted: i64 = secs + DAY_ALIGNED_OFFSET;
    assert(shifted % 86_400 == secs % 86_400) by (nonlinear_arith)
        requires
            shifted == secs + 1_125_900_000_000_000,
    ;
    shifted % 86_400
}

/// Reads the system clock: `std::time::SystemTime::now`, turned into
/// chrono's `DateTime<Utc>` by its `From<SystemTime>` impl, and split into
/// the Unix timestamp (`DateTime::timestamp`) and nanoseconds
/// (`DateTime::timestamp_subsec_nanos`). Of which instant comes back, only
/// that it is not inside a leap second is claimed: chrono builds it from a
/// duration before or after the epoch whose nanoseconds it keeps below one
/// second, before and after the epoch alike. That it is a valid `Timestamp`
/// holds because chrono only builds instants within its representable range
/// (it panics on a clock reading hundreds of thousands of years away).
#[verifier::external_body]
fn read_utc_clock() -> (t: Timestamp)
    ensures
        !t.in_leap_second(),
{
    let now = chrono::DateTime::<chrono::Utc>::from(std::time::SystemTime::now());
    Timestamp { secs: now.timestamp(), nanos: now.timestamp_subsec_nanos() }
}

} // verus!

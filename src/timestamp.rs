//! Instants at a fixed offset from UTC, held as plain integers.
use vstd::prelude::*;

verus! {

/// Seconds since the Unix epoch of -9999-01-01T00:00:00Z, the earliest
/// instant that the date library can hold.
pub const MIN_UNIX_SECONDS: i64 = -377705116800;

/// Seconds since the Unix epoch of 9999-12-31T23:59:59Z, the latest whole
/// second that the date library can hold.
pub const MAX_UNIX_SECONDS: i64 = 253402300799;

/// Offsets are strictly less than a day in either direction.
pub const MAX_OFFSET_SECONDS: i32 = 86399;

/// An offset from UTC: essentially a time zone without its metadata.
#[derive(Clone, Copy, Debug, PartialEq, Eq, Structural)]
pub struct UtcOffset {
    pub seconds: i32,
}

impl UtcOffset {
    pub open spec fn wf(self) -> bool {
        -MAX_OFFSET_SECONDS <= self.seconds <= MAX_OFFSET_SECONDS
    }

    /// The zero offset.
    pub fn utc() -> (r: UtcOffset)
        ensures
            r.seconds == 0,
            r.wf(),
    {
        UtcOffset { seconds: 0 }
    }

    /// The offset of a reading of the machine's offset: the reading itself,
    /// or UTC where there is none or it lies a day or more away.
    pub open spec fn of_reading(reading: Option<i32>) -> UtcOffset {
        match reading {
            Some(s) if -MAX_OFFSET_SECONDS <= s <= MAX_OFFSET_SECONDS => UtcOffset { seconds: s },
            _ => UtcOffset { seconds: 0 },
        }
    }

    /// The offset of a reading of the machine's offset.
    pub fn offset_of(reading: Option<i32>) -> (r: UtcOffset)
        ensures
            r == UtcOffset::of_reading(reading),
            r.wf(),
    {
        match reading {
            Some(s) => {
                if -MAX_OFFSET_SECONDS <= s && s <= MAX_OFFSET_SECONDS {
                    UtcOffset { seconds: s }
                } else {
                    UtcOffset::utc()
                }
            },
            None => UtcOffset::utc(),
        }
    }

    /// The machine's current offset from UTC, or UTC where it cannot be
    /// determined safely or lies a day or more away.
    pub fn current_local_or_utc() -> (r: UtcOffset)
        ensures
            exists|reading: Option<i32>| r == UtcOffset::of_reading(reading),
            r.wf(),
    {
        let reading = local_offset_seconds();
        UtcOffset::offset_of(reading)
    }
}

/// Relies on `time::UtcOffset::current_local_offset`: the machine's offset,
/// or `None` where it is indeterminate. The offset depends on the machine and
/// the moment, so nothing is stated of it.
#[verifier::external_body]
fn local_offset_seconds() -> (r: Option<i32>) {
    time::UtcOffset::current_local_offset().ok().map(|o| o.whole_seconds())
}

/// An instant, together with the offset at which it is displayed.
///
/// Instants compare by the moment they denote; the offset only affects how
/// the instant is written.
#[derive(Clone, Copy, Debug, PartialEq, Eq, Structural)]
pub struct Timestamp {
    pub unix_seconds: i64,
    pub nanosecond: u32,
    pub offset: UtcOffset,
}

impl Timestamp {
    /// Well formed: a representable instant whose local date at its offset is
    /// representable too.
    pub open spec fn wf(self) -> bool {
        &&& self.offset.wf()
        &&& self.nanosecond < 1_000_000_000
        &&& MIN_UNIX_SECONDS <= self.unix_seconds <= MAX_UNIX_SECONDS
        &&& MIN_UNIX_SECONDS <= self.unix_seconds + self.offset.seconds <= MAX_UNIX_SECONDS
    }

    /// The instant in nanoseconds since the Unix epoch.
    pub open spec fn instant(self) -> int {
        self.unix_seconds * 1_000_000_000 + self.nanosecond
    }

    /// The Unix epoch, in UTC: the stamp of a batch never refreshed.
    pub open spec fn epoch_spec() -> Timestamp {
        Timestamp { unix_seconds: 0, nanosecond: 0, offset: UtcOffset { seconds: 0 } }
    }

    /// The Unix epoch, in UTC.
    pub fn epoch() -> (r: Timestamp)
        ensures
            r == Timestamp::epoch_spec(),
            r.wf(),
            r.instant() == 0,
    {
        Timestamp { unix_seconds: 0, nanosecond: 0, offset: UtcOffset::utc() }
    }

    /// The latest representable instant, in UTC.
    pub open spec fn max_value_spec() -> Timestamp {
        Timestamp { unix_seconds: MAX_UNIX_SECONDS, nanosecond: 999_999_999, offset: UtcOffset { seconds: 0 } }
    }

    /// The latest representable instant, in UTC: the seed of a fold that
    /// keeps the earliest of many timestamps.
    pub fn max_value() -> (r: Timestamp)
        ensures
            r == Timestamp::max_value_spec(),
            r.wf(),
            r.offset.seconds == 0,
            forall|t: Timestamp| t.wf() ==> t.instant() <= r.instant(),
    {
        Timestamp { unix_seconds: MAX_UNIX_SECONDS, nanosecond: 999_999_999, offset: UtcOffset::utc() }
    }

    /// Whether `self` denotes an earlier instant than `other`.
    pub fn is_before(&self, other: &Timestamp) -> (r: bool)
        requires
            self.nanosecond < 1_000_000_000,
            other.nanosecond < 1_000_000_000,
        ensures
            r == (self.instant() < other.instant()),
    {
        proof {
            lemma_instant_order(*self, *other);
        }
        self.unix_seconds < other.unix_seconds || (self.unix_seconds == other.unix_seconds
            && self.nanosecond < other.nanosecond)
    }

    /// The current instant, at the given offset.
    pub fn now_at_offset(offset: UtcOffset) -> (r: Timestamp)
        requires
            offset.wf(),
        ensures
            exists|seconds: i64, nanosecond: u32|
                nanosecond < 1_000_000_000 && r == Timestamp::at_offset_spec(seconds, nanosecond, offset),
            r.offset == offset,
            r.wf(),
    {
        let (s, n) = clock_now();
        Timestamp::at_offset(s, n, offset)
    }

    /// Seconds since the epoch brought into the range that every offset can
    /// display: at least a day after the earliest instant and a day before
    /// the latest.
    pub open spec fn clamp_seconds(seconds: i64) -> i64 {
        if seconds < MIN_UNIX_SECONDS + MAX_OFFSET_SECONDS {
            (MIN_UNIX_SECONDS + MAX_OFFSET_SECONDS) as i64
        } else if seconds > MAX_UNIX_SECONDS - MAX_OFFSET_SECONDS {
            (MAX_UNIX_SECONDS - MAX_OFFSET_SECONDS) as i64
        } else {
            seconds
        }
    }

    /// The timestamp of a clock reading at an offset.
    pub open spec fn at_offset_spec(seconds: i64, nanosecond: u32, offset: UtcOffset) -> Timestamp {
        Timestamp { unix_seconds: Timestamp::clamp_seconds(seconds), nanosecond, offset }
    }

    /// The timestamp of a clock reading, in whole seconds since the epoch and
    /// nanoseconds past that second, at an offset. A reading too close to the
    /// ends of the representable range is brought within it.
    pub fn at_offset(seconds: i64, nanosecond: u32, offset: UtcOffset) -> (r: Timestamp)
        requires
            nanosecond < 1_000_000_000,
            offset.wf(),
        ensures
            r == Timestamp::at_offset_spec(seconds, nanosecond, offset),
            r.wf(),
    {
        let s = if seconds < MIN_UNIX_SECONDS + MAX_OFFSET_SECONDS as i64 {
            MIN_UNIX_SECONDS + MAX_OFFSET_SECONDS as i64
        } else if seconds > MAX_UNIX_SECONDS - MAX_OFFSET_SECONDS as i64 {
            MAX_UNIX_SECONDS - MAX_OFFSET_SECONDS as i64
        } else {
            seconds
        };
        Timestamp { unix_seconds: s, nanosecond, offset }
    }
}

/// Instants order first by their seconds, then by their nanoseconds.
proof fn lemma_instant_order(a: Timestamp, b: Timestamp)
    requires
        a.nanosecond < 1_000_000_000,
        b.nanosecond < 1_000_000_000,
    ensures
        (a.instant() < b.instant()) == (a.unix_seconds < b.unix_seconds || (a.unix_seconds
            == b.unix_seconds && a.nanosecond < b.nanosecond)),
{
    let (sa, sb, na, nb) = (a.unix_seconds as int, b.unix_seconds as int, a.nanosecond as int, b.nanosecond as int);
    if sa < sb {
        assert(sa * 1_000_000_000 + 1_000_000_000 <= sb * 1_000_000_000) by (nonlinear_arith)
            requires sa < sb;
    } else if sa > sb {
        assert(sb * 1_000_000_000 + 1_000_000_000 <= sa * 1_000_000_000) by (nonlinear_arith)
            requires sb < sa;
    }
}

/// Relies on `time::OffsetDateTime::now_utc`: the current instant as whole
/// seconds since the Unix epoch and the nanoseconds past that second. The
/// clock is the machine's, so only the range of the second part is stated.
#[verifier::external_body]
fn clock_now() -> (r: (i64, u32))
    ensures
        r.1 < 1_000_000_000,
{
    let now = time::OffsetDateTime::now_utc();
    (now.unix_timestamp(), now.nanosecond())
}

/// The RFC 3339 text that the time library writes for an instant at its
/// offset, or `None` where RFC 3339 cannot express it.
pub uninterp spec fn time_rfc3339(unix_seconds: int, nanosecond: int, offset_seconds: int) -> Option<Seq<char>>;

/// Relies on `time::OffsetDateTime::from_unix_timestamp`,
/// `replace_nanosecond`, `to_offset`, `UtcOffset::from_whole_seconds` and
/// `format` with the `Rfc3339` description, which fails where the year or
/// the offset cannot be written. A well-formed timestamp lies in the ranges
/// the conversions accept, at its offset too.
#[verifier::external_body]
fn format_rfc3339(t: &Timestamp) -> (r: Option<String>)
    requires
        t.wf(),
    ensures
        match r {
            Some(s) => time_rfc3339(t.unix_seconds as int, t.nanosecond as int, t.offset.seconds as int) == Some(s@),
            None => time_rfc3339(t.unix_seconds as int, t.nanosecond as int, t.offset.seconds as int) is None,
        },
{
    let offset = time::UtcOffset::from_whole_seconds(t.offset.seconds).unwrap();
    let utc = time::OffsetDateTime::from_unix_timestamp(t.unix_seconds).unwrap();
    let odt = utc.replace_nanosecond(t.nanosecond).unwrap().to_offset(offset);
    odt.format(&time::format_description::well_known::Rfc3339).ok()
}

/// The suffix that makes a zero offset plain to see.
pub const UTC_SUFFIX: &'static str = " UTC";

/// How a timestamp is shown: RFC 3339, and ` UTC` after it where the offset
/// is zero; `None` where RFC 3339 cannot express it.
pub open spec fn display_text(t: Timestamp) -> Option<Seq<char>> {
    match time_rfc3339(t.unix_seconds as int, t.nanosecond as int, t.offset.seconds as int) {
        Some(s) => Some(if t.offset.seconds == 0 { s + UTC_SUFFIX@ } else { s }),
        None => None,
    }
}

impl Timestamp {
    /// The timestamp as shown to the reader.
    pub fn display(&self) -> (r: Option<String>)
        requires
            self.wf(),
        ensures
            crate::syndicated::opt_text(r) == display_text(*self),
    {
        match format_rfc3339(self) {
            Some(s) => {
                if self.offset.seconds == 0 {
                    let mut s = s;
                    s.append(UTC_SUFFIX);
                    Some(s)
                } else {
                    Some(s)
                }
            },
            None => None,
        }
    }
}

} // verus!

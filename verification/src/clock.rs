use vstd::prelude::*;

verus! {

/// A moment in UTC, as the time that has passed since the beginning of 1970.
#[derive(Debug, Clone, Copy, PartialEq, Eq, Structural)]
pub struct Timestamp {
    pub seconds: i64,
    /// Part of a second, negative before 1970
    pub nanoseconds: i32,
}

impl Timestamp {
    /// Whether the part of a second is less than one and of the sign of the seconds.
    pub open spec fn normal(self) -> bool {
        &&& -1_000_000_000 < self.nanoseconds < 1_000_000_000
        &&& self.seconds > 0 ==> self.nanoseconds >= 0
        &&& self.seconds < 0 ==> self.nanoseconds <= 0
    }

    /// Whether the moment lies in a year of at most four digits.
    pub open spec fn in_calendar(self) -> bool {
        -377_705_116_800 < self.seconds < 253_402_300_800
    }

    /// Whether this moment comes before another.
    pub open spec fn earlier_than(self, other: Timestamp) -> bool {
        self.seconds < other.seconds || (self.seconds == other.seconds && self.nanoseconds
            < other.nanoseconds)
    }

    /// The beginning of 1970.
    pub fn unix_epoch() -> (epoch: Timestamp)
        ensures
            epoch == epoch_of_unix(),
    {
        Timestamp { seconds: 0, nanoseconds: 0 }
    }

    /// Whether this moment comes before another.
    pub fn is_before(self, other: Timestamp) -> (result: bool)
        ensures
            result == self.earlier_than(other),
    {
        self.seconds < other.seconds || (self.seconds == other.seconds && self.nanoseconds
            < other.nanoseconds)
    }

    /// Whether the moment can be written down as a date of the calendar.
    pub fn is_formattable(self) -> (result: bool)
        ensures
            result == (self.normal() && self.in_calendar()),
    {
        -1_000_000_000 < self.nanoseconds && self.nanoseconds < 1_000_000_000 && (self.seconds <= 0
            || self.nanoseconds >= 0) && (self.seconds >= 0 || self.nanoseconds <= 0)
            && -377_705_116_800 < self.seconds && self.seconds < 253_402_300_800
    }
}

/// The beginning of 1970.
pub open spec fn epoch_of_unix() -> Timestamp {
    Timestamp { seconds: 0, nanoseconds: 0 }
}

/// `iso8601_timestamp::Timestamp::now_utc`: the time of the system clock, taken apart by the
/// duration type of the `time` crate, whose part of a second is less than one and has the sign
/// of the whole. Nothing else is claimed of what the clock says.
#[verifier::external_body]
pub(crate) fn now_utc() -> (now: Timestamp)
    ensures
        now.normal(),
{
    let since = iso8601_timestamp::Timestamp::now_utc().duration_since(
        iso8601_timestamp::Timestamp::UNIX_EPOCH,
    );
    Timestamp { seconds: since.whole_seconds(), nanoseconds: since.subsec_nanoseconds() }
}

/// The text that `iso8601_timestamp::Timestamp::format` gives of a moment.
pub uninterp spec fn iso8601_of(seconds: i64, nanoseconds: i32) -> Seq<char>;

/// `iso8601_timestamp::Timestamp::format`: the moment in ISO 8601, with full punctuation and to
/// the millisecond. The text is a function of the moment; years of more than four digits are
/// left out, since the formatter does not provide for them.
#[verifier::external_body]
pub(crate) fn iso8601(time: Timestamp) -> (text: String)
    requires
        time.normal(),
        time.in_calendar(),
    ensures
        text@ == iso8601_of(time.seconds, time.nanoseconds),
{
    let since = iso8601_timestamp::Duration::new(time.seconds, time.nanoseconds);
    let text = iso8601_timestamp::Timestamp::UNIX_EPOCH.saturating_add(since).format();
    let text: &str = &text;
    text.to_owned()
}

/// Of two moments the one before the other is the one that lies fewer nanoseconds after the
/// beginning of 1970.
pub proof fn law_moments_are_ordered_by_time(a: Timestamp, b: Timestamp, result: bool)
    requires
        call_ensures(Timestamp::is_before, (a, b), result),
        -1_000_000_000 < a.nanoseconds < 1_000_000_000,
        a.seconds > 0 ==> a.nanoseconds >= 0,
        a.seconds < 0 ==> a.nanoseconds <= 0,
        -1_000_000_000 < b.nanoseconds < 1_000_000_000,
        b.seconds > 0 ==> b.nanoseconds >= 0,
        b.seconds < 0 ==> b.nanoseconds <= 0,
    ensures
        result <==> a.seconds * 1_000_000_000 + a.nanoseconds < b.seconds * 1_000_000_000
            + b.nanoseconds,
{
}

/// The beginning of 1970 is no time after itself.
pub proof fn law_epoch_is_the_beginning(epoch: Timestamp)
    requires
        call_ensures(Timestamp::unix_epoch, (), epoch),
    ensures
        epoch.seconds == 0,
        epoch.nanoseconds == 0,
{
}

/// A moment is written down exactly if its part of a second is one, of the sign of the whole, and
/// if it lies after the year -10000 and before the year 10000.
pub proof fn law_calendar_has_four_digits(time: Timestamp, result: bool)
    requires
        call_ensures(Timestamp::is_formattable, (time,), result),
    ensures
        result <==> -1_000_000_000 < time.nanoseconds < 1_000_000_000 && (time.seconds > 0
            ==> time.nanoseconds >= 0) && (time.seconds < 0 ==> time.nanoseconds <= 0)
            && -377_705_116_800 < time.seconds < 253_402_300_800,
{
}

} // verus!

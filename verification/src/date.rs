//! Timestamps of an entry as local dates and times.
//!
//! A timestamp is an instant relative to the Unix epoch. It is shown in the
//! time zone of the process, at the offset that was in effect at that
//! instant; where any step of the way fails, the text is `unknown`.

use crate::text::UNKNOWN;
use time::{Duration, OffsetDateTime, UtcOffset};
use vstd::prelude::*;
use vstd::string::StringExecFns;

verus! {

/// The number of nanoseconds in one second.
pub const NANOS_PER_SECOND: u32 = 1_000_000_000;

/// An instant: whole seconds since the Unix epoch, negative before it, and
/// the nanoseconds that follow them.
#[derive(Debug, Clone, Copy, PartialEq, Eq, Structural)]
pub struct Timestamp {
    pub seconds: i64,
    pub nanoseconds: u32,
}

/// The three timestamps of an entry, ready to be shown.
#[derive(Debug, Clone)]
pub struct FileDate {
    created: String,
    modified: String,
    accessed: String,
}

/// What a `FileDate` holds.
pub struct FileDateView {
    pub created: Seq<char>,
    pub modified: Seq<char>,
    pub accessed: Seq<char>,
}

impl View for FileDate {
    type V = FileDateView;

    closed spec fn view(&self) -> FileDateView {
        FileDateView { created: self.created@, modified: self.modified@, accessed: self.accessed@ }
    }
}

/// The calendar date and the clock time, as the `time` crate writes them, of
/// the instant `seconds` and `nanoseconds` after the Unix epoch, seen from
/// `offset_seconds` east of UTC; `None` where the crate cannot represent the
/// offset, the instant, or its local date.
pub uninterp spec fn local_date_and_time(seconds: i64, nanoseconds: u32, offset_seconds: i32)
    -> Option<(Seq<char>, Seq<char>)>;

/// What a date and a time hold, where there are any.
pub open spec fn texts_view(parts: Option<(String, String)>) -> Option<(Seq<char>, Seq<char>)> {
    match parts {
        Some((date, time)) => Some((date@, time@)),
        None => None,
    }
}

/// Whether the time elapsed from the epoch to the instant can be taken: the
/// instant is not before the epoch and its nanoseconds are below one second.
pub open spec fn has_elapsed(stamp: Timestamp) -> bool {
    stamp.seconds >= 0 && stamp.nanoseconds < NANOS_PER_SECOND
}

/// A date and a time as one text, with a space between them; `unknown`
/// where there are none.
pub open spec fn date_and_time_text(parts: Option<(Seq<char>, Seq<char>)>) -> Seq<char> {
    match parts {
        Some((date, time)) => date + seq![' '] + time,
        None => UNKNOWN@,
    }
}

/// The text of a timestamp seen from a UTC offset, where `None` stands for an
/// offset that could not be determined: the local date and time of the
/// instant, or `unknown` where any of the three cannot be had.
pub open spec fn date_text(stamp: Timestamp, offset_seconds: Option<i32>) -> Seq<char> {
    if !has_elapsed(stamp) {
        UNKNOWN@
    } else {
        match offset_seconds {
            None => UNKNOWN@,
            Some(offset) => date_and_time_text(
                local_date_and_time(stamp.seconds, stamp.nanoseconds, offset),
            ),
        }
    }
}

/// Whether `text` shows the instant `stamp` under some outcome of looking up
/// the local offset.
pub open spec fn shows(stamp: Timestamp, text: Seq<char>) -> bool {
    exists|offset_seconds: Option<i32>| text == #[trigger] date_text(stamp, offset_seconds)
}

/// Whether `text` shows a timestamp that may be missing: a missing one is
/// shown as `unknown`.
pub open spec fn shows_optional(stamp: Option<Timestamp>, text: Seq<char>) -> bool {
    match stamp {
        None => text == UNKNOWN@,
        Some(instant) => shows(instant, text),
    }
}

/// Looks up the offset of the process's time zone at an instant, in seconds
/// east of UTC: the instant is `time::OffsetDateTime::UNIX_EPOCH` with a
/// `time::Duration` of `seconds` and `nanoseconds` added by `checked_add`, the
/// lookup is `time::UtcOffset::local_offset_at`, and the answer is read with
/// `whole_seconds`. The answer depends on the machine's time zone rules, so
/// nothing is claimed of it. `None` stands for an instant that `time` cannot
/// represent or an offset that it cannot determine. With nanoseconds below one
/// second, none of these calls can overflow.
#[verifier::external_body]
fn local_offset_at(seconds: i64, nanoseconds: u32) -> (offset_seconds: Option<i32>)
    requires
        nanoseconds < NANOS_PER_SECOND,
{
    let elapsed = Duration::new(seconds, nanoseconds as i32);
    let utc = OffsetDateTime::UNIX_EPOCH.checked_add(elapsed)?;
    let offset = UtcOffset::local_offset_at(utc).ok()?;
    Some(offset.whole_seconds())
}

/// Writes out the local date and time of an instant: the instant is
/// `time::OffsetDateTime::UNIX_EPOCH` with a `time::Duration` of `seconds` and
/// `nanoseconds` added by `checked_add`, the offset is made by
/// `time::UtcOffset::from_whole_seconds`, the instant is moved there by
/// `checked_to_offset`, and its `date` and `time` are written as `time`
/// displays them. Each step is a function of its input alone, so the result
/// is one of the arguments: it is known by the name `local_date_and_time`, of
/// which nothing else is claimed. With nanoseconds below one second, none of
/// these calls can overflow.
#[verifier::external_body]
fn date_and_time_at(seconds: i64, nanoseconds: u32, offset_seconds: i32) -> (texts: Option<
    (String, String),
>)
    requires
        nanoseconds < NANOS_PER_SECOND,
    ensures
        texts_view(texts) == local_date_and_time(seconds, nanoseconds, offset_seconds),
{
    let elapsed = Duration::new(seconds, nanoseconds as i32);
    let utc = OffsetDateTime::UNIX_EPOCH.checked_add(elapsed)?;
    let offset = UtcOffset::from_whole_seconds(offset_seconds).ok()?;
    let local = utc.checked_to_offset(offset)?;
    Some((format!("{}", local.date()), format!("{}", local.time())))
}

impl Timestamp {
    /// The instant as a count of nanoseconds from the epoch, negative before it.
    pub open spec fn nanos_from_epoch(self) -> int {
        self.seconds * NANOS_PER_SECOND + self.nanoseconds
    }

    /// The instant that lies `seconds` and `nanoseconds` after the epoch.
    /// There is none where the nanoseconds make a second or more, or where
    /// the seconds are too many to count.
    pub fn after_epoch(seconds: u64, nanoseconds: u32) -> (stamp: Option<Timestamp>)
        ensures
            stamp is Some <==> seconds <= i64::MAX && nanoseconds < NANOS_PER_SECOND,
            stamp matches Some(instant) ==> {
                &&& has_elapsed(instant)
                &&& instant.seconds == seconds
                &&& instant.nanoseconds == nanoseconds
                &&& instant.nanos_from_epoch() == seconds * NANOS_PER_SECOND + nanoseconds
            },
    {
        if seconds > i64::MAX as u64 || nanoseconds >= NANOS_PER_SECOND {
            None
        } else {
            Some(Timestamp { seconds: seconds as i64, nanoseconds })
        }
    }

    /// The instant that lies `seconds` and `nanoseconds` before the epoch.
    /// There is none where the nanoseconds make a second or more, or where
    /// the seconds are too many to count.
    pub fn before_epoch(seconds: u64, nanoseconds: u32) -> (stamp: Option<Timestamp>)
        ensures
            stamp is Some <==> seconds < i64::MAX && nanoseconds < NANOS_PER_SECOND,
            stamp matches Some(instant) ==> {
                &&& instant.nanoseconds < NANOS_PER_SECOND
                &&& instant.nanos_from_epoch() == -(seconds * NANOS_PER_SECOND + nanoseconds)
            },
    {
        if seconds >= i64::MAX as u64 || nanoseconds >= NANOS_PER_SECOND {
            None
        } else if nanoseconds == 0 {
            Some(Timestamp { seconds: -(seconds as i64), nanoseconds: 0 })
        } else {
            Some(
                Timestamp {
                    seconds: -(seconds as i64) - 1,
                    nanoseconds: NANOS_PER_SECOND - nanoseconds,
                },
            )
        }
    }
}

impl FileDate {
    /// Puts a date and a time together with a space between them, and gives
    /// `unknown` where there are none.
    pub fn join_date_and_time(parts: Option<(String, String)>) -> (text: String)
        ensures
            text@ == date_and_time_text(texts_view(parts)),
    {
        match parts {
            Some((date, time)) => {
                let mut text = date;
                text.push(' ');
                text.append(time.as_str());
                text
            },
            None => UNKNOWN.to_owned(),
        }
    }

    /// Shows a timestamp as seen from the given UTC offset, in seconds east;
    /// `None` stands for an offset that could not be determined.
    pub fn format_at(stamp: Timestamp, offset_seconds: Option<i32>) -> (text: String)
        ensures
            text@ == date_text(stamp, offset_seconds),
    {
        if stamp.seconds < 0 || stamp.nanoseconds >= NANOS_PER_SECOND {
            return UNKNOWN.to_owned();
        }
        match offset_seconds {
            Some(offset) => {
                let parts = date_and_time_at(stamp.seconds, stamp.nanoseconds, offset);
                Self::join_date_and_time(parts)
            },
            None => UNKNOWN.to_owned(),
        }
    }

    /// Shows a timestamp in the local time zone, at the offset in effect at
    /// that instant.
    pub fn parse_time(stamp: Timestamp) -> (text: String)
        ensures
            shows(stamp, text@),
            !has_elapsed(stamp) ==> text@ == UNKNOWN@,
    {
        let offset_seconds = if stamp.seconds < 0 || stamp.nanoseconds >= NANOS_PER_SECOND {
            None
        } else {
            local_offset_at(stamp.seconds, stamp.nanoseconds)
        };
        let text = Self::format_at(stamp, offset_seconds);
        assert(text@ == date_text(stamp, offset_seconds));
        text
    }

    /// Shows a timestamp in the local time zone, or `unknown` where it is missing.
    fn parse_optional(stamp: Option<Timestamp>) -> (text: String)
        ensures
            shows_optional(stamp, text@),
    {
        match stamp {
            Some(stamp) => Self::parse_time(stamp),
            None => UNKNOWN.to_owned(),
        }
    }

    /// Shows the creation, modification and access times of an entry, each
    /// in the local time zone.
    pub fn from(
        created: Option<Timestamp>,
        modified: Option<Timestamp>,
        accessed: Option<Timestamp>,
    ) -> (date: FileDate)
        ensures
            shows_optional(created, date@.created),
            shows_optional(modified, date@.modified),
            shows_optional(accessed, date@.accessed),
    {
        FileDate {
            created: Self::parse_optional(created),
            modified: Self::parse_optional(modified),
            accessed: Self::parse_optional(accessed),
        }
    }

    /// The creation time as text.
    pub fn created(&self) -> (text: &str)
        ensures
            text@ == self@.created,
    {
        self.created.as_str()
    }

    /// The modification time as text.
    pub fn modified(&self) -> (text: &str)
        ensures
            text@ == self@.modified,
    {
        self.modified.as_str()
    }

    /// The access time as text.
    pub fn accessed(&self) -> (text: &str)
        ensures
            text@ == self@.accessed,
    {
        self.accessed.as_str()
    }
}

} // verus!

//! An entry of the store: its id and what the file system says of its file.

use vstd::prelude::*;

verus! {

/// What the file system says of an entry's file.
#[derive(Debug, Clone, Copy, PartialEq, Eq, Structural)]
pub struct Metadata {
    /// When the file was last changed, in seconds since the Unix epoch;
    /// `None` where the file system cannot tell, or tells a time before it.
    pub modified: Option<u64>,
    /// The size of the file in bytes.
    pub size: u64,
}

/// The id of an entry and the metadata of its file.
#[derive(Debug, Clone, PartialEq, Eq)]
pub struct PasswordInfo {
    pub id: String,
    pub metadata: Metadata,
}

/// `PasswordInfo` as plain values.
pub struct Info {
    pub id: Seq<char>,
    pub metadata: Metadata,
}

impl View for PasswordInfo {
    type V = Info;

    open spec fn view(&self) -> Info {
        Info { id: self.id@, metadata: self.metadata }
    }
}

/// How icu writes, in English, the minute `minutes` after the Unix epoch
/// as a date of medium and a time of short length; `None` where it cannot
/// make its formatter.
pub uninterp spec fn formatted_minutes(minutes: int) -> Option<Seq<char>>;

/// `seconds` as a signed number of 32 bits: what is left of it below 2^32,
/// read as negative from 2^31 on.
pub open spec fn wrapped_seconds(seconds: nat) -> int {
    let low = seconds % 0x1_0000_0000;
    if low < 0x8000_0000 {
        low as int
    } else {
        low - 0x1_0000_0000
    }
}

/// The whole minutes in `wrapped_seconds(seconds)`, rounded towards zero.
pub open spec fn epoch_minutes(seconds: nat) -> int {
    let wrapped = wrapped_seconds(seconds);
    if wrapped >= 0 {
        wrapped / 60
    } else {
        -((-wrapped) / 60)
    }
}

/// What `last_modified` says of a time that the formatter wrote, or could
/// not write.
pub open spec fn modified_label(formatted: Option<Seq<char>>) -> Seq<char> {
    match formatted {
        Some(written) => written,
        None => "Unknown"@,
    }
}

/// Calls icu's `TypedDateTimeFormatter::<Gregorian>::format_to_string` on
/// `DateTime::from_minutes_since_local_unix_epoch(minutes)`, with the locale
/// `en`, the date length `Medium` and the time length `Short`. The result
/// depends on `minutes` alone.
#[verifier::external_body]
fn format_minutes(minutes: i32) -> (formatted: Option<String>)
    ensures
        match formatted {
            Some(written) => formatted_minutes(minutes as int) == Some(written@),
            None => formatted_minutes(minutes as int) is None,
        },
{
    let locale: icu::locid::Locale = "en".parse().ok()?;
    let options = icu::datetime::options::length::Bag::from_date_time_style(
        icu::datetime::options::length::Date::Medium,
        icu::datetime::options::length::Time::Short,
    );
    let formatter = icu::datetime::TypedDateTimeFormatter::<icu::calendar::Gregorian>::try_new(
        &locale.into(),
        options.into(),
    ).ok()?;
    let moment = icu::calendar::DateTime::from_minutes_since_local_unix_epoch(minutes);
    Some(formatter.format_to_string(&moment.to_calendar(icu::calendar::Gregorian)))
}

/// The minute of the Unix epoch that `seconds` falls in, as the formatter
/// takes it: a signed number of 32 bits.
pub fn minutes_since_epoch(seconds: u64) -> (minutes: i32)
    ensures
        minutes == epoch_minutes(seconds as nat),
{
    let low: u64 = seconds % 0x1_0000_0000;
    if low < 0x8000_0000 {
        (low / 60) as i32
    } else {
        let below: u64 = 0x1_0000_0000 - low;
        let whole: i32 = (below / 60) as i32;
        -whole
    }
}

/// The line for a time that the formatter wrote, or `Unknown`.
pub fn label(formatted: Option<String>) -> (line: String)
    ensures
        line@ == modified_label(
            match formatted {
                Some(written) => Some(written@),
                None => None,
            },
        ),
{
    match formatted {
        Some(written) => written,
        None => "Unknown".to_owned(),
    }
}

impl PasswordInfo {
    pub fn new(id: String, metadata: Metadata) -> (info: Self)
        ensures
            info.id == id,
            info.metadata == metadata,
    {
        PasswordInfo { id, metadata }
    }

    /// When the entry was last changed, for the user to read, or `Unknown`
    /// where the time is not known.
    pub fn last_modified(&self) -> (line: String)
        ensures
            line@ == match self.metadata.modified {
                Some(seconds) => modified_label(formatted_minutes(epoch_minutes(seconds as nat))),
                None => "Unknown"@,
            },
    {
        match self.metadata.modified {
            Some(seconds) => label(format_minutes(minutes_since_epoch(seconds))),
            None => "Unknown".to_owned(),
        }
    }
}

} // verus!

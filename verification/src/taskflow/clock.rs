//! Calendar days, instants, identifiers and CSV records, as chrono, uuid and csv compute them,
//! and the readings of the system clock and random source they are made from.
use chrono::Datelike;
use vstd::prelude::*;

verus! {

/// The day number of January 1 of chrono's first year, -262143.
pub open spec fn first_calendar_day() -> int {
    -95_746_129
}

/// The day number of December 31 of chrono's last year, 262142.
pub open spec fn last_calendar_day() -> int {
    95_745_399
}

/// Whether chrono's `NaiveDate::from_num_days_from_ce_opt` finds a date for this day number
/// (day 1 is January 1 of year 1): the days from January 1 of year -262143 to December 31 of
/// year 262142.
pub open spec fn day_in_calendar(days_from_ce: i32) -> bool {
    first_calendar_day() <= days_from_ce <= last_calendar_day()
}

/// The text chrono's `Display` for `NaiveDate` writes for the date with this day number.
pub uninterp spec fn iso_date_text(days_from_ce: i32) -> Seq<char>;

/// The day number of the date that chrono's `NaiveDate::parse_from_str(text, "%Y-%m-%d")`
/// reads from `text`, or `None` where it reports an error.
pub uninterp spec fn iso_date_parse(text: Seq<char>) -> Option<i32>;

/// Whether chrono's `DateTime::from_timestamp(secs, nanos)` finds an instant: the day lies in
/// chrono's calendar, the nanoseconds are below two billion, and a count of a billion or more
/// (a leap second) falls on the last second of a minute.
pub open spec fn instant_in_range(secs: i64, nanos: u32) -> bool {
    &&& first_calendar_day() <= epoch_day(secs) <= last_calendar_day()
    &&& nanos < 2_000_000_000
    &&& (nanos >= 1_000_000_000 ==> secs as int % 60 == 59)
}

/// The text chrono's `DateTime::<Utc>::to_rfc3339` writes for this instant.
pub uninterp spec fn rfc3339_text(secs: i64, nanos: u32) -> Seq<char>;

/// The line, terminator included, that a default csv `Writer` writes for one record.
pub uninterp spec fn csv_record_text(fields: Seq<Seq<char>>) -> Seq<char>;

/// The day number of the UTC calendar day that holds the instant `secs` seconds after
/// 1970-01-01T00:00:00Z.
pub open spec fn epoch_day(secs: i64) -> int {
    secs as int / 86_400 + 719_163
}

/// A lower-case hexadecimal digit.
pub open spec fn is_lower_hex(c: char) -> bool {
    ('0' <= c && c <= '9') || ('a' <= c && c <= 'f')
}

/// The hyphenated lower-case text of a UUID: 36 characters, hyphens at positions
/// 8, 13, 18 and 23, hexadecimal digits elsewhere.
pub open spec fn is_uuid_text(s: Seq<char>) -> bool {
    &&& s.len() == 36
    &&& forall|i: int|
        0 <= i < 36 ==> if i == 8 || i == 13 || i == 18 || i == 23 {
            #[trigger] s[i] == '-'
        } else {
            is_lower_hex(s[i])
        }
}

/// Whether the day number names a date chrono can build.
pub(crate) fn calendar_day_exists(days_from_ce: i32) -> (b: bool)
    ensures
        b == day_in_calendar(days_from_ce),
{
    -95_746_129 <= days_from_ce && days_from_ce <= 95_745_399
}

/// Reads a `YYYY-MM-DD` date with chrono's `NaiveDate::parse_from_str` and returns its day
/// number. Claims that the result is the named `iso_date_parse` of the text, and that a day
/// read this way is one chrono can rebuild.
#[verifier::external_body]
pub(crate) fn parse_iso_date(text: &str) -> (r: Option<i32>)
    ensures
        r == iso_date_parse(text@),
        r matches Some(d) ==> day_in_calendar(d),
{
    match chrono::NaiveDate::parse_from_str(text, "%Y-%m-%d") {
        Ok(d) => Some(d.num_days_from_ce()),
        Err(_) => None,
    }
}

/// Writes the date with chrono's `Display` for `NaiveDate`. Claims the text is the named
/// `iso_date_text` of the day number.
#[verifier::external_body]
pub(crate) fn format_iso_date(days_from_ce: i32) -> (r: String)
    requires
        day_in_calendar(days_from_ce),
    ensures
        r@ == iso_date_text(days_from_ce),
{
    match chrono::NaiveDate::from_num_days_from_ce_opt(days_from_ce) {
        Some(d) => d.to_string(),
        None => String::new(),
    }
}

/// Whether the seconds and nanoseconds name an instant chrono can build; an instant it
/// accepts lies on a day chrono can build, numbered `epoch_day(secs)`.
pub(crate) fn instant_exists(secs: i64, nanos: u32) -> (b: bool)
    ensures
        b == instant_in_range(secs, nanos),
        b ==> i32::MIN <= epoch_day(secs) <= i32::MAX && day_in_calendar(epoch_day(secs) as i32),
{
    let day = match secs.checked_div_euclid(86_400) {
        Some(d) => d,
        None => {
            return false;
        },
    };
    let second_of_minute = match secs.checked_rem_euclid(60) {
        Some(r) => r,
        None => {
            return false;
        },
    };
    if day < -95_746_129 - 719_163 || day > 95_745_399 - 719_163 {
        return false;
    }
    if nanos >= 2_000_000_000 {
        return false;
    }
    nanos < 1_000_000_000 || second_of_minute == 59
}

/// Reads std's `SystemTime::now` as whole seconds and nanoseconds since the Unix epoch, or
/// `None` when the clock reads before the epoch. Claims only, as `Duration::subsec_nanos`
/// documents, that the nanoseconds are below a billion; the reading depends on the clock.
#[verifier::external_body]
fn system_time_since_epoch() -> (r: Option<(u64, u32)>)
    ensures
        r matches Some(t) ==> t.1 < 1_000_000_000,
{
    match std::time::SystemTime::now().duration_since(std::time::UNIX_EPOCH) {
        Ok(d) => Some((d.as_secs(), d.subsec_nanos())),
        Err(_) => None,
    }
}

/// The current instant, as chrono's `Utc::now` would give it: its seconds, its nanoseconds
/// and the day number of its UTC date; `None` when the clock reads before the Unix epoch or
/// beyond what chrono can represent. Of a reading, only what holds of every one is claimed:
/// the instant is one chrono can rebuild and the day is the one that holds it.
pub(crate) fn utc_now() -> (r: Option<(i64, u32, i32)>)
    ensures
        r matches Some(t) ==> instant_in_range(t.0, t.1) && t.2 == epoch_day(t.0) && day_in_calendar(t.2),
        r matches Some(t) ==> t.0 >= 0,
{
    match system_time_since_epoch() {
        Some((secs, nanos)) => {
            if secs > 9_223_372_036_854_775_807u64 {
                return None;
            }
            let secs = secs as i64;
            if !instant_exists(secs, nanos) {
                return None;
            }
            let day = (secs / 86_400 + 719_163) as i32;
            assert(day == epoch_day(secs));
            Some((secs, nanos, day))
        },
        None => None,
    }
}

/// Writes the instant with chrono's `DateTime::<Utc>::to_rfc3339`. Claims the text is the
/// named `rfc3339_text`.
#[verifier::external_body]
pub(crate) fn format_rfc3339(secs: i64, nanos: u32) -> (r: String)
    requires
        instant_in_range(secs, nanos),
    ensures
        r@ == rfc3339_text(secs, nanos),
{
    match chrono::DateTime::from_timestamp(secs, nanos) {
        Some(d) => d.to_rfc3339(),
        None => String::new(),
    }
}

/// The text uuid writes for the version-4 UUID that `Builder::from_random_bytes` makes of
/// these sixteen bytes.
pub uninterp spec fn random_uuid_text(bytes: Seq<u8>) -> Seq<char>;

/// Sixteen bytes from the operating system's random source, by getrandom's `fill`, or `None`
/// when the source fails. Nothing is claimed of the bytes.
#[verifier::external_body]
fn random_bytes() -> (r: Option<[u8; 16]>) {
    let mut bytes = [0u8; 16];
    match getrandom::fill(&mut bytes) {
        Ok(()) => Some(bytes),
        Err(_) => None,
    }
}

/// The hyphenated lower-case text of the version-4 UUID that uuid's
/// `Builder::from_random_bytes` makes of `bytes`. Claims the text is the named
/// `random_uuid_text`, and its shape, which uuid's formatting code fixes.
#[verifier::external_body]
fn uuid_text_of(bytes: [u8; 16]) -> (r: String)
    ensures
        r@ == random_uuid_text(bytes@),
        is_uuid_text(r@),
{
    uuid::Builder::from_random_bytes(bytes).into_uuid().to_string()
}

/// A fresh random identifier: a version-4 UUID made of sixteen random bytes, in its
/// hyphenated lower-case text; `None` when the random source fails.
pub(crate) fn new_task_id() -> (r: Option<String>)
    ensures
        r matches Some(s) ==> is_uuid_text(s@),
{
    match random_bytes() {
        Some(bytes) => Some(uuid_text_of(bytes)),
        None => None,
    }
}

/// Writes one record with a default csv `Writer` into memory and returns the line. Claims the
/// line is the named `csv_record_text` of the fields.
#[verifier::external_body]
pub(crate) fn csv_record(fields: &Vec<String>) -> (r: String)
    ensures
        r@ == csv_record_text(fields@.map_values(|f: String| f@)),
{
    let mut w = csv::Writer::from_writer(Vec::new());
    if w.write_record(fields).is_err() {
        return String::new();
    }
    match w.into_inner() {
        Ok(bytes) => String::from_utf8(bytes).unwrap_or_default(),
        Err(_) => String::new(),
    }
}

} // verus!

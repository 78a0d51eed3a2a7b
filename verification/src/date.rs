//! The date attached to a candidate: the day of capture embedded in the
//! image where there is one, else the day the file was created, else none.
//! A date is always a day, written as `YYYY-MM-DD`.

use crate::text::opt_text;
use vstd::prelude::*;
use vstd::string::{StrSliceExecFns, StringExecFns};

verus! {

/// The number of the Exif attribute that holds the time of capture.
pub const DATE_TIME_ORIGINAL: u16 = 0x9003;

/// The number of the image file directory that describes the primary image.
pub const PRIMARY_IMAGE: u16 = 0;

/// How many seconds a day has.
pub const DAY_SECONDS: i64 = 86_400;

/// How many days lie between the first day of the year 0 and the first of
/// January 1970.
pub const EPOCH_DAY: u64 = 719_528;

/// The last year that a day text can name.
pub const LAST_YEAR: u64 = 9999;

/// What the `exif` crate displays for the attribute `tag` of the Exif context
/// in directory `ifd` of an image; `None` where the image cannot be parsed or
/// has no such attribute.
pub uninterp spec fn exif_field_text(image: Seq<u8>, tag: u16, ifd: u16) -> Option<Seq<char>>;

/// The character is a decimal digit.
pub open spec fn is_digit(c: char) -> bool {
    '0' <= c <= '9'
}

/// The number that a decimal digit stands for.
pub open spec fn digit(c: char) -> int {
    c as u32 - '0' as u32
}

/// The number written by the two digits at `at` and after it.
pub open spec fn two_digits(text: Seq<char>, at: int) -> int {
    10 * digit(text[at]) + digit(text[at + 1])
}

/// The year of a day text.
pub open spec fn year_of(text: Seq<char>) -> int {
    100 * two_digits(text, 0) + two_digits(text, 2)
}

/// The month of a day text.
pub open spec fn month_of(text: Seq<char>) -> int {
    two_digits(text, 5)
}

/// The day of the month of a day text.
pub open spec fn day_of(text: Seq<char>) -> int {
    two_digits(text, 8)
}

/// The text is a day: four digits, a dash, two digits, a dash and two digits,
/// with a month from 01 to 12 and a day of the month from 01 to 31.
pub open spec fn is_day_text(text: Seq<char>) -> bool {
    &&& text.len() == 10
    &&& text[4] == '-'
    &&& text[7] == '-'
    &&& is_digit(text[0]) && is_digit(text[1]) && is_digit(text[2]) && is_digit(text[3])
    &&& is_digit(text[5]) && is_digit(text[6])
    &&& is_digit(text[8]) && is_digit(text[9])
    &&& 1 <= month_of(text) <= 12
    &&& 1 <= day_of(text) <= 31
}

/// The text is a time stamp as the `exif` crate displays one: a day, a
/// space, and the time of day as three pairs of digits with colons between.
pub open spec fn is_stamp_text(text: Seq<char>) -> bool {
    &&& text.len() == 19
    &&& is_day_text(text.take(10))
    &&& text[10] == ' '
    &&& text[13] == ':'
    &&& text[16] == ':'
    &&& is_digit(text[11]) && is_digit(text[12])
    &&& is_digit(text[14]) && is_digit(text[15])
    &&& is_digit(text[17]) && is_digit(text[18])
}

/// The day of a displayed time stamp; `None` for a text that is no time
/// stamp, as displayed for values that could not be parsed.
pub open spec fn day_of_stamp(text: Seq<char>) -> Option<Seq<char>> {
    if is_stamp_text(text) {
        Some(text.take(10))
    } else {
        None
    }
}

/// The number of days from the first of January 1970 to the given day of the
/// proleptic Gregorian calendar.
pub open spec fn days_from_civil(year: int, month: int, day: int) -> int {
    let y = if month <= 2 {
        year - 1
    } else {
        year
    };
    let era = y / 400;
    let year_of_era = y - 400 * era;
    let month_from_march = if month > 2 {
        month - 3
    } else {
        month + 9
    };
    let day_of_year = (153 * month_from_march + 2) / 5 + day - 1;
    let day_of_era = 365 * year_of_era + year_of_era / 4 - year_of_era / 100 + day_of_year;
    146_097 * era + day_of_era - 719_468
}

/// The number of days from the first of January 1970 to the day that a day
/// text names.
pub open spec fn day_number(text: Seq<char>) -> int {
    days_from_civil(year_of(text), month_of(text), day_of(text))
}

/// The day of capture embedded in an image.
pub open spec fn embedded_date(image: Seq<u8>) -> Option<Seq<char>> {
    match exif_field_text(image, DATE_TIME_ORIGINAL, PRIMARY_IMAGE) {
        Some(text) => day_of_stamp(text),
        None => None,
    }
}

/// The date hint of a file with the given bytes and creation date: the
/// embedded day, else the creation date where it is a day, else none.
pub open spec fn date_hint(image: Seq<u8>, created: Option<Seq<char>>) -> Option<Seq<char>> {
    match embedded_date(image) {
        Some(day) => Some(day),
        None => match created {
            Some(day) => if is_day_text(day) {
                Some(day)
            } else {
                None
            },
            None => None,
        },
    }
}

/// The day on which the month ends: the first day of the month after it.
pub open spec fn month_end(year: int, month: int) -> int {
    if month == 12 {
        days_from_civil(year + 1, 1, 1)
    } else {
        days_from_civil(year, month + 1, 1)
    }
}

/// How many days the month has.
pub open spec fn days_in_month(year: int, month: int) -> int {
    month_end(year, month) - days_from_civil(year, month, 1)
}

/// The text is a day of the calendar: a day text whose day of the month is
/// one that its month has in its year.
pub open spec fn is_calendar_day(text: Seq<char>) -> bool {
    is_day_text(text) && day_of(text) <= days_in_month(year_of(text), month_of(text))
}

/// The local day of an instant, counted from the first of January 1970:
/// `secs` seconds after the Unix epoch, in a zone whose clocks are `offset`
/// seconds ahead of UTC.
pub open spec fn local_day_number(secs: i64, offset: i32) -> int {
    (secs + offset) / (DAY_SECONDS as int)
}

/// The day lies in the years 0 to 9999, which four digits can name.
pub open spec fn day_in_reach(number: int) -> bool {
    days_from_civil(0, 1, 1) <= number < days_from_civil(LAST_YEAR + 1, 1, 1)
}

/// The character that stands for a number below ten.
pub open spec fn digit_char(d: int) -> char {
    if d == 0 {
        '0'
    } else if d == 1 {
        '1'
    } else if d == 2 {
        '2'
    } else if d == 3 {
        '3'
    } else if d == 4 {
        '4'
    } else if d == 5 {
        '5'
    } else if d == 6 {
        '6'
    } else if d == 7 {
        '7'
    } else if d == 8 {
        '8'
    } else {
        '9'
    }
}

/// A number below a hundred, written with two digits.
pub open spec fn two_text(n: int) -> Seq<char> {
    seq![digit_char(n / 10), digit_char(n % 10)]
}

/// A day, written as `YYYY-MM-DD`.
pub open spec fn day_text(year: int, month: int, day: int) -> Seq<char> {
    two_text(year / 100) + two_text(year % 100) + seq!['-'] + two_text(month) + seq!['-']
        + two_text(day)
}

/// Every month has between 28 and 31 days.
pub proof fn lemma_month_length(year: int, month: int)
    requires
        0 <= year <= LAST_YEAR,
        1 <= month <= 12,
    ensures
        28 <= days_in_month(year, month) <= 31,
{
}

/// Four hundred years are 146 097 days.
pub proof fn lemma_four_centuries(year: int, month: int, day: int)
    requires
        0 <= year <= LAST_YEAR + 1,
        1 <= month <= 12,
    ensures
        days_from_civil(year + 400, month, day) == days_from_civil(year, month, day) + 146_097,
{
}

/// The character of a number below ten is a digit that stands for it.
pub proof fn lemma_digit_char(d: int)
    requires
        0 <= d <= 9,
    ensures
        is_digit(digit_char(d)),
        digit(digit_char(d)) == d,
{
}

/// Two digits written as text read back as the same number.
pub proof fn lemma_two_text_reads_back(text: Seq<char>, at: int, n: int)
    requires
        0 <= n <= 99,
        0 <= at,
        at + 1 < text.len(),
        text[at] == digit_char(n / 10),
        text[at + 1] == digit_char(n % 10),
    ensures
        is_digit(text[at]),
        is_digit(text[at + 1]),
        two_digits(text, at) == n,
{
    lemma_digit_char(n / 10);
    lemma_digit_char(n % 10);
}

/// A day written as text reads back as the same year, month and day.
pub proof fn lemma_day_text_reads_back(year: int, month: int, day: int)
    requires
        0 <= year <= LAST_YEAR,
        1 <= month <= 12,
        1 <= day <= 31,
    ensures
        is_day_text(day_text(year, month, day)),
        year_of(day_text(year, month, day)) == year,
        month_of(day_text(year, month, day)) == month,
        day_of(day_text(year, month, day)) == day,
{
    let text = day_text(year, month, day);
    let head = two_text(year / 100) + two_text(year % 100) + seq!['-'];
    assert(text =~= head + two_text(month) + seq!['-'] + two_text(day));
    assert(text.len() == 10);
    assert(text[0] == two_text(year / 100)[0]);
    assert(text[1] == two_text(year / 100)[1]);
    assert(text[2] == two_text(year % 100)[0]);
    assert(text[3] == two_text(year % 100)[1]);
    assert(text[4] == '-');
    assert(text[5] == two_text(month)[0]);
    assert(text[6] == two_text(month)[1]);
    assert(text[7] == '-');
    assert(text[8] == two_text(day)[0]);
    assert(text[9] == two_text(day)[1]);
    lemma_two_text_reads_back(text, 0, year / 100);
    lemma_two_text_reads_back(text, 2, year % 100);
    lemma_two_text_reads_back(text, 5, month);
    lemma_two_text_reads_back(text, 8, day);
}

/// The time that lies `secs` seconds and `nanos` nanoseconds after the Unix
/// epoch, or before it, as whole seconds since the epoch, rounded down, and
/// the nanoseconds above them. `None` where the nanoseconds are no part of a
/// second or the seconds do not fit.
pub open spec fn epoch_time(before: bool, secs: u64, nanos: u32) -> Option<(i64, u32)> {
    if secs > i64::MAX || nanos >= 1_000_000_000 {
        None
    } else if !before {
        Some((secs as i64, nanos))
    } else if nanos == 0 {
        Some(((-secs) as i64, 0))
    } else {
        Some(((-secs - 1) as i64, (1_000_000_000 - nanos) as u32))
    }
}

/// Parses an image held in memory with `exif::Reader::read_from_container`,
/// looks one attribute up with `Exif::get_field` and formats its value with
/// `Value::display_as`. Trusted: the result is the text named by
/// `exif_field_text` for these arguments, and `None` where the parse fails
/// or the attribute is missing.
#[verifier::external_body]
fn read_exif_field(image: &[u8], tag: u16, ifd: u16) -> (r: Option<String>)
    ensures
        opt_text(r) == exif_field_text(image@, tag, ifd),
{
    let parsed = exif::Reader::new().read_from_container(&mut std::io::Cursor::new(image));
    match parsed {
        Ok(found) => found.get_field(exif::Tag(exif::Context::Exif, tag), exif::In(ifd)).map(
            |field| field.value.display_as(field.tag).to_string(),
        ),
        Err(_) => None,
    }
}

/// Whether the character is a decimal digit.
fn digit_at(text: &str, at: usize) -> (b: bool)
    requires
        at < text@.len(),
    ensures
        b == is_digit(text@[at as int]),
{
    let c = text.get_char(at);
    '0' <= c && c <= '9'
}

/// The number written by the two digits at `at` and after it.
fn number_at(text: &str, at: usize) -> (n: u32)
    requires
        at < usize::MAX,
        at + 1 < text@.len(),
        is_digit(text@[at as int]),
        is_digit(text@[at + 1]),
    ensures
        n == two_digits(text@, at as int),
        n <= 99,
{
    let tens = text.get_char(at) as u32 - '0' as u32;
    let ones = text.get_char(at + 1) as u32 - '0' as u32;
    10 * tens + ones
}

/// Whether a text is a day, written as `YYYY-MM-DD`.
pub fn is_day(text: &str) -> (b: bool)
    ensures
        b == is_day_text(text@),
{
    if text.unicode_len() != 10 {
        return false;
    }
    if text.get_char(4) != '-' || text.get_char(7) != '-' {
        return false;
    }
    if !(digit_at(text, 0) && digit_at(text, 1) && digit_at(text, 2) && digit_at(text, 3)) {
        return false;
    }
    if !(digit_at(text, 5) && digit_at(text, 6) && digit_at(text, 8) && digit_at(text, 9)) {
        return false;
    }
    let month = number_at(text, 5);
    let day = number_at(text, 8);
    1 <= month && month <= 12 && 1 <= day && day <= 31
}

/// The day of a time stamp as the metadata of an image displays it: its
/// first ten characters where the text is such a time stamp, else none.
pub fn stamp_day(stamp: &str) -> (r: Option<String>)
    ensures
        opt_text(r) == day_of_stamp(stamp@),
{
    if stamp.unicode_len() != 19 {
        return None;
    }
    let day = stamp.substring_char(0, 10);
    assert(day@ == stamp@.take(10));
    if !is_day(day) {
        return None;
    }
    if stamp.get_char(10) != ' ' || stamp.get_char(13) != ':' || stamp.get_char(16) != ':' {
        return None;
    }
    if !(digit_at(stamp, 11) && digit_at(stamp, 12) && digit_at(stamp, 14) && digit_at(stamp, 15)
        && digit_at(stamp, 17) && digit_at(stamp, 18)) {
        return None;
    }
    Some(day.to_owned())
}

/// The day of capture embedded in an image: none where the image has no
/// time of capture, or one that cannot be read as a time.
pub fn exif_date(image: &[u8]) -> (r: Option<String>)
    ensures
        opt_text(r) == embedded_date(image@),
        r matches Some(day) ==> is_day_text(day@),
{
    match read_exif_field(image, DATE_TIME_ORIGINAL, PRIMARY_IMAGE) {
        Some(text) => stamp_day(text.as_str()),
        None => None,
    }
}

/// A time given as a distance from the Unix epoch, after it or before it, as
/// seconds since the epoch, rounded down, and the nanoseconds above them.
pub fn since_epoch(before: bool, secs: u64, nanos: u32) -> (r: Option<(i64, u32)>)
    ensures
        r == epoch_time(before, secs, nanos),
{
    if secs > i64::MAX as u64 || nanos >= 1_000_000_000 {
        None
    } else if !before {
        Some((secs as i64, nanos))
    } else if nanos == 0 {
        Some((-(secs as i64), 0))
    } else {
        Some((-(secs as i64) - 1, 1_000_000_000 - nanos))
    }
}

/// The number of days from the first day of the year 0 to the given day.
fn day_index(year: u64, month: u64, day: u64) -> (index: u64)
    requires
        year <= LAST_YEAR + 1,
        1 <= month <= 12,
        1 <= day <= 31,
    ensures
        index == days_from_civil(year as int, month as int, day as int) + EPOCH_DAY,
{
    // Years are counted from March, and from four hundred years before the
    // year 0, so that no count is negative.
    proof {
        lemma_four_centuries(year as int, month as int, day as int);
    }
    let shifted = if month <= 2 {
        year + 399
    } else {
        year + 400
    };
    let era = shifted / 400;
    let year_of_era = shifted - 400 * era;
    let month_from_march = if month > 2 {
        month - 3
    } else {
        month + 9
    };
    let day_of_year = (153 * month_from_march + 2) / 5 + day - 1;
    let day_of_era = 365 * year_of_era + year_of_era / 4 - year_of_era / 100 + day_of_year;
    assert(146_097 * era + day_of_era - 719_468 == days_from_civil(
        year + 400,
        month as int,
        day as int,
    ));
    146_097 * era + day_of_era + 60 - 146_097
}

/// The text of a number below ten.
fn digit_str(d: u64) -> (r: &'static str)
    requires
        d <= 9,
    ensures
        r@ == seq![digit_char(d as int)],
{
    proof {
        reveal_strlit("0");
        reveal_strlit("1");
        reveal_strlit("2");
        reveal_strlit("3");
        reveal_strlit("4");
        reveal_strlit("5");
        reveal_strlit("6");
        reveal_strlit("7");
        reveal_strlit("8");
        reveal_strlit("9");
    }
    let r = if d == 0 {
        "0"
    } else if d == 1 {
        "1"
    } else if d == 2 {
        "2"
    } else if d == 3 {
        "3"
    } else if d == 4 {
        "4"
    } else if d == 5 {
        "5"
    } else if d == 6 {
        "6"
    } else if d == 7 {
        "7"
    } else if d == 8 {
        "8"
    } else {
        "9"
    };
    assert(r@ =~= seq![digit_char(d as int)]);
    r
}

/// Appends a number below a hundred, written with two digits.
fn push_two(out: &mut String, n: u64)
    requires
        n <= 99,
    ensures
        final(out)@ == old(out)@ + two_text(n as int),
{
    out.append(digit_str(n / 10));
    out.append(digit_str(n % 10));
    assert(out@ =~= old(out)@ + two_text(n as int));
}

/// Writes a day as `YYYY-MM-DD`.
fn write_day(year: u64, month: u64, day: u64) -> (r: String)
    requires
        year <= LAST_YEAR,
        1 <= month <= 12,
        1 <= day <= 31,
    ensures
        r@ == day_text(year as int, month as int, day as int),
{
    proof {
        reveal_strlit("-");
    }
    let mut text = String::new();
    push_two(&mut text, year / 100);
    push_two(&mut text, year % 100);
    text.append("-");
    push_two(&mut text, month);
    text.append("-");
    push_two(&mut text, day);
    assert("-"@ =~= seq!['-']);
    assert(text@ =~= day_text(year as int, month as int, day as int));
    text
}

/// The local day of an instant `secs` seconds after the Unix epoch, in a
/// zone whose clocks are `offset` seconds ahead of UTC: the day of the
/// calendar on which the instant falls there. `None` where that day lies
/// outside of the years 0 to 9999.
pub fn stat_date(secs: i64, offset: i32) -> (r: Option<String>)
    ensures
        match r {
            Some(day) => {
                &&& day_in_reach(local_day_number(secs, offset))
                &&& is_calendar_day(day@)
                &&& day_number(day@) == local_day_number(secs, offset)
            },
            None => !day_in_reach(local_day_number(secs, offset)),
        },
{
    if secs < -70_000_000_000 || secs > 260_000_000_000 {
        return None;
    }
    let shifted = secs + offset as i64 + 62_167_219_200;
    if shifted < 0 {
        return None;
    }
    let index = (shifted / DAY_SECONDS) as u64;
    assert(index == local_day_number(secs, offset) + EPOCH_DAY);
    if index >= day_index(LAST_YEAR + 1, 1, 1) {
        return None;
    }
    // The year is the one whose first day is the last not after the day.
    let mut year: u64 = 0;
    let mut beyond: u64 = LAST_YEAR + 1;
    while beyond - year > 1
        invariant
            year < beyond <= LAST_YEAR + 1,
            days_from_civil(year as int, 1, 1) + EPOCH_DAY <= index,
            index < days_from_civil(beyond as int, 1, 1) + EPOCH_DAY,
        decreases beyond - year,
    {
        let middle = year + (beyond - year) / 2;
        if day_index(middle, 1, 1) <= index {
            year = middle;
        } else {
            beyond = middle;
        }
    }
    // The month likewise.
    let mut month: u64 = 1;
    while month < 12 && day_index(year, month + 1, 1) <= index
        invariant
            year <= LAST_YEAR,
            1 <= month <= 12,
            days_from_civil(year as int, month as int, 1) + EPOCH_DAY <= index,
        decreases 12 - month,
    {
        month = month + 1;
    }
    let first = day_index(year, month, 1);
    proof {
        lemma_month_length(year as int, month as int);
        assert(index < month_end(year as int, month as int) + EPOCH_DAY);
    }
    let day = index - first + 1;
    proof {
        lemma_day_text_reads_back(year as int, month as int, day as int);
    }
    Some(write_day(year, month, day))
}

/// The first of the two dates that is there: the embedded one, else the
/// creation date, else none.
pub fn resolve_date(embedded: Option<String>, created: Option<String>) -> (r: Option<String>)
    ensures
        r == (match embedded {
            Some(date) => Some(date),
            None => created,
        }),
{
    match embedded {
        Some(date) => Some(date),
        None => created,
    }
}

/// The date hint of a file: the embedded day of capture where the image has
/// one, whatever the creation date is; else the creation date where it is a
/// day; else none.
pub fn file_date(image: &[u8], created: Option<String>) -> (r: Option<String>)
    ensures
        opt_text(r) == date_hint(image@, opt_text(created)),
        r matches Some(day) ==> is_day_text(day@),
{
    let created = match created {
        Some(day) => if is_day(day.as_str()) {
            Some(day)
        } else {
            None
        },
        None => None,
    };
    resolve_date(exif_date(image), created)
}

} // verus!

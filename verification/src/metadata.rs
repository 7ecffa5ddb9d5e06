//! Date sources beyond the path layout: the image's embedded metadata
//! (an EXIF `DateTime` field) and a wall-clock timestamp.

use vstd::prelude::*;

use crate::date::{date_new_spec, Date, DateError};

use chrono::Datelike;

verus! {

/// What the metadata parser finds in an image file: the first ASCII
/// value of the primary `DateTime` field, or which precondition
/// failed — `BadContainer` when the container does not parse,
/// `MissingDateTimeField` when the field is absent,
/// `NotAscii` when it is not ASCII-encoded, and
/// `EmptyDateTime` when it carries no value. A function of the file
/// bytes alone.
pub uninterp spec fn exif_datetime_result(contents: Seq<u8>) -> Result<Seq<u8>, DateError>;

/// Relies on `exif::Reader::read_from_container` and
/// `exif::Exif::get_field`: hands out the primary `DateTime` field's
/// first ASCII value, which depends on the file bytes alone; on
/// failure, the cause, one arm per finding of the metadata parser, as
/// `exif_datetime_result` states it.
#[verifier::external_body]
fn read_exif_datetime(contents: &Vec<u8>) -> (r: Result<Vec<u8>, DateError>)
    ensures
        r is Ok <==> exif_datetime_result(contents@) is Ok,
        r is Ok ==> r.unwrap()@ == exif_datetime_result(contents@)->Ok_0,
        r is Err ==> r->Err_0 == exif_datetime_result(contents@)->Err_0,
        r is Err ==> (r->Err_0 == DateError::BadContainer || r->Err_0
            == DateError::MissingDateTimeField || r->Err_0 == DateError::NotAscii || r->Err_0
            == DateError::EmptyDateTime),
{
    let mut reader = std::io::BufReader::new(std::io::Cursor::new(contents.as_slice()));
    let parsed = exif::Reader::new().read_from_container(&mut reader).map_err(
        |_| DateError::BadContainer,
    )?;
    let field = parsed.get_field(exif::Tag::DateTime, exif::In::PRIMARY).ok_or(
        DateError::MissingDateTimeField,
    )?;
    match &field.value {
        exif::Value::Ascii(v) => v.first().cloned().ok_or(DateError::EmptyDateTime),
        _ => Err(DateError::NotAscii),
    }
}

pub open spec fn is_digit_byte(b: u8) -> bool {
    48 <= b <= 57
}

pub open spec fn digit_byte_val(b: u8) -> int {
    b - 48
}

/// Reading year and month out of an EXIF `DateTime` ASCII value of the
/// shape `YYYY:MM:DD HH:MM:SS`: all six fields must be digits with the
/// delimiters in place.
pub open spec fn exif_datetime_parse_spec(b: Seq<u8>) -> Result<(u16, u8), DateError> {
    if b.len() < 19 {
        Err(DateError::BadDateTimeFormat)
    } else if !(b[4] == 58 && b[7] == 58 && b[10] == 32 && b[13] == 58 && b[16] == 58) {
        Err(DateError::BadDateTimeFormat)
    } else if !(is_digit_byte(b[0]) && is_digit_byte(b[1]) && is_digit_byte(b[2]) && is_digit_byte(
        b[3],
    ) && is_digit_byte(b[5]) && is_digit_byte(b[6]) && is_digit_byte(b[8]) && is_digit_byte(b[9])
        && is_digit_byte(b[11]) && is_digit_byte(b[12]) && is_digit_byte(b[14]) && is_digit_byte(
        b[15],
    ) && is_digit_byte(b[17]) && is_digit_byte(b[18])) {
        Err(DateError::BadDateTimeFormat)
    } else {
        Ok(
            (
                (digit_byte_val(b[0]) * 1000 + digit_byte_val(b[1]) * 100 + digit_byte_val(b[2])
                    * 10 + digit_byte_val(b[3])) as u16,
                (digit_byte_val(b[5]) * 10 + digit_byte_val(b[6])) as u8,
            ),
        )
    }
}

/// Read year and month from an EXIF `DateTime` ASCII value.
pub fn parse_exif_datetime(b: &Vec<u8>) -> (r: Result<(u16, u8), DateError>)
    ensures
        r == exif_datetime_parse_spec(b@),
{
    if b.len() < 19 {
        return Err(DateError::BadDateTimeFormat);
    }
    if !(b[4] == 58 && b[7] == 58 && b[10] == 32 && b[13] == 58 && b[16] == 58) {
        return Err(DateError::BadDateTimeFormat);
    }
    let all_digits: bool = digit(b[0]) && digit(b[1]) && digit(b[2]) && digit(b[3]) && digit(b[5])
        && digit(b[6]) && digit(b[8]) && digit(b[9]) && digit(b[11]) && digit(b[12]) && digit(
        b[14],
    ) && digit(b[15]) && digit(b[17]) && digit(b[18]);
    if !all_digits {
        return Err(DateError::BadDateTimeFormat);
    }
    let year: u16 = (b[0] - 48) as u16 * 1000 + (b[1] - 48) as u16 * 100 + (b[2] - 48) as u16 * 10
        + (b[3] - 48) as u16;
    let month: u8 = (b[5] - 48) * 10 + (b[6] - 48);
    Ok((year, month))
}

/// Whether a byte is an ASCII decimal digit.
fn digit(b: u8) -> (r: bool)
    ensures
        r == is_digit_byte(b),
{
    48 <= b && b <= 57
}

/// The date an image file's metadata assigns to it, for any file
/// bytes, each failure named for its cause: the metadata parser's own
/// finding, or the `DateTime` value's defect, or the invalid date.
pub open spec fn exif_date_spec(contents: Seq<u8>, r: Result<Date, DateError>) -> bool {
    r == match exif_datetime_result(contents) {
        Err(e) => Err::<Date, DateError>(e),
        Ok(ascii) => match exif_datetime_parse_spec(ascii) {
            Err(e) => Err::<Date, DateError>(e),
            Ok((y, m)) => date_new_spec(y as int, m as int),
        },
    }
}

/// Derive the date from an image file's bytes without taking them over.
pub fn exif_date(contents: &Vec<u8>) -> (r: Result<Date, DateError>)
    ensures
        exif_date_spec(contents@, r),
{
    let ascii = match read_exif_datetime(contents) {
        Ok(a) => a,
        Err(e) => {
            return Err(e);
        },
    };
    let (y, m) = match parse_exif_datetime(&ascii) {
        Ok(p) => p,
        Err(e) => {
            return Err(e);
        },
    };
    Date::new(y as i64, m as u32)
}

impl Date {
    /// Derive the date from an image file's embedded metadata.
    pub fn from_file_exif(contents: Vec<u8>) -> (r: Result<Self, DateError>)
        ensures
            exif_date_spec(contents@, r),
    {
        exif_date(&contents)
    }

    /// Derive the date from a wall-clock instant, in UTC.
    pub fn from_timestamp(seconds: i64, nanos: u32) -> (r: Result<Self, DateError>)
        ensures
            r == match civil_year_month(seconds, nanos) {
                None => Err::<Date, DateError>(DateError::BadTimestamp),
                Some((y, m)) => date_new_spec(y as int, m as int),
            },
    {
        match timestamp_year_month(seconds, nanos) {
            None => Err(DateError::BadTimestamp),
            Some((y, m)) => Self::new(y, m),
        }
    }
}

/// The UTC calendar year and month of a Unix instant, where one exists.
/// A function of the instant alone.
pub uninterp spec fn civil_year_month(seconds: i64, nanos: u32) -> Option<(i64, u32)>;

/// Relies on `chrono::DateTime::from_timestamp` with `Datelike::year`
/// and `Datelike::month`: the UTC calendar year and month of a Unix
/// instant, `None` when out of the representable range; the month is
/// documented to lie in [1, 12].
#[verifier::external_body]
fn timestamp_year_month(seconds: i64, nanos: u32) -> (r: Option<(i64, u32)>)
    ensures
        r == civil_year_month(seconds, nanos),
        r is Some ==> 1 <= r.unwrap().1 <= 12,
{
    chrono::DateTime::from_timestamp(seconds, nanos).map(|d| (d.year() as i64, d.month()))
}

} // verus!

//! Calendar dates, parsed by `chrono`, and the paths and addresses that are
//! derived from them.

use crate::text::{
    before_first, chars_of, index_of_first, push_signed_decimal, push_two_digits,
    signed_decimal_text, text_of_range, two_digit_text,
};
use chrono::Datelike;
use vstd::prelude::*;

verus! {

/// A day of the calendar.
#[derive(Clone, Copy, Debug, PartialEq, Eq, Structural)]
pub struct CalendarDate {
    pub year: i32,
    pub month: u32,
    pub day: u32,
}

impl CalendarDate {
    /// The month is one of the twelve and the day lies in 1 to 31.
    pub open spec fn wf(self) -> bool {
        1 <= self.month <= 12 && 1 <= self.day <= 31
    }
}

/// The date that `chrono` reads from `text` under `format`, or `None` where
/// it reads none.
pub uninterp spec fn parsed_date(text: Seq<char>, format: Seq<char>) -> Option<CalendarDate>;

/// `chrono::NaiveDate::parse_from_str`, with year, month and day of the date
/// that it gives: the result depends on the text and the format alone, and a
/// date that was read has a month from 1 to 12 and a day from 1 to 31.
#[verifier::external_body]
pub(crate) fn parse_date(text: &str, format: &str) -> (r: Option<CalendarDate>)
    ensures
        r == parsed_date(text@, format@),
        r matches Some(date) ==> date.wf(),
{
    match chrono::NaiveDate::parse_from_str(text, format) {
        Ok(date) => Some(CalendarDate { year: date.year(), month: date.month(), day: date.day() }),
        Err(_) => None,
    }
}

/// `chrono::Local::now`, as a date: the day of the local clock. It has a
/// month from 1 to 12 and a day from 1 to 31; nothing else is known of it.
#[verifier::external_body]
pub(crate) fn today() -> (r: CalendarDate)
    ensures
        r.wf(),
{
    let date = chrono::Local::now().date_naive();
    CalendarDate { year: date.year(), month: date.month(), day: date.day() }
}

/// The date of a post, read from `YYYY-MM-DD`.
pub open spec fn post_date(text: Seq<char>) -> Option<CalendarDate> {
    parsed_date(text, "%Y-%m-%d"@)
}

/// The date that a file name starts with: what stands before its first
/// underscore, read as `YYYYMMDD`.
pub open spec fn file_name_date(file_name: Seq<char>) -> Option<CalendarDate> {
    parsed_date(before_first(file_name, '_'), "%Y%m%d"@)
}

/// The date under which an image is stored: the date in its file name; if
/// there is none, the date of the record; if that cannot be read, `today`.
pub open spec fn upload_date(
    file_name: Seq<char>,
    record_date: Seq<char>,
    today: CalendarDate,
) -> CalendarDate {
    match file_name_date(file_name) {
        Some(date) => date,
        None => match post_date(record_date) {
            Some(date) => date,
            None => today,
        },
    }
}

/// Year and month as they stand in a path: the year, a slash and the month in
/// two digits.
pub open spec fn year_month_text(date: CalendarDate) -> Seq<char> {
    signed_decimal_text(date.year as int) + "/"@ + two_digit_text(date.month as nat)
}

/// The key of an image in object storage.
pub open spec fn storage_path_text(date: CalendarDate, file_name: Seq<char>) -> Seq<char> {
    "images/"@ + year_month_text(date) + "/"@ + file_name
}

/// The public address of a stored image.
pub open spec fn image_url_text(path: Seq<char>) -> Seq<char> {
    "https://kyrremann-plog.s3.nl-ams.scw.cloud/"@ + path
}

/// The path of a post in the content repository.
pub open spec fn post_path_text(date: Seq<char>, slug: Seq<char>) -> Seq<char> {
    "_posts/"@ + date + "-"@ + slug + ".md"@
}

/// The public address of a post.
pub open spec fn post_url_text(date: CalendarDate, slug: Seq<char>) -> Seq<char> {
    "https://kyrremann.no/plog/"@ + year_month_text(date) + "/"@ + slug
}

/// Reads the date of a post from `YYYY-MM-DD`.
pub fn parse_post_date(text: &str) -> (r: Option<CalendarDate>)
    ensures
        r == post_date(text@),
        r matches Some(date) ==> date.wf(),
{
    parse_date(text, "%Y-%m-%d")
}

/// Reads the date that a file name starts with.
pub fn parse_file_name_date(file_name: &str) -> (r: Option<CalendarDate>)
    ensures
        r == file_name_date(file_name@),
        r matches Some(date) ==> date.wf(),
{
    let chars = chars_of(file_name);
    let n = index_of_first(&chars, '_');
    let head = text_of_range(&chars, 0, n);
    proof {
        assert(chars@.take(n as int) == chars@.subrange(0, n as int));
    }
    parse_date(head.as_str(), "%Y%m%d")
}

/// The date under which an image is stored, where `today` is the current
/// day.
pub fn upload_date_on(file_name: &str, record_date: &str, today: CalendarDate) -> (r: CalendarDate)
    ensures
        r == upload_date(file_name@, record_date@, today),
{
    match parse_file_name_date(file_name) {
        Some(date) => date,
        None => match parse_post_date(record_date) {
            Some(date) => date,
            None => today,
        },
    }
}

/// The date under which an image is stored. The current day is read from
/// the clock only where neither the file name nor the record gives a date;
/// of that day nothing is known but that it is a date.
pub fn upload_date_now(file_name: &str, record_date: &str) -> (r: CalendarDate)
    ensures
        match file_name_date(file_name@) {
            Some(date) => r == date,
            None => match post_date(record_date@) {
                Some(date) => r == date,
                None => r.wf(),
            },
        },
{
    match parse_file_name_date(file_name) {
        Some(date) => date,
        None => match parse_post_date(record_date) {
            Some(date) => date,
            None => today(),
        },
    }
}

fn push_year_month(out: &mut String, date: CalendarDate)
    ensures
        final(out)@ == old(out)@ + year_month_text(date),
{
    push_signed_decimal(out, date.year);
    out.append("/");
    push_two_digits(out, date.month);
    proof {
        assert(old(out)@ + signed_decimal_text(date.year as int) + "/"@ + two_digit_text(
            date.month as nat,
        ) == old(out)@ + year_month_text(date));
    }
}

/// The key of an image in object storage: `images/`, year and month of the
/// date, and the file name.
pub fn storage_path(date: CalendarDate, file_name: &str) -> (r: String)
    ensures
        r@ == storage_path_text(date, file_name@),
{
    let mut out = "images/".to_string();
    push_year_month(&mut out, date);
    out.append("/");
    out.append(file_name);
    out
}

/// The public address of the image stored under `path`.
pub fn image_url(path: &str) -> (r: String)
    ensures
        r@ == image_url_text(path@),
{
    let mut out = "https://kyrremann-plog.s3.nl-ams.scw.cloud/".to_string();
    out.append(path);
    out
}

/// The path of a post in the content repository: `_posts/`, the date as it
/// was given, a hyphen, the slug and `.md`.
pub fn post_path(date: &str, slug: &str) -> (r: String)
    ensures
        r@ == post_path_text(date@, slug@),
{
    let mut out = "_posts/".to_string();
    out.append(date);
    out.append("-");
    out.append(slug);
    out.append(".md");
    out
}

/// The public address of a post: the site, year and month of the date, and
/// the slug.
pub fn post_url(date: CalendarDate, slug: &str) -> (r: String)
    ensures
        r@ == post_url_text(date, slug@),
{
    let mut out = "https://kyrremann.no/plog/".to_string();
    push_year_month(&mut out, date);
    out.append("/");
    out.append(slug);
    out
}

} // verus!

use vstd::prelude::*;

use chrono::{Datelike, NaiveDate};

use crate::timestamp::{all_digits, decimal};

verus! {

/// The artwork of a catalog item: a URL template with `{w}`, `{h}`, `{f}`
/// and `{c}` placeholders, and the largest size offered.
#[derive(Debug, Clone, PartialEq, Eq)]
pub struct AppleMusicArtwork {
    pub url: String,
    pub width: u64,
    pub height: u64,
}

/// The attributes of a song in the catalog.
#[derive(Debug, Clone, PartialEq, Eq)]
pub struct SongAttributes {
    pub album_name: String,
    pub artist_name: String,
    pub artist_url: String,
    pub artwork: AppleMusicArtwork,
    pub audio_locale: String,
    pub composer_name: Option<String>,
    pub disc_number: i32,
    pub duration_in_millis: u64,
    pub genre_names: Vec<String>,
    pub has_lyrics: bool,
    pub has_time_synced_lyrics: bool,
    pub isrc: String,
    pub name: String,
    /// A year alone, or a date `YYYY-MM-DD`.
    pub release_date: Option<String>,
    pub track_number: i32,
    pub url: String,
}

/// The attributes of an artist in the catalog.
#[derive(Debug, Clone, PartialEq, Eq)]
pub struct ArtistAttributes {
    pub url: String,
    pub name: String,
}

/// The attributes of an album in the catalog.
#[derive(Debug, Clone, PartialEq, Eq)]
pub struct AlbumAttributes {
    pub url: Option<String>,
    /// A year alone, or a date `YYYY-MM-DD`.
    pub release_date: Option<String>,
    pub name: String,
    pub artist_name: String,
    pub artist_url: Option<String>,
    pub artwork: AppleMusicArtwork,
    pub record_label: Option<String>,
    pub track_count: u16,
    pub upc: String,
}

/// A calendar date.
#[derive(Debug, Clone, Copy, PartialEq, Eq)]
pub struct CalendarDate {
    pub year: i32,
    pub month: u32,
    pub day: u32,
}

/// `s` with every match of `from` replaced by `to`, matches taken left to
/// right without overlap.
pub open spec fn replaced(s: Seq<char>, from: Seq<char>, to: Seq<char>) -> Seq<char>
    decreases s.len(),
{
    if from.len() == 0 || s.len() < from.len() {
        s
    } else if s.take(from.len() as int) == from {
        to + replaced(s.skip(from.len() as int), from, to)
    } else {
        seq![s[0]] + replaced(s.skip(1), from, to)
    }
}

pub open spec fn digit_char(d: int) -> char {
    seq!['0', '1', '2', '3', '4', '5', '6', '7', '8', '9'][d]
}

/// The decimal digits of `n`, without leading zeros.
pub open spec fn decimal_text(n: nat) -> Seq<char>
    decreases n,
{
    if n < 10 {
        seq![digit_char(n as int)]
    } else {
        decimal_text(n / 10).push(digit_char((n % 10) as int))
    }
}

/// The integer written by `s`: an optional sign, then one or more digits.
pub open spec fn integer_text(s: Seq<char>) -> Option<int> {
    if s.len() > 1 && s[0] == '-' && all_digits(s.skip(1)) {
        Some(-decimal(s.skip(1)))
    } else if s.len() > 1 && s[0] == '+' && all_digits(s.skip(1)) {
        Some(decimal(s.skip(1)))
    } else if s.len() > 0 && all_digits(s) {
        Some(decimal(s))
    } else {
        None
    }
}

/// The date that chrono reads from `s` in the format `%Y-%m-%d`.
pub uninterp spec fn iso_date(s: Seq<char>) -> Option<(i32, u32, u32)>;

/// Relies on `str::replace`: every match of `from`, left to right and
/// without overlap, replaced by `to`.
#[verifier::external_body]
fn replace_all(s: &str, from: &str, to: &str) -> (r: String)
    requires
        from@.len() > 0,
    ensures
        r@ == replaced(s@, from@, to@),
{
    s.replace(from, to)
}

/// Relies on `u64::to_string`: the decimal digits of `n`.
#[verifier::external_body]
fn u64_text(n: u64) -> (r: String)
    ensures
        r@ == decimal_text(n as nat),
{
    n.to_string()
}

/// Relies on `str::parse::<i16>`: an optional sign and decimal digits whose
/// value fits in an `i16`.
#[verifier::external_body]
fn parse_i16(s: &str) -> (r: Option<i16>)
    ensures
        r == (match integer_text(s@) {
            Some(v) => if i16::MIN <= v <= i16::MAX {
                Some(v as i16)
            } else {
                None
            },
            None => None,
        }),
{
    s.parse::<i16>().ok()
}

/// Relies on chrono's `NaiveDate::parse_from_str` with the format `%Y-%m-%d`:
/// a valid date, or `None`.
#[verifier::external_body]
fn parse_iso_date(s: &str) -> (r: Option<CalendarDate>)
    ensures
        r == (match iso_date(s@) {
            Some((y, m, d)) => Some(CalendarDate { year: y, month: m, day: d }),
            None => None,
        }),
        r matches Some(d) ==> 1 <= d.month <= 12 && 1 <= d.day <= 31,
{
    match NaiveDate::parse_from_str(s, "%Y-%m-%d") {
        Ok(d) => Some(CalendarDate { year: d.year(), month: d.month(), day: d.day() }),
        Err(_) => None,
    }
}

/// The URL that an artwork template stands for at the given size, as PNG.
pub open spec fn artwork_link(url: Seq<char>, width: u64, height: u64) -> Seq<char> {
    replaced(
        replaced(
            replaced(replaced(url, "{w}"@, decimal_text(width as nat)), "{h}"@, decimal_text(height as nat)),
            "{f}"@,
            "png"@,
        ),
        "{c}"@,
        Seq::empty(),
    )
}

/// The artwork's URL at its full size, as PNG: `{w}` and `{h}` become the
/// width and height, `{f}` becomes `png`, and `{c}` is dropped.
pub fn artwork_url(artwork: &AppleMusicArtwork) -> (r: String)
    ensures
        r@ == artwork_link(artwork.url@, artwork.width, artwork.height),
{
    proof {
        reveal_strlit("{w}");
        reveal_strlit("{h}");
        reveal_strlit("{f}");
        reveal_strlit("{c}");
        reveal_strlit("");
    }
    let w = u64_text(artwork.width);
    let h = u64_text(artwork.height);
    let a = replace_all(artwork.url.as_str(), "{w}", w.as_str());
    let b = replace_all(a.as_str(), "{h}", h.as_str());
    let c = replace_all(b.as_str(), "{f}", "png");
    let r = replace_all(c.as_str(), "{c}", "");
    assert(""@ =~= Seq::<char>::empty());
    r
}

/// The release year and release date that a catalog release date gives: a
/// text of four characters is a year alone, anything else is read as a date
/// `YYYY-MM-DD`.
pub fn release_fields(release_date: &Option<String>) -> (r: (Option<i16>, Option<CalendarDate>))
    ensures
        match release_date {
            None => r == (None::<i16>, None::<CalendarDate>),
            Some(s) => if s@.len() == 4 {
                r.1 is None && r.0 == (match integer_text(s@) {
                    Some(v) => if i16::MIN <= v <= i16::MAX {
                        Some(v as i16)
                    } else {
                        None
                    },
                    None => None,
                })
            } else {
                r.0 is None && r.1 == (match iso_date(s@) {
                    Some((y, m, d)) => Some(CalendarDate { year: y, month: m, day: d }),
                    None => None,
                })
            },
        },
{
    match release_date {
        None => (None, None),
        Some(s) => {
            if s.as_str().unicode_len() == 4 {
                (parse_i16(s.as_str()), None)
            } else {
                (None, parse_iso_date(s.as_str()))
            }
        },
    }
}

} // verus!

use vstd::prelude::*;

use crate::error::{view_result, DecodeError, ParseError};
use time::format_description::well_known::Rfc3339;

use crate::value::Value;

verus! {

/// The instant (nanoseconds since the Unix epoch) and the UTC offset (in
/// seconds) of an RFC 3339 timestamp, or `None` where the text is none.
pub uninterp spec fn rfc3339_instant(s: Seq<char>) -> Option<(int, int)>;

#[verifier::external_type_specification]
#[verifier::external_body]
pub struct ExTimeParse(time::error::Parse);

/// The RFC 3339 text that time's formatter writes for the timestamp at
/// instant `n` (nanoseconds since the Unix epoch) with UTC offset `o` (in
/// seconds), or `None` where it writes none.
pub uninterp spec fn rfc3339_text(n: int, o: int) -> Option<Seq<char>>;

/// Relies on `time::OffsetDateTime::parse` with the `Rfc3339` description,
/// whose result is read by `unix_timestamp_nanos` and `offset().whole_seconds()`
/// and written back by `OffsetDateTime::format` with `Rfc3339`. A parsed value
/// is fixed by its instant and offset, so the text depends on those alone.
#[verifier::external_body]
fn parse_rfc3339(s: &str) -> (r: Result<(i128, i32, Option<String>), time::error::Parse>)
    ensures
        match r {
            Ok((n, o, t)) => {
                &&& rfc3339_instant(s@) == Some((n as int, o as int))
                &&& match t {
                    Some(t) => rfc3339_text(n as int, o as int) == Some(t@),
                    None => rfc3339_text(n as int, o as int) is None,
                }
            },
            Err(_) => rfc3339_instant(s@) is None,
        },
{
    match time::OffsetDateTime::parse(s, &Rfc3339) {
        Ok(d) => Ok((d.unix_timestamp_nanos(), d.offset().whole_seconds(), d.format(&Rfc3339).ok())),
        Err(e) => Err(e),
    }
}

/// What a timestamp holds: the instant in nanoseconds since the Unix epoch,
/// and the UTC offset in seconds.
pub type DateView = (int, int);

/// The timestamp that an RFC 3339 text stands for; it must carry an offset,
/// and be one that can be written back.
pub open spec fn date_of_text(s: Seq<char>) -> Result<DateView, ParseError> {
    match rfc3339_instant(s) {
        Some(p) => if rfc3339_text(p.0, p.1) is Some {
            Ok(p)
        } else {
            Err(ParseError::Format)
        },
        None => Err(ParseError::Format),
    }
}

/// Whether entry `e` is the field `key` with the RFC 3339 text of `d`.
pub open spec fn date_entry(e: (String, Value), key: Seq<char>, d: DateView) -> bool {
    &&& e.0@ == key
    &&& e.1 matches Value::Text(t) && rfc3339_text(d.0, d.1) == Some(t@)
}

/// The timestamp of a field value, which is RFC 3339 text.
pub open spec fn date_of_value(v: Value) -> Result<DateView, DecodeError> {
    match v {
        Value::Text(t) => match date_of_text(t@) {
            Ok(d) => Ok(d),
            Err(e) => Err(DecodeError::Scalar(e)),
        },
        _ => Err(DecodeError::InvalidType),
    }
}

/// A timestamp with an explicit UTC offset, kept with the RFC 3339 text that
/// is written for it. Two timestamps are equal when their instants and offsets
/// are, however they were written, and are then written alike.
#[derive(Debug)]
pub struct Date {
    text: String,
    unix_nanos: i128,
    offset_seconds: i32,
}

impl View for Date {
    type V = DateView;

    closed spec fn view(&self) -> DateView {
        (self.unix_nanos as int, self.offset_seconds as int)
    }
}

impl Date {
    /// The text is the one written for the instant and offset held beside it.
    #[verifier::type_invariant]
    closed spec fn text_agrees(&self) -> bool {
        rfc3339_text(self.unix_nanos as int, self.offset_seconds as int) == Some(self.text@)
    }

    /// The timestamp of an RFC 3339 text with its offset; `Format` for any
    /// other text.
    pub fn parse(s: &str) -> (r: Result<Date, ParseError>)
        ensures
            view_result(r) == date_of_text(s@),
    {
        match parse_rfc3339(s) {
            Ok((unix_nanos, offset_seconds, Some(text))) => Ok(
                Date { text, unix_nanos, offset_seconds },
            ),
            _ => Err(ParseError::Format),
        }
    }

    /// The RFC 3339 text written for the timestamp.
    pub closed spec fn as_text(&self) -> Seq<char> {
        self.text@
    }

    /// The RFC 3339 text written for the timestamp: the same for equal
    /// timestamps.
    pub fn as_str(&self) -> (r: &str)
        ensures
            r@ == self.as_text(),
            rfc3339_text(self@.0, self@.1) == Some(r@),
    {
        proof {
            use_type_invariant(self);
        }
        self.text.as_str()
    }

    /// Nanoseconds since the Unix epoch.
    pub fn unix_nanos(&self) -> (r: i128)
        ensures
            r as int == self@.0,
    {
        self.unix_nanos
    }

    /// The UTC offset, in seconds.
    pub fn offset_seconds(&self) -> (r: i32)
        ensures
            r as int == self@.1,
    {
        self.offset_seconds
    }

    /// The timestamp of a field value.
    pub fn decode_value(v: &Value) -> (r: Result<Date, DecodeError>)
        ensures
            view_result(r) == date_of_value(*v),
    {
        match v {
            Value::Text(t) => match Date::parse(t.as_str()) {
                Ok(d) => Ok(d),
                Err(e) => Err(DecodeError::Scalar(e)),
            },
            _ => Err(DecodeError::InvalidType),
        }
    }

    /// The wire value: the RFC 3339 text written for the timestamp.
    pub fn encode(&self) -> (r: Value)
        ensures
            r matches Value::Text(t) && t@ == self.as_text() && rfc3339_text(self@.0, self@.1) == Some(
                t@,
            ),
    {
        Value::Text(self.as_str().to_owned())
    }
}

impl PartialEq for Date {
    fn eq(&self, other: &Date) -> (r: bool) {
        self.unix_nanos == other.unix_nanos && self.offset_seconds == other.offset_seconds
    }
}

impl vstd::std_specs::cmp::PartialEqSpecImpl for Date {
    open spec fn obeys_eq_spec() -> bool {
        true
    }

    open spec fn eq_spec(&self, other: &Date) -> bool {
        self@ == other@
    }
}

impl Eq for Date {

}

impl std::str::FromStr for Date {
    type Err = ParseError;

    fn from_str(s: &str) -> (r: Result<Date, ParseError>)
        ensures
            view_result(r) == date_of_text(s@),
    {
        Date::parse(s)
    }
}

} // verus!

use vstd::prelude::*;
use vstd::utf8::encode_utf8;
use url::ParseError as UrlParseError;

use crate::error::{view_result, DecodeError, ParseError};
use crate::value::{field, lookup, Value};

verus! {

/// The WHATWG serialization of a URL, or `None` where the text is no URL.
pub uninterp spec fn whatwg_serialization(s: Seq<char>) -> Option<Seq<char>>;

#[verifier::external_type_specification]
#[verifier::external_body]
pub struct ExUrlParseError(UrlParseError);

/// Relies on `url::Url::parse`, which parses by the WHATWG URL standard, and
/// on `From<url::Url> for String`, which hands out the URL's serialization.
#[verifier::external_body]
fn whatwg_parse(s: &str) -> (r: Result<String, UrlParseError>)
    ensures
        match r {
            Ok(t) => whatwg_serialization(s@) == Some(t@),
            Err(_) => whatwg_serialization(s@) is None,
        },
{
    url::Url::parse(s).map(String::from)
}

/// The UTF-8 bytes of `https:`.
pub open spec fn https_prefix() -> Seq<u8> {
    seq![104u8, 116u8, 116u8, 112u8, 115u8, 58u8]
}

/// Whether a URL serialization has the scheme `https`: a serialization starts
/// with its scheme and a colon.
pub open spec fn has_https_scheme(t: Seq<char>) -> bool {
    let b = encode_utf8(t);
    b.len() >= 6 && b.subrange(0, 6) == https_prefix()
}

/// The locator that a text stands for: a URL, normalised by the WHATWG rules,
/// whose scheme is `https`.
pub open spec fn url_of_text(s: Seq<char>) -> Result<Seq<char>, ParseError> {
    match whatwg_serialization(s) {
        None => Err(ParseError::Format),
        Some(t) => if has_https_scheme(t) {
            Ok(t)
        } else {
            Err(ParseError::Scheme)
        },
    }
}

/// The UTF-8 bytes of `http:`.
pub open spec fn http_prefix() -> Seq<u8> {
    seq![104u8, 116u8, 116u8, 112u8, 58u8]
}

/// A URL whose scheme is `http` is refused with `Scheme`.
pub proof fn lemma_http_refused(s: Seq<char>)
    requires
        whatwg_serialization(s) matches Some(t) && encode_utf8(t).len() >= 5 && encode_utf8(
            t,
        ).subrange(0, 5) == http_prefix(),
    ensures
        url_of_text(s) == Err::<Seq<char>, _>(ParseError::Scheme),
{
    let b = encode_utf8(whatwg_serialization(s)->Some_0);
    assert(b.subrange(0, 5)[4] == b[4]);
    if b.len() >= 6 && b.subrange(0, 6) == https_prefix() {
        assert(b.subrange(0, 6)[4] == b[4]);
    }
}

/// The locator of a `url` field value, which is text.
pub open spec fn url_of_value(v: Value) -> Result<Seq<char>, DecodeError> {
    match v {
        Value::Text(s) => match url_of_text(s@) {
            Ok(t) => Ok(t),
            Err(e) => Err(DecodeError::Scalar(e)),
        },
        _ => Err(DecodeError::InvalidType),
    }
}

/// The locator of a field list holding `url`.
pub open spec fn url_of_fields(fields: Seq<(String, Value)>) -> Result<Seq<char>, DecodeError> {
    match lookup(fields, "url"@) {
        None => Err(DecodeError::MissingField),
        Some(v) => url_of_value(v),
    }
}

/// A locator of externally hosted content: an `https` URL, held in its
/// normalised serialization.
#[derive(Debug, Clone, PartialEq, Eq, Hash)]
pub struct Url {
    serialization: String,
}

impl View for Url {
    type V = Seq<char>;

    closed spec fn view(&self) -> Seq<char> {
        self.serialization@
    }
}

/// Whether the bytes start with `https:`.
fn starts_with_https(b: &[u8]) -> (r: bool)
    ensures
        r == (b@.len() >= 6 && b@.subrange(0, 6) == https_prefix()),
{
    if b.len() < 6 {
        return false;
    }
    let r = b[0] == 104u8 && b[1] == 116u8 && b[2] == 116u8 && b[3] == 112u8 && b[4] == 115u8
        && b[5] == 58u8;
    assert(r ==> b@.subrange(0, 6) =~= https_prefix());
    assert(b@.subrange(0, 6) == https_prefix() ==> b@.subrange(0, 6)[5] == 58u8);
    r
}

impl Url {
    /// The locator that a text stands for; `Format` where it is no URL,
    /// `Scheme` where its scheme is not `https`.
    pub fn parse(s: &str) -> (r: Result<Url, ParseError>)
        ensures
            view_result(r) == url_of_text(s@),
    {
        match whatwg_parse(s) {
            Err(_) => Err(ParseError::Format),
            Ok(t) => if starts_with_https(t.as_str().as_bytes()) {
                Ok(Url { serialization: t })
            } else {
                Err(ParseError::Scheme)
            },
        }
    }

    /// The normalised serialization.
    pub fn as_str(&self) -> (r: &str)
        ensures
            r@ == self@,
    {
        self.serialization.as_str()
    }

    /// The locator of a `url` field value.
    pub fn decode_value(v: &Value) -> (r: Result<Url, DecodeError>)
        ensures
            view_result(r) == url_of_value(*v),
    {
        match v {
            Value::Text(s) => match Url::parse(s.as_str()) {
                Ok(u) => Ok(u),
                Err(e) => Err(DecodeError::Scalar(e)),
            },
            _ => Err(DecodeError::InvalidType),
        }
    }

    /// The locator of a field list holding `url`.
    pub fn decode_fields(fields: &Vec<(String, Value)>) -> (r: Result<Url, DecodeError>)
        ensures
            view_result(r) == url_of_fields(fields@),
    {
        match field(fields, "url") {
            None => Err(DecodeError::MissingField),
            Some(v) => Url::decode_value(v),
        }
    }

    /// The wire form: `url` with the serialization.
    pub fn encode(&self) -> (r: Vec<(String, Value)>)
        ensures
            r@.len() == 1,
            r@[0].0@ == "url"@,
            r@[0].1 matches Value::Text(t) && t@ == self@,
    {
        let mut r: Vec<(String, Value)> = Vec::new();
        r.push(("url".to_owned(), Value::Text(self.serialization.clone())));
        r
    }
}

impl std::str::FromStr for Url {
    type Err = ParseError;

    fn from_str(s: &str) -> (r: Result<Url, ParseError>)
        ensures
            view_result(r) == url_of_text(s@),
    {
        Url::parse(s)
    }
}

} // verus!

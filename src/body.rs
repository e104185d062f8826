use vstd::prelude::*;
use vstd::utf8::encode_utf8;

use crate::base64url::{b64url_bytes, b64url_decode, b64url_encodable, b64url_encode, b64url_text};
use crate::error::{view_result, DecodeError};
use crate::value::{field, lemma_lookup_pair, lookup, text_is, Backend, Value};

verus! {

/// The semantic tag that marks a base64url binary body on the binary backend.
pub const BASE_64_URL_TAG: u64 = 21;

/// The encoding tag that travels beside an inline body.
#[derive(Debug, Clone, Copy, PartialEq, Eq, Hash, Structural)]
pub enum BodyEncoding {
    /// Binary payload, carried as unpadded base64url.
    Base64Url,
    /// Text, carried verbatim.
    Plain,
    /// Structured text; reserved and not implemented.
    Json,
}

impl BodyEncoding {
    /// The label on the wire.
    pub open spec fn spec_label(self) -> Seq<char> {
        match self {
            BodyEncoding::Base64Url => "base64url"@,
            BodyEncoding::Plain => "none"@,
            BodyEncoding::Json => "json"@,
        }
    }

    /// The label on the wire.
    pub fn label(&self) -> (r: &'static str)
        ensures
            r@ == self.spec_label(),
    {
        match self {
            BodyEncoding::Base64Url => "base64url",
            BodyEncoding::Plain => "none",
            BodyEncoding::Json => "json",
        }
    }

    /// The encoding that a label names.
    pub fn from_label(s: &str) -> (r: Option<BodyEncoding>)
        ensures
            r == encoding_of_label(s@),
    {
        if text_is(s, "base64url") {
            Some(BodyEncoding::Base64Url)
        } else if text_is(s, "none") {
            Some(BodyEncoding::Plain)
        } else if text_is(s, "json") {
            Some(BodyEncoding::Json)
        } else {
            None
        }
    }
}

/// The encoding that a label names.
pub open spec fn encoding_of_label(s: Seq<char>) -> Option<BodyEncoding> {
    if s == "base64url"@ {
        Some(BodyEncoding::Base64Url)
    } else if s == "none"@ {
        Some(BodyEncoding::Plain)
    } else if s == "json"@ {
        Some(BodyEncoding::Json)
    } else {
        None
    }
}

/// Each label names its own encoding.
pub proof fn lemma_label_names_encoding(e: BodyEncoding)
    ensures
        encoding_of_label(e.spec_label()) == Some(e),
{
    reveal_strlit("base64url");
    reveal_strlit("none");
    reveal_strlit("json");
    assert("none"@[0] != "json"@[0]);
}

/// A body carried in the document itself.
#[derive(Debug, Clone, PartialEq, Eq, Hash)]
pub enum InlineContent {
    /// Raw bytes; base64url on the wire.
    BinaryBase64Url(Vec<u8>),
    /// Structured text; reserved.
    TextJson(String),
    /// Plain text.
    TextNone(String),
}

/// What an inline body holds.
pub enum InlineBody {
    Binary(Seq<u8>),
    Json(Seq<char>),
    Text(Seq<char>),
}

impl View for InlineContent {
    type V = InlineBody;

    open spec fn view(&self) -> InlineBody {
        match self {
            InlineContent::BinaryBase64Url(b) => InlineBody::Binary(b@),
            InlineContent::TextJson(t) => InlineBody::Json(t@),
            InlineContent::TextNone(t) => InlineBody::Text(t@),
        }
    }
}

/// Whether an inline body can be written: the reserved encoding cannot, and a
/// binary payload must be short enough for its base64url length to fit.
pub open spec fn encodable(b: InlineBody) -> bool {
    match b {
        InlineBody::Binary(bytes) => b64url_encodable(bytes.len()),
        InlineBody::Json(_) => false,
        InlineBody::Text(_) => true,
    }
}

/// The bytes of a base64url binary body value: text on the text backend, a
/// byte string under the base64url tag on the binary one.
pub open spec fn binary_body(body: Value, backend: Backend) -> Result<Seq<u8>, DecodeError> {
    let text = match backend {
        Backend::Text => match body {
            Value::Text(t) => Some(encode_utf8(t@)),
            _ => None,
        },
        Backend::Binary => match body {
            Value::Tag(tag, inner) => if tag == BASE_64_URL_TAG {
                match *inner {
                    Value::Bytes(v) => Some(v@),
                    _ => None,
                }
            } else {
                None
            },
            _ => None,
        },
    };
    match text {
        None => Err(DecodeError::InvalidType),
        Some(t) => match b64url_bytes(t) {
            Some(bytes) => Ok(bytes),
            None => Err(DecodeError::Encoding),
        },
    }
}

/// The inline body of an `encoding` and a `body` field value.
pub open spec fn inline_of_values(encoding: Value, body: Value, backend: Backend) -> Result<
    InlineBody,
    DecodeError,
> {
    match encoding {
        Value::Text(label) => match encoding_of_label(label@) {
            None => Err(DecodeError::UnknownLabel),
            Some(BodyEncoding::Json) => Err(DecodeError::Unimplemented),
            Some(BodyEncoding::Plain) => match body {
                Value::Text(t) => Ok(InlineBody::Text(t@)),
                _ => Err(DecodeError::InvalidType),
            },
            Some(BodyEncoding::Base64Url) => match binary_body(body, backend) {
                Ok(bytes) => Ok(InlineBody::Binary(bytes)),
                Err(e) => Err(e),
            },
        },
        _ => Err(DecodeError::InvalidType),
    }
}

/// The inline body of a field list holding `encoding` and `body`.
pub open spec fn inline_of_fields(fields: Seq<(String, Value)>, backend: Backend) -> Result<
    InlineBody,
    DecodeError,
> {
    match (lookup(fields, "encoding"@), lookup(fields, "body"@)) {
        (Some(e), Some(b)) => inline_of_values(e, b, backend),
        _ => Err(DecodeError::MissingField),
    }
}

/// Whether `body` is the wire value of a binary payload on `backend`.
pub open spec fn binary_body_value(body: Value, bytes: Seq<u8>, backend: Backend) -> bool {
    match backend {
        Backend::Text => body matches Value::Text(t) && t@ == b64url_text(bytes),
        Backend::Binary => match body {
            Value::Tag(tag, inner) => tag == BASE_64_URL_TAG && match *inner {
                Value::Bytes(v) => v@ == encode_utf8(b64url_text(bytes)),
                _ => false,
            },
            _ => false,
        },
    }
}

/// Whether `fields` is the wire form of inline body `b`: `encoding` with its
/// label, then `body`.
pub open spec fn inline_fields(fields: Seq<(String, Value)>, b: InlineBody, backend: Backend) -> bool {
    &&& fields.len() == 2
    &&& fields[0].0@ == "encoding"@
    &&& fields[1].0@ == "body"@
    &&& match b {
        InlineBody::Binary(bytes) => {
            &&& fields[0].1 matches Value::Text(l) && l@ == BodyEncoding::Base64Url.spec_label()
            &&& binary_body_value(fields[1].1, bytes, backend)
        },
        InlineBody::Text(t) => {
            &&& fields[0].1 matches Value::Text(l) && l@ == BodyEncoding::Plain.spec_label()
            &&& fields[1].1 matches Value::Text(s) && s@ == t
        },
        InlineBody::Json(_) => false,
    }
}

/// A text body survives encoding and decoding on either backend: the fields
/// written for it decode back to the same text.
pub proof fn lemma_text_body_round_trip(t: Seq<char>, fields: Seq<(String, Value)>, backend: Backend)
    requires
        inline_fields(fields, InlineBody::Text(t), backend),
    ensures
        inline_of_fields(fields, backend) == Ok::<_, DecodeError>(InlineBody::Text(t)),
{
    reveal_strlit("encoding");
    reveal_strlit("body");
    assert("encoding"@.len() != "body"@.len());
    lemma_lookup_pair(fields);
    lemma_label_names_encoding(BodyEncoding::Plain);
}

impl InlineContent {
    /// The inline body of an `encoding` and a `body` field value.
    pub fn decode_values(encoding: &Value, body: &Value, backend: Backend) -> (r: Result<
        InlineContent,
        DecodeError,
    >)
        ensures
            view_result(r) == inline_of_values(*encoding, *body, backend),
    {
        let label = match encoding {
            Value::Text(label) => label,
            _ => {
                return Err(DecodeError::InvalidType);
            },
        };
        match BodyEncoding::from_label(label.as_str()) {
            None => Err(DecodeError::UnknownLabel),
            Some(BodyEncoding::Json) => Err(DecodeError::Unimplemented),
            Some(BodyEncoding::Plain) => match body {
                Value::Text(t) => Ok(InlineContent::TextNone(t.clone())),
                _ => Err(DecodeError::InvalidType),
            },
            Some(BodyEncoding::Base64Url) => {
                let decoded = match (backend, body) {
                    (Backend::Text, Value::Text(t)) => b64url_decode(t.as_str().as_bytes()),
                    (Backend::Binary, Value::Tag(tag, inner)) => {
                        if *tag != BASE_64_URL_TAG {
                            return Err(DecodeError::InvalidType);
                        }
                        match &**inner {
                            Value::Bytes(v) => b64url_decode(v.as_slice()),
                            _ => {
                                return Err(DecodeError::InvalidType);
                            },
                        }
                    },
                    _ => {
                        return Err(DecodeError::InvalidType);
                    },
                };
                match decoded {
                    Ok(bytes) => Ok(InlineContent::BinaryBase64Url(bytes)),
                    Err(_) => Err(DecodeError::Encoding),
                }
            },
        }
    }

    /// The inline body of a field list holding `encoding` and `body`.
    pub fn decode_fields(fields: &Vec<(String, Value)>, backend: Backend) -> (r: Result<
        InlineContent,
        DecodeError,
    >)
        ensures
            view_result(r) == inline_of_fields(fields@, backend),
    {
        match (field(fields, "encoding"), field(fields, "body")) {
            (Some(e), Some(b)) => InlineContent::decode_values(e, b, backend),
            _ => Err(DecodeError::MissingField),
        }
    }

    /// The wire form on `backend`: `encoding`, then `body`. It decodes back to
    /// this body.
    pub fn encode(&self, backend: Backend) -> (r: Vec<(String, Value)>)
        requires
            encodable(self@),
        ensures
            inline_fields(r@, self@, backend),
            inline_of_fields(r@, backend) == Ok::<_, DecodeError>(self@),
    {
        let (encoding, body) = match self {
            InlineContent::BinaryBase64Url(bytes) => {
                let text = b64url_encode(bytes.as_slice());
                let body = match backend {
                    Backend::Text => Value::Text(text),
                    Backend::Binary => Value::Tag(
                        BASE_64_URL_TAG,
                        Box::new(Value::Bytes(text.as_str().as_bytes_vec())),
                    ),
                };
                (BodyEncoding::Base64Url, body)
            },
            InlineContent::TextNone(t) => (BodyEncoding::Plain, Value::Text(t.clone())),
            InlineContent::TextJson(_) => {
                proof {
                    assert(false);
                }
                (BodyEncoding::Json, Value::Null)
            },
        };
        let mut r: Vec<(String, Value)> = Vec::new();
        r.push(("encoding".to_owned(), Value::Text(encoding.label().to_owned())));
        r.push(("body".to_owned(), body));
        proof {
            lemma_label_names_encoding(encoding);
            reveal_strlit("encoding");
            reveal_strlit("body");
            assert("encoding"@.len() != "body"@.len());
            assert(r@.drop_last().last() == r@[0]);
            assert(r@.drop_last().drop_last().len() == 0);
            assert(lookup(r@.drop_last(), "encoding"@) == Some(r@[0].1));
            assert(lookup(r@, "encoding"@) == Some(r@[0].1));
            assert(lookup(r@, "body"@) == Some(r@[1].1));
        }
        r
    }
}

} // verus!

use vstd::prelude::*;
use vstd::utf8::encode_utf8;

use crate::body::{encodable, inline_fields, inline_of_fields, inline_of_values, InlineBody, InlineContent};
use crate::base64url::b64url_bytes;
use crate::error::{view_result, DecodeError};
use crate::locator::{url_of_value, Url};
use crate::signature::{signature_fields, signature_of_fields, signature_of_values, Signature, SignatureAlg};
use crate::value::{key_is, keys_within, lemma_lookup_pair, lookup, Backend, Value};

verus! {

/// Content hosted elsewhere: where it lies, and the signature of its bytes.
#[derive(Debug, Clone, PartialEq, Eq, Hash)]
pub struct UrlReferencedContent {
    pub url: Url,
    pub signature: Signature,
}

/// What a referenced content holds: the locator and the signature.
pub type ReferenceView = (Seq<char>, (SignatureAlg, Seq<u8>));

impl View for UrlReferencedContent {
    type V = ReferenceView;

    open spec fn view(&self) -> ReferenceView {
        (self.url@, self.signature@)
    }
}

/// The content of a document entity: carried inline, or referenced by URL.
#[derive(Debug, Clone, PartialEq, Eq, Hash)]
pub enum Content {
    Inline(InlineContent),
    UrlReferenced(UrlReferencedContent),
}

/// What a content holds.
pub enum ContentView {
    Inline(InlineBody),
    Reference(ReferenceView),
}

impl View for Content {
    type V = ContentView;

    open spec fn view(&self) -> ContentView {
        match self {
            Content::Inline(b) => ContentView::Inline(b@),
            Content::UrlReferenced(r) => ContentView::Reference(r@),
        }
    }
}

/// The referenced content of the `url`, `alg` and `signature` field values:
/// the locator is read first, then the signature.
pub open spec fn reference_of_values(url: Value, alg: Value, sig: Value) -> Result<
    ReferenceView,
    DecodeError,
> {
    match url_of_value(url) {
        Err(e) => Err(e),
        Ok(u) => match signature_of_values(alg, sig) {
            Err(e) => Err(e),
            Ok(s) => Ok((u, s)),
        },
    }
}

/// The content of a field list. With both `encoding` and `body` present it is
/// inline; otherwise, with `url`, `alg` and `signature` present, it is a
/// reference; otherwise it is ambiguous. Other fields are not looked at.
pub open spec fn content_of_fields(fields: Seq<(String, Value)>, backend: Backend) -> Result<
    ContentView,
    DecodeError,
> {
    let encoding = lookup(fields, "encoding"@);
    let body = lookup(fields, "body"@);
    let url = lookup(fields, "url"@);
    let alg = lookup(fields, "alg"@);
    let sig = lookup(fields, "signature"@);
    if encoding is Some && body is Some {
        match inline_of_values(encoding.unwrap(), body.unwrap(), backend) {
            Ok(b) => Ok(ContentView::Inline(b)),
            Err(e) => Err(e),
        }
    } else if url is Some && alg is Some && sig is Some {
        match reference_of_values(url.unwrap(), alg.unwrap(), sig.unwrap()) {
            Ok(r) => Ok(ContentView::Reference(r)),
            Err(e) => Err(e),
        }
    } else {
        Err(DecodeError::AmbiguousContent)
    }
}

/// Whether `fields` is the wire form of a referenced content: `url`, then the
/// signature's `alg` and `signature`.
pub open spec fn reference_fields(fields: Seq<(String, Value)>, r: ReferenceView) -> bool {
    &&& fields.len() == 3
    &&& fields[0].0@ == "url"@
    &&& fields[0].1 matches Value::Text(t) && t@ == r.0
    &&& signature_fields(fields.subrange(1, 3), r.1)
}

/// The keys that content fields use.
pub open spec fn content_keys() -> Seq<Seq<char>> {
    seq!["encoding"@, "body"@, "url"@, "alg"@, "signature"@]
}

/// Whether `f` is the wire form of content `c` on `backend`.
pub open spec fn content_fields(f: Seq<(String, Value)>, c: ContentView, backend: Backend) -> bool {
    match c {
        ContentView::Inline(b) => inline_fields(f, b, backend),
        ContentView::Reference(v) => reference_fields(f, v),
    }
}

/// Whether a content can be written (see `encodable`).
pub open spec fn content_encodable(c: ContentView) -> bool {
    match c {
        ContentView::Inline(b) => encodable(b),
        ContentView::Reference(_) => true,
    }
}

/// The dispatch of content decoding: a map with `encoding` and `body` is read
/// as inline content and nothing else; one without that pair but with `url`,
/// `alg` and `signature` is read as a reference and nothing else; one with
/// neither combination is `AmbiguousContent`.
pub proof fn lemma_content_dispatch(fields: Seq<(String, Value)>, backend: Backend)
    ensures
        lookup(fields, "encoding"@) is Some && lookup(fields, "body"@) is Some ==> (
        content_of_fields(fields, backend) matches Ok(ContentView::Inline(_))
            || content_of_fields(fields, backend) == Err::<ContentView, _>(
            inline_of_fields(fields, backend)->Err_0,
        )),
        !(lookup(fields, "encoding"@) is Some && lookup(fields, "body"@) is Some) && lookup(
            fields,
            "url"@,
        ) is Some && lookup(fields, "alg"@) is Some && lookup(fields, "signature"@) is Some
            ==> !(content_of_fields(fields, backend) matches Ok(ContentView::Inline(_)))
            && content_of_fields(fields, backend) != Err::<ContentView, _>(
            DecodeError::AmbiguousContent,
        ),
        !(lookup(fields, "encoding"@) is Some && lookup(fields, "body"@) is Some) && !(lookup(
            fields,
            "url"@,
        ) is Some && lookup(fields, "alg"@) is Some && lookup(fields, "signature"@) is Some)
            ==> content_of_fields(fields, backend) == Err::<ContentView, _>(
            DecodeError::AmbiguousContent,
        ),
{
    reveal_strlit("signature");
    reveal_strlit("alg");
}

/// A map of only `encoding` and `body` decodes, on the text backend, to the
/// inline content they describe: with `none`, the body text; with
/// `base64url`, the bytes that the body text stands for.
pub proof fn lemma_inline_map(fields: Seq<(String, Value)>)
    requires
        fields.len() == 2,
        fields[0].0@ == "encoding"@,
        fields[1].0@ == "body"@,
    ensures
        fields[0].1 matches Value::Text(e) && e@ == "none"@ ==> content_of_fields(fields, Backend::Text)
            == match fields[1].1 {
            Value::Text(s) => Ok(ContentView::Inline(InlineBody::Text(s@))),
            _ => Err(DecodeError::InvalidType),
        },
        fields[0].1 matches Value::Text(e) && e@ == "base64url"@ ==> content_of_fields(
            fields,
            Backend::Text,
        ) == match fields[1].1 {
            Value::Text(t) => match b64url_bytes(encode_utf8(t@)) {
                Some(b) => Ok(ContentView::Inline(InlineBody::Binary(b))),
                None => Err(DecodeError::Encoding),
            },
            _ => Err(DecodeError::InvalidType),
        },
{
    reveal_strlit("encoding");
    reveal_strlit("body");
    reveal_strlit("none");
    reveal_strlit("base64url");
    assert("encoding"@.len() != "body"@.len());
    assert("none"@.len() != "base64url"@.len());
    lemma_lookup_pair(fields);
}

/// The values of the content fields, as one pass over a field list gathers
/// them.
struct ContentFields<'a> {
    encoding: Option<&'a Value>,
    body: Option<&'a Value>,
    url: Option<&'a Value>,
    alg: Option<&'a Value>,
    signature: Option<&'a Value>,
}

/// Whether `found` is what `lookup` gives for `key`.
pub open spec fn found_as(found: Option<&Value>, fields: Seq<(String, Value)>, key: Seq<char>) -> bool {
    match found {
        Some(v) => lookup(fields, key) == Some(*v),
        None => lookup(fields, key) is None,
    }
}

impl<'a> ContentFields<'a> {
    spec fn gathered(&self, fields: Seq<(String, Value)>) -> bool {
        &&& found_as(self.encoding, fields, "encoding"@)
        &&& found_as(self.body, fields, "body"@)
        &&& found_as(self.url, fields, "url"@)
        &&& found_as(self.alg, fields, "alg"@)
        &&& found_as(self.signature, fields, "signature"@)
    }

    /// One pass over `fields`, keeping the last value of each content key.
    fn gather(fields: &'a Vec<(String, Value)>) -> (r: ContentFields<'a>)
        ensures
            r.gathered(fields@),
    {
        let mut r = ContentFields { encoding: None, body: None, url: None, alg: None, signature: None };
        let mut i: usize = 0;
        while i < fields.len()
            invariant
                i <= fields@.len(),
                r.gathered(fields@.subrange(0, i as int)),
            decreases fields@.len() - i,
        {
            assert(fields@.subrange(0, i + 1).drop_last() == fields@.subrange(0, i as int));
            assert(fields@.subrange(0, i + 1).last() == fields@[i as int]);
            proof {
                reveal_strlit("encoding");
                reveal_strlit("body");
                reveal_strlit("url");
                reveal_strlit("alg");
                reveal_strlit("signature");
                assert("encoding"@.len() == 8 && "body"@.len() == 4 && "url"@.len() == 3);
                assert("alg"@.len() == 3 && "signature"@.len() == 9);
                assert("url"@[0] != "alg"@[0]);
            }
            let k = &fields[i].0;
            let v = &fields[i].1;
            if key_is(k, "encoding") {
                r.encoding = Some(v);
            } else if key_is(k, "body") {
                r.body = Some(v);
            } else if key_is(k, "url") {
                r.url = Some(v);
            } else if key_is(k, "alg") {
                r.alg = Some(v);
            } else if key_is(k, "signature") {
                r.signature = Some(v);
            }
            i = i + 1;
        }
        assert(fields@.subrange(0, fields@.len() as int) == fields@);
        r
    }
}

impl UrlReferencedContent {
    /// The referenced content of the `url`, `alg` and `signature` values.
    pub fn decode_values(url: &Value, alg: &Value, sig: &Value) -> (r: Result<
        UrlReferencedContent,
        DecodeError,
    >)
        ensures
            view_result(r) == reference_of_values(*url, *alg, *sig),
    {
        let url = match Url::decode_value(url) {
            Ok(u) => u,
            Err(e) => {
                return Err(e);
            },
        };
        match Signature::decode_values(alg, sig) {
            Ok(signature) => Ok(UrlReferencedContent { url, signature }),
            Err(e) => Err(e),
        }
    }

    /// The wire form: `url`, then `alg` and `signature`; the signature part
    /// decodes back to this signature.
    pub fn encode(&self) -> (r: Vec<(String, Value)>)
        ensures
            reference_fields(r@, self@),
            signature_of_fields(r@.subrange(1, 3)) == Ok::<_, DecodeError>(self@.1),
    {
        let mut r = self.url.encode();
        let mut s = self.signature.encode();
        let ghost s0 = s@;
        r.append(&mut s);
        proof {
            assert(r@.subrange(1, 3) =~= s0);
        }
        r
    }
}

impl Content {
    /// The content of a field list, decided by which keys are present (see
    /// `content_of_fields`).
    pub fn decode_fields(fields: &Vec<(String, Value)>, backend: Backend) -> (r: Result<
        Content,
        DecodeError,
    >)
        ensures
            view_result(r) == content_of_fields(fields@, backend),
    {
        let found = ContentFields::gather(fields);
        match (found.encoding, found.body) {
            (Some(encoding), Some(body)) => {
                return match InlineContent::decode_values(encoding, body, backend) {
                    Ok(b) => Ok(Content::Inline(b)),
                    Err(e) => Err(e),
                };
            },
            _ => {},
        }
        match (found.url, found.alg, found.signature) {
            (Some(url), Some(alg), Some(sig)) => match UrlReferencedContent::decode_values(
                url,
                alg,
                sig,
            ) {
                Ok(r) => Ok(Content::UrlReferenced(r)),
                Err(e) => Err(e),
            },
            _ => Err(DecodeError::AmbiguousContent),
        }
    }

    /// The wire form on `backend`. Inline content decodes back to itself.
    pub fn encode(&self, backend: Backend) -> (r: Vec<(String, Value)>)
        requires
            content_encodable(self@),
        ensures
            match self@ {
                ContentView::Inline(b) => inline_fields(r@, b, backend) && content_of_fields(
                    r@,
                    backend,
                ) == Ok::<_, DecodeError>(self@),
                ContentView::Reference(v) => reference_fields(r@, v) && signature_of_fields(
                    r@.subrange(1, 3),
                ) == Ok::<_, DecodeError>(v.1),
            },
            keys_within(r@, content_keys()),
            content_fields(r@, self@, backend),
    {
        match self {
            Content::Inline(b) => {
                let r = b.encode(backend);
                proof {
                    reveal_strlit("encoding");
                    reveal_strlit("body");
                    assert("encoding"@.len() != "body"@.len());
                    lemma_lookup_pair(r@);
                    assert(content_keys()[0] == r@[0].0@ && content_keys()[1] == r@[1].0@);
                }
                r
            },
            Content::UrlReferenced(u) => {
                let r = u.encode();
                proof {
                    assert(r@.subrange(1, 3)[0] == r@[1] && r@.subrange(1, 3)[1] == r@[2]);
                    assert(content_keys()[2] == r@[0].0@ && content_keys()[3] == r@[1].0@);
                    assert(content_keys()[4] == r@[2].0@);
                }
                r
            },
        }
    }
}

} // verus!

use vcon_types::{
    AnalysisObject, Backend, BodyEncoding, Content, ContentParameters, Date, DecodeError,
    ExtensionObject, InlineContent, ParseError, Signature, SignatureAlg, Url, Uuid, Value,
    VconVersion, BASE_64_URL_TAG,
};

fn text(s: &str) -> Value {
    Value::Text(s.to_string())
}

fn entry(k: &str, v: Value) -> (String, Value) {
    (k.to_string(), v)
}

fn zeros_b64(n: usize) -> String {
    // 3 zero bytes are 4 'A's; unpadded output is ceil(4n/3) characters
    "A".repeat((4 * n + 2) / 3)
}

const SHA512_EXAMPLE: &str =
    "2AIvIGCtbv0perc9zFNVybIUBUsNF3ahNqZp0mp9OxT3OqDQ6_8Z7jMzaPAWS2QZqW2knj5IF1Pn6Wtxa9zLbw";

#[test]
fn inline_text_round_trip_both_backends() {
    for backend in [Backend::Text, Backend::Binary] {
        let b = InlineContent::TextNone("Hi Bob".to_string());
        let fields = b.encode(backend);
        assert_eq!(fields, vec![entry("encoding", text("none")), entry("body", text("Hi Bob"))]);
        assert_eq!(InlineContent::decode_fields(&fields, backend), Ok(b));
    }
}

#[test]
fn inline_binary_round_trip_both_backends() {
    for backend in [Backend::Text, Backend::Binary] {
        for bytes in [vec![], vec![0u8], vec![0xff, 0xfe, 0x00, 0x10, 0x7f], (0u8..=255).collect()] {
            let b = InlineContent::BinaryBase64Url(bytes);
            let fields = b.encode(backend);
            assert_eq!(InlineContent::decode_fields(&fields, backend), Ok(b));
        }
    }
}

#[test]
fn binary_fragment_text_backend() {
    let fields = vec![entry("encoding", text("base64url")), entry("body", text("YWJjZA"))];
    let decoded = InlineContent::decode_fields(&fields, Backend::Text).unwrap();
    assert_eq!(decoded, InlineContent::BinaryBase64Url(vec![0x61, 0x62, 0x63, 0x64]));
    assert_eq!(decoded.encode(Backend::Text), fields);
}

#[test]
fn binary_fragment_binary_backend() {
    let tagged = || Value::Tag(BASE_64_URL_TAG, Box::new(Value::Bytes(b"YWJjZA".to_vec())));
    let fields = vec![entry("encoding", text("base64url")), entry("body", tagged())];
    let decoded = InlineContent::decode_fields(&fields, Backend::Binary).unwrap();
    assert_eq!(decoded, InlineContent::BinaryBase64Url(b"abcd".to_vec()));
    assert_eq!(BASE_64_URL_TAG, 21);
    assert_eq!(decoded.encode(Backend::Binary), fields);
}

#[test]
fn binary_body_wrong_shape_per_backend() {
    let tagged = Value::Tag(21, Box::new(Value::Bytes(b"YWJjZA".to_vec())));
    assert_eq!(
        InlineContent::decode_values(&text("base64url"), &tagged, Backend::Text),
        Err(DecodeError::InvalidType)
    );
    assert_eq!(
        InlineContent::decode_values(&text("base64url"), &text("YWJjZA"), Backend::Binary),
        Err(DecodeError::InvalidType)
    );
    let other_tag = Value::Tag(22, Box::new(Value::Bytes(b"YWJjZA".to_vec())));
    assert_eq!(
        InlineContent::decode_values(&text("base64url"), &other_tag, Backend::Binary),
        Err(DecodeError::InvalidType)
    );
    let raw = Value::Tag(21, Box::new(Value::Bytes(b"abcd!".to_vec())));
    assert_eq!(
        InlineContent::decode_values(&text("base64url"), &raw, Backend::Binary),
        Err(DecodeError::Encoding)
    );
}

#[test]
fn body_encoding_errors() {
    assert_eq!(
        InlineContent::decode_values(&text("json"), &text("{}"), Backend::Text),
        Err(DecodeError::Unimplemented)
    );
    assert_eq!(
        InlineContent::decode_values(&text("gzip"), &text("x"), Backend::Text),
        Err(DecodeError::UnknownLabel)
    );
    assert_eq!(
        InlineContent::decode_values(&Value::Integer(1), &text("x"), Backend::Text),
        Err(DecodeError::InvalidType)
    );
    assert_eq!(
        InlineContent::decode_values(&text("none"), &Value::Bytes(vec![1]), Backend::Text),
        Err(DecodeError::InvalidType)
    );
    assert_eq!(
        InlineContent::decode_values(&text("base64url"), &text("YW=="), Backend::Text),
        Err(DecodeError::Encoding)
    );
    assert_eq!(
        InlineContent::decode_fields(&vec![entry("body", text("x"))], Backend::Text),
        Err(DecodeError::MissingField)
    );
    assert_eq!(BodyEncoding::from_label("base64url"), Some(BodyEncoding::Base64Url));
    assert_eq!(BodyEncoding::Plain.label(), "none");
}

#[test]
fn signature_round_trip_all_lengths() {
    for (n, alg) in [(32, SignatureAlg::Sha256), (48, SignatureAlg::Sha384), (64, SignatureAlg::Sha512)] {
        let bytes: Vec<u8> = (0..n).map(|i| (i * 7 + 3) as u8).collect();
        let s = Signature::from_bytes(&bytes);
        assert_eq!(s.alg(), alg);
        assert_eq!(s.digest(), &bytes[..]);
        let fields = s.encode();
        assert_eq!(fields[0], entry("alg", text(alg.label())));
        assert_eq!(fields[1].0, "signature");
        let back = Signature::decode_fields(&fields).unwrap();
        assert_eq!(back, s);
        assert_eq!(back.digest(), &bytes[..]);
    }
}

#[test]
fn signature_alg_mismatch_every_pair() {
    let algs = [(32, "SHA-256"), (48, "SHA-384"), (64, "SHA-512")];
    for (n, _) in algs {
        for (m, label) in algs {
            let r = Signature::decode(label, &zeros_b64(n));
            if n == m {
                assert!(r.is_ok());
            } else {
                assert_eq!(r, Err(DecodeError::AlgMismatch));
            }
        }
    }
}

#[test]
fn signature_zero_sha256_fragment() {
    let fields = vec![entry("alg", text("SHA-256")), entry("signature", text(&zeros_b64(32)))];
    assert_eq!(zeros_b64(32).len(), 43);
    let s = Signature::decode_fields(&fields).unwrap();
    assert_eq!(s, Signature::Sha256 { signature: [0u8; 32] });
}

#[test]
fn signature_parse_sha512_example() {
    let s: Signature = SHA512_EXAMPLE.parse().unwrap();
    assert_eq!(s.alg(), SignatureAlg::Sha512);
    let fields = s.encode();
    assert_eq!(fields, vec![entry("alg", text("SHA-512")), entry("signature", text(SHA512_EXAMPLE))]);
    assert_eq!(s.signature(), SHA512_EXAMPLE);
}

#[test]
fn signature_from_str_cases() {
    let s: Signature = zeros_b64(48).parse().unwrap();
    assert_eq!(s, Signature::Sha384 { signature: [0u8; 48] });
    assert_eq!("not base64!".parse::<Signature>(), Err(DecodeError::Encoding));
    assert_eq!(zeros_b64(33).parse::<Signature>(), Err(DecodeError::UnsupportedLength));
    assert_eq!("".parse::<Signature>(), Err(DecodeError::UnsupportedLength));
    let u: Url = "https://github.com".parse().unwrap();
    assert_eq!(u.as_str(), "https://github.com/");
    assert_eq!(u.as_str().parse::<Url>(), Ok(u));
    assert_eq!("2022-09-23T23:24:59".parse::<Date>().err(), Some(ParseError::Format));
}

#[test]
fn signature_errors() {
    assert_eq!(Signature::parse("not base64!"), Err(DecodeError::Encoding));
    assert_eq!(Signature::parse(&zeros_b64(10)), Err(DecodeError::UnsupportedLength));
    assert_eq!(Signature::parse(""), Err(DecodeError::UnsupportedLength));
    assert_eq!(Signature::decode("SHA-1", &zeros_b64(32)), Err(DecodeError::UnknownLabel));
    assert_eq!(Signature::try_from_bytes(&[0u8; 33]), Err(DecodeError::UnsupportedLength));
    assert_eq!(
        Signature::decode_values(&text("SHA-256"), &Value::Bytes(vec![0; 32])),
        Err(DecodeError::InvalidType)
    );
    assert_eq!(
        Signature::decode_fields(&vec![entry("alg", text("SHA-256"))]),
        Err(DecodeError::MissingField)
    );
}

#[test]
fn digest_sizes_match_hash_implementation() {
    assert_eq!(SignatureAlg::Sha256.output_size(), 32);
    assert_eq!(SignatureAlg::Sha384.output_size(), 48);
    assert_eq!(SignatureAlg::Sha512.output_size(), 64);
    assert_eq!(SignatureAlg::from_len(48), Some(SignatureAlg::Sha384));
    assert_eq!(SignatureAlg::from_len(20), None);
    assert_eq!(SignatureAlg::from_label("SHA-384"), Some(SignatureAlg::Sha384));
}

#[test]
fn locator_scheme_and_trailing_slash() {
    assert_eq!(Url::parse("http://github.com"), Err(ParseError::Scheme));
    assert_eq!("http://github.com/".parse::<Url>(), Err(ParseError::Scheme));
    let u = Url::parse("https://github.com").unwrap();
    assert_eq!(u.as_str(), "https://github.com/");
    let fields = u.encode();
    assert_eq!(fields, vec![entry("url", text("https://github.com/"))]);
    assert_eq!(Url::decode_fields(&fields), Ok(u.clone()));
    assert_eq!(Url::parse(u.as_str()), Ok(u));
}

#[test]
fn locator_errors() {
    assert_eq!(Url::parse("not a url"), Err(ParseError::Format));
    assert_eq!(Url::decode_value(&Value::Integer(3)), Err(DecodeError::InvalidType));
    assert_eq!(
        Url::decode_value(&text("ftp://example.com/x")),
        Err(DecodeError::Scalar(ParseError::Scheme))
    );
    assert_eq!(Url::decode_fields(&vec![]), Err(DecodeError::MissingField));
}

#[test]
fn content_dispatch_by_keys() {
    let reference = vec![
        entry("url", text("https://example.com/rec.wav")),
        entry("alg", text("SHA-256")),
        entry("signature", text(&zeros_b64(32))),
    ];
    match Content::decode_fields(&reference, Backend::Text).unwrap() {
        Content::UrlReferenced(r) => {
            assert_eq!(r.url.as_str(), "https://example.com/rec.wav");
            assert_eq!(r.signature, Signature::Sha256 { signature: [0; 32] });
            assert_eq!(Content::UrlReferenced(r).encode(Backend::Text), reference);
        }
        other => panic!("expected a reference, got {other:?}"),
    }
    let inline = vec![entry("encoding", text("none")), entry("body", text("hello"))];
    assert_eq!(
        Content::decode_fields(&inline, Backend::Text),
        Ok(Content::Inline(InlineContent::TextNone("hello".to_string())))
    );
    let neither = vec![entry("url", text("https://example.com/")), entry("body", text("x"))];
    assert_eq!(Content::decode_fields(&neither, Backend::Text), Err(DecodeError::AmbiguousContent));
    assert_eq!(Content::decode_fields(&vec![], Backend::Binary), Err(DecodeError::AmbiguousContent));
}

#[test]
fn content_inline_wins_when_all_keys_present() {
    let all = vec![
        entry("url", text("http://insecure.example.com/")),
        entry("alg", text("SHA-256")),
        entry("signature", text("!")),
        entry("encoding", text("none")),
        entry("body", text("kept")),
    ];
    assert_eq!(
        Content::decode_fields(&all, Backend::Text),
        Ok(Content::Inline(InlineContent::TextNone("kept".to_string())))
    );
}

#[test]
fn content_reference_errors_come_in_order() {
    let bad_url = vec![
        entry("url", text("http://example.com/")),
        entry("alg", text("SHA-256")),
        entry("signature", text(&zeros_b64(48))),
    ];
    assert_eq!(
        Content::decode_fields(&bad_url, Backend::Text),
        Err(DecodeError::Scalar(ParseError::Scheme))
    );
    let mismatch = vec![
        entry("url", text("https://example.com/")),
        entry("alg", text("SHA-256")),
        entry("signature", text(&zeros_b64(48))),
    ];
    assert_eq!(Content::decode_fields(&mismatch, Backend::Text), Err(DecodeError::AlgMismatch));
}

fn analysis_fields(extra: Vec<(String, Value)>) -> Vec<(String, Value)> {
    let mut f = vec![
        entry("type", text("transcript")),
        entry("dialog", Value::Integer(0)),
        entry("mimetype", text("text/plain")),
        entry("vendor", text("acme")),
        entry("encoding", text("none")),
        entry("body", text("hello")),
    ];
    f.extend(extra);
    f
}

fn extras() -> Vec<(String, Value)> {
    vec![
        entry("confidence", Value::Float(0.5f64.to_bits())),
        entry("tags", Value::Array(vec![text("a"), Value::Null, Value::Bool(true)])),
        entry(
            "meta",
            Value::Object(vec![entry("k", Value::Integer(-4)), entry("b", Value::Bytes(vec![1, 2]))]),
        ),
    ]
}

#[test]
fn analysis_extensions_survive_decode_encode() {
    let a = AnalysisObject::decode_fields(analysis_fields(extras()), Backend::Text).unwrap();
    assert_eq!(a.typ, "transcript");
    assert_eq!(a.dialog, 0);
    assert_eq!(a.content_parameters.mime.as_ref().unwrap().as_str(), "text/plain");
    assert_eq!(a.content_parameters.filename, None);
    assert_eq!(a.vendor.as_deref(), Some("acme"));
    assert_eq!(a.extension_object.fields, extras());
    let out = a.encode(Backend::Text);
    assert_eq!(&out[out.len() - 3..], &extras()[..]);
    let again = AnalysisObject::decode_fields(out, Backend::Text).unwrap();
    assert_eq!(again.extension_object.fields, extras());
}

#[test]
fn analysis_errors() {
    let mut f = analysis_fields(vec![]);
    f.remove(0);
    assert_eq!(AnalysisObject::decode_fields(f, Backend::Text), Err(DecodeError::MissingField));
    let mut f = analysis_fields(vec![]);
    f[1] = entry("dialog", Value::Integer(-1));
    assert_eq!(AnalysisObject::decode_fields(f, Backend::Text), Err(DecodeError::InvalidType));
    let mut f = analysis_fields(vec![]);
    f.truncate(4);
    assert_eq!(AnalysisObject::decode_fields(f, Backend::Text), Err(DecodeError::AmbiguousContent));
}

#[test]
fn extension_capture_and_merge() {
    let fields = vec![entry("a", Value::Integer(1)), entry("x", text("y")), entry("b", Value::Null)];
    let ext = ExtensionObject::capture(fields, &["a", "b"]);
    assert_eq!(ext.fields, vec![entry("x", text("y"))]);
    let ext = ExtensionObject { fields: vec![entry("a", Value::Integer(9)), entry("z", Value::Null)] };
    let merged = ExtensionObject::merge(vec![entry("a", Value::Integer(1))], ext);
    assert_eq!(merged, vec![entry("a", Value::Integer(1)), entry("z", Value::Null)]);
}

#[test]
fn content_parameters_fields() {
    let p = ContentParameters::decode_fields(&vec![entry("filename", text("r.wav"))]).unwrap();
    assert_eq!(p, ContentParameters { mime: None, filename: Some("r.wav".to_string()) });
    let mut out = vec![];
    p.encode_into(&mut out);
    assert_eq!(out, vec![entry("filename", text("r.wav"))]);
    assert_eq!(
        ContentParameters::decode_fields(&vec![entry("mimetype", Value::Integer(1))]),
        Err(DecodeError::InvalidType)
    );
}

#[test]
fn uuid_v8_hyphenated() {
    let u = Uuid::new(*b"abcdefghijklmnop");
    assert_eq!(u.hyphenated(), "61626364-6566-8768-a96a-6b6c6d6e6f70");
    assert_eq!(Uuid::parse("61626364-6566-8768-a96a-6b6c6d6e6f70"), Ok(u));
    assert_eq!(Uuid::from_bytes(*b"abcdefghijklmnop").as_bytes(), b"abcdefghijklmnop");
}

#[test]
fn uuid_parse_either_case() {
    let u = Uuid::new(*b"abcdefghijklmnop");
    assert_eq!(Uuid::parse("61626364-6566-8768-A96A-6B6C6D6E6F70"), Ok(u));
    assert_eq!(
        Uuid::parse("00000000-0000-0000-0000-00000000000A").unwrap().hyphenated(),
        "00000000-0000-0000-0000-00000000000a"
    );
    assert_eq!(Uuid::parse("6162636465668768a96a6b6c6d6e6f70"), Err(ParseError::Format));
    assert_eq!(Uuid::parse("{61626364-6566-8768-a96a-6b6c6d6e6f70}"), Err(ParseError::Format));
    assert_eq!(Uuid::parse("not-a-uuid"), Err(ParseError::Format));
}

#[test]
fn date_rfc3339() {
    let d: Date = "2022-09-23T23:24:59Z".parse().unwrap();
    assert_eq!(d.unix_nanos(), 1_663_975_499_000_000_000);
    assert_eq!(d.offset_seconds(), 0);
    assert_eq!(d.as_str(), "2022-09-23T23:24:59Z");
    assert_eq!(d.encode(), text("2022-09-23T23:24:59Z"));
    assert_eq!(Date::decode_value(&d.encode()), Ok(d));
    let d = Date::parse("2022-09-23T23:24:59+02:00").unwrap();
    assert_eq!(d.offset_seconds(), 7200);
    assert_eq!(d.unix_nanos(), 1_663_968_299_000_000_000);
    assert_eq!(d.as_str(), "2022-09-23T23:24:59+02:00");
    let other = Date::parse("2022-09-23T21:24:59.000+02:00").unwrap();
    assert_eq!(other.unix_nanos(), 1_663_961_099_000_000_000);
    assert_ne!(other, d);
    let same = Date::parse("2022-09-23T23:24:59.0+02:00").unwrap();
    assert_eq!(same, d);
    assert_eq!(same.encode(), d.encode());
    assert_eq!(same.as_str(), "2022-09-23T23:24:59+02:00");
    let frac = Date::parse("2022-09-23T23:24:59.250Z").unwrap();
    assert_eq!(Date::decode_value(&frac.encode()), Ok(frac));
    assert_eq!(Date::decode_value(&Value::Integer(0)), Err(DecodeError::InvalidType));
    assert_eq!(Date::decode_value(&text("now")), Err(DecodeError::Scalar(ParseError::Format)));
    assert_eq!(Date::parse("2022-09-23T23:24:59"), Err(ParseError::Format));
    assert_eq!(Date::parse("yesterday"), Err(ParseError::Format));
}

#[test]
fn version_tag() {
    assert_eq!(VconVersion::default().as_str(), "0.0.1");
    let v = VconVersion::new("v1.0");
    assert_eq!(v.encode(), vec![entry("vcon", text("v1.0"))]);
    assert_eq!(VconVersion::decode_fields(&v.encode()), Ok(v));
    assert_eq!(VconVersion::decode_fields(&vec![]), Err(DecodeError::MissingField));
}

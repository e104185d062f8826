use vcon_types::{
    Backend, Content, ContentParameters, DecodeError, Dialog, DialogObject, DialogParties,
    Duration, Event, InlineContent, Mime, Value,
};

fn text(s: &str) -> Value {
    Value::Text(s.to_string())
}

fn entry(k: &str, v: Value) -> (String, Value) {
    (k.to_string(), v)
}

fn text_dialog() -> DialogObject {
    DialogObject {
        start: "2022-09-23T23:24:59Z".parse().unwrap(),
        party_history: Default::default(),
        campaign: Default::default(),
        interaction: Default::default(),
        dialog: Dialog::Text {
            duration: Some(Duration::Int(0)),
            parties: DialogParties::List(vec![0, 1]),
            content_parameters: ContentParameters {
                mime: Some(Mime::new("text/plain".to_string())),
                filename: None,
            },
            originator: Default::default(),
            content: Content::Inline(InlineContent::TextNone("Hi Bob".into())),
        },
    }
}

#[test]
fn json_text() {
    let actual_ser = text_dialog().encode(Backend::Text);
    let expected = vec![
        entry("start", text("2022-09-23T23:24:59Z")),
        entry("type", text("text")),
        entry("duration", Value::Integer(0)),
        entry("parties", Value::Array(vec![Value::Integer(0), Value::Integer(1)])),
        entry("mimetype", text("text/plain")),
        entry("encoding", text("none")),
        entry("body", text("Hi Bob")),
    ];
    assert_eq!(expected, actual_ser);
    let deser = DialogObject::decode_fields(expected, Backend::Text).unwrap();
    assert_eq!(text_dialog(), deser);
}

#[test]
fn dialog_kinds() {
    let transfer = vec![
        entry("type", text("transfer")),
        entry("transferee", Value::Integer(0)),
        entry("transferor", Value::Integer(1)),
        entry("transfer_target", Value::Integer(2)),
        entry("original", Value::Integer(0)),
        entry("target_dialog", Value::Integer(1)),
    ];
    let d = Dialog::decode_fields(&transfer, Backend::Text).unwrap();
    assert_eq!(
        d,
        Dialog::Transfer {
            transferee: 0,
            transferor: 1,
            transfer_target: 2,
            original: 0,
            consultation: None,
            target_dialog: 1,
        }
    );
    assert_eq!(d.encode(Backend::Text), transfer);
    let incomplete = vec![entry("type", text("incomplete")), entry("disposition", text("no-answer"))];
    let d = Dialog::decode_fields(&incomplete, Backend::Binary).unwrap();
    assert_eq!(d, Dialog::Incomplete { disposition: "no-answer".to_string() });
    assert_eq!(d.encode(Backend::Binary), incomplete);
}

#[test]
fn recording_with_reference_and_float_duration() {
    let fields = vec![
        entry("start", text("2022-09-23T23:24:59Z")),
        entry("type", text("recording")),
        entry("duration", Value::Float(12.5f64.to_bits())),
        entry("parties", Value::Integer(1)),
        entry("url", text("https://example.com/call.wav")),
        entry("alg", text("SHA-256")),
        entry("signature", text(&"A".repeat(43))),
    ];
    let d = DialogObject::decode_fields(fields, Backend::Text).unwrap();
    match &d.dialog {
        Dialog::Recording { duration, parties, content, .. } => {
            assert_eq!(*duration, Some(Duration::Float(12.5f64.to_bits())));
            assert_eq!(*parties, DialogParties::Index(1));
            assert!(matches!(content, Content::UrlReferenced(_)));
        }
        other => panic!("expected a recording, got {other:?}"),
    }
}

#[test]
fn dialog_errors() {
    assert_eq!(
        Dialog::decode_fields(&vec![entry("type", text("video"))], Backend::Text),
        Err(DecodeError::UnknownLabel)
    );
    assert_eq!(Dialog::decode_fields(&vec![], Backend::Text), Err(DecodeError::MissingField));
    let no_parties = vec![entry("type", text("text")), entry("encoding", text("none")), entry("body", text("x"))];
    assert_eq!(Dialog::decode_fields(&no_parties, Backend::Text), Err(DecodeError::MissingField));
    let no_start = vec![entry("type", text("incomplete")), entry("disposition", text("busy"))];
    assert_eq!(DialogObject::decode_fields(no_start, Backend::Text), Err(DecodeError::MissingField));
}

#[test]
fn dialog_party_history() {
    let event = |e: &str| {
        Value::Object(vec![
            entry("party", Value::Integer(0)),
            entry("event", text(e)),
            entry("time", text("2022-09-23T23:25:00Z")),
        ])
    };
    let fields = vec![
        entry("start", text("2022-09-23T23:24:59Z")),
        entry("party_history", Value::Array(vec![event("join"), event("drop")])),
        entry("type", text("incomplete")),
        entry("disposition", text("hung-up")),
    ];
    let d = DialogObject::decode_fields(fields, Backend::Text).unwrap();
    let h = d.party_history.as_ref().unwrap();
    assert_eq!(h.len(), 2);
    assert_eq!(h[0].event, Event::Join);
    assert_eq!(h[1].event, Event::Drop);
    let out = d.encode(Backend::Text);
    assert_eq!(out[1], entry("party_history", Value::Array(vec![event("join"), event("drop")])));
    let bad = vec![
        entry("start", text("2022-09-23T23:24:59Z")),
        entry("party_history", Value::Array(vec![event("join"), Value::Integer(3)])),
        entry("type", text("incomplete")),
        entry("disposition", text("hung-up")),
    ];
    assert_eq!(DialogObject::decode_fields(bad, Backend::Text), Err(DecodeError::InvalidType));
}

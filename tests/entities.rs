use vcon_types::{
    Attachment, Backend, CivicAddress, Content, DecodeError, DialogParties, Event, InlineContent,
    ParseError, Party, PartyEvent, Uuid, Value,
};

fn text(s: &str) -> Value {
    Value::Text(s.to_string())
}

fn entry(k: &str, v: Value) -> (String, Value) {
    (k.to_string(), v)
}

#[test]
fn civic_address_round_trip_with_extensions() {
    let fields = vec![
        entry("country", text("US")),
        entry("a1", text("CA")),
        entry("pc", text("94105")),
        entry("floor_plan", Value::Integer(3)),
    ];
    let a = CivicAddress::decode_fields(fields).unwrap();
    assert_eq!(a.country.as_deref(), Some("US"));
    assert_eq!(a.a1.as_deref(), Some("CA"));
    assert_eq!(a.a2, None);
    assert_eq!(a.pc.as_deref(), Some("94105"));
    assert_eq!(a.extension_object.fields, vec![entry("floor_plan", Value::Integer(3))]);
    let out = a.encode();
    assert_eq!(
        out,
        vec![
            entry("country", text("US")),
            entry("a1", text("CA")),
            entry("pc", text("94105")),
            entry("floor_plan", Value::Integer(3)),
        ]
    );
}

#[test]
fn civic_address_element_must_be_text() {
    let fields = vec![entry("country", text("US")), entry("a3", Value::Bool(true))];
    assert_eq!(CivicAddress::decode_fields(fields), Err(DecodeError::InvalidType));
}

#[test]
fn party_decode_encode() {
    let fields = vec![
        entry("tel", text("+1-555-0100")),
        entry("name", text("Alice")),
        entry(
            "civic_address",
            Value::Object(vec![entry("country", text("FR")), entry("x-note", text("kept"))]),
        ),
        entry("uuid", text("61626364-6566-8768-a96a-6b6c6d6e6f70")),
        entry("role", text("agent")),
        entry("x-custom", Value::Array(vec![Value::Integer(1)])),
    ];
    let p = Party::decode_fields(fields).unwrap();
    assert_eq!(p.tel.as_deref(), Some("+1-555-0100"));
    assert_eq!(p.name.as_deref(), Some("Alice"));
    assert_eq!(p.role.as_deref(), Some("agent"));
    assert_eq!(p.uuid, Some(Uuid::new(*b"abcdefghijklmnop")));
    let addr = p.civic_address.as_ref().unwrap();
    assert_eq!(addr.country.as_deref(), Some("FR"));
    assert_eq!(addr.extension_object.fields, vec![entry("x-note", text("kept"))]);
    assert_eq!(
        p.extension_object.fields,
        vec![entry("x-custom", Value::Array(vec![Value::Integer(1)]))]
    );
    let out = p.encode();
    assert_eq!(
        out,
        vec![
            entry("tel", text("+1-555-0100")),
            entry("name", text("Alice")),
            entry(
                "civic_address",
                Value::Object(vec![entry("country", text("FR")), entry("x-note", text("kept"))]),
            ),
            entry("uuid", text("61626364-6566-8768-a96a-6b6c6d6e6f70")),
            entry("role", text("agent")),
            entry("x-custom", Value::Array(vec![Value::Integer(1)])),
        ]
    );
}

#[test]
fn party_errors() {
    assert_eq!(
        Party::decode_fields(vec![entry("uuid", text("not-a-uuid"))]),
        Err(DecodeError::Scalar(ParseError::Format))
    );
    assert_eq!(
        Party::decode_fields(vec![entry("civic_address", text("Main St"))]),
        Err(DecodeError::InvalidType)
    );
    assert_eq!(
        Party::decode_fields(vec![entry("mailto", Value::Null)]),
        Err(DecodeError::InvalidType)
    );
    let empty = Party::decode_fields(vec![]).unwrap();
    assert_eq!(empty, Party::default());
}

#[test]
fn dialog_parties_forms() {
    assert_eq!(DialogParties::decode_value(&Value::Integer(2)), Ok(DialogParties::Index(2)));
    let list = Value::Array(vec![Value::Integer(0), Value::Integer(1)]);
    assert_eq!(DialogParties::decode_value(&list), Ok(DialogParties::List(vec![0, 1])));
    assert_eq!(DialogParties::List(vec![0, 1]).encode(), list);
    assert_eq!(DialogParties::Index(7).encode(), Value::Integer(7));
    assert_eq!(
        DialogParties::decode_value(&Value::Integer(-1)),
        Err(DecodeError::InvalidType)
    );
    assert_eq!(
        DialogParties::decode_value(&Value::Array(vec![Value::Integer(0), text("1")])),
        Err(DecodeError::InvalidType)
    );
    assert_eq!(DialogParties::decode_value(&text("0")), Err(DecodeError::InvalidType));
}

#[test]
fn event_labels() {
    for e in [Event::Join, Event::Drop, Event::Hold, Event::Unhold, Event::Mute, Event::Unmute] {
        assert_eq!(Event::from_label(e.label()), Some(e));
    }
    assert_eq!(Event::Unhold.label(), "unhold");
    assert_eq!(Event::from_label("leave"), None);
}

#[test]
fn attachment_decode_encode() {
    let fields = vec![
        entry("type", text("transcript")),
        entry("start", text("2022-09-23T23:24:59Z")),
        entry("party", Value::Integer(1)),
        entry("filename", text("notes.txt")),
        entry("encoding", text("none")),
        entry("body", text("hello")),
        entry("x-tag", Value::Bool(false)),
    ];
    let a = Attachment::decode_fields(fields, Backend::Text).unwrap();
    assert_eq!(a.typ, "transcript");
    assert_eq!(a.start.as_str(), "2022-09-23T23:24:59Z");
    assert_eq!(a.party, 1);
    assert_eq!(a.content_parameters.filename.as_deref(), Some("notes.txt"));
    assert_eq!(a.content, Content::Inline(InlineContent::TextNone("hello".to_string())));
    assert_eq!(a.extension_object.fields, vec![entry("x-tag", Value::Bool(false))]);
    assert_eq!(
        a.encode(Backend::Text),
        vec![
            entry("type", text("transcript")),
            entry("start", text("2022-09-23T23:24:59Z")),
            entry("party", Value::Integer(1)),
            entry("filename", text("notes.txt")),
            entry("encoding", text("none")),
            entry("body", text("hello")),
            entry("x-tag", Value::Bool(false)),
        ]
    );
}

#[test]
fn attachment_errors() {
    let missing_start = vec![
        entry("type", text("t")),
        entry("party", Value::Integer(1)),
        entry("encoding", text("none")),
        entry("body", text("x")),
    ];
    assert_eq!(
        Attachment::decode_fields(missing_start, Backend::Text),
        Err(DecodeError::MissingField)
    );
    let bad_start = vec![
        entry("type", text("t")),
        entry("start", text("2022-09-23")),
        entry("party", Value::Integer(1)),
    ];
    assert_eq!(
        Attachment::decode_fields(bad_start, Backend::Text),
        Err(DecodeError::Scalar(ParseError::Format))
    );
}

#[test]
fn party_event_decode_encode() {
    let fields = vec![
        entry("party", Value::Integer(0)),
        entry("event", text("hold")),
        entry("time", text("2022-09-23T23:24:59Z")),
        entry("reason", text("transfer")),
    ];
    let e = PartyEvent::decode_fields(fields).unwrap();
    assert_eq!(e.party, 0);
    assert_eq!(e.event, Event::Hold);
    assert_eq!(e.time.unix_nanos(), 1_663_975_499_000_000_000);
    assert_eq!(e.extension_object.fields, vec![entry("reason", text("transfer"))]);
    assert_eq!(
        e.encode(),
        vec![
            entry("party", Value::Integer(0)),
            entry("event", text("hold")),
            entry("time", text("2022-09-23T23:24:59Z")),
            entry("reason", text("transfer")),
        ]
    );
    let unknown = vec![
        entry("party", Value::Integer(0)),
        entry("event", text("ring")),
        entry("time", text("2022-09-23T23:24:59Z")),
    ];
    assert_eq!(PartyEvent::decode_fields(unknown), Err(DecodeError::UnknownLabel));
}

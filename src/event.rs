use vstd::prelude::*;

use crate::attachment::required_date;
use crate::date::{date_entry, Date, DateView};
use crate::error::DecodeError;
use crate::extension::{lemma_entity_extensions, merged, names, unclaimed, ExtensionObject};
use crate::record::{decode_required_index, int_entry, push_known, required_index, text_entry};
use crate::value::{field, keys_within, lookup, text_is, Value};

verus! {

/// What happened to a party during a dialog.
#[derive(Debug, Clone, Copy, PartialEq, Eq, Hash, Structural)]
pub enum Event {
    Join,
    Drop,
    Hold,
    Unhold,
    Mute,
    Unmute,
}

impl Event {
    /// The lower-case label on the wire.
    pub fn label(&self) -> (r: &'static str)
        ensures
            r@ == self.spec_label(),
            event_of_label(r@) == Some(*self),
    {
        proof {
            lemma_label_names_event(*self);
        }
        match self {
            Event::Join => "join",
            Event::Drop => "drop",
            Event::Hold => "hold",
            Event::Unhold => "unhold",
            Event::Mute => "mute",
            Event::Unmute => "unmute",
        }
    }

    /// The event that a label names.
    pub fn from_label(s: &str) -> (r: Option<Event>)
        ensures
            r == event_of_label(s@),
    {
        if text_is(s, "join") {
            Some(Event::Join)
        } else if text_is(s, "drop") {
            Some(Event::Drop)
        } else if text_is(s, "hold") {
            Some(Event::Hold)
        } else if text_is(s, "unhold") {
            Some(Event::Unhold)
        } else if text_is(s, "mute") {
            Some(Event::Mute)
        } else if text_is(s, "unmute") {
            Some(Event::Unmute)
        } else {
            None
        }
    }

    pub open spec fn spec_label(self) -> Seq<char> {
        match self {
            Event::Join => "join"@,
            Event::Drop => "drop"@,
            Event::Hold => "hold"@,
            Event::Unhold => "unhold"@,
            Event::Mute => "mute"@,
            Event::Unmute => "unmute"@,
        }
    }
}

/// The event that a label names.
pub open spec fn event_of_label(s: Seq<char>) -> Option<Event> {
    if s == "join"@ {
        Some(Event::Join)
    } else if s == "drop"@ {
        Some(Event::Drop)
    } else if s == "hold"@ {
        Some(Event::Hold)
    } else if s == "unhold"@ {
        Some(Event::Unhold)
    } else if s == "mute"@ {
        Some(Event::Mute)
    } else if s == "unmute"@ {
        Some(Event::Unmute)
    } else {
        None
    }
}

/// An event of a party at a given time.
#[derive(Debug, PartialEq)]
pub struct PartyEvent {
    pub party: u32,
    pub event: Event,
    pub time: Date,
    pub extension_object: ExtensionObject,
}

/// What a party event holds.
pub struct PartyEventView {
    pub party: u32,
    pub event: Event,
    pub time: DateView,
    pub extension: Seq<(String, Value)>,
}

impl View for PartyEvent {
    type V = PartyEventView;

    open spec fn view(&self) -> PartyEventView {
        PartyEventView {
            party: self.party,
            event: self.event,
            time: self.time@,
            extension: self.extension_object.fields@,
        }
    }
}

/// The keys that a party event names.
pub open spec fn party_event_keys() -> Seq<Seq<char>> {
    seq!["party"@, "event"@, "time"@]
}

/// Whether `named` is the wire form of the named fields of event `v`:
/// `party`, `event` with its label, `time`.
pub open spec fn party_event_named(named: Seq<(String, Value)>, v: PartyEventView) -> bool {
    &&& named.len() == 3
    &&& int_entry(named[0], "party"@, v.party as int)
    &&& text_entry(named[1], "event"@, v.event.spec_label())
    &&& date_entry(named[2], "time"@, v.time)
}

/// Whether `r` is the wire form of party event `v`: its named fields, then
/// the extensions whose keys none of them has.
pub open spec fn party_event_encoding(r: Seq<(String, Value)>, v: PartyEventView) -> bool {
    exists|named: Seq<(String, Value)>|
        {
            &&& r == merged(named, v.extension)
            &&& party_event_named(named, v)
            &&& keys_within(named, party_event_keys())
        }
}

/// The event of a required field: a known label.
pub open spec fn required_event(v: Option<Value>) -> Result<Event, DecodeError> {
    match v {
        None => Err(DecodeError::MissingField),
        Some(Value::Text(t)) => match event_of_label(t@) {
            Some(e) => Ok(e),
            None => Err(DecodeError::UnknownLabel),
        },
        Some(_) => Err(DecodeError::InvalidType),
    }
}

/// The party event of a field list: `party`, `event` and `time`, checked in
/// that order; the other fields are its extensions.
pub open spec fn party_event_of_fields(fields: Seq<(String, Value)>) -> Result<
    PartyEventView,
    DecodeError,
> {
    match required_index(lookup(fields, "party"@)) {
        Err(e) => Err(e),
        Ok(party) => match required_event(lookup(fields, "event"@)) {
            Err(e) => Err(e),
            Ok(event) => match required_date(lookup(fields, "time"@)) {
                Err(e) => Err(e),
                Ok(time) => Ok(
                    PartyEventView {
                        party,
                        event,
                        time,
                        extension: unclaimed(fields, party_event_keys()),
                    },
                ),
            },
        },
    }
}

/// Each label names its own event.
pub proof fn lemma_label_names_event(e: Event)
    ensures
        event_of_label(e.spec_label()) == Some(e),
{
    reveal_strlit("join");
    reveal_strlit("drop");
    reveal_strlit("hold");
    reveal_strlit("unhold");
    reveal_strlit("mute");
    reveal_strlit("unmute");
    assert("join"@[0] != "drop"@[0] && "join"@[0] != "hold"@[0] && "drop"@[0] != "hold"@[0]);
    assert("join"@[0] != "mute"@[0] && "drop"@[0] != "mute"@[0] && "hold"@[0] != "mute"@[0]);
    assert("unhold"@[2] != "unmute"@[2]);
}

impl PartyEvent {
    /// The party event of a field list; the fields that it does not name are
    /// kept as its extensions.
    pub fn decode_fields(fields: Vec<(String, Value)>) -> (r: Result<PartyEvent, DecodeError>)
        ensures
            match r {
                Ok(p) => party_event_of_fields(fields@) == Ok::<_, DecodeError>(p@),
                Err(e) => party_event_of_fields(fields@) == Err::<PartyEventView, _>(e),
            },
    {
        let party = match decode_required_index(&fields, "party") {
            Ok(p) => p,
            Err(e) => {
                return Err(e);
            },
        };
        let event = match field(&fields, "event") {
            None => {
                return Err(DecodeError::MissingField);
            },
            Some(Value::Text(t)) => match Event::from_label(t.as_str()) {
                Some(e) => e,
                None => {
                    return Err(DecodeError::UnknownLabel);
                },
            },
            Some(_) => {
                return Err(DecodeError::InvalidType);
            },
        };
        let time = match field(&fields, "time") {
            None => {
                return Err(DecodeError::MissingField);
            },
            Some(v) => match Date::decode_value(v) {
                Ok(d) => d,
                Err(e) => {
                    return Err(e);
                },
            },
        };
        let known = vec!["party", "event", "time"];
        assert(names(known@) =~= party_event_keys());
        let extension_object = ExtensionObject::capture(fields, known.as_slice());
        Ok(PartyEvent { party, event, time, extension_object })
    }

    /// The wire form: `party`, `event` with its label and `time`, then the
    /// extensions whose keys none of them has. Extensions under other keys
    /// come out unchanged and are captured again.
    pub fn encode(self) -> (r: Vec<(String, Value)>)
        ensures
            party_event_encoding(r@, self@),
            (forall|i: int|
                0 <= i < self@.extension.len() ==> !party_event_keys().contains(
                    #[trigger] self@.extension[i].0@,
                )) ==> unclaimed(r@, party_event_keys()) == self@.extension,
    {
        let ghost ext = self.extension_object.fields@;
        let ghost k = party_event_keys();
        let known = vec!["party", "event", "time"];
        assert(names(known@) =~= k);
        assert(k[0] == known@[0]@ && k[1] == known@[1]@ && k[2] == known@[2]@);
        let ghost v = self@;
        let mut named: Vec<(String, Value)> = Vec::new();
        push_known(&mut named, known[0], Value::Integer(self.party as i128), Ghost(k));
        let ghost n1 = named@;
        push_known(&mut named, known[1], Value::Text(self.event.label().to_owned()), Ghost(k));
        let ghost n2 = named@;
        push_known(&mut named, known[2], self.time.encode(), Ghost(k));
        let ghost named_final = named@;
        proof {
            assert(named_final.drop_last() == n2 && n2.drop_last() == n1);
            assert(named_final[0] == n1[0] && named_final[1] == n2[1]);
            assert(party_event_named(named_final, v));
        }
        let r = ExtensionObject::merge(named, self.extension_object);
        proof {
            if forall|i: int| 0 <= i < ext.len() ==> !k.contains(#[trigger] ext[i].0@) {
                lemma_entity_extensions(named_final, ext, k);
            }
        }
        r
    }
}

} // verus!

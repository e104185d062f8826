use vstd::prelude::*;

use crate::attachment::required_date;
use crate::content::{content_encodable, content_fields, content_of_fields, Content, ContentView};
use crate::date::{date_entry, Date, DateView};
use crate::event::{party_event_encoding, party_event_of_fields, PartyEvent, PartyEventView};
use crate::error::{view_result, DecodeError};
use crate::extension::names;
use crate::mime::{parameters_of_fields, params_fields, ContentParameters, ParametersView};
use crate::record::{
    decode_optional_text,
    decode_required_index,
    decode_required_text,
    int_entry,
    opt_view,
    opt_views,
    optional_text,
    optional_text_fields,
    push_optional_texts,
    required_index,
    required_text,
    take_field,
    text_entry,
};
use crate::value::{field, lemma_lookup_absent, lemma_lookup_at, lookup, text_is, Backend, Value};

verus! {

/// The parties of a dialog: one index, or a list of indices.
#[derive(Debug, Clone, PartialEq, Eq, Hash)]
pub enum DialogParties {
    Index(u32),
    List(Vec<u32>),
}

/// The party index that a value holds: an integer that fits in 32 bits.
pub open spec fn index_of_value(v: Value) -> Option<u32> {
    match v {
        Value::Integer(n) => if 0 <= n <= u32::MAX {
            Some(n as u32)
        } else {
            None
        },
        _ => None,
    }
}

/// Whether every value of `items` is a party index.
pub open spec fn all_indices(items: Seq<Value>) -> bool {
    forall|j: int| 0 <= j < items.len() ==> (#[trigger] index_of_value(items[j])) is Some
}

/// What the parties of a dialog are: one index, or a list of them.
pub enum PartiesView {
    Index(u32),
    List(Seq<u32>),
}

/// The parties of a `parties` field value: one index, or an array of them.
pub open spec fn parties_of_value(v: Value) -> Result<PartiesView, DecodeError> {
    match v {
        Value::Integer(_) => match index_of_value(v) {
            Some(i) => Ok(PartiesView::Index(i)),
            None => Err(DecodeError::InvalidType),
        },
        Value::Array(items) => if all_indices(items@) {
            Ok(PartiesView::List(items@.map_values(|x: Value| index_of_value(x)->Some_0)))
        } else {
            Err(DecodeError::InvalidType)
        },
        _ => Err(DecodeError::InvalidType),
    }
}

impl View for DialogParties {
    type V = PartiesView;

    open spec fn view(&self) -> PartiesView {
        match self {
            DialogParties::Index(i) => PartiesView::Index(*i),
            DialogParties::List(l) => PartiesView::List(l@),
        }
    }
}

fn index_value(v: &Value) -> (r: Option<u32>)
    ensures
        r == index_of_value(*v),
{
    match v {
        Value::Integer(n) => if 0 <= *n && *n <= 0xffff_ffff {
            Some(*n as u32)
        } else {
            None
        },
        _ => None,
    }
}

impl DialogParties {
    /// Whether every value of `items` is a party index.
pub open spec fn all_indices(items: Seq<Value>) -> bool {
    forall|j: int| 0 <= j < items.len() ==> (#[trigger] index_of_value(items[j])) is Some
}

/// The parties of a `parties` field value; a single index stays one.
    pub fn decode_value(v: &Value) -> (r: Result<DialogParties, DecodeError>)
        ensures
            view_result(r) == parties_of_value(*v),
    {
        match v {
            Value::Integer(_) => match index_value(v) {
                Some(i) => Ok(DialogParties::Index(i)),
                None => Err(DecodeError::InvalidType),
            },
            Value::Array(items) => {
                let mut out: Vec<u32> = Vec::new();
                let mut j: usize = 0;
                while j < items.len()
                    invariant
                        *v == Value::Array(*items),
                        j <= items@.len(),
                        out@.len() == j,
                        forall|k: int| 0 <= k < j ==> index_of_value(items@[k]) == Some(#[trigger] out@[k]),
                    decreases items@.len() - j,
                {
                    match index_value(&items[j]) {
                        Some(i) => out.push(i),
                        None => {
                            assert(!((index_of_value(items@[j as int])) is Some));
                            assert(!all_indices(items@));
                            return Err(DecodeError::InvalidType);
                        },
                    }
                    j = j + 1;
                }
                assert forall|k: int| 0 <= k < items@.len() implies (#[trigger] index_of_value(
                    items@[k],
                )) is Some by {
                    assert(index_of_value(items@[k]) == Some(out@[k]));
                }
                assert(out@ =~= items@.map_values(|x: Value| index_of_value(x)->Some_0));
                Ok(DialogParties::List(out))
            },
            _ => Err(DecodeError::InvalidType),
        }
    }

    /// The wire value: an integer for one index, an array for a list.
    pub fn encode(&self) -> (r: Value)
        ensures
            parties_of_value(r) == Ok::<_, DecodeError>(self@),
    {
        match self {
            DialogParties::Index(i) => Value::Integer(*i as i128),
            DialogParties::List(l) => {
                let mut items: Vec<Value> = Vec::new();
                let mut j: usize = 0;
                while j < l.len()
                    invariant
                        j <= l@.len(),
                        items@.len() == j,
                        forall|k: int| 0 <= k < j ==> #[trigger] items@[k] == Value::Integer(l@[k] as i128),
                    decreases l@.len() - j,
                {
                    items.push(Value::Integer(l[j] as i128));
                    j = j + 1;
                }
                assert forall|k: int| 0 <= k < items@.len() implies (#[trigger] index_of_value(items@[k])) is Some by {
                    assert(items@[k] == Value::Integer(l@[k] as i128));
                }
                assert(items@.map_values(|x: Value| index_of_value(x)->Some_0) =~= l@);
                Value::Array(items)
            },
        }
    }
}

/// The length of a dialog in seconds: whole, or a binary64 number held as its
/// IEEE 754 bit pattern.
#[derive(Debug, Clone, Copy, PartialEq, Eq, Hash, Structural)]
pub enum Duration {
    Int(u32),
    Float(u64),
}

/// What a dialog is, with the fields of its kind.
#[derive(Debug, PartialEq)]
pub enum Dialog {
    Recording {
        duration: Option<Duration>,
        parties: DialogParties,
        originator: Option<u32>,
        content_parameters: ContentParameters,
        content: Content,
    },
    Text {
        duration: Option<Duration>,
        parties: DialogParties,
        originator: Option<u32>,
        content_parameters: ContentParameters,
        content: Content,
    },
    Transfer {
        transferee: u32,
        transferor: u32,
        transfer_target: u32,
        original: u32,
        consultation: Option<u32>,
        target_dialog: u32,
    },
    Incomplete { disposition: String },
}

/// A dialog of the conversation.
#[derive(Debug, PartialEq)]
pub struct DialogObject {
    pub start: Date,
    pub party_history: Option<Vec<PartyEvent>>,
    pub campaign: Option<String>,
    pub interaction: Option<String>,
    pub dialog: Dialog,
}

/// What a recorded or text dialog holds.
pub struct MediaView {
    pub duration: Option<Duration>,
    pub parties: PartiesView,
    pub originator: Option<u32>,
    pub content_parameters: ParametersView,
    pub content: ContentView,
}

/// What a transfer holds.
pub struct TransferView {
    pub transferee: u32,
    pub transferor: u32,
    pub transfer_target: u32,
    pub original: u32,
    pub consultation: Option<u32>,
    pub target_dialog: u32,
}

/// What a dialog is and holds.
pub enum DialogView {
    Recording(MediaView),
    Text(MediaView),
    Transfer(TransferView),
    Incomplete(Seq<char>),
}

impl View for Dialog {
    type V = DialogView;

    open spec fn view(&self) -> DialogView {
        match self {
            Dialog::Recording { duration, parties, originator, content_parameters, content } => {
                DialogView::Recording(
                    MediaView {
                        duration: *duration,
                        parties: parties@,
                        originator: *originator,
                        content_parameters: content_parameters@,
                        content: content@,
                    },
                )
            },
            Dialog::Text { duration, parties, originator, content_parameters, content } => {
                DialogView::Text(
                    MediaView {
                        duration: *duration,
                        parties: parties@,
                        originator: *originator,
                        content_parameters: content_parameters@,
                        content: content@,
                    },
                )
            },
            Dialog::Transfer {
                transferee,
                transferor,
                transfer_target,
                original,
                consultation,
                target_dialog,
            } => DialogView::Transfer(
                TransferView {
                    transferee: *transferee,
                    transferor: *transferor,
                    transfer_target: *transfer_target,
                    original: *original,
                    consultation: *consultation,
                    target_dialog: *target_dialog,
                },
            ),
            Dialog::Incomplete { disposition } => DialogView::Incomplete(disposition@),
        }
    }
}

/// The optional index of a field: absent, or an integer that fits in 32 bits.
pub open spec fn optional_index(v: Option<Value>) -> Result<Option<u32>, DecodeError> {
    match v {
        None => Ok(None),
        Some(x) => match index_of_value(x) {
            Some(i) => Ok(Some(i)),
            None => Err(DecodeError::InvalidType),
        },
    }
}

/// The optional duration of a field: absent, a whole number of seconds, or
/// a floating-point number.
pub open spec fn optional_duration(v: Option<Value>) -> Result<Option<Duration>, DecodeError> {
    match v {
        None => Ok(None),
        Some(Value::Float(b)) => Ok(Some(Duration::Float(b))),
        Some(x) => match index_of_value(x) {
            Some(i) => Ok(Some(Duration::Int(i))),
            None => Err(DecodeError::InvalidType),
        },
    }
}

/// The parties of a required `parties` field.
pub open spec fn required_parties(v: Option<Value>) -> Result<PartiesView, DecodeError> {
    match v {
        None => Err(DecodeError::MissingField),
        Some(x) => parties_of_value(x),
    }
}

/// The fields of a recorded or text dialog, checked in order: `duration`,
/// `parties`, `originator`, the content parameters, the content.
pub open spec fn media_of_fields(fields: Seq<(String, Value)>, backend: Backend) -> Result<
    MediaView,
    DecodeError,
> {
    match optional_duration(lookup(fields, "duration"@)) {
        Err(e) => Err(e),
        Ok(duration) => match required_parties(lookup(fields, "parties"@)) {
            Err(e) => Err(e),
            Ok(parties) => match optional_index(lookup(fields, "originator"@)) {
                Err(e) => Err(e),
                Ok(originator) => match parameters_of_fields(fields) {
                    Err(e) => Err(e),
                    Ok(content_parameters) => match content_of_fields(fields, backend) {
                        Err(e) => Err(e),
                        Ok(content) => Ok(
                            MediaView { duration, parties, originator, content_parameters, content },
                        ),
                    },
                },
            },
        },
    }
}

/// The fields of a transfer, checked in order.
pub open spec fn transfer_of_fields(fields: Seq<(String, Value)>) -> Result<TransferView, DecodeError> {
    match required_index(lookup(fields, "transferee"@)) {
        Err(e) => Err(e),
        Ok(transferee) => match required_index(lookup(fields, "transferor"@)) {
            Err(e) => Err(e),
            Ok(transferor) => match required_index(lookup(fields, "transfer_target"@)) {
                Err(e) => Err(e),
                Ok(transfer_target) => match required_index(lookup(fields, "original"@)) {
                    Err(e) => Err(e),
                    Ok(original) => match optional_index(lookup(fields, "consultation"@)) {
                        Err(e) => Err(e),
                        Ok(consultation) => match required_index(lookup(fields, "target_dialog"@)) {
                            Err(e) => Err(e),
                            Ok(target_dialog) => Ok(
                                TransferView {
                                    transferee,
                                    transferor,
                                    transfer_target,
                                    original,
                                    consultation,
                                    target_dialog,
                                },
                            ),
                        },
                    },
                },
            },
        },
    }
}

/// The dialog of a field list, chosen by its `type` field.
pub open spec fn dialog_of_fields(fields: Seq<(String, Value)>, backend: Backend) -> Result<
    DialogView,
    DecodeError,
> {
    match lookup(fields, "type"@) {
        None => Err(DecodeError::MissingField),
        Some(Value::Text(t)) => if t@ == "recording"@ {
            match media_of_fields(fields, backend) {
                Ok(m) => Ok(DialogView::Recording(m)),
                Err(e) => Err(e),
            }
        } else if t@ == "text"@ {
            match media_of_fields(fields, backend) {
                Ok(m) => Ok(DialogView::Text(m)),
                Err(e) => Err(e),
            }
        } else if t@ == "transfer"@ {
            match transfer_of_fields(fields) {
                Ok(x) => Ok(DialogView::Transfer(x)),
                Err(e) => Err(e),
            }
        } else if t@ == "incomplete"@ {
            match required_text(lookup(fields, "disposition"@)) {
                Ok(d) => Ok(DialogView::Incomplete(d)),
                Err(e) => Err(e),
            }
        } else {
            Err(DecodeError::UnknownLabel)
        },
        Some(_) => Err(DecodeError::InvalidType),
    }
}

fn decode_optional_index(fields: &Vec<(String, Value)>, key: &str) -> (r: Result<Option<u32>, DecodeError>)
    ensures
        r == optional_index(lookup(fields@, key@)),
{
    match field(fields, key) {
        None => Ok(None),
        Some(v) => match index_value(v) {
            Some(i) => Ok(Some(i)),
            None => Err(DecodeError::InvalidType),
        },
    }
}

fn decode_optional_duration(fields: &Vec<(String, Value)>, key: &str) -> (r: Result<
    Option<Duration>,
    DecodeError,
>)
    ensures
        r == optional_duration(lookup(fields@, key@)),
{
    match field(fields, key) {
        None => Ok(None),
        Some(Value::Float(b)) => Ok(Some(Duration::Float(*b))),
        Some(v) => match index_value(v) {
            Some(i) => Ok(Some(Duration::Int(i))),
            None => Err(DecodeError::InvalidType),
        },
    }
}

/// The dialog of the media fields, as a text dialog or a recording.
pub open spec fn media_dialog(m: Result<MediaView, DecodeError>, text: bool) -> Result<
    DialogView,
    DecodeError,
> {
    match m {
        Ok(m) => if text {
            Ok(DialogView::Text(m))
        } else {
            Ok(DialogView::Recording(m))
        },
        Err(e) => Err(e),
    }
}

fn decode_media(fields: &Vec<(String, Value)>, backend: Backend, text: bool) -> (r: Result<
    Dialog,
    DecodeError,
>)
    ensures
        view_result(r) == media_dialog(media_of_fields(fields@, backend), text),
{
    let duration = match decode_optional_duration(fields, "duration") {
        Ok(d) => d,
        Err(e) => {
            return Err(e);
        },
    };
    let parties = match field(fields, "parties") {
        None => {
            return Err(DecodeError::MissingField);
        },
        Some(v) => match DialogParties::decode_value(v) {
            Ok(p) => p,
            Err(e) => {
                return Err(e);
            },
        },
    };
    let originator = match decode_optional_index(fields, "originator") {
        Ok(o) => o,
        Err(e) => {
            return Err(e);
        },
    };
    let content_parameters = match ContentParameters::decode_fields(fields) {
        Ok(p) => p,
        Err(e) => {
            return Err(e);
        },
    };
    let content = match Content::decode_fields(fields, backend) {
        Ok(c) => c,
        Err(e) => {
            return Err(e);
        },
    };
    if text {
        Ok(Dialog::Text { duration, parties, originator, content_parameters, content })
    } else {
        Ok(Dialog::Recording { duration, parties, originator, content_parameters, content })
    }
}

fn decode_transfer(fields: &Vec<(String, Value)>) -> (r: Result<Dialog, DecodeError>)
    ensures
        view_result(r) == match transfer_of_fields(fields@) {
            Ok(x) => Ok(DialogView::Transfer(x)),
            Err(e) => Err(e),
        },
{
    let transferee = match decode_required_index(fields, "transferee") {
        Ok(i) => i,
        Err(e) => {
            return Err(e);
        },
    };
    let transferor = match decode_required_index(fields, "transferor") {
        Ok(i) => i,
        Err(e) => {
            return Err(e);
        },
    };
    let transfer_target = match decode_required_index(fields, "transfer_target") {
        Ok(i) => i,
        Err(e) => {
            return Err(e);
        },
    };
    let original = match decode_required_index(fields, "original") {
        Ok(i) => i,
        Err(e) => {
            return Err(e);
        },
    };
    let consultation = match decode_optional_index(fields, "consultation") {
        Ok(i) => i,
        Err(e) => {
            return Err(e);
        },
    };
    let target_dialog = match decode_required_index(fields, "target_dialog") {
        Ok(i) => i,
        Err(e) => {
            return Err(e);
        },
    };
    Ok(
        Dialog::Transfer {
            transferee,
            transferor,
            transfer_target,
            original,
            consultation,
            target_dialog,
        },
    )
}

impl Dialog {
    /// The dialog of a field list, chosen by its `type` field: `recording`,
    /// `text`, `transfer` or `incomplete`.
    pub fn decode_fields(fields: &Vec<(String, Value)>, backend: Backend) -> (r: Result<
        Dialog,
        DecodeError,
    >)
        ensures
            view_result(r) == dialog_of_fields(fields@, backend),
    {
        match field(fields, "type") {
            None => Err(DecodeError::MissingField),
            Some(Value::Text(t)) => {
                if text_is(t.as_str(), "recording") {
                    decode_media(fields, backend, false)
                } else if text_is(t.as_str(), "text") {
                    decode_media(fields, backend, true)
                } else if text_is(t.as_str(), "transfer") {
                    decode_transfer(fields)
                } else if text_is(t.as_str(), "incomplete") {
                    match decode_required_text(fields, "disposition") {
                        Ok(disposition) => Ok(Dialog::Incomplete { disposition }),
                        Err(e) => Err(e),
                    }
                } else {
                    Err(DecodeError::UnknownLabel)
                }
            },
            Some(_) => Err(DecodeError::InvalidType),
        }
    }
}

/// The spec label of a dialog kind.
pub open spec fn kind_label(d: DialogView) -> Seq<char> {
    match d {
        DialogView::Recording(_) => "recording"@,
        DialogView::Text(_) => "text"@,
        DialogView::Transfer(_) => "transfer"@,
        DialogView::Incomplete(_) => "incomplete"@,
    }
}

/// Whether a dialog can be written: its content, where it has one, can.
pub open spec fn dialog_encodable(d: DialogView) -> bool {
    match d {
        DialogView::Recording(m) => content_encodable(m.content),
        DialogView::Text(m) => content_encodable(m.content),
        _ => true,
    }
}

/// Appends the field `key` with index `v`, if there is one.
fn push_optional_index(fields: &mut Vec<(String, Value)>, key: &str, v: Option<u32>)
    ensures
        final(fields)@.len() >= old(fields)@.len(),
        final(fields)@.subrange(0, old(fields)@.len() as int) == old(fields)@,
        match v {
            None => final(fields)@ == old(fields)@,
            Some(i) => final(fields)@ == old(fields)@.push(
                final(fields)@.last(),
            ) && final(fields)@.last().0@ == key@ && final(fields)@.last().1 == Value::Integer(
                i as i128,
            ),
        },
{
    match v {
        Some(i) => fields.push((key.to_owned(), Value::Integer(i as i128))),
        None => {},
    }
    assert(final(fields)@.subrange(0, old(fields)@.len() as int) =~= old(fields)@);
}

/// Whether `f` is the wire form of an optional duration.
pub open spec fn duration_part(f: Seq<(String, Value)>, d: Option<Duration>) -> bool {
    match d {
        None => f.len() == 0,
        Some(Duration::Int(i)) => f.len() == 1 && int_entry(f[0], "duration"@, i as int),
        Some(Duration::Float(b)) => f.len() == 1 && f[0].0@ == "duration"@ && f[0].1 == Value::Float(
            b,
        ),
    }
}

/// Whether `f` is the wire form of an optional index under `key`.
pub open spec fn index_part(f: Seq<(String, Value)>, key: Seq<char>, o: Option<u32>) -> bool {
    match o {
        None => f.len() == 0,
        Some(i) => f.len() == 1 && int_entry(f[0], key, i as int),
    }
}

/// Whether `f` is the wire form of the fields of a recorded or text dialog:
/// `duration` where present, `parties`, `originator` where present, the
/// content parameters, then the content.
pub open spec fn media_fields(f: Seq<(String, Value)>, m: MediaView, backend: Backend) -> bool {
    exists|k1: int, k2: int, k3: int|
        {
            &&& 0 <= k1 < k2 <= k3 <= f.len()
            &&& duration_part(f.subrange(0, k1), m.duration)
            &&& f[k1].0@ == "parties"@
            &&& parties_of_value(f[k1].1) == Ok::<_, DecodeError>(m.parties)
            &&& index_part(f.subrange(k1 + 1, k2), "originator"@, m.originator)
            &&& params_fields(f.subrange(k2, k3), m.content_parameters)
            &&& content_fields(f.subrange(k3, f.len() as int), m.content, backend)
        }
}

/// Whether `f` is the wire form of dialog `d`: `type` with the kind's label,
/// then the kind's fields.
pub open spec fn dialog_fields(f: Seq<(String, Value)>, d: DialogView, backend: Backend) -> bool {
    &&& f.len() >= 1
    &&& text_entry(f[0], "type"@, kind_label(d))
    &&& match d {
        DialogView::Recording(m) => media_fields(f.subrange(1, f.len() as int), m, backend),
        DialogView::Text(m) => media_fields(f.subrange(1, f.len() as int), m, backend),
        _ => dialog_of_fields(f, backend) == Ok::<_, DecodeError>(d),
    }
}

/// The literal keys of a transfer, and the kind labels, are distinct.
proof fn lemma_dialog_literals()
    ensures
        "type"@.len() == 4 && "transferee"@.len() == 10 && "transferor"@.len() == 10,
        "transfer_target"@.len() == 15 && "original"@.len() == 8 && "consultation"@.len() == 12,
        "target_dialog"@.len() == 13 && "disposition"@.len() == 11,
        "transferee"@ != "transferor"@,
        "recording"@.len() == 9 && "text"@.len() == 4 && "transfer"@.len() == 8,
        "incomplete"@.len() == 10,
{
    reveal_strlit("type");
    reveal_strlit("transferee");
    reveal_strlit("transferor");
    reveal_strlit("transfer_target");
    reveal_strlit("original");
    reveal_strlit("consultation");
    reveal_strlit("target_dialog");
    reveal_strlit("disposition");
    reveal_strlit("recording");
    reveal_strlit("text");
    reveal_strlit("transfer");
    reveal_strlit("incomplete");
    assert("transferee"@[8] != "transferor"@[8]);
}

impl Dialog {
    /// The wire form: `type` with the kind's label, then the kind's fields
    /// (`duration`, `parties`, `originator`, the content parameters and the
    /// content; or the transfer's indices; or the `disposition`). A transfer
    /// and an incomplete dialog decode back to themselves.
    pub fn encode(self, backend: Backend) -> (r: Vec<(String, Value)>)
        requires
            dialog_encodable(self@),
        ensures
            r@.len() >= 1,
            r@[0].0@ == "type"@,
            r@[0].1 matches Value::Text(t) && t@ == kind_label(self@),
            dialog_fields(r@, self@, backend),
            (self@ is Transfer || self@ is Incomplete) ==> dialog_of_fields(r@, backend) == Ok::<
                _,
                DecodeError,
            >(self@),
    {
        let ghost v = self@;
        proof {
            lemma_dialog_literals();
        }
        let mut r: Vec<(String, Value)> = Vec::new();
        let label = match &self {
            Dialog::Recording { .. } => "recording",
            Dialog::Text { .. } => "text",
            Dialog::Transfer { .. } => "transfer",
            Dialog::Incomplete { .. } => "incomplete",
        };
        r.push(("type".to_owned(), Value::Text(label.to_owned())));
        let mut tail: Vec<(String, Value)> = Vec::new();
        match self {
            Dialog::Recording { duration, parties, originator, content_parameters, content }
            | Dialog::Text { duration, parties, originator, content_parameters, content } => {
                let ghost m = match v {
                    DialogView::Recording(m) => m,
                    DialogView::Text(m) => m,
                    _ => arbitrary(),
                };
                assert(m.duration == duration && m.parties == parties@ && m.originator == originator);
                assert(m.content_parameters == content_parameters@ && m.content == content@);
                let mut dur: Vec<(String, Value)> = Vec::new();
                match duration {
                    Some(Duration::Int(i)) => dur.push(
                        ("duration".to_owned(), Value::Integer(i as i128)),
                    ),
                    Some(Duration::Float(b)) => dur.push(("duration".to_owned(), Value::Float(b))),
                    None => {},
                }
                let ghost g1 = dur@;
                assert(duration_part(g1, m.duration));
                let mut pv: Vec<(String, Value)> = Vec::new();
                pv.push(("parties".to_owned(), parties.encode()));
                let ghost g2 = pv@;
                let mut orig: Vec<(String, Value)> = Vec::new();
                push_optional_index(&mut orig, "originator", originator);
                let ghost g3 = orig@;
                assert(index_part(g3, "originator"@, m.originator));
                let mut params: Vec<(String, Value)> = Vec::new();
                content_parameters.encode_into(&mut params);
                let ghost g4 = params@;
                assert(g4.subrange(0, g4.len() as int) == g4);
                let mut c = content.encode(backend);
                let ghost g5 = c@;
                tail.append(&mut dur);
                tail.append(&mut pv);
                tail.append(&mut orig);
                tail.append(&mut params);
                tail.append(&mut c);
                proof {
                    let t = tail@;
                    let k1 = g1.len() as int;
                    let k2 = k1 + 1 + g3.len();
                    let k3 = k2 + g4.len();
                    assert(t == g1 + g2 + g3 + g4 + g5);
                    assert(t.subrange(0, k1) =~= g1);
                    assert(t[k1] == g2[0]);
                    assert(t.subrange(k1 + 1, k2) =~= g3);
                    assert(t.subrange(k2, k3) =~= g4);
                    assert(t.subrange(k3, t.len() as int) =~= g5);
                    assert(media_fields(t, m, backend));
                }
                let ghost t = tail@;
                r.append(&mut tail);
                assert(r@.subrange(1, r@.len() as int) =~= t);
            },
            Dialog::Transfer {
                transferee,
                transferor,
                transfer_target,
                original,
                consultation,
                target_dialog,
            } => {
                r.push(("transferee".to_owned(), Value::Integer(transferee as i128)));
                r.push(("transferor".to_owned(), Value::Integer(transferor as i128)));
                r.push(("transfer_target".to_owned(), Value::Integer(transfer_target as i128)));
                r.push(("original".to_owned(), Value::Integer(original as i128)));
                let ghost f5 = r@;
                push_optional_index(&mut r, "consultation", consultation);
                let ghost f6 = r@;
                r.push(("target_dialog".to_owned(), Value::Integer(target_dialog as i128)));
                proof {
                    let f = r@;
                    let n = f.len();
                    assert(f.drop_last() == f6);
                    assert(f6.subrange(0, 5) == f5);
                    assert(forall|j: int| 0 <= j < f6.len() ==> f[j] == #[trigger] f6[j]);
                    assert(forall|j: int| 0 <= j < 5 ==> f6[j] == #[trigger] f5[j]);
                    assert(n == 7 || n == 6);
                    if n == 7 {
                        assert(f[5] == f6[5]);
                        assert(f[5].0@ == "consultation"@);
                    }
                    assert(f[0].0@ == "type"@ && f[1].0@ == "transferee"@);
                    assert(f[2].0@ == "transferor"@ && f[3].0@ == "transfer_target"@);
                    assert(f[4].0@ == "original"@ && f[n - 1].0@ == "target_dialog"@);
                    lemma_lookup_at(f, 0);
                    lemma_lookup_at(f, 1);
                    lemma_lookup_at(f, 2);
                    lemma_lookup_at(f, 3);
                    lemma_lookup_at(f, 4);
                    lemma_lookup_at(f, n - 1);
                    if n == 7 {
                        lemma_lookup_at(f, 5);
                    } else {
                        lemma_lookup_absent(f, "consultation"@);
                    }
                }
            },
            Dialog::Incomplete { disposition } => {
                r.push(("disposition".to_owned(), Value::Text(disposition)));
                proof {
                    lemma_lookup_at(r@, 0);
                    lemma_lookup_at(r@, 1);
                }
            },
        }
        r
    }
}

/// What a dialog object holds.
pub struct DialogObjectView {
    pub start: DateView,
    pub party_history: Option<Seq<PartyEventView>>,
    pub campaign: Option<Seq<char>>,
    pub interaction: Option<Seq<char>>,
    pub dialog: DialogView,
}

pub open spec fn event_views(v: Seq<PartyEvent>) -> Seq<PartyEventView> {
    v.map_values(|e: PartyEvent| e@)
}

impl View for DialogObject {
    type V = DialogObjectView;

    open spec fn view(&self) -> DialogObjectView {
        DialogObjectView {
            start: self.start@,
            party_history: match self.party_history {
                Some(h) => Some(event_views(h@)),
                None => None,
            },
            campaign: opt_view(self.campaign),
            interaction: opt_view(self.interaction),
            dialog: self.dialog@,
        }
    }
}

/// Whether `item` is the wire form of party event `e`: a map of its own.
pub open spec fn event_item(item: Value, e: PartyEventView) -> bool {
    item matches Value::Object(inner) && party_event_encoding(inner@, e)
}

/// Whether `f` is the wire form of an optional party history.
pub open spec fn history_part(f: Seq<(String, Value)>, h: Option<Seq<PartyEventView>>) -> bool {
    match h {
        None => f.len() == 0,
        Some(events) => {
            &&& f.len() == 1
            &&& f[0].0@ == "party_history"@
            &&& f[0].1 matches Value::Array(items) && items@.len() == events.len() && forall|j: int|
                0 <= j < events.len() ==> event_item(#[trigger] items@[j], events[j])
        },
    }
}

/// Whether `f` is the wire form of dialog object `v`: `start`, the party
/// history, `campaign` and `interaction` where present, then the dialog's
/// fields.
pub open spec fn dialog_object_fields(f: Seq<(String, Value)>, v: DialogObjectView, backend: Backend) -> bool {
    &&& f.len() >= 1
    &&& date_entry(f[0], "start"@, v.start)
    &&& exists|k1: int, k2: int|
        {
            &&& 1 <= k1 <= k2 <= f.len()
            &&& history_part(f.subrange(1, k1), v.party_history)
            &&& optional_text_fields(
                f.subrange(k1, k2),
                seq!["campaign"@, "interaction"@],
                seq![v.campaign, v.interaction],
            )
            &&& dialog_fields(f.subrange(k2, f.len() as int), v.dialog, backend)
        }
}

/// The party event of an item of `party_history`: a map of its own.
pub open spec fn event_of_item(v: Value) -> Result<PartyEventView, DecodeError> {
    match v {
        Value::Object(inner) => party_event_of_fields(inner@),
        _ => Err(DecodeError::InvalidType),
    }
}

/// The party events of the items, in order; the first item that fails is
/// the error.
pub open spec fn history_of_items(items: Seq<Value>) -> Result<Seq<PartyEventView>, DecodeError>
    decreases items.len(),
{
    if items.len() == 0 {
        Ok(Seq::empty())
    } else {
        match history_of_items(items.drop_last()) {
            Err(e) => Err(e),
            Ok(prev) => match event_of_item(items.last()) {
                Err(e) => Err(e),
                Ok(x) => Ok(prev.push(x)),
            },
        }
    }
}

/// The history of an optional `party_history` field: an array of events.
pub open spec fn history_of_value(v: Option<Value>) -> Result<Option<Seq<PartyEventView>>, DecodeError> {
    match v {
        None => Ok(None),
        Some(Value::Array(items)) => match history_of_items(items@) {
            Ok(h) => Ok(Some(h)),
            Err(e) => Err(e),
        },
        Some(_) => Err(DecodeError::InvalidType),
    }
}

/// The dialog object of a field list: `start`, `campaign`, `interaction`,
/// the dialog, then `party_history`, checked in that order.
pub open spec fn dialog_object_of_fields(fields: Seq<(String, Value)>, backend: Backend) -> Result<
    DialogObjectView,
    DecodeError,
> {
    match required_date(lookup(fields, "start"@)) {
        Err(e) => Err(e),
        Ok(start) => match optional_text(lookup(fields, "campaign"@)) {
            Err(e) => Err(e),
            Ok(campaign) => match optional_text(lookup(fields, "interaction"@)) {
                Err(e) => Err(e),
                Ok(interaction) => match dialog_of_fields(fields, backend) {
                    Err(e) => Err(e),
                    Ok(dialog) => match history_of_value(lookup(fields, "party_history"@)) {
                        Err(e) => Err(e),
                        Ok(party_history) => Ok(
                            DialogObjectView { start, party_history, campaign, interaction, dialog },
                        ),
                    },
                },
            },
        },
    }
}

/// An error on a prefix of the items is the error on all of them.
proof fn lemma_history_error(items: Seq<Value>, n: int)
    requires
        0 <= n <= items.len(),
        history_of_items(items.subrange(0, n)) is Err,
    ensures
        history_of_items(items) == history_of_items(items.subrange(0, n)),
    decreases items.len() - n,
{
    if n < items.len() {
        assert(items.subrange(0, n + 1).drop_last() == items.subrange(0, n));
        lemma_history_error(items, n + 1);
    } else {
        assert(items.subrange(0, n) == items);
    }
}

/// The party events of the items, in order.
fn decode_history(items: Vec<Value>) -> (r: Result<Vec<PartyEvent>, DecodeError>)
    ensures
        match r {
            Ok(v) => history_of_items(items@) == Ok::<_, DecodeError>(event_views(v@)),
            Err(e) => history_of_items(items@) == Err::<Seq<PartyEventView>, _>(e),
        },
{
    let ghost all = items@;
    let n = items.len();
    let mut rest = items;
    let mut out: Vec<PartyEvent> = Vec::new();
    let mut i: usize = 0;
    assert(all.subrange(0, 0) =~= Seq::<Value>::empty());
    assert(event_views(out@) =~= Seq::<PartyEventView>::empty());
    while rest.len() > 0
        invariant
            all == items@,
            all.len() == n,
            i + rest@.len() == all.len(),
            rest@ == all.subrange(i as int, all.len() as int),
            history_of_items(all.subrange(0, i as int)) == Ok::<_, DecodeError>(event_views(out@)),
        decreases rest@.len(),
    {
        let v = rest.remove(0);
        assert(all.subrange(0, i + 1).drop_last() == all.subrange(0, i as int));
        assert(all.subrange(0, i + 1).last() == v);
        match v {
            Value::Object(inner) => match PartyEvent::decode_fields(inner) {
                Ok(e) => {
                    let ghost before = out@;
                    out.push(e);
                    assert(event_views(out@) =~= event_views(before).push(e@));
                },
                Err(e) => {
                    proof {
                        assert(event_of_item(all.subrange(0, i + 1).last()) == Err::<PartyEventView, _>(e));
                        assert(history_of_items(all.subrange(0, i + 1)) == Err::<Seq<PartyEventView>, _>(e));
                        lemma_history_error(all, i + 1);
                    }
                    return Err(e);
                },
            },
            _ => {
                proof {
                    assert(event_of_item(all.subrange(0, i + 1).last()) == Err::<PartyEventView, _>(
                        DecodeError::InvalidType,
                    ));
                    assert(history_of_items(all.subrange(0, i + 1)) == Err::<Seq<PartyEventView>, _>(
                        DecodeError::InvalidType,
                    ));
                    lemma_history_error(all, i + 1);
                }
                return Err(DecodeError::InvalidType);
            },
        }
        i = i + 1;
    }
    assert(all.subrange(0, all.len() as int) == all);
    Ok(out)
}

impl DialogObject {
    /// The dialog object of a field list; fields that it does not name are
    /// not kept.
    pub fn decode_fields(fields: Vec<(String, Value)>, backend: Backend) -> (r: Result<
        DialogObject,
        DecodeError,
    >)
        ensures
            match r {
                Ok(d) => dialog_object_of_fields(fields@, backend) == Ok::<_, DecodeError>(d@),
                Err(e) => dialog_object_of_fields(fields@, backend) == Err::<DialogObjectView, _>(e),
            },
    {
        let start = match field(&fields, "start") {
            None => {
                return Err(DecodeError::MissingField);
            },
            Some(v) => match Date::decode_value(v) {
                Ok(d) => d,
                Err(e) => {
                    return Err(e);
                },
            },
        };
        let campaign = match decode_optional_text(&fields, "campaign") {
            Ok(c) => c,
            Err(e) => {
                return Err(e);
            },
        };
        let interaction = match decode_optional_text(&fields, "interaction") {
            Ok(c) => c,
            Err(e) => {
                return Err(e);
            },
        };
        let dialog = match Dialog::decode_fields(&fields, backend) {
            Ok(d) => d,
            Err(e) => {
                return Err(e);
            },
        };
        let (history, _) = take_field(fields, "party_history");
        let party_history = match history {
            None => None,
            Some(Value::Array(items)) => match decode_history(items) {
                Ok(h) => Some(h),
                Err(e) => {
                    return Err(e);
                },
            },
            Some(_) => {
                return Err(DecodeError::InvalidType);
            },
        };
        Ok(DialogObject { start, party_history, campaign, interaction, dialog })
    }

    /// The wire form: `start`, `party_history` (an array of event maps),
    /// `campaign` and `interaction`, each where present, then the dialog's
    /// fields.
    pub fn encode(self, backend: Backend) -> (r: Vec<(String, Value)>)
        requires
            dialog_encodable(self.dialog@),
        ensures
            dialog_object_fields(r@, self@, backend),
    {
        let ghost v = self@;
        let mut r: Vec<(String, Value)> = Vec::new();
        r.push(("start".to_owned(), self.start.encode()));
        let mut hist: Vec<(String, Value)> = Vec::new();
        match self.party_history {
            Some(h) => {
                let ghost hv = event_views(h@);
                let n = h.len();
                let mut items: Vec<Value> = Vec::new();
                let mut rest = h;
                let mut i: usize = 0;
                while rest.len() > 0
                    invariant
                        i + rest@.len() == n,
                        hv.len() == n,
                        forall|j: int| 0 <= j < rest@.len() ==> #[trigger] rest@[j]@ == hv[i + j],
                        items@.len() == i,
                        forall|j: int| 0 <= j < i ==> event_item(#[trigger] items@[j], hv[j]),
                    decreases rest@.len(),
                {
                    let ghost r0 = rest@;
                    let e = rest.remove(0);
                    assert(e@ == hv[i as int]) by {
                        assert(r0[0] == e);
                    }
                    assert forall|j: int| 0 <= j < rest@.len() implies #[trigger] rest@[j]@ == hv[i + 1
                        + j] by {
                        assert(rest@[j] == r0[j + 1]);
                    }
                    items.push(Value::Object(e.encode()));
                    i = i + 1;
                }
                hist.push(("party_history".to_owned(), Value::Array(items)));
            },
            None => {},
        }
        let ghost g1 = hist@;
        assert(history_part(g1, v.party_history));
        let keys = vec!["campaign", "interaction"];
        let values = vec![self.campaign, self.interaction];
        let mut opts: Vec<(String, Value)> = Vec::new();
        push_optional_texts(&mut opts, keys.as_slice(), &values);
        let ghost g2 = opts@;
        proof {
            assert(names(keys@) =~= seq!["campaign"@, "interaction"@]);
            assert(opt_views(values@) =~= seq![v.campaign, v.interaction]);
            assert(g2.subrange(0, g2.len() as int) == g2);
        }
        let mut d = self.dialog.encode(backend);
        let ghost g3 = d@;
        let ghost head = r@;
        r.append(&mut hist);
        r.append(&mut opts);
        r.append(&mut d);
        proof {
            let f = r@;
            let k1 = 1 + g1.len() as int;
            let k2 = k1 + g2.len();
            assert(f == head + g1 + g2 + g3);
            assert(f[0] == head[0]);
            assert(f.subrange(1, k1) =~= g1);
            assert(f.subrange(k1, k2) =~= g2);
            assert(f.subrange(k2, f.len() as int) =~= g3);
        }
        r
    }
}

} // verus!

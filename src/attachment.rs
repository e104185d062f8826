use vstd::prelude::*;

use crate::content::{
    content_encodable,
    content_fields,
    content_keys,
    content_of_fields,
    Content,
    ContentView,
};
use crate::date::{date_entry, date_of_value, Date, DateView};
use crate::error::DecodeError;
use crate::extension::{lemma_entity_extensions, merged, names, unclaimed, ExtensionObject};
use crate::mime::{parameters_of_fields, params_fields, ContentParameters, ParametersView};
use crate::record::{
    append_known,
    decode_required_index,
    decode_required_text,
    int_entry,
    push_known,
    required_index,
    required_text,
    text_entry,
};
use crate::value::{field, keys_within, lemma_keys_within_subset, lookup, Backend, Value};

verus! {

/// A document attached to the conversation.
#[derive(Debug, PartialEq)]
pub struct Attachment {
    pub typ: String,
    pub start: Date,
    pub party: u32,
    pub content_parameters: ContentParameters,
    pub content: Content,
    pub extension_object: ExtensionObject,
}

/// What an attachment holds.
pub struct AttachmentView {
    pub typ: Seq<char>,
    pub start: DateView,
    pub party: u32,
    pub content_parameters: ParametersView,
    pub content: ContentView,
    pub extension: Seq<(String, Value)>,
}

impl View for Attachment {
    type V = AttachmentView;

    open spec fn view(&self) -> AttachmentView {
        AttachmentView {
            typ: self.typ@,
            start: self.start@,
            party: self.party,
            content_parameters: self.content_parameters@,
            content: self.content@,
            extension: self.extension_object.fields@,
        }
    }
}

/// The keys that an attachment names, its content's included.
pub open spec fn attachment_keys() -> Seq<Seq<char>> {
    seq!["type"@, "start"@, "party"@, "mimetype"@, "filename"@] + content_keys()
}

/// Whether `named` is the wire form of the named fields of attachment `v`:
/// `type`, `start`, `party`, the content parameters, then the content.
pub open spec fn attachment_named(named: Seq<(String, Value)>, v: AttachmentView, backend: Backend) -> bool {
    &&& named.len() >= 3
    &&& text_entry(named[0], "type"@, v.typ)
    &&& date_entry(named[1], "start"@, v.start)
    &&& int_entry(named[2], "party"@, v.party as int)
    &&& exists|k: int|
        3 <= k <= named.len() && params_fields(named.subrange(3, k), v.content_parameters)
            && content_fields(named.subrange(k, named.len() as int), v.content, backend)
}

/// The timestamp of a required field.
pub open spec fn required_date(v: Option<Value>) -> Result<DateView, DecodeError> {
    match v {
        None => Err(DecodeError::MissingField),
        Some(v) => date_of_value(v),
    }
}

/// The attachment of a field list: its named fields, checked in order, and
/// the remaining fields as extensions.
pub open spec fn attachment_of_fields(fields: Seq<(String, Value)>, backend: Backend) -> Result<
    AttachmentView,
    DecodeError,
> {
    match required_text(lookup(fields, "type"@)) {
        Err(e) => Err(e),
        Ok(typ) => match required_date(lookup(fields, "start"@)) {
            Err(e) => Err(e),
            Ok(start) => match required_index(lookup(fields, "party"@)) {
                Err(e) => Err(e),
                Ok(party) => match parameters_of_fields(fields) {
                    Err(e) => Err(e),
                    Ok(content_parameters) => match content_of_fields(fields, backend) {
                        Err(e) => Err(e),
                        Ok(content) => Ok(
                            AttachmentView {
                                typ,
                                start,
                                party,
                                content_parameters,
                                content,
                                extension: unclaimed(fields, attachment_keys()),
                            },
                        ),
                    },
                },
            },
        },
    }
}

fn attachment_key_list() -> (r: Vec<&'static str>)
    ensures
        names(r@) == attachment_keys(),
{
    let r = vec![
        "type",
        "start",
        "party",
        "mimetype",
        "filename",
        "encoding",
        "body",
        "url",
        "alg",
        "signature",
    ];
    assert(names(r@) =~= attachment_keys());
    r
}

impl Attachment {
    /// The attachment of a field list; the fields that it does not name are
    /// kept as its extensions.
    pub fn decode_fields(fields: Vec<(String, Value)>, backend: Backend) -> (r: Result<
        Attachment,
        DecodeError,
    >)
        ensures
            match r {
                Ok(a) => attachment_of_fields(fields@, backend) == Ok::<_, DecodeError>(a@),
                Err(e) => attachment_of_fields(fields@, backend) == Err::<AttachmentView, _>(e),
            },
    {
        let typ = match decode_required_text(&fields, "type") {
            Ok(t) => t,
            Err(e) => {
                return Err(e);
            },
        };
        let start = match field(&fields, "start") {
            None => {
                return Err(DecodeError::MissingField);
            },
            Some(v) => match Date::decode_value(v) {
                Ok(d) => d,
                Err(e) => {
                    return Err(e);
                },
            },
        };
        let party = match decode_required_index(&fields, "party") {
            Ok(p) => p,
            Err(e) => {
                return Err(e);
            },
        };
        let content_parameters = match ContentParameters::decode_fields(&fields) {
            Ok(p) => p,
            Err(e) => {
                return Err(e);
            },
        };
        let content = match Content::decode_fields(&fields, backend) {
            Ok(c) => c,
            Err(e) => {
                return Err(e);
            },
        };
        let known = attachment_key_list();
        let extension_object = ExtensionObject::capture(fields, known.as_slice());
        Ok(Attachment { typ, start, party, content_parameters, content, extension_object })
    }

    /// The wire form on `backend`: `type`, `start`, `party`, the content
    /// parameters and the content, then the extensions whose keys none of
    /// them has. Extensions under keys that an attachment does not name come
    /// out unchanged and are captured again.
    pub fn encode(self, backend: Backend) -> (r: Vec<(String, Value)>)
        requires
            content_encodable(self.content@),
        ensures
            exists|named: Seq<(String, Value)>|
                {
                    &&& r@ == merged(named, self.extension_object.fields@)
                    &&& attachment_named(named, self@, backend)
                    &&& keys_within(named, attachment_keys())
                },
            (forall|i: int|
                0 <= i < self@.extension.len() ==> !attachment_keys().contains(
                    #[trigger] self@.extension[i].0@,
                )) ==> unclaimed(r@, attachment_keys()) == self@.extension,
    {
        let ghost ext = self.extension_object.fields@;
        let ghost k = attachment_keys();
        let keys = attachment_key_list();
        proof {
            assert(k[0] == names(keys@)[0] && k[1] == names(keys@)[1] && k[2] == names(keys@)[2]);
            assert forall|i: int| 0 <= i < content_keys().len() implies k.contains(
                #[trigger] content_keys()[i],
            ) by {
                assert(k[i + 5] == content_keys()[i]);
            }
            reveal_strlit("mimetype");
            reveal_strlit("filename");
            assert(k[3] == "mimetype"@ && k[4] == "filename"@);
        }
        let ghost v = self@;
        let mut named: Vec<(String, Value)> = Vec::new();
        push_known(&mut named, keys[0], Value::Text(self.typ), Ghost(k));
        push_known(&mut named, keys[1], self.start.encode(), Ghost(k));
        push_known(&mut named, keys[2], Value::Integer(self.party as i128), Ghost(k));
        let ghost head = named@;
        assert(head.len() == 3 && head[0] == named@[0]);
        let mut params: Vec<(String, Value)> = Vec::new();
        self.content_parameters.encode_into(&mut params);
        assert(keys_within(params@, k)) by {
            assert forall|i: int| 0 <= i < params@.len() implies k.contains(#[trigger] params@[i].0@) by {
                if params@[i].0@ == "mimetype"@ {
                    assert(k[3] == params@[i].0@);
                } else {
                    assert(k[4] == params@[i].0@);
                }
            }
        }
        let ghost p = params@;
        assert(params@.subrange(0, 0) =~= Seq::<(String, Value)>::empty());
        assert(params@.subrange(0, params@.len() as int) == p);
        append_known(&mut named, params, Ghost(k));
        let content = self.content.encode(backend);
        let ghost c = content@;
        proof {
            lemma_keys_within_subset(content@, content_keys(), k);
        }
        append_known(&mut named, content, Ghost(k));
        let ghost named_final = named@;
        proof {
            let kk = 3 + p.len() as int;
            assert(named_final == head + p + c);
            assert(named_final.subrange(3, kk) =~= p);
            assert(named_final.subrange(kk, named_final.len() as int) =~= c);
            assert(named_final[0] == head[0] && named_final[1] == head[1] && named_final[2] == head[2]);
            assert(attachment_named(named_final, v, backend));
        }
        let r = ExtensionObject::merge(named, self.extension_object);
        proof {
            if forall|i: int| 0 <= i < ext.len() ==> !k.contains(#[trigger] ext[i].0@) {
                lemma_entity_extensions(named_final, ext, k);
            }
        }
        r
    }
}

} // verus!

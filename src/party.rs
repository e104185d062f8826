use vstd::prelude::*;

use crate::address::{address_encoding, address_of_fields, AddressView, CivicAddress};
use crate::error::DecodeError;
use crate::extension::{lemma_entity_extensions, merged, names, unclaimed, ExtensionObject};
use crate::identifier::{hyphenated_text, uuid_of_text, Uuid};
use crate::record::{
    append_known,
    decode_optional_texts,
    lemma_lookup_unclaimed,
    lemma_optional_texts_len,
    lemma_optional_texts_same,
    lemma_unclaimed_twice,
    opt_view,
    opt_views,
    optional_text_fields,
    optional_texts,
    push_optional_texts,
    take_field,
    take_first,
    text_entry,
};
use crate::value::{field, keys_within, lemma_keys_within_subset, lookup, Value};

verus! {

/// A participant of the conversation.
#[derive(Debug, PartialEq, Default)]
pub struct Party {
    pub tel: Option<String>,
    pub stir: Option<String>,
    pub mailto: Option<String>,
    pub name: Option<String>,
    pub validation: Option<String>,
    pub gmlpos: Option<String>,
    pub civic_address: Option<CivicAddress>,
    pub uuid: Option<Uuid>,
    pub role: Option<String>,
    pub extension_object: ExtensionObject,
}

/// The keys of the text fields of a party.
pub open spec fn party_text_keys() -> Seq<Seq<char>> {
    seq!["tel"@, "stir"@, "mailto"@, "name"@, "validation"@, "gmlpos"@, "role"@]
}

/// The keys that a party names.
pub open spec fn party_keys() -> Seq<Seq<char>> {
    party_text_keys() + seq!["civic_address"@, "uuid"@]
}

/// What a party holds: its text fields in the order of `party_text_keys`,
/// its address, its identifier and its extensions.
pub struct PartyView {
    pub texts: Seq<Option<Seq<char>>>,
    pub civic_address: Option<AddressView>,
    pub uuid: Option<Seq<u8>>,
    pub extension: Seq<(String, Value)>,
}

impl View for Party {
    type V = PartyView;

    open spec fn view(&self) -> PartyView {
        PartyView {
            texts: seq![
                opt_view(self.tel),
                opt_view(self.stir),
                opt_view(self.mailto),
                opt_view(self.name),
                opt_view(self.validation),
                opt_view(self.gmlpos),
                opt_view(self.role),
            ],
            civic_address: match self.civic_address {
                Some(a) => Some(a@),
                None => None,
            },
            uuid: match self.uuid {
                Some(u) => Some(u@),
                None => None,
            },
            extension: self.extension_object.fields@,
        }
    }
}

/// The address of an optional `civic_address` field: a map of its own.
pub open spec fn civic_of_value(v: Option<Value>) -> Result<Option<AddressView>, DecodeError> {
    match v {
        None => Ok(None),
        Some(Value::Object(inner)) => match address_of_fields(inner@) {
            Ok(a) => Ok(Some(a)),
            Err(e) => Err(e),
        },
        Some(_) => Err(DecodeError::InvalidType),
    }
}

/// The identifier of an optional `uuid` field: canonical text.
pub open spec fn uuid_of_value(v: Option<Value>) -> Result<Option<Seq<u8>>, DecodeError> {
    match v {
        None => Ok(None),
        Some(Value::Text(t)) => match uuid_of_text(t@) {
            Ok(b) => Ok(Some(b)),
            Err(e) => Err(DecodeError::Scalar(e)),
        },
        Some(_) => Err(DecodeError::InvalidType),
    }
}

/// The party of a field list: the text fields, then the address, then the
/// identifier; the other fields are its extensions.
pub open spec fn party_of_fields(fields: Seq<(String, Value)>) -> Result<PartyView, DecodeError> {
    match optional_texts(fields, party_text_keys()) {
        Err(e) => Err(e),
        Ok(texts) => match civic_of_value(lookup(fields, "civic_address"@)) {
            Err(e) => Err(e),
            Ok(civic_address) => match uuid_of_value(lookup(fields, "uuid"@)) {
                Err(e) => Err(e),
                Ok(uuid) => Ok(
                    PartyView {
                        texts,
                        civic_address,
                        uuid,
                        extension: unclaimed(fields, party_keys()),
                    },
                ),
            },
        },
    }
}

/// Whether `f` is the wire form of an optional civic address.
pub open spec fn civic_part(f: Seq<(String, Value)>, c: Option<AddressView>) -> bool {
    match c {
        None => f.len() == 0,
        Some(a) => {
            &&& f.len() == 1
            &&& f[0].0@ == "civic_address"@
            &&& f[0].1 matches Value::Object(inner) && address_encoding(inner@, a)
        },
    }
}

/// Whether `f` is the wire form of an optional identifier.
pub open spec fn uuid_part(f: Seq<(String, Value)>, u: Option<Seq<u8>>) -> bool {
    match u {
        None => f.len() == 0,
        Some(b) => f.len() == 1 && text_entry(f[0], "uuid"@, hyphenated_text(b)),
    }
}

/// Whether `named` is the wire form of the named fields of party `v`: the
/// first six text fields, the address, the identifier, then `role`.
pub open spec fn party_named(named: Seq<(String, Value)>, v: PartyView) -> bool {
    exists|k1: int, k2: int, k3: int|
        {
            &&& 0 <= k1 <= k2 <= k3 <= named.len()
            &&& optional_text_fields(
                named.subrange(0, k1),
                party_text_keys().subrange(0, 6),
                v.texts.subrange(0, 6),
            )
            &&& civic_part(named.subrange(k1, k2), v.civic_address)
            &&& uuid_part(named.subrange(k2, k3), v.uuid)
            &&& optional_text_fields(
                named.subrange(k3, named.len() as int),
                seq!["role"@],
                seq![v.texts[6]],
            )
        }
}

fn text_key_list() -> (r: Vec<&'static str>)
    ensures
        names(r@) == party_text_keys(),
{
    let r = vec!["tel", "stir", "mailto", "name", "validation", "gmlpos", "role"];
    assert(names(r@) =~= party_text_keys());
    r
}

fn party_key_list() -> (r: Vec<&'static str>)
    ensures
        names(r@) == party_keys(),
{
    let r = vec![
        "tel",
        "stir",
        "mailto",
        "name",
        "validation",
        "gmlpos",
        "role",
        "civic_address",
        "uuid",
    ];
    assert(names(r@) =~= party_keys());
    r
}

proof fn lemma_party_literals()
    ensures
        !seq!["civic_address"@].contains("uuid"@),
        forall|i: int|
            0 <= i < party_text_keys().len() ==> !seq!["civic_address"@].contains(
                #[trigger] party_text_keys()[i],
            ),
        forall|i: int| 0 <= i < 1 ==> party_keys().contains(#[trigger] seq!["civic_address"@][i]),
{
    reveal_strlit("tel");
    reveal_strlit("stir");
    reveal_strlit("mailto");
    reveal_strlit("name");
    reveal_strlit("validation");
    reveal_strlit("gmlpos");
    reveal_strlit("role");
    reveal_strlit("civic_address");
    reveal_strlit("uuid");
    let c = seq!["civic_address"@];
    assert(c.len() == 1 && c[0].len() == 13);
    assert forall|i: int| 0 <= i < party_text_keys().len() implies !c.contains(
        #[trigger] party_text_keys()[i],
    ) by {
        assert(party_text_keys()[i].len() != 13);
        if c.contains(party_text_keys()[i]) {
            let j = choose|j: int| 0 <= j < c.len() && c[j] == party_text_keys()[i];
            assert(j == 0);
        }
    }
    assert(!c.contains("uuid"@)) by {
        if c.contains("uuid"@) {
            let j = choose|j: int| 0 <= j < c.len() && c[j] == "uuid"@;
            assert(j == 0);
        }
    }
    assert(party_keys()[7] == "civic_address"@);
}

impl Party {
    /// The party of a field list.
    pub fn decode_fields(fields: Vec<(String, Value)>) -> (r: Result<Party, DecodeError>)
        ensures
            match r {
                Ok(p) => party_of_fields(fields@) == Ok::<_, DecodeError>(p@),
                Err(e) => party_of_fields(fields@) == Err::<PartyView, _>(e),
            },
    {
        let ghost all = fields@;
        let (civic, rest) = take_field(fields, "civic_address");
        let ghost c = seq!["civic_address"@];
        proof {
            lemma_party_literals();
            assert forall|i: int| 0 <= i < party_text_keys().len() implies lookup(
                rest@,
                #[trigger] party_text_keys()[i],
            ) == lookup(all, party_text_keys()[i]) by {
                lemma_lookup_unclaimed(all, c, party_text_keys()[i]);
            }
            lemma_optional_texts_same(rest@, all, party_text_keys());
            lemma_lookup_unclaimed(all, c, "uuid"@);
            lemma_unclaimed_twice(all, c, party_keys());
            lemma_optional_texts_len(all, party_text_keys());
        }
        let tkeys = text_key_list();
        let mut t = match decode_optional_texts(&rest, tkeys.as_slice()) {
            Ok(t) => t,
            Err(e) => {
                return Err(e);
            },
        };
        let ghost t0 = t@;
        assert(opt_views(t0).len() == 7);
        let civic_address = match civic {
            None => None,
            Some(Value::Object(inner)) => match CivicAddress::decode_fields(inner) {
                Ok(a) => Some(a),
                Err(e) => {
                    return Err(e);
                },
            },
            Some(_) => {
                return Err(DecodeError::InvalidType);
            },
        };
        let uuid = match field(&rest, "uuid") {
            None => None,
            Some(Value::Text(s)) => match Uuid::parse(s.as_str()) {
                Ok(u) => Some(u),
                Err(e) => {
                    return Err(DecodeError::Scalar(e));
                },
            },
            Some(_) => {
                return Err(DecodeError::InvalidType);
            },
        };
        let tel = take_first(&mut t);
        let stir = take_first(&mut t);
        let mailto = take_first(&mut t);
        let name = take_first(&mut t);
        let validation = take_first(&mut t);
        let gmlpos = take_first(&mut t);
        let role = take_first(&mut t);
        let keys = party_key_list();
        let extension_object = ExtensionObject::capture(rest, keys.as_slice());
        let p = Party {
            tel,
            stir,
            mailto,
            name,
            validation,
            gmlpos,
            civic_address,
            uuid,
            role,
            extension_object,
        };
        assert(p@.texts =~= opt_views(t0));
        Ok(p)
    }

    /// The wire form: `tel`, `stir`, `mailto`, `name`, `validation`, `gmlpos`,
    /// `civic_address` (a map of its own), `uuid` and `role`, each where
    /// present, then the extensions whose keys none of them has. Extensions
    /// under keys that a party does not name come out unchanged and are
    /// captured again.
    pub fn encode(self) -> (r: Vec<(String, Value)>)
        ensures
            exists|named: Seq<(String, Value)>|
                {
                    &&& r@ == merged(named, self.extension_object.fields@)
                    &&& party_named(named, self@)
                    &&& keys_within(named, party_keys())
                },
            (forall|i: int|
                0 <= i < self@.extension.len() ==> !party_keys().contains(
                    #[trigger] self@.extension[i].0@,
                )) ==> unclaimed(r@, party_keys()) == self@.extension,
    {
        let ghost ext = self.extension_object.fields@;
        let ghost v = self@;
        let ghost k = party_keys();
        proof {
            reveal_strlit("civic_address");
            reveal_strlit("uuid");
            reveal_strlit("role");
            assert(k[6] == "role"@ && k[7] == "civic_address"@ && k[8] == "uuid"@);
        }
        let head = vec!["tel", "stir", "mailto", "name", "validation", "gmlpos"];
        let first = vec![self.tel, self.stir, self.mailto, self.name, self.validation, self.gmlpos];
        let mut named: Vec<(String, Value)> = Vec::new();
        push_optional_texts(&mut named, head.as_slice(), &first);
        let ghost s1 = named@;
        proof {
            assert(names(head@) =~= party_text_keys().subrange(0, 6));
            assert(opt_views(first@) =~= v.texts.subrange(0, 6));
            assert(s1.subrange(0, s1.len() as int) == s1);
            assert forall|i: int| 0 <= i < names(head@).len() implies k.contains(
                #[trigger] names(head@)[i],
            ) by {
                assert(k[i] == names(head@)[i]);
            }
            lemma_keys_within_subset(s1, names(head@), k);
        }
        let mut civic: Vec<(String, Value)> = Vec::new();
        match self.civic_address {
            Some(a) => {
                civic.push(("civic_address".to_owned(), Value::Object(a.encode())));
            },
            None => {},
        }
        let ghost s2 = civic@;
        assert(civic_part(s2, v.civic_address));
        assert(keys_within(s2, k));
        append_known(&mut named, civic, Ghost(k));
        let mut id: Vec<(String, Value)> = Vec::new();
        match self.uuid {
            Some(u) => {
                id.push(("uuid".to_owned(), Value::Text(u.hyphenated())));
            },
            None => {},
        }
        let ghost s3 = id@;
        assert(uuid_part(s3, v.uuid));
        assert(keys_within(s3, k));
        append_known(&mut named, id, Ghost(k));
        let tail = vec!["role"];
        let last = vec![self.role];
        let mut role: Vec<(String, Value)> = Vec::new();
        push_optional_texts(&mut role, tail.as_slice(), &last);
        let ghost s4 = role@;
        proof {
            assert(names(tail@) =~= seq!["role"@]);
            assert(opt_views(last@) =~= seq![v.texts[6]]);
            assert(s4.subrange(0, s4.len() as int) == s4);
            assert forall|i: int| 0 <= i < s4.len() implies k.contains(#[trigger] s4[i].0@) by {
                let j = choose|j: int| 0 <= j < names(tail@).len() && names(tail@)[j] == s4[i].0@;
                assert(j == 0);
                assert(k[6] == s4[i].0@);
            }
        }
        append_known(&mut named, role, Ghost(k));
        let ghost named_final = named@;
        proof {
            let k1 = s1.len() as int;
            let k2 = k1 + s2.len();
            let k3 = k2 + s3.len();
            assert(named_final == s1 + s2 + s3 + s4);
            assert(named_final.subrange(0, k1) =~= s1);
            assert(named_final.subrange(k1, k2) =~= s2);
            assert(named_final.subrange(k2, k3) =~= s3);
            assert(named_final.subrange(k3, named_final.len() as int) =~= s4);
            assert(party_named(named_final, v));
        }
        let r = ExtensionObject::merge(named, self.extension_object);
        proof {
            if forall|i: int| 0 <= i < ext.len() ==> !k.contains(#[trigger] ext[i].0@) {
                lemma_entity_extensions(named_final, ext, k);
            }
        }
        r
    }
}

} // verus!

use vstd::prelude::*;

use crate::error::DecodeError;
use crate::extension::{lemma_entity_extensions, merged, names, unclaimed, ExtensionObject};
use crate::record::{
    decode_optional_texts,
    lemma_optional_texts_len,
    opt_view,
    opt_views,
    optional_text_fields,
    optional_texts,
    push_optional_texts,
    take_first,
};
use crate::value::{keys_within, Value};

verus! {

/// A civic address (RFC 5139 elements), each element optional.
#[derive(Debug, PartialEq, Default)]
pub struct CivicAddress {
    pub country: Option<String>,
    pub a1: Option<String>,
    pub a2: Option<String>,
    pub a3: Option<String>,
    pub a4: Option<String>,
    pub a5: Option<String>,
    pub a6: Option<String>,
    pub prd: Option<String>,
    pub pod: Option<String>,
    pub sts: Option<String>,
    pub hno: Option<String>,
    pub hns: Option<String>,
    pub lmk: Option<String>,
    pub loc: Option<String>,
    pub flr: Option<String>,
    pub nam: Option<String>,
    pub pc: Option<String>,
    pub extension_object: ExtensionObject,
}

/// The element keys of a civic address, in the order of its fields.
pub open spec fn address_keys() -> Seq<Seq<char>> {
    seq![
        "country"@,
        "a1"@,
        "a2"@,
        "a3"@,
        "a4"@,
        "a5"@,
        "a6"@,
        "prd"@,
        "pod"@,
        "sts"@,
        "hno"@,
        "hns"@,
        "lmk"@,
        "loc"@,
        "flr"@,
        "nam"@,
        "pc"@,
    ]
}

/// What a civic address holds: its elements, in the order of
/// `address_keys`, and its extensions.
pub struct AddressView {
    pub elements: Seq<Option<Seq<char>>>,
    pub extension: Seq<(String, Value)>,
}

impl View for CivicAddress {
    type V = AddressView;

    open spec fn view(&self) -> AddressView {
        AddressView {
            elements: seq![
                opt_view(self.country),
                opt_view(self.a1),
                opt_view(self.a2),
                opt_view(self.a3),
                opt_view(self.a4),
                opt_view(self.a5),
                opt_view(self.a6),
                opt_view(self.prd),
                opt_view(self.pod),
                opt_view(self.sts),
                opt_view(self.hno),
                opt_view(self.hns),
                opt_view(self.lmk),
                opt_view(self.loc),
                opt_view(self.flr),
                opt_view(self.nam),
                opt_view(self.pc),
            ],
            extension: self.extension_object.fields@,
        }
    }
}

/// The civic address of a field list: each element an optional text, the
/// other fields its extensions.
pub open spec fn address_of_fields(fields: Seq<(String, Value)>) -> Result<AddressView, DecodeError> {
    match optional_texts(fields, address_keys()) {
        Err(e) => Err(e),
        Ok(elements) => Ok(
            AddressView { elements, extension: unclaimed(fields, address_keys()) },
        ),
    }
}

/// Whether `r` is the wire form of civic address `a`: each element that is
/// present, in order, then the extensions whose keys none of them has.
pub open spec fn address_encoding(r: Seq<(String, Value)>, a: AddressView) -> bool {
    exists|named: Seq<(String, Value)>|
        {
            &&& r == merged(named, a.extension)
            &&& optional_text_fields(named, address_keys(), a.elements)
            &&& keys_within(named, address_keys())
        }
}

fn address_key_list() -> (r: Vec<&'static str>)
    ensures
        names(r@) == address_keys(),
{
    let r = vec![
        "country",
        "a1",
        "a2",
        "a3",
        "a4",
        "a5",
        "a6",
        "prd",
        "pod",
        "sts",
        "hno",
        "hns",
        "lmk",
        "loc",
        "flr",
        "nam",
        "pc",
    ];
    assert(names(r@) =~= address_keys());
    r
}

impl CivicAddress {
    /// The civic address of a field list.
    pub fn decode_fields(fields: Vec<(String, Value)>) -> (r: Result<CivicAddress, DecodeError>)
        ensures
            match r {
                Ok(a) => address_of_fields(fields@) == Ok::<_, DecodeError>(a@),
                Err(e) => address_of_fields(fields@) == Err::<AddressView, _>(e),
            },
    {
        let keys = address_key_list();
        let mut t = match decode_optional_texts(&fields, keys.as_slice()) {
            Ok(t) => t,
            Err(e) => {
                return Err(e);
            },
        };
        let ghost t0 = t@;
        proof {
            lemma_optional_texts_len(fields@, address_keys());
            assert(opt_views(t0).len() == 17);
        }
        let country = take_first(&mut t);
        let a1 = take_first(&mut t);
        let a2 = take_first(&mut t);
        let a3 = take_first(&mut t);
        let a4 = take_first(&mut t);
        let a5 = take_first(&mut t);
        let a6 = take_first(&mut t);
        let prd = take_first(&mut t);
        let pod = take_first(&mut t);
        let sts = take_first(&mut t);
        let hno = take_first(&mut t);
        let hns = take_first(&mut t);
        let lmk = take_first(&mut t);
        let loc = take_first(&mut t);
        let flr = take_first(&mut t);
        let nam = take_first(&mut t);
        let pc = take_first(&mut t);
        let extension_object = ExtensionObject::capture(fields, keys.as_slice());
        let a = CivicAddress {
            country,
            a1,
            a2,
            a3,
            a4,
            a5,
            a6,
            prd,
            pod,
            sts,
            hno,
            hns,
            lmk,
            loc,
            flr,
            nam,
            pc,
            extension_object,
        };
        assert(a@.elements =~= opt_views(t0));
        Ok(a)
    }

    /// The wire form: each element that is present, in order, then the
    /// extensions whose keys none of them has. Extensions under keys that are
    /// no element come out unchanged and are captured again.
    pub fn encode(self) -> (r: Vec<(String, Value)>)
        ensures
            address_encoding(r@, self@),
            (forall|i: int|
                0 <= i < self@.extension.len() ==> !address_keys().contains(
                    #[trigger] self@.extension[i].0@,
                )) ==> unclaimed(r@, address_keys()) == self@.extension,
    {
        let ghost ext = self.extension_object.fields@;
        let ghost v = self@;
        let keys = address_key_list();
        let values = vec![
            self.country,
            self.a1,
            self.a2,
            self.a3,
            self.a4,
            self.a5,
            self.a6,
            self.prd,
            self.pod,
            self.sts,
            self.hno,
            self.hns,
            self.lmk,
            self.loc,
            self.flr,
            self.nam,
            self.pc,
        ];
        assert(values@.len() == 17);
        assert(names(keys@).len() == keys@.len());
        let mut named: Vec<(String, Value)> = Vec::new();
        push_optional_texts(&mut named, keys.as_slice(), &values);
        let ghost named_final = named@;
        assert(keys_within(named_final, address_keys()));
        assert(opt_views(values@) =~= v.elements);
        assert(named_final.subrange(0, named_final.len() as int) == named_final);
        assert(optional_text_fields(named_final, address_keys(), v.elements));
        let r = ExtensionObject::merge(named, self.extension_object);
        proof {
            if forall|i: int| 0 <= i < ext.len() ==> !address_keys().contains(#[trigger] ext[i].0@) {
                lemma_entity_extensions(named_final, ext, address_keys());
            }
        }
        r
    }
}

} // verus!

use vstd::prelude::*;

use crate::content::{
    content_encodable,
    content_fields,
    content_keys,
    content_of_fields,
    Content,
    ContentView,
};
use crate::error::DecodeError;
use crate::extension::{
    lemma_entity_extensions,
    merged,
    names,
    unclaimed,
    ExtensionObject,
};
use crate::mime::{parameters_of_fields, params_fields, ContentParameters, ParametersView};
use crate::record::{
    append_known,
    decode_optional_text,
    decode_required_index,
    decode_required_text,
    int_entry,
    opt_view,
    opt_views,
    optional_text,
    optional_text_fields,
    push_known,
    push_optional_texts,
    required_index,
    required_text,
    text_entry,
};
use crate::value::{field, keys_within, lemma_keys_within_subset, lookup, Backend, Value};

verus! {

/// An analysis of a dialog (a transcript, a summary, ...).
#[derive(Debug, PartialEq)]
pub struct AnalysisObject {
    pub typ: String,
    pub dialog: u32,
    pub content_parameters: ContentParameters,
    pub vendor: Option<String>,
    pub product: Option<String>,
    pub schema: Option<String>,
    pub content: Content,
    pub extension_object: ExtensionObject,
}

/// A model that produced an analysis.
#[derive(Debug, Clone, PartialEq, Eq, Hash)]
pub struct ModelInfo {
    pub name: String,
    pub version: String,
    pub arch: String,
}

/// What an analysis holds.
pub struct AnalysisView {
    pub typ: Seq<char>,
    pub dialog: u32,
    pub content_parameters: ParametersView,
    pub vendor: Option<Seq<char>>,
    pub product: Option<Seq<char>>,
    pub schema: Option<Seq<char>>,
    pub content: ContentView,
    pub extension: Seq<(String, Value)>,
}

impl View for AnalysisObject {
    type V = AnalysisView;

    open spec fn view(&self) -> AnalysisView {
        AnalysisView {
            typ: self.typ@,
            dialog: self.dialog,
            content_parameters: self.content_parameters@,
            vendor: opt_view(self.vendor),
            product: opt_view(self.product),
            schema: opt_view(self.schema),
            content: self.content@,
            extension: self.extension_object.fields@,
        }
    }
}

/// The keys that an analysis names, its content's included.
pub open spec fn analysis_keys() -> Seq<Seq<char>> {
    seq![
        "type"@,
        "dialog"@,
        "mimetype"@,
        "filename"@,
        "vendor"@,
        "product"@,
        "schema"@,
        "encoding"@,
        "body"@,
        "url"@,
        "alg"@,
        "signature"@,
    ]
}

/// Whether `named` is the wire form of the named fields of analysis `v`:
/// `type`, `dialog`, the content parameters, `vendor`, `product` and
/// `schema` where present, then the content.
pub open spec fn analysis_named(named: Seq<(String, Value)>, v: AnalysisView, backend: Backend) -> bool {
    &&& named.len() >= 2
    &&& text_entry(named[0], "type"@, v.typ)
    &&& int_entry(named[1], "dialog"@, v.dialog as int)
    &&& exists|k1: int, k2: int|
        {
            &&& 2 <= k1 <= k2 <= named.len()
            &&& params_fields(named.subrange(2, k1), v.content_parameters)
            &&& optional_text_fields(
                named.subrange(k1, k2),
                seq!["vendor"@, "product"@, "schema"@],
                seq![v.vendor, v.product, v.schema],
            )
            &&& content_fields(named.subrange(k2, named.len() as int), v.content, backend)
        }
}

/// The analysis of a field list: its named fields, checked in order, and the
/// remaining fields as extensions.
pub open spec fn analysis_of_fields(fields: Seq<(String, Value)>, backend: Backend) -> Result<
    AnalysisView,
    DecodeError,
> {
    match required_text(lookup(fields, "type"@)) {
        Err(e) => Err(e),
        Ok(typ) => match required_index(lookup(fields, "dialog"@)) {
            Err(e) => Err(e),
            Ok(dialog) => match parameters_of_fields(fields) {
                Err(e) => Err(e),
                Ok(content_parameters) => match optional_text(lookup(fields, "vendor"@)) {
                    Err(e) => Err(e),
                    Ok(vendor) => match optional_text(lookup(fields, "product"@)) {
                        Err(e) => Err(e),
                        Ok(product) => match optional_text(lookup(fields, "schema"@)) {
                            Err(e) => Err(e),
                            Ok(schema) => match content_of_fields(fields, backend) {
                                Err(e) => Err(e),
                                Ok(content) => Ok(
                                    AnalysisView {
                                        typ,
                                        dialog,
                                        content_parameters,
                                        vendor,
                                        product,
                                        schema,
                                        content,
                                        extension: unclaimed(fields, analysis_keys()),
                                    },
                                ),
                            },
                        },
                    },
                },
            },
        },
    }
}

/// The keys that an analysis names.
fn known_keys() -> (r: Vec<&'static str>)
    ensures
        names(r@) == analysis_keys(),
{
    let mut r: Vec<&'static str> = Vec::new();
    r.push("type");
    r.push("dialog");
    r.push("mimetype");
    r.push("filename");
    r.push("vendor");
    r.push("product");
    r.push("schema");
    r.push("encoding");
    r.push("body");
    r.push("url");
    r.push("alg");
    r.push("signature");
    assert(names(r@) =~= analysis_keys());
    r
}

impl AnalysisObject {
    /// The analysis of a field list; the fields that it does not name are
    /// kept as its extensions.
    pub fn decode_fields(fields: Vec<(String, Value)>, backend: Backend) -> (r: Result<
        AnalysisObject,
        DecodeError,
    >)
        ensures
            match r {
                Ok(a) => analysis_of_fields(fields@, backend) == Ok::<_, DecodeError>(a@),
                Err(e) => analysis_of_fields(fields@, backend) == Err::<AnalysisView, _>(e),
            },
    {
        let typ = match decode_required_text(&fields, "type") {
            Ok(t) => t,
            Err(e) => {
                return Err(e);
            },
        };
        let dialog = match decode_required_index(&fields, "dialog") {
            Ok(d) => d,
            Err(e) => {
                return Err(e);
            },
        };
        let content_parameters = match ContentParameters::decode_fields(&fields) {
            Ok(p) => p,
            Err(e) => {
                return Err(e);
            },
        };
        let vendor = match decode_optional_text(&fields, "vendor") {
            Ok(v) => v,
            Err(e) => {
                return Err(e);
            },
        };
        let product = match decode_optional_text(&fields, "product") {
            Ok(v) => v,
            Err(e) => {
                return Err(e);
            },
        };
        let schema = match decode_optional_text(&fields, "schema") {
            Ok(v) => v,
            Err(e) => {
                return Err(e);
            },
        };
        let content = match Content::decode_fields(&fields, backend) {
            Ok(c) => c,
            Err(e) => {
                return Err(e);
            },
        };
        let known = known_keys();
        let extension_object = ExtensionObject::capture(fields, known.as_slice());
        let r = AnalysisObject {
            typ,
            dialog,
            content_parameters,
            vendor,
            product,
            schema,
            content,
            extension_object,
        };
        Ok(r)
    }

    /// The wire form on `backend`: the named fields (`type`, `dialog`, the
    /// content parameters, `vendor`, `product`, `schema`, the content), then
    /// the extensions whose keys none of them has. Extensions under keys that
    /// an analysis does not name come out unchanged and are captured again.
    pub fn encode(self, backend: Backend) -> (r: Vec<(String, Value)>)
        requires
            content_encodable(self.content@),
        ensures
            exists|named: Seq<(String, Value)>|
                {
                    &&& r@ == merged(named, self.extension_object.fields@)
                    &&& analysis_named(named, self@, backend)
                    &&& keys_within(named, analysis_keys())
                },
            (forall|i: int|
                0 <= i < self@.extension.len() ==> !analysis_keys().contains(
                    #[trigger] self@.extension[i].0@,
                )) ==> unclaimed(r@, analysis_keys()) == self@.extension,
    {
        let ghost ext = self.extension_object.fields@;
        let ghost v = self@;
        let ghost k = analysis_keys();
        let keys = known_keys();
        proof {
            assert(k[0] == names(keys@)[0] && k[1] == names(keys@)[1]);
            assert forall|i: int| 0 <= i < content_keys().len() implies k.contains(
                #[trigger] content_keys()[i],
            ) by {
                assert(k[i + 7] == content_keys()[i]);
            }
        }
        let mut named: Vec<(String, Value)> = Vec::new();
        push_known(&mut named, keys[0], Value::Text(self.typ), Ghost(k));
        push_known(&mut named, keys[1], Value::Integer(self.dialog as i128), Ghost(k));
        let ghost head = named@;
        let mut params: Vec<(String, Value)> = Vec::new();
        self.content_parameters.encode_into(&mut params);
        let ghost p = params@;
        assert(keys_within(p, k)) by {
            reveal_strlit("mimetype");
            reveal_strlit("filename");
            assert(k[2] == "mimetype"@ && k[3] == "filename"@);
            assert forall|i: int| 0 <= i < p.len() implies k.contains(#[trigger] p[i].0@) by {
                if p[i].0@ == "mimetype"@ {
                    assert(k[2] == p[i].0@);
                } else {
                    assert(k[3] == p[i].0@);
                }
            }
        }
        assert(p.subrange(0, p.len() as int) == p);
        append_known(&mut named, params, Ghost(k));
        let okeys = vec!["vendor", "product", "schema"];
        let ovalues = vec![self.vendor, self.product, self.schema];
        let mut opts: Vec<(String, Value)> = Vec::new();
        push_optional_texts(&mut opts, okeys.as_slice(), &ovalues);
        let ghost o = opts@;
        proof {
            assert(names(okeys@) =~= seq!["vendor"@, "product"@, "schema"@]);
            assert(opt_views(ovalues@) =~= seq![v.vendor, v.product, v.schema]);
            assert(o.subrange(0, o.len() as int) == o);
            assert forall|i: int| 0 <= i < names(okeys@).len() implies k.contains(
                #[trigger] names(okeys@)[i],
            ) by {
                assert(k[i + 4] == names(okeys@)[i]);
            }
            assert(keys_within(o, names(okeys@)));
            lemma_keys_within_subset(o, names(okeys@), k);
        }
        append_known(&mut named, opts, Ghost(k));
        let content = self.content.encode(backend);
        let ghost c = content@;
        proof {
            lemma_keys_within_subset(c, content_keys(), k);
        }
        append_known(&mut named, content, Ghost(k));
        let ghost named_final = named@;
        proof {
            let k1 = 2 + p.len() as int;
            let k2 = k1 + o.len() as int;
            assert(named_final == head + p + o + c);
            assert(named_final.subrange(2, k1) =~= p);
            assert(named_final.subrange(k1, k2) =~= o);
            assert(named_final.subrange(k2, named_final.len() as int) =~= c);
            assert(named_final[0] == head[0] && named_final[1] == head[1]);
            assert(analysis_named(named_final, v, backend));
        }
        let r = ExtensionObject::merge(named, self.extension_object);
        proof {
            if forall|i: int| 0 <= i < ext.len() ==> !k.contains(#[trigger] ext[i].0@) {
                lemma_entity_extensions(named_final, ext, k);
            }
        }
        r
    }
}

} // verus!

use vstd::prelude::*;

use crate::error::{view_result, DecodeError};
use crate::extension::names;
use crate::record::{
    decode_optional_text,
    opt_views,
    optional_text,
    optional_text_fields,
    push_optional_texts,
};
use crate::value::{lookup, Value};

verus! {

/// A media type, free-form text; `mimetype` on the wire.
#[derive(Debug, Clone, PartialEq, Eq, Hash)]
pub struct Mime {
    mimetype: String,
}

impl View for Mime {
    type V = Seq<char>;

    closed spec fn view(&self) -> Seq<char> {
        self.mimetype@
    }
}

impl Mime {
    pub fn new(mimetype: String) -> (r: Mime)
        ensures
            r@ == mimetype@,
    {
        Mime { mimetype }
    }

    pub fn as_str(&self) -> (r: &str)
        ensures
            r@ == self@,
    {
        self.mimetype.as_str()
    }
}

/// Media type and file name of a content, flattened into its entity.
#[derive(Debug, Clone, PartialEq, Eq, Hash, Default)]
pub struct ContentParameters {
    pub mime: Option<Mime>,
    pub filename: Option<String>,
}

/// What content parameters hold.
pub type ParametersView = (Option<Seq<char>>, Option<Seq<char>>);

impl View for ContentParameters {
    type V = ParametersView;

    open spec fn view(&self) -> ParametersView {
        (
            match self.mime {
                Some(m) => Some(m@),
                None => None,
            },
            match self.filename {
                Some(f) => Some(f@),
                None => None,
            },
        )
    }
}

/// The content parameters of a field list: optional `mimetype` and `filename`
/// texts.
pub open spec fn parameters_of_fields(fields: Seq<(String, Value)>) -> Result<ParametersView, DecodeError> {
    match optional_text(lookup(fields, "mimetype"@)) {
        Err(e) => Err(e),
        Ok(m) => match optional_text(lookup(fields, "filename"@)) {
            Err(e) => Err(e),
            Ok(f) => Ok((m, f)),
        },
    }
}

/// Whether `f` is the wire form of content parameters: `mimetype` and
/// `filename`, each where present.
pub open spec fn params_fields(f: Seq<(String, Value)>, p: ParametersView) -> bool {
    optional_text_fields(f, seq!["mimetype"@, "filename"@], seq![p.0, p.1])
}

impl ContentParameters {
    /// The content parameters of a field list.
    pub fn decode_fields(fields: &Vec<(String, Value)>) -> (r: Result<ContentParameters, DecodeError>)
        ensures
            view_result(r) == parameters_of_fields(fields@),
    {
        let mime = match decode_optional_text(fields, "mimetype") {
            Err(e) => {
                return Err(e);
            },
            Ok(m) => match m {
                Some(t) => Some(Mime::new(t)),
                None => None,
            },
        };
        match decode_optional_text(fields, "filename") {
            Err(e) => Err(e),
            Ok(filename) => Ok(ContentParameters { mime, filename }),
        }
    }

    /// Appends the wire form: `mimetype` and `filename`, each where present.
    pub fn encode_into(&self, fields: &mut Vec<(String, Value)>)
        ensures
            final(fields)@.len() >= old(fields)@.len(),
            final(fields)@.subrange(0, old(fields)@.len() as int) == old(fields)@,
            forall|i: int|
                old(fields)@.len() <= i < final(fields)@.len() ==> #[trigger] final(fields)@[i].0@
                    == "mimetype"@ || final(fields)@[i].0@ == "filename"@,
            params_fields(
                final(fields)@.subrange(old(fields)@.len() as int, final(fields)@.len() as int),
                self@,
            ),
    {
        let mime = match &self.mime {
            Some(m) => Some(m.as_str().to_owned()),
            None => None,
        };
        let keys = vec!["mimetype", "filename"];
        let values = vec![mime, self.filename.clone()];
        assert(names(keys@) =~= seq!["mimetype"@, "filename"@]);
        assert(opt_views(values@) =~= seq![self@.0, self@.1]);
        let ghost start = fields@.len();
        push_optional_texts(fields, keys.as_slice(), &values);
        assert forall|i: int| start <= i < fields@.len() implies #[trigger] fields@[i].0@
            == "mimetype"@ || fields@[i].0@ == "filename"@ by {
            let j = choose|j: int| 0 <= j < names(keys@).len() && names(keys@)[j] == fields@[i].0@;
            assert(j == 0 || j == 1);
        }
    }
}

} // verus!

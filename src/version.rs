use vstd::prelude::*;

use crate::error::{view_result, DecodeError};
use crate::value::{field, lookup, Value};

verus! {

/// The version tag of a document; `vcon` on the wire.
#[derive(Debug, Clone, PartialEq, Eq, Hash)]
pub struct VconVersion {
    vcon: String,
}

impl View for VconVersion {
    type V = Seq<char>;

    closed spec fn view(&self) -> Seq<char> {
        self.vcon@
    }
}

/// The version tag of a field list holding `vcon`, which is text.
pub open spec fn version_of_fields(fields: Seq<(String, Value)>) -> Result<Seq<char>, DecodeError> {
    match lookup(fields, "vcon"@) {
        None => Err(DecodeError::MissingField),
        Some(Value::Text(t)) => Ok(t@),
        Some(_) => Err(DecodeError::InvalidType),
    }
}

impl VconVersion {
    pub fn new(s: &str) -> (r: VconVersion)
        ensures
            r@ == s@,
    {
        VconVersion { vcon: s.to_owned() }
    }

    pub fn as_str(&self) -> (r: &str)
        ensures
            r@ == self@,
    {
        self.vcon.as_str()
    }

    /// The version tag of a field list holding `vcon`.
    pub fn decode_fields(fields: &Vec<(String, Value)>) -> (r: Result<VconVersion, DecodeError>)
        ensures
            view_result(r) == version_of_fields(fields@),
    {
        match field(fields, "vcon") {
            None => Err(DecodeError::MissingField),
            Some(Value::Text(t)) => Ok(VconVersion { vcon: t.clone() }),
            Some(_) => Err(DecodeError::InvalidType),
        }
    }

    /// The wire form: `vcon` with the tag.
    pub fn encode(&self) -> (r: Vec<(String, Value)>)
        ensures
            r@.len() == 1,
            r@[0].0@ == "vcon"@,
            r@[0].1 matches Value::Text(t) && t@ == self@,
    {
        let mut r: Vec<(String, Value)> = Vec::new();
        r.push(("vcon".to_owned(), Value::Text(self.vcon.clone())));
        r
    }
}

impl Default for VconVersion {
    /// The first published version, `0.0.1`.
    fn default() -> (r: VconVersion)
        ensures
            r@ == "0.0.1"@,
    {
        VconVersion::new("0.0.1")
    }
}

} // verus!

use vstd::prelude::*;

use crate::analysis::AnalysisObject;
use crate::attachment::Attachment;
use crate::date::Date;
use crate::dialog::DialogObject;
use crate::identifier::Uuid;
use crate::party::Party;
use crate::reference::{RedactedReference, VconReference};
use crate::value::Value;
use crate::version::VconVersion;

verus! {

/// A field that holds a value, or an empty placeholder kept as it came.
#[derive(Debug, PartialEq)]
pub enum OrEmpty<T> {
    Present(T),
    Empty(Value),
}

/// A conversation container.
#[derive(Debug, PartialEq)]
pub struct Vcon {
    pub version: VconVersion,
    pub uuid: Uuid,
    pub subject: Option<String>,
    pub created_at: Option<Date>,
    pub updated_at: Option<Date>,
    pub redacted: Option<OrEmpty<RedactedReference>>,
    pub amended: Option<OrEmpty<RedactedReference>>,
    pub group: Option<Vec<VconReference>>,
    pub parties: Option<Vec<Party>>,
    pub dialog: Option<Vec<DialogObject>>,
    pub attachments: Option<Vec<Attachment>>,
    pub analysis: Option<Vec<AnalysisObject>>,
}

} // verus!

use vstd::prelude::*;

use crate::body::InlineContent;
use crate::content::UrlReferencedContent;
use crate::identifier::Uuid;

verus! {

/// Where another document lies: by URL, inline, or by identifier.
#[derive(Debug, Clone, PartialEq, Eq, Hash)]
pub enum VconReference {
    Url { vcon_url_referenced: UrlReferencedContent },
    Inline { inline_content: InlineContent },
    Uuid { uuid: Uuid },
}

/// A reference to a redacted or amended document.
#[derive(Debug, Clone, PartialEq, Eq, Hash)]
pub struct RedactedReference {
    pub typ: Option<String>,
    pub vcon_reference: VconReference,
}

} // verus!

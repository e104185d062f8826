//! Data model and wire codec of vCon conversation containers.
//!
//! Documents are handled as trees of [`Value`], the common data model of the
//! two backends (a text tree such as JSON, a tagged binary form such as CBOR).
//! The codecs here decide which shape a polymorphic field takes and check every
//! invariant on the way in.
mod address;
mod analysis;
mod attachment;
mod base64url;
mod body;
mod content;
mod date;
mod dialog;
mod error;
mod event;
mod extension;
mod identifier;
mod locator;
mod mime;
mod party;
mod record;
mod reference;
mod signature;
mod value;
mod vcon;
mod version;

pub use address::CivicAddress;
pub use analysis::{AnalysisObject, ModelInfo};
pub use attachment::Attachment;
pub use body::{BodyEncoding, InlineContent, BASE_64_URL_TAG};
pub use content::{Content, UrlReferencedContent};
pub use date::Date;
pub use dialog::{Dialog, DialogObject, DialogParties, Duration};
pub use error::{DecodeError, ParseError};
pub use event::{Event, PartyEvent};
pub use extension::ExtensionObject;
pub use identifier::Uuid;
pub use locator::Url;
pub use mime::{ContentParameters, Mime};
pub use party::Party;
pub use reference::{RedactedReference, VconReference};
pub use signature::{Signature, SignatureAlg};
pub use value::{Backend, Value};
pub use vcon::{OrEmpty, Vcon};
pub use version::VconVersion;

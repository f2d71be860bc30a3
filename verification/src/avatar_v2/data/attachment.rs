//! Attachments of an avatar, checked against the schemas they name.
pub use crate::arbittach::data::{Attachment, Property, Value};
pub use crate::arbittach::schema;

use vstd::prelude::*;

verus! {

/// The attachments of one object.
#[derive(Debug)]
pub struct AttachmentGroup {
    pub target: String,
    pub attachments: Vec<Attachment>,
}

} // verus!

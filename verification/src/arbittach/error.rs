//! Why a value does not have the type that a schema asks for.
use vstd::prelude::*;

use crate::text::{concat2, concat4, usize_to_decimal, decimal};

verus! {

#[derive(Debug)]
pub enum TypeError {
    UnsupportedType,
    LengthMismatch { expected: usize, found: usize },
    TypeMismatch { expected: String, found: String },
}

pub open spec fn type_error_text(e: TypeError) -> Seq<char> {
    match e {
        TypeError::UnsupportedType => "unsupported type"@,
        TypeError::LengthMismatch { expected, found } => "length mismatch; "@ + decimal(
            expected as nat,
        ) + " expected, "@ + decimal(found as nat) + " found"@,
        TypeError::TypeMismatch { expected, found } => "type mismatch; "@ + expected@
            + " expected, "@ + found@ + " found"@,
    }
}

impl TypeError {
    /// The text that describes this error.
    pub fn message(&self) -> (r: String)
        ensures
            r@ == type_error_text(*self),
    {
        match self {
            TypeError::UnsupportedType => String::from_str("unsupported type"),
            TypeError::LengthMismatch { expected, found } => {
                let e = usize_to_decimal(*expected);
                let f = usize_to_decimal(*found);
                let head = concat4("length mismatch; ", e.as_str(), " expected, ", f.as_str());
                concat2(head.as_str(), " found")
            },
            TypeError::TypeMismatch { expected, found } => {
                let head = concat4("type mismatch; ", expected.as_str(), " expected, ", found.as_str());
                concat2(head.as_str(), " found")
            },
        }
    }
}

} // verus!

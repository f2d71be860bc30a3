//! Internal errors of the avatar compiler.
use vstd::prelude::*;

use crate::text::concat2;

verus! {

#[derive(Debug)]
pub enum AvatarError {
    CompilerError(String),
}

pub open spec fn avatar_error_text(e: AvatarError) -> Seq<char> {
    match e {
        AvatarError::CompilerError(m) => "internal compiler error: "@ + m@,
    }
}

impl AvatarError {
    pub fn message(&self) -> (r: String)
        ensures
            r@ == avatar_error_text(*self),
    {
        match self {
            AvatarError::CompilerError(m) => concat2("internal compiler error: ", m.as_str()),
        }
    }
}

} // verus!

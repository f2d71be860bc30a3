//! The avatar validator's command line.
use vstd::prelude::*;

verus! {

/// The path of the avatar definition to validate.
#[derive(Debug)]
pub struct Arguments {
    pub avatar: String,
}

} // verus!

//! The state behind the compiler's dynamic library interface.
pub mod serialization;
pub mod state;

use vstd::prelude::*;

verus! {

/// The status a caller of the library interface receives.
#[derive(Debug, Clone, Copy, PartialEq, Eq, Structural)]
pub enum DeclavatarStatus {
    /// Operation succeeded.
    Success,
    /// Given string has invalid UTF-8 sequence.
    Utf8Error,
    /// Internal JSON serialization error.
    JsonError,
    /// Error occurred in compilation.
    CompileError,
    /// Given pointer was invalid.
    InvalidPointer,
    /// Given value was invalid.
    InvalidValue,
}

pub open spec fn declavatar_status_number(s: DeclavatarStatus) -> u32 {
    match s {
        DeclavatarStatus::Success => 0,
        DeclavatarStatus::Utf8Error => 1,
        DeclavatarStatus::JsonError => 2,
        DeclavatarStatus::CompileError => 3,
        DeclavatarStatus::InvalidPointer => 128,
        DeclavatarStatus::InvalidValue => 129,
    }
}

impl DeclavatarStatus {
    /// The number that stands for this status across the interface.
    pub fn code(self) -> (r: u32)
        ensures
            r == declavatar_status_number(self),
    {
        match self {
            DeclavatarStatus::Success => 0,
            DeclavatarStatus::Utf8Error => 1,
            DeclavatarStatus::JsonError => 2,
            DeclavatarStatus::CompileError => 3,
            DeclavatarStatus::InvalidPointer => 128,
            DeclavatarStatus::InvalidValue => 129,
        }
    }
}

/// The format of a definition file.
#[derive(Debug, Clone, Copy, PartialEq, Eq, Structural)]
pub enum DeclavatarFormat {
    /// S-expression.
    Sexpr,
    /// Lua.
    Lua,
}

impl DeclavatarFormat {
    /// The format a number stands for across the interface: 1 for S-expressions, 2 for Lua.
    pub fn from_code(code: u32) -> (r: Option<DeclavatarFormat>)
        ensures
            code == 1 ==> r == Some(DeclavatarFormat::Sexpr),
            code == 2 ==> r == Some(DeclavatarFormat::Lua),
            code != 1 && code != 2 ==> r is None,
    {
        if code == 1 {
            Some(DeclavatarFormat::Sexpr)
        } else if code == 2 {
            Some(DeclavatarFormat::Lua)
        } else {
            None
        }
    }
}

} // verus!

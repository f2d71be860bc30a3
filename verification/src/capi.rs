//! The state behind the C interface.
pub mod interop;

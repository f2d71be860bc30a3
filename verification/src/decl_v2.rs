//! The declaration of an avatar in the second format, as the parser hands it over.
pub mod arguments;
pub mod data;

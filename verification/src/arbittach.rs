pub mod data;
pub mod error;
pub mod schema;
pub mod validator;

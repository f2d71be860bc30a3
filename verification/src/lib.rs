pub mod compiler;
pub mod arbittach;
pub mod avatar;
pub mod avatar_validator;
pub mod avatar_v2;
pub mod capi;
pub mod cli;
pub mod decl;
pub mod decl_v2;
pub mod declavac;
pub mod lookup;
pub mod text;

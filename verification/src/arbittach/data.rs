//! Values of arbitrary attachments.
//!
//! A floating-point value is carried as its IEEE-754 bit pattern (`u64`).
use vstd::prelude::*;

verus! {

#[derive(Debug)]
pub struct Attachment {
    pub name: String,
    pub properties: Vec<Property>,
}

#[derive(Debug)]
pub struct Property {
    pub name: String,
    pub parameters: Vec<Value>,
    /// Keyword arguments, each name at most once.
    pub keywords: Vec<(String, Value)>,
}

#[derive(Debug)]
pub enum Value {
    Null,
    List(Vec<Value>),
    Tuple(Vec<Value>),
    Boolean(bool),
    Integer(i64),
    /// IEEE-754 bits.
    Float(u64),
    String(String),
    /// Components as IEEE-754 bits.
    Vector(Vec<u64>),
    GameObject(String),
    Material(String),
    AnimationClip(String),
}

pub open spec fn value_type_name(v: Value) -> Seq<char> {
    match v {
        Value::List(_) => "list"@,
        Value::Tuple(_) => "tuple"@,
        Value::Null => "null"@,
        Value::Boolean(_) => "boolean"@,
        Value::Integer(_) => "integer"@,
        Value::Float(_) => "float"@,
        Value::String(_) => "string"@,
        Value::Vector(_) => "vector"@,
        Value::GameObject(_) => "game object"@,
        Value::Material(_) => "material"@,
        Value::AnimationClip(_) => "animation clip"@,
    }
}

impl Value {
    pub fn kind_name(&self) -> (r: &'static str)
        ensures
            r@ == value_type_name(*self),
    {
        match self {
            Value::List(_) => "list",
            Value::Tuple(_) => "tuple",
            Value::Null => "null",
            Value::Boolean(_) => "boolean",
            Value::Integer(_) => "integer",
            Value::Float(_) => "float",
            Value::String(_) => "string",
            Value::Vector(_) => "vector",
            Value::GameObject(_) => "game object",
            Value::Material(_) => "material",
            Value::AnimationClip(_) => "animation clip",
        }
    }
}

} // verus!

//! Schemas of arbitrary attachments.
use vstd::prelude::*;

verus! {

#[derive(Debug)]
pub struct Attachment {
    pub name: String,
    pub properties: Vec<Property>,
}

#[derive(Debug)]
pub struct Property {
    pub name: String,
    pub required: bool,
    pub parameters: Vec<Parameter>,
    pub keywords: Vec<Keyword>,
}

#[derive(Debug)]
pub struct Parameter {
    pub name: String,
    pub value_type: ValueType,
}

#[derive(Debug)]
pub struct Keyword {
    pub name: String,
    pub required: bool,
    pub value_type: ValueType,
}

#[derive(Debug)]
pub enum ValueType {
    Any,
    OneOf(Vec<ValueType>),
    List(Box<ValueType>),
    Tuple(Vec<ValueType>),
    /// A map from keys of the first type to values of the second.
    Dictionary(Box<ValueType>, Box<ValueType>),
    Null,
    Boolean,
    Integer,
    Float,
    String,
    Vector(usize),
    GameObject,
    Material,
    AnimationClip,
}

pub open spec fn schema_type_name(t: ValueType) -> Seq<char> {
    match t {
        ValueType::Any => "any"@,
        ValueType::OneOf(_) => "one-of"@,
        ValueType::List(_) => "list"@,
        ValueType::Tuple(_) => "tuple"@,
        ValueType::Dictionary(_, _) => "map"@,
        ValueType::Null => "null"@,
        ValueType::Boolean => "boolean"@,
        ValueType::Integer => "integer"@,
        ValueType::Float => "float"@,
        ValueType::String => "string"@,
        ValueType::Vector(_) => "vector"@,
        ValueType::GameObject => "game object"@,
        ValueType::Material => "material"@,
        ValueType::AnimationClip => "animation clip"@,
    }
}

impl ValueType {
    pub fn name(&self) -> (r: &'static str)
        ensures
            r@ == schema_type_name(*self),
    {
        match self {
            ValueType::Any => "any",
            ValueType::OneOf(_) => "one-of",
            ValueType::List(_) => "list",
            ValueType::Tuple(_) => "tuple",
            ValueType::Dictionary(_, _) => "map",
            ValueType::Null => "null",
            ValueType::Boolean => "boolean",
            ValueType::Integer => "integer",
            ValueType::Float => "float",
            ValueType::String => "string",
            ValueType::Vector(_) => "vector",
            ValueType::GameObject => "game object",
            ValueType::Material => "material",
            ValueType::AnimationClip => "animation clip",
        }
    }
}

} // verus!

//! Assets referenced by an avatar.
use vstd::prelude::*;

verus! {

/// An asset, identified by its key.
#[derive(Debug, Clone)]
pub struct Asset {
    pub asset_type: AssetType,
    pub key: String,
}

#[derive(Debug, Clone, Copy, PartialEq, Eq, Structural)]
pub enum AssetType {
    Material,
    Animation,
}

pub open spec fn asset_type_name(t: AssetType) -> Seq<char> {
    match t {
        AssetType::Material => "material"@,
        AssetType::Animation => "animation"@,
    }
}

impl AssetType {
    pub fn kind_name(self) -> (r: &'static str)
        ensures
            r@ == asset_type_name(self),
    {
        match self {
            AssetType::Material => "material",
            AssetType::Animation => "animation",
        }
    }
}

} // verus!

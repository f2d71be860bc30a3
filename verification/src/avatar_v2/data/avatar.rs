//! A compiled avatar.
use vstd::prelude::*;

use crate::avatar_v2::data::asset::Asset;
use crate::avatar_v2::data::attachment::AttachmentGroup;
use crate::avatar_v2::data::layer::Layer;
use crate::avatar_v2::data::menu::MenuItem;
use crate::avatar_v2::data::parameter::Parameter;

verus! {

/// An avatar: its name, parameters, assets, FX controller layers, menu and attachments.
#[derive(Debug)]
pub struct Avatar {
    pub name: String,
    pub parameters: Vec<Parameter>,
    pub assets: Vec<Asset>,
    pub fx_controller: Vec<Layer>,
    pub menu_items: Vec<MenuItem>,
    pub attachments: Vec<AttachmentGroup>,
}

} // verus!

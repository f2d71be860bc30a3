//! The declaration of an avatar, as read from a definition document.
//!
//! Floating-point values are carried as IEEE-754 bit patterns (`u64`).
use vstd::prelude::*;

verus! {

#[derive(Debug)]
pub struct Avatar {
    pub name: String,
    pub parameters_blocks: Vec<Parameters>,
    pub assets_blocks: Vec<Assets>,
    pub animations_blocks: Vec<Animations>,
    pub drivers_blocks: Vec<Drivers>,
    pub menu_blocks: Vec<Menu>,
}

#[derive(Debug)]
pub struct Parameters {
    pub parameters: Vec<Parameter>,
}

#[derive(Debug)]
pub struct Parameter {
    pub name: String,
    pub ty: ParameterType,
    pub scope: Option<ParameterScope>,
    pub save: Option<bool>,
}

/// A parameter type with its optional default (a float default as IEEE-754 bits).
#[derive(Debug, Clone, Copy, PartialEq, Eq, Structural)]
pub enum ParameterType {
    Int(Option<u8>),
    Float(Option<u64>),
    Bool(Option<bool>),
}

#[derive(Debug, Clone, Copy, PartialEq, Eq, Structural)]
pub enum ParameterScope {
    Internal,
    Local,
    Synced,
}

#[derive(Debug)]
pub struct Assets {
    pub assets: Vec<AssetKey>,
}

#[derive(Debug)]
pub struct AssetKey {
    pub key: String,
    pub ty: AssetType,
}

#[derive(Debug, Clone, Copy, PartialEq, Eq, Structural)]
pub enum AssetType {
    Material,
    Animation,
    Indeterminate,
}

#[derive(Debug)]
pub struct Animations {
    pub elements: Vec<AnimationElement>,
}

#[derive(Debug)]
pub enum AnimationElement {
    Group(AnimationGroup),
    Switch(AnimationSwitch),
    Puppet(Puppet),
    Layer(Layer),
}

#[derive(Debug)]
pub struct Preventions {
    pub mouth: Option<bool>,
    pub eyelids: Option<bool>,
}

#[derive(Debug)]
pub struct AnimationGroup {
    pub name: String,
    pub parameter: String,
    pub default_mesh: Option<String>,
    pub preventions: Preventions,
    pub default_block: Option<GroupBlock>,
    pub options: Vec<GroupBlock>,
}

#[derive(Debug)]
pub struct AnimationSwitch {
    pub name: String,
    pub parameter: String,
}

#[derive(Debug)]
pub struct Puppet {
    pub name: String,
    pub parameter: String,
}

#[derive(Debug)]
pub struct Layer {
    pub name: String,
}

/// A block of targets: the default block or one option of a group.
#[derive(Debug)]
pub struct GroupBlock {
    pub name: Option<String>,
    pub declared_order: usize,
    /// The block is a single target whose kind the declaration leaves open.
    pub indeterminate: bool,
    pub cancel_default: Option<bool>,
    pub targets: Vec<Target>,
}

#[derive(Debug)]
pub enum Target {
    Shape { shape: String, mesh: Option<String>, value: Option<u64>, cancel_to: Option<u64> },
    Object { object: String, value: Option<bool>, cancel_to: Option<bool> },
    Material {
        slot: usize,
        value: Option<AssetKey>,
        mesh: Option<String>,
        cancel_to: Option<AssetKey>,
    },
    Indeterminate {
        label: String,
        object: Option<String>,
        mesh: Option<String>,
        shape: Option<String>,
        value: Option<DriveTarget>,
    },
}

#[derive(Debug)]
pub enum DriveTarget {
    Group { name: String, option: Option<String> },
    IntParameter { name: String, value: u8 },
    /// The value as IEEE-754 bits.
    FloatParameter { name: String, value: u64 },
    BoolParameter { name: String, value: bool },
}

#[derive(Debug)]
pub struct Drivers {
    pub groups: Vec<DriverGroup>,
}

#[derive(Debug)]
pub struct DriverGroup {
    pub name: String,
    pub local: Option<bool>,
    pub drives: Vec<Drive>,
}

/// A drive; chances and ranges are IEEE-754 bits.
#[derive(Debug)]
pub enum Drive {
    /// Sets the target to a value.
    Assign(DriveTarget),
    Add(DriveTarget),
    Random {
        group: Option<String>,
        parameter: Option<String>,
        chance: Option<u64>,
        range: (Option<u64>, Option<u64>),
    },
    Copy {
        from: String,
        to: String,
        from_range: (Option<u64>, Option<u64>),
        to_range: (Option<u64>, Option<u64>),
    },
}

#[derive(Debug)]
pub struct Menu {
    pub elements: Vec<MenuElement>,
}

#[derive(Debug)]
pub enum MenuElement {
    SubMenu(SubMenu),
    Boolean(BooleanControl),
}

#[derive(Debug)]
pub struct SubMenu {
    pub name: String,
    pub elements: Vec<MenuElement>,
}

#[derive(Debug)]
pub struct BooleanControl {
    pub name: String,
    pub toggle: bool,
}

} // verus!

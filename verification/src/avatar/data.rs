//! A compiled avatar: parameters, assets, animation groups, drivers and menu.
//!
//! Floating-point values are carried as IEEE-754 bit patterns (`u64`).
use vstd::prelude::*;

use crate::text::concat2;
use crate::text::concat4;

verus! {

#[derive(Debug)]
pub struct Avatar {
    pub name: String,
    pub parameters: Vec<Parameter>,
    pub assets: Vec<Asset>,
    pub animation_groups: Vec<AnimationGroup>,
    pub driver_groups: Vec<DriverGroup>,
    pub top_menu_group: MenuGroup,
}

#[derive(Debug, Clone)]
pub struct Parameter {
    pub name: String,
    pub value_type: ParameterType,
    pub scope: ParameterScope,
}

#[derive(Debug, Clone, Copy, PartialEq, Eq, Structural)]
pub enum ParameterType {
    Int(u8),
    /// Default value as IEEE-754 bits.
    Float(u64),
    Bool(bool),
}

pub open spec fn same_kind(a: ParameterType, b: ParameterType) -> bool {
    match (a, b) {
        (ParameterType::Int(_), ParameterType::Int(_)) => true,
        (ParameterType::Float(_), ParameterType::Float(_)) => true,
        (ParameterType::Bool(_), ParameterType::Bool(_)) => true,
        _ => false,
    }
}

impl ParameterType {
    pub fn matches(self, requirement: ParameterType) -> (r: bool)
        ensures
            r == same_kind(self, requirement),
    {
        match (self, requirement) {
            (ParameterType::Int(_), ParameterType::Int(_)) => true,
            (ParameterType::Float(_), ParameterType::Float(_)) => true,
            (ParameterType::Bool(_), ParameterType::Bool(_)) => true,
            _ => false,
        }
    }
}

#[derive(Debug, Clone, Copy, PartialEq, Eq, Structural)]
pub enum ParameterScope {
    Internal,
    Local(bool),
    Synced(bool),
}

pub open spec fn scope_suitable(scope: ParameterScope, requirement: ParameterScope) -> bool {
    match (requirement, scope) {
        (ParameterScope::Internal, _) => true,
        (ParameterScope::Local(_), ParameterScope::Local(_)) => true,
        (ParameterScope::Local(_), ParameterScope::Synced(_)) => true,
        (ParameterScope::Synced(_), ParameterScope::Synced(_)) => true,
        _ => false,
    }
}

impl ParameterScope {
    pub const MAYBE_INTERNAL: ParameterScope = ParameterScope::Internal;

    pub fn suitable_for(self, requirement: ParameterScope) -> (r: bool)
        ensures
            r == scope_suitable(self, requirement),
    {
        match (requirement, self) {
            (ParameterScope::Internal, _) => true,
            (ParameterScope::Local(_), ParameterScope::Local(_)) => true,
            (ParameterScope::Local(_), ParameterScope::Synced(_)) => true,
            (ParameterScope::Synced(_), ParameterScope::Synced(_)) => true,
            _ => false,
        }
    }
}

#[derive(Debug, Clone)]
pub struct Asset {
    pub asset_type: AssetType,
    pub key: String,
}

#[derive(Debug, Clone, Copy, PartialEq, Eq, Structural)]
pub enum AssetType {
    Material,
    Animation,
}

#[derive(Debug)]
pub struct AnimationGroup {
    pub name: String,
    pub content: AnimationGroupContent,
}

#[derive(Debug)]
pub enum AnimationGroupContent {
    Group {
        parameter: String,
        preventions: Preventions,
        default_targets: Vec<Target>,
        options: Vec<GroupOption>,
    },
    Switch {
        parameter: String,
        preventions: Preventions,
        disabled: Vec<Target>,
        enabled: Vec<Target>,
    },
    Puppet { parameter: String, keyframes: Vec<PuppetKeyframe> },
}

#[derive(Debug, Clone, Copy, PartialEq, Eq, Structural)]
pub struct Preventions {
    pub mouth: bool,
    pub eyelids: bool,
}

#[derive(Debug)]
pub struct GroupOption {
    pub name: String,
    pub order: usize,
    pub targets: Vec<Target>,
}

#[derive(Debug)]
pub enum Target {
    Shape(ShapeTarget),
    Object(ObjectTarget),
    Material(MaterialTarget),
}

#[derive(Debug)]
pub struct ShapeTarget {
    pub mesh: String,
    pub name: String,
    /// IEEE-754 bits.
    pub value: u64,
    pub cancel_to: Option<u64>,
}

#[derive(Debug)]
pub struct ObjectTarget {
    pub name: String,
    pub enabled: bool,
    pub cancel_to: Option<bool>,
}

#[derive(Debug)]
pub struct MaterialTarget {
    pub mesh: String,
    pub slot: usize,
    pub asset_key: String,
    pub cancel_to: Option<String>,
}

/// The key under which a target is unique within an animation: shape by mesh and name,
/// object by name, material by mesh and slot.
pub open spec fn target_index(t: Target) -> Seq<char> {
    match t {
        Target::Shape(s) => "s-"@ + s.mesh@ + "-"@ + s.name@,
        Target::Object(o) => "o-"@ + o.name@,
        Target::Material(m) => "m-"@ + m.mesh@ + "-"@ + crate::text::decimal(m.slot as nat),
    }
}

impl Clone for Target {
    fn clone(&self) -> (r: Self)
        ensures
            r == *self,
    {
        match self {
            Target::Shape(s) => Target::Shape(
                ShapeTarget {
                    mesh: s.mesh.clone(),
                    name: s.name.clone(),
                    value: s.value,
                    cancel_to: s.cancel_to,
                },
            ),
            Target::Object(o) => Target::Object(
                ObjectTarget { name: o.name.clone(), enabled: o.enabled, cancel_to: o.cancel_to },
            ),
            Target::Material(m) => Target::Material(
                MaterialTarget {
                    mesh: m.mesh.clone(),
                    slot: m.slot,
                    asset_key: m.asset_key.clone(),
                    cancel_to: match &m.cancel_to {
                        Some(k) => Some(k.clone()),
                        None => None,
                    },
                },
            ),
        }
    }
}

impl Target {
    pub fn index(&self) -> (r: String)
        ensures
            r@ == target_index(*self),
    {
        match self {
            Target::Shape(ShapeTarget { mesh, name, .. }) => concat4(
                "s-",
                mesh.as_str(),
                "-",
                name.as_str(),
            ),
            Target::Object(ObjectTarget { name, .. }) => concat2("o-", name.as_str()),
            Target::Material(MaterialTarget { mesh, slot, .. }) => {
                let s = crate::text::usize_to_decimal(*slot);
                concat4("m-", mesh.as_str(), "-", s.as_str())
            },
        }
    }

    /// The same shape or object set to its resting state; a material has none.
    pub fn clone_as_disabled(&self) -> (r: Option<Target>)
        ensures
            match *self {
                Target::Shape(s) => r matches Some(Target::Shape(d)) && d.mesh@ == s.mesh@ && d.name@
                    == s.name@ && d.value == 0 && d.cancel_to is None,
                Target::Object(o) => r matches Some(Target::Object(d)) && d.name@ == o.name@
                    && !d.enabled && d.cancel_to is None,
                Target::Material(_) => r is None,
            },
    {
        match self {
            Target::Shape(ShapeTarget { mesh, name, .. }) => Some(
                Target::Shape(
                    ShapeTarget { mesh: mesh.clone(), name: name.clone(), value: 0, cancel_to: None },
                ),
            ),
            Target::Object(ObjectTarget { name, .. }) => Some(
                Target::Object(ObjectTarget { name: name.clone(), enabled: false, cancel_to: None }),
            ),
            Target::Material(_) => None,
        }
    }

    /// The value that a target is set to when its option cancels the default, if it names one.
    pub fn clone_as_canceled(&self) -> (r: Option<Target>)
        ensures
            match *self {
                Target::Shape(s) => match s.cancel_to {
                    Some(v) => r matches Some(Target::Shape(d)) && d.mesh@ == s.mesh@ && d.name@
                        == s.name@ && d.value == v && d.cancel_to is None,
                    None => r is None,
                },
                Target::Object(o) => match o.cancel_to {
                    Some(v) => r matches Some(Target::Object(d)) && d.name@ == o.name@ && d.enabled
                        == v && d.cancel_to is None,
                    None => r is None,
                },
                Target::Material(m) => match m.cancel_to {
                    Some(k) => r matches Some(Target::Material(d)) && d.mesh@ == m.mesh@ && d.slot
                        == m.slot && d.asset_key@ == k@ && d.cancel_to is None,
                    None => r is None,
                },
            },
    {
        match self {
            Target::Shape(ShapeTarget { mesh, name, cancel_to, .. }) => match cancel_to {
                Some(v) => Some(
                    Target::Shape(
                        ShapeTarget {
                            mesh: mesh.clone(),
                            name: name.clone(),
                            value: *v,
                            cancel_to: None,
                        },
                    ),
                ),
                None => None,
            },
            Target::Object(ObjectTarget { name, cancel_to, .. }) => match cancel_to {
                Some(v) => Some(
                    Target::Object(ObjectTarget { name: name.clone(), enabled: *v, cancel_to: None }),
                ),
                None => None,
            },
            Target::Material(MaterialTarget { mesh, slot, cancel_to, .. }) => match cancel_to {
                Some(k) => Some(
                    Target::Material(
                        MaterialTarget {
                            mesh: mesh.clone(),
                            slot: *slot,
                            asset_key: k.clone(),
                            cancel_to: None,
                        },
                    ),
                ),
                None => None,
            },
        }
    }
}

#[derive(Debug)]
pub struct PuppetKeyframe {
    /// IEEE-754 bits.
    pub position: u64,
    pub targets: Vec<Target>,
}

#[derive(Debug)]
pub struct DriverGroup {
    pub name: String,
    pub local: bool,
    pub drivers: Vec<Driver>,
}

/// A driver; floating-point values are IEEE-754 bits.
#[derive(Debug)]
pub enum Driver {
    SetInt(String, u8),
    SetFloat(String, u64),
    SetBool(String, bool),
    AddInt(String, u8),
    AddFloat(String, u64),
    RandomInt(String, (u8, u8)),
    RandomFloat(String, (u64, u64)),
    RandomBool(String, u64),
    Copy(String, String),
    RangedCopy(String, String, (u64, u64), (u64, u64)),
}

#[derive(Debug)]
pub enum MenuItem {
    SubMenu(MenuGroup),
    Button(MenuBoolean),
    Toggle(MenuBoolean),
    Radial(MenuRadial),
    TwoAxis(MenuTwoAxis),
    FourAxis(MenuFourAxis),
}

#[derive(Debug)]
pub struct MenuGroup {
    pub name: String,
    pub id: usize,
    pub items: Vec<MenuItem>,
}

#[derive(Debug)]
pub struct MenuBoolean {
    pub name: String,
    pub parameter: String,
    pub value: ParameterType,
}

#[derive(Debug)]
pub struct MenuRadial {
    pub name: String,
    pub parameter: String,
}

#[derive(Debug)]
pub struct MenuTwoAxis {
    pub name: String,
    pub horizontal_axis: BiAxis,
    pub vertical_axis: BiAxis,
}

#[derive(Debug)]
pub struct MenuFourAxis {
    pub name: String,
    pub left_axis: UniAxis,
    pub right_axis: UniAxis,
    pub up_axis: UniAxis,
    pub down_axis: UniAxis,
}

#[derive(Debug)]
pub struct BiAxis {
    pub parameter: String,
    pub label_negative: String,
    pub label_positive: String,
}

#[derive(Debug)]
pub struct UniAxis {
    pub parameter: String,
    pub label: String,
}

} // verus!

//! Declared parameters, assets, drives, menus and attachments of the second format.
//!
//! Floating-point values are carried as IEEE-754 bit patterns (`u64`).
use vstd::prelude::*;

use crate::avatar_v2::data::driver::TrackingTarget;
use crate::avatar_v2::data::parameter::{
    physbone_suffix, vrchat_parameter_name, ParameterQuery, PhysBoneParameterKind, VrchatParameterKind,
};
use crate::text::concat2;

verus! {

/// A block of parameter declarations.
#[derive(Debug)]
pub struct DeclParameters {
    pub parameters: Vec<DeclParameter>,
}

#[derive(Debug)]
pub enum DeclParameter {
    Primitive(DeclPrimitiveParameter),
    Provided(Vec<DeclProvidedParameterKind>),
    PhysBone(DeclPhysBonePrefix),
}

#[derive(Debug)]
pub struct DeclPhysBonePrefix {
    pub prefix: String,
}

#[derive(Debug)]
pub struct DeclPrimitiveParameter {
    pub name: String,
    pub ty: DeclPrimitiveParameterType,
    pub scope: Option<DeclPrimitiveParameterScope>,
    pub save: Option<bool>,
    pub unique: Option<bool>,
}

#[derive(Debug, Clone, Copy, PartialEq, Eq, Structural)]
pub enum DeclPrimitiveParameterType {
    Int(Option<u8>),
    /// Default value as IEEE-754 bits.
    Float(Option<u64>),
    Bool(Option<bool>),
}

#[derive(Debug, Clone, Copy, PartialEq, Eq, Structural)]
pub enum DeclPrimitiveParameterScope {
    Internal,
    Local,
    Synced,
}

/// The parameters that VRChat provides are declared by the same kinds it knows them by.
pub type DeclProvidedParameterKind = VrchatParameterKind;

/// The parameters of a PhysBone are declared by the same kinds they are known by.
pub type DeclPhysBoneParameterKind = PhysBoneParameterKind;

/// A reference to a parameter in a declaration.
#[derive(Debug)]
pub enum DeclParameterReference {
    Primitive(String),
    PhysBone(String, DeclPhysBoneParameterKind),
    Provided(DeclProvidedParameterKind),
}

pub open spec fn reference_query(r: DeclParameterReference) -> ParameterQuery {
    match r {
        DeclParameterReference::Primitive(name) => ParameterQuery::Declared(name),
        DeclParameterReference::PhysBone(prefix, kind) => ParameterQuery::PhysBone(prefix, kind),
        DeclParameterReference::Provided(kind) => ParameterQuery::Vrchat(kind),
    }
}

/// The full name of the referenced parameter: a PhysBone parameter is its prefix and suffix.
pub open spec fn reference_name(r: DeclParameterReference) -> Seq<char> {
    match r {
        DeclParameterReference::Primitive(name) => name@,
        DeclParameterReference::PhysBone(prefix, kind) => prefix@ + physbone_suffix(kind),
        DeclParameterReference::Provided(kind) => vrchat_parameter_name(kind),
    }
}

impl DeclParameterReference {
    /// The full name of the referenced parameter (see `reference_name`).
    pub fn parameter_name(&self) -> (r: String)
        ensures
            r@ == reference_name(*self),
    {
        match self {
            DeclParameterReference::Primitive(name) => name.clone(),
            DeclParameterReference::PhysBone(prefix, kind) => concat2(prefix.as_str(), kind.parameter_suffix()),
            DeclParameterReference::Provided(kind) => kind.parameter_name().to_owned(),
        }
    }

    /// The query that finds the referenced parameter.
    pub fn into_query(self) -> (r: ParameterQuery)
        ensures
            r == reference_query(self),
    {
        match self {
            DeclParameterReference::Primitive(name) => ParameterQuery::Declared(name),
            DeclParameterReference::PhysBone(prefix, kind) => ParameterQuery::PhysBone(prefix, kind),
            DeclParameterReference::Provided(kind) => ParameterQuery::Vrchat(kind),
        }
    }
}

/// A block of asset declarations.
#[derive(Debug)]
pub struct DeclAssets {
    pub assets: Vec<DeclAsset>,
}

#[derive(Debug)]
pub enum DeclAsset {
    Material(String),
    Animation(String),
}

/// A group layer's option, driven to by name.
#[derive(Debug)]
pub struct DeclDriveGroup {
    pub group: String,
    pub option: String,
}

/// A switch layer, driven on or off.
#[derive(Debug)]
pub struct DeclDriveSwitch {
    pub switch: String,
    pub value: Option<bool>,
}

/// A puppet layer, driven to a value (IEEE-754 bits).
#[derive(Debug)]
pub struct DeclDrivePuppet {
    pub puppet: String,
    pub value: Option<u64>,
}

/// What a drive does to a parameter; floating-point values as IEEE-754 bits.
#[derive(Debug)]
pub enum DeclParameterDrive {
    Group(DeclDriveGroup),
    Switch(DeclDriveSwitch),
    Puppet(DeclDrivePuppet),
    SetInt { parameter: DeclParameterReference, value: u8 },
    SetBool { parameter: DeclParameterReference, value: Option<bool> },
    SetFloat { parameter: DeclParameterReference, value: Option<u64> },
    AddInt { parameter: DeclParameterReference, value: u8 },
    AddFloat { parameter: DeclParameterReference, value: u64 },
    RandomInt { parameter: DeclParameterReference, range: (u8, u8) },
    RandomBool { parameter: DeclParameterReference, value: u64 },
    RandomFloat { parameter: DeclParameterReference, range: (u64, u64) },
    Copy {
        from: DeclParameterReference,
        to: DeclParameterReference,
        range: Option<((u64, u64), (u64, u64))>,
    },
}

/// A menu, or a submenu of one.
#[derive(Debug)]
pub struct DeclSubMenu {
    pub name: String,
    pub elements: Vec<DeclMenuElement>,
}

#[derive(Debug)]
pub enum DeclMenuElement {
    SubMenu(DeclSubMenu),
    Boolean(DeclBooleanControl),
    Puppet(DeclPuppetControl),
}

/// A button, or a toggle where `hold` is set.
#[derive(Debug)]
pub struct DeclBooleanControl {
    pub name: String,
    pub hold: bool,
    pub parameter_drive: DeclParameterDrive,
}

#[derive(Debug)]
pub struct DeclPuppetControl {
    pub name: String,
    pub puppet_type: Box<DeclPuppetType>,
}

#[derive(Debug)]
pub enum DeclPuppetType {
    Radial(DeclPuppetAxis),
    TwoAxis { horizontal: DeclPuppetAxis, vertical: DeclPuppetAxis },
    FourAxis { up: DeclPuppetAxis, down: DeclPuppetAxis, left: DeclPuppetAxis, right: DeclPuppetAxis },
}

#[derive(Debug)]
pub struct DeclPuppetAxis {
    pub target: DeclPuppetTarget,
    pub label_positive: Option<String>,
    pub label_negative: Option<String>,
}

#[derive(Debug)]
pub enum DeclPuppetTarget {
    Puppet(DeclDrivePuppet),
}

/// A block of attachments, grouped by the object they are attached to.
#[derive(Debug)]
pub struct DeclAttachments {
    pub targets: Vec<DeclAttachmentGroup>,
}

#[derive(Debug)]
pub struct DeclAttachmentGroup {
    pub target: String,
    pub attachments: Vec<DeclAttachment>,
}

#[derive(Debug)]
pub struct DeclAttachment {
    pub name: String,
    pub properties: Vec<DeclAttachmentProperty>,
}

#[derive(Debug)]
pub struct DeclAttachmentProperty {
    pub name: String,
    pub parameters: Vec<DeclAttachmentValue>,
}

/// A value as written in a declaration; a list is not typed until it meets a schema.
#[derive(Debug)]
pub enum DeclAttachmentValue {
    Null,
    Boolean(bool),
    Integer(i64),
    /// IEEE-754 bits.
    Float(u64),
    String(String),
    /// Components as IEEE-754 bits.
    Vector(Vec<u64>),
    GameObject(String),
    Material(String),
    AnimationClip(String),
    UntypedList(Vec<DeclAttachmentValue>),
}

/// A group layer: one option is chosen by an int parameter.
#[derive(Debug)]
pub struct DeclGroupLayer {
    pub name: String,
    pub driven_by: DeclParameterReference,
    pub default_mesh: Option<String>,
    pub copy_mode: Option<DeclGroupCopyMode>,
    pub default: Option<DeclGroupOption>,
    pub options: Vec<DeclGroupOption>,
}

/// How a group layer's default and options share their targets.
#[derive(Debug, Clone, Copy, PartialEq, Eq, Structural)]
pub enum DeclGroupCopyMode {
    ToDefaultZeroed,
    ToOption,
    MutualZeroed,
}

/// An option of a layer: its kind, and either an animation asset or targets.
#[derive(Debug)]
pub struct DeclGroupOption {
    pub kind: DeclGroupOptionKind,
    pub animation_asset: Option<String>,
    pub targets: Vec<DeclGroupOptionTarget>,
}

/// What an option is selected by: a name and value in a group, on or off in a switch,
/// a position (IEEE-754 bits) in a puppet.
#[derive(Debug)]
pub enum DeclGroupOptionKind {
    Selection(Option<String>, Option<usize>),
    Boolean(bool),
    Keyframe(u64),
}

#[derive(Debug)]
pub enum DeclGroupOptionTarget {
    Shape(DeclShapeTarget),
    Object(DeclObjectTarget),
    Material(DeclMaterialTarget),
    MaterialProperty(DeclMaterialPropertyTarget),
    ParameterDrive(DeclParameterDrive),
    TrackingControl(DeclTrackingControl),
}

#[derive(Debug)]
pub struct DeclShapeTarget {
    pub shape: String,
    pub mesh: Option<String>,
    /// IEEE-754 bits.
    pub value: Option<u64>,
}

#[derive(Debug)]
pub struct DeclObjectTarget {
    pub object: String,
    pub value: Option<bool>,
}

#[derive(Debug)]
pub struct DeclMaterialTarget {
    pub index: usize,
    pub value: String,
    pub mesh: Option<String>,
}

#[derive(Debug)]
pub struct DeclMaterialPropertyTarget {
    pub property: String,
    pub value: DeclMaterialValue,
    pub mesh: Option<String>,
}

/// A material property value; components as IEEE-754 bits.
#[derive(Debug, Clone, Copy)]
pub enum DeclMaterialValue {
    Float(u64),
    Color([u64; 4]),
    ColorHdr([u64; 4]),
    Vector([u64; 4]),
}

/// Tracking targets handed to or taken from animation.
#[derive(Debug)]
pub struct DeclTrackingControl {
    pub animation_desired: bool,
    pub targets: Vec<DeclTrackingTarget>,
}

/// Tracking targets are declared by the same names they are known by.
pub type DeclTrackingTarget = TrackingTarget;

/// A switch layer: on or off by a bool parameter, or by a gate.
#[derive(Debug)]
pub struct DeclSwitchLayer {
    pub name: String,
    pub driven_by: Option<DeclParameterReference>,
    pub with_gate: Option<String>,
    pub default_mesh: Option<String>,
    pub disabled: DeclGroupOption,
    pub enabled: DeclGroupOption,
}

/// A puppet layer: keyframes blended by a float parameter, or an animation asset.
#[derive(Debug)]
pub struct DeclPuppetLayer {
    pub name: String,
    pub driven_by: DeclParameterReference,
    pub default_mesh: Option<String>,
    pub animation_asset: Option<String>,
    pub keyframes: Vec<DeclGroupOption>,
}

/// A raw layer: states and the transitions between them.
#[derive(Debug)]
pub struct DeclRawLayer {
    pub name: String,
    pub default: Option<String>,
    pub states: Vec<DeclRawLayerState>,
}

#[derive(Debug)]
pub struct DeclRawLayerState {
    pub name: String,
    pub kind: DeclRawLayerAnimationKind,
    pub transitions: Vec<DeclRawLayerTransition>,
}

/// What a raw state plays: a clip at a speed (IEEE-754 bits) or by parameters, or a blend tree.
#[derive(Debug)]
pub enum DeclRawLayerAnimationKind {
    Clip {
        animation: DeclRawLayerAnimation,
        speed: (Option<u64>, Option<DeclParameterReference>),
        time: Option<DeclParameterReference>,
    },
    BlendTree { tree_type: DeclRawLayerBlendTreeType, fields: Vec<DeclRawLayerBlendTreeField> },
}

/// Targets written in place.
#[derive(Debug)]
pub struct DeclInlineTargets {
    pub targets: Vec<DeclGroupOptionTarget>,
}

#[derive(Debug)]
pub enum DeclRawLayerAnimation {
    Inline(DeclInlineTargets),
    External(String),
}

/// The kind of a blend tree and the parameters it blends by.
#[derive(Debug)]
pub enum DeclRawLayerBlendTreeType {
    Linear(DeclParameterReference),
    Simple2D(DeclParameterReference, DeclParameterReference),
    Freeform2D(DeclParameterReference, DeclParameterReference),
    Cartesian2D(DeclParameterReference, DeclParameterReference),
}

/// An animation of a blend tree at a position (IEEE-754 bits).
#[derive(Debug)]
pub struct DeclRawLayerBlendTreeField {
    pub animation: DeclRawLayerAnimation,
    pub values: [u64; 2],
}

/// A transition to the state named `target`, after `duration` (IEEE-754 bits), when every
/// condition holds.
#[derive(Debug)]
pub struct DeclRawLayerTransition {
    pub target: String,
    pub duration: Option<u64>,
    pub conditions: Vec<DeclRawLayerTransitionCondition>,
}

/// A condition on a parameter; float values as IEEE-754 bits.
#[derive(Debug)]
pub enum DeclRawLayerTransitionCondition {
    Bool(DeclParameterReference, bool),
    Int(DeclParameterReference, DeclRawLayerTransitionOrdering, i64),
    Float(DeclParameterReference, DeclRawLayerTransitionOrdering, u64),
    Zero(DeclParameterReference, bool),
}

#[derive(Debug, Clone, Copy, PartialEq, Eq, Structural)]
pub enum DeclRawLayerTransitionOrdering {
    Equal,
    NotEqual,
    Greater,
    Lesser,
}

/// A layer of an FX controller.
#[derive(Debug)]
pub enum DeclControllerLayer {
    Group(DeclGroupLayer),
    Switch(DeclSwitchLayer),
    Puppet(DeclPuppetLayer),
    Raw(DeclRawLayer),
}

/// A block of FX controller layers.
#[derive(Debug)]
pub struct DeclFxController {
    pub layers: Vec<DeclControllerLayer>,
}

/// A block of exports.
#[derive(Debug)]
pub struct DeclExports {
    pub exports: Vec<DeclExport>,
}

/// A gate that other components may open, or a bool parameter that guards a gate.
#[derive(Debug)]
pub enum DeclExport {
    Gate(String),
    Guard(String, String),
}

/// A whole avatar declaration.
#[derive(Debug)]
pub struct DeclAvatar {
    pub name: String,
    pub parameters_blocks: Vec<DeclParameters>,
    pub assets_blocks: Vec<DeclAssets>,
    pub fx_controllers: Vec<DeclFxController>,
    pub menu_blocks: Vec<DeclSubMenu>,
    pub exports_blocks: Vec<DeclExports>,
    pub attachments_blocks: Vec<DeclAttachments>,
}

} // verus!

//! Layers of an avatar's FX controller, and the animation targets they set.
//!
//! Floating-point values are carried as IEEE-754 bit patterns (`u64`).
use vstd::prelude::*;

use crate::avatar_v2::data::driver::{drive_target, ParameterDrive, TrackingControl, TrackingTarget};
use crate::text::{concat2, concat4, decimal, usize_to_decimal};

verus! {

#[derive(Debug)]
pub struct Layer {
    pub name: String,
    pub content: LayerContent,
}

#[derive(Debug)]
pub enum LayerContent {
    Group { parameter: String, default: LayerGroupOption, options: Vec<LayerGroupOption> },
    Switch { parameter: String, disabled: LayerAnimation, enabled: LayerAnimation },
    Puppet { parameter: String, animation: LayerAnimation },
    SwitchGate { gate: String, disabled: LayerAnimation, enabled: LayerAnimation },
    Raw { default_index: usize, states: Vec<LayerRawState>, transitions: Vec<LayerRawTransition> },
}

#[derive(Debug)]
pub struct LayerGroupOption {
    pub name: String,
    pub value: usize,
    pub animation: LayerAnimation,
}

#[derive(Debug)]
pub struct LayerPuppetKeyframe {
    /// IEEE-754 bits.
    pub value: u64,
    pub targets: Vec<Target>,
}

/// Something an animation sets.
#[derive(Debug)]
pub enum Target {
    Shape { mesh: String, shape: String, value: u64 },
    Object { object: String, value: bool },
    Material { mesh: String, index: usize, asset: String },
    MaterialProperty { mesh: String, property: String, value: MaterialValue },
    ParameterDrive(ParameterDrive),
    TrackingControl(TrackingControl),
}

/// A material property value; components as IEEE-754 bits.
#[derive(Debug, Clone, Copy)]
pub enum MaterialValue {
    Float(u64),
    VectorRgba([u64; 4]),
    VectorXyzw([u64; 4]),
}

#[derive(Debug)]
pub struct LayerRawState {
    pub name: String,
    pub animation: LayerRawAnimationKind,
}

#[derive(Debug)]
pub enum LayerRawAnimationKind {
    Clip {
        animation: LayerAnimation,
        speed: Option<u64>,
        speed_by: Option<String>,
        time_by: Option<String>,
    },
    BlendTree { blend_type: LayerRawBlendTreeType, params: Vec<String>, fields: Vec<LayerRawField> },
}

#[derive(Debug, Clone, Copy, PartialEq, Eq, Structural)]
pub enum LayerRawBlendTreeType {
    Linear,
    Simple2D,
    Freeform2D,
    Cartesian2D,
}

#[derive(Debug)]
pub struct LayerRawField {
    pub animation: LayerAnimation,
    pub position: [u64; 2],
}

#[derive(Debug)]
pub struct LayerRawTransition {
    pub from_index: usize,
    pub target_index: usize,
    pub duration: u64,
    pub conditions: Vec<LayerRawCondition>,
}

#[derive(Debug)]
pub enum LayerRawCondition {
    Be(String),
    Not(String),
    EqInt(String, i64),
    NeqInt(String, i64),
    GtInt(String, i64),
    LeInt(String, i64),
    GtFloat(String, u64),
    LeFloat(String, u64),
}

/// An animation: targets set at once, keyframes of targets, or an animation asset.
#[derive(Debug)]
pub enum LayerAnimation {
    Inline(Vec<Target>),
    KeyedInline(Vec<LayerPuppetKeyframe>),
    External(String),
}

pub open spec fn tracking_target_name(t: TrackingTarget) -> Seq<char> {
    match t {
        TrackingTarget::Head => "Head"@,
        TrackingTarget::Hip => "Hip"@,
        TrackingTarget::Eyes => "Eyes"@,
        TrackingTarget::Mouth => "Mouth"@,
        TrackingTarget::HandLeft => "HandLeft"@,
        TrackingTarget::HandRight => "HandRight"@,
        TrackingTarget::FootLeft => "FootLeft"@,
        TrackingTarget::FoorRight => "FoorRight"@,
        TrackingTarget::FingersLeft => "FingersLeft"@,
        TrackingTarget::FingersRight => "FingersRight"@,
    }
}

/// The names of tracking targets, one after another.
pub open spec fn tracking_names(ts: Seq<TrackingTarget>) -> Seq<char>
    decreases ts.len(),
{
    if ts.len() == 0 {
        Seq::empty()
    } else {
        tracking_names(ts.drop_last()) + tracking_target_name(ts.last())
    }
}

/// The key of what a target drives: two targets with one key drive the same thing.
pub open spec fn driving_key(t: Target) -> Seq<char> {
    match t {
        Target::Shape { mesh, shape, .. } => "shape://"@ + mesh@ + "/"@ + shape@,
        Target::Object { object, .. } => "object://"@ + object@,
        Target::Material { mesh, index, .. } => "material://"@ + mesh@ + "/"@ + decimal(index as nat),
        Target::MaterialProperty { mesh, property, .. } => "material+prop://"@ + mesh@ + "/"@
            + property@,
        Target::ParameterDrive(pd) => "parameter://"@ + drive_target(pd),
        Target::TrackingControl(tc) => "tracking://"@ + tracking_names(tc.targets@),
    }
}

impl TrackingTarget {
    pub fn name(self) -> (r: &'static str)
        ensures
            r@ == tracking_target_name(self),
    {
        match self {
            TrackingTarget::Head => "Head",
            TrackingTarget::Hip => "Hip",
            TrackingTarget::Eyes => "Eyes",
            TrackingTarget::Mouth => "Mouth",
            TrackingTarget::HandLeft => "HandLeft",
            TrackingTarget::HandRight => "HandRight",
            TrackingTarget::FootLeft => "FootLeft",
            TrackingTarget::FoorRight => "FoorRight",
            TrackingTarget::FingersLeft => "FingersLeft",
            TrackingTarget::FingersRight => "FingersRight",
        }
    }
}

fn tracking_key(ts: &Vec<TrackingTarget>) -> (r: String)
    ensures
        r@ == "tracking://"@ + tracking_names(ts@),
{
    let mut r = String::from_str("tracking://");
    let mut i: usize = 0;
    proof {
        assert(ts@.subrange(0, 0) =~= Seq::<TrackingTarget>::empty());
    }
    while i < ts.len()
        invariant
            i <= ts@.len(),
            r@ == "tracking://"@ + tracking_names(ts@.subrange(0, i as int)),
        decreases ts@.len() - i,
    {
        r.append(ts[i].name());
        proof {
            let pre = ts@.subrange(0, i + 1);
            assert(pre.drop_last() =~= ts@.subrange(0, i as int));
        }
        i = i + 1;
    }
    proof {
        assert(ts@.subrange(0, ts@.len() as int) =~= ts@);
    }
    r
}

impl Target {
    /// The same shape set to 0.0, or the same object disabled; other targets have no zero.
    pub fn clone_as_zeroed(&self) -> (r: Option<Target>)
        ensures
            match *self {
                Target::Shape { mesh, shape, .. } => r matches Some(Target::Shape { mesh: m, shape: s, value })
                    && m@ == mesh@ && s@ == shape@ && value == 0,
                Target::Object { object, .. } => r matches Some(Target::Object { object: o, value })
                    && o@ == object@ && !value,
                _ => r is None,
            },
    {
        match self {
            Target::Shape { mesh, shape, .. } => Some(
                Target::Shape { mesh: mesh.clone(), shape: shape.clone(), value: 0 },
            ),
            Target::Object { object, .. } => Some(Target::Object { object: object.clone(), value: false }),
            _ => None,
        }
    }

    /// The key of what this target drives (see `driving_key`).
    pub fn driving_key(&self) -> (r: String)
        ensures
            r@ == driving_key(*self),
    {
        match self {
            Target::Shape { mesh, shape, .. } => concat4("shape://", mesh.as_str(), "/", shape.as_str()),
            Target::Object { object, .. } => concat2("object://", object.as_str()),
            Target::Material { mesh, index, .. } => {
                let i = usize_to_decimal(*index);
                concat4("material://", mesh.as_str(), "/", i.as_str())
            },
            Target::MaterialProperty { mesh, property, .. } => concat4(
                "material+prop://",
                mesh.as_str(),
                "/",
                property.as_str(),
            ),
            Target::ParameterDrive(pd) => concat2("parameter://", pd.target_parameter()),
            Target::TrackingControl(tc) => tracking_key(&tc.targets),
        }
    }
}

impl Clone for Target {
    fn clone(&self) -> (r: Self)
        ensures
            match *self {
                Target::TrackingControl(tc) => r matches Target::TrackingControl(rc)
                    && rc.animation_desired == tc.animation_desired && rc.targets@ == tc.targets@,
                _ => r == *self,
            },
    {
        match self {
            Target::Shape { mesh, shape, value } => Target::Shape {
                mesh: mesh.clone(),
                shape: shape.clone(),
                value: *value,
            },
            Target::Object { object, value } => Target::Object { object: object.clone(), value: *value },
            Target::Material { mesh, index, asset } => Target::Material {
                mesh: mesh.clone(),
                index: *index,
                asset: asset.clone(),
            },
            Target::MaterialProperty { mesh, property, value } => Target::MaterialProperty {
                mesh: mesh.clone(),
                property: property.clone(),
                value: *value,
            },
            Target::ParameterDrive(pd) => Target::ParameterDrive(pd.clone()),
            Target::TrackingControl(tc) => Target::TrackingControl(
                TrackingControl {
                    animation_desired: tc.animation_desired,
                    targets: copy_targets(&tc.targets),
                },
            ),
        }
    }
}

fn copy_targets(ts: &Vec<TrackingTarget>) -> (r: Vec<TrackingTarget>)
    ensures
        r@ == ts@,
{
    let mut r: Vec<TrackingTarget> = Vec::new();
    let mut i: usize = 0;
    while i < ts.len()
        invariant
            i <= ts@.len(),
            r@ == ts@.subrange(0, i as int),
        decreases ts@.len() - i,
    {
        r.push(ts[i]);
        proof {
            assert(r@ =~= ts@.subrange(0, i + 1));
        }
        i = i + 1;
    }
    proof {
        assert(ts@.subrange(0, ts@.len() as int) =~= ts@);
    }
    r
}

} // verus!

//! Compiles animation groups and their targets.
use vstd::prelude::*;

use crate::avatar::data::{
    target_index, AnimationGroup, AnimationGroupContent, AssetType, GroupOption, MaterialTarget,
    ObjectTarget, ParameterScope, ParameterType, Preventions, ShapeTarget, Target,
};
use crate::avatar::transformer::{
    dependencies::{asset_lookup, contains_str, error_entry, typed_lookup, CompiledSources, SourcesView},
    failure, success, Compiled, Context, LogKind, LogLevel,
};
use crate::decl::data::{
    AnimationElement as DeclAnimationElement, AnimationGroup as DeclAnimationGroup,
    AnimationSwitch as DeclAnimationSwitch, Animations as DeclAnimations,
    DriveTarget as DeclDriveTarget, GroupBlock as DeclGroupBlock, Layer as DeclLayer,
    Puppet as DeclPuppet, Target as DeclTarget,
};
use crate::text::decimal;

verus! {

/// 1.0 as IEEE-754 bits.
pub const ONE_BITS: u64 = 0x3FF0_0000_0000_0000;

/// The shape value used where none is declared: 1.0 in an option, 0.0 in the default block.
pub open spec fn default_shape_value(default_to_one: bool) -> u64 {
    if default_to_one {
        ONE_BITS
    } else {
        0
    }
}

/// The content of a target.
pub enum TargetView {
    Shape { mesh: Seq<char>, name: Seq<char>, value: u64, cancel_to: Option<u64> },
    Object { name: Seq<char>, enabled: bool, cancel_to: Option<bool> },
    Material { mesh: Seq<char>, slot: usize, asset_key: Seq<char>, cancel_to: Option<Seq<char>> },
}

pub open spec fn target_view(t: Target) -> TargetView {
    match t {
        Target::Shape(s) => TargetView::Shape {
            mesh: s.mesh@,
            name: s.name@,
            value: s.value,
            cancel_to: s.cancel_to,
        },
        Target::Object(o) => TargetView::Object {
            name: o.name@,
            enabled: o.enabled,
            cancel_to: o.cancel_to,
        },
        Target::Material(m) => TargetView::Material {
            mesh: m.mesh@,
            slot: m.slot,
            asset_key: m.asset_key@,
            cancel_to: match m.cancel_to {
                Some(k) => Some(k@),
                None => None,
            },
        },
    }
}

pub open spec fn opt_view(s: Option<String>) -> Option<Seq<char>> {
    match s {
        Some(s) => Some(s@),
        None => None,
    }
}

/// The outcome of one target: the target, or the text of the one error logged.
pub type TargetOutcome = Result<TargetView, Seq<char>>;

pub open spec fn shape_change_error(group_name: Seq<char>, shape: Seq<char>) -> Seq<char> {
    "group name '"@ + group_name + "', '"@ + shape + "' does not have mesh target"@
}

pub open spec fn plain_shape(mesh: Seq<char>, name: Seq<char>, value: u64) -> TargetView {
    TargetView::Shape { mesh, name, value, cancel_to: None }
}

pub open spec fn plain_object(name: Seq<char>, enabled: bool) -> TargetView {
    TargetView::Object { name, enabled, cancel_to: None }
}

/// How a target of undetermined kind is resolved from what its declaration gives:
/// a mesh or shape makes it a shape, an object makes it an object, a float value
/// asks for a shape and a bool value for an object; the label stands in for the
/// missing shape or object name, and the default mesh for the missing mesh.
pub open spec fn indeterminate_spec(
    group_name: Seq<char>,
    default_mesh: Option<Seq<char>>,
    default_to_one: bool,
    label: Seq<char>,
    mesh: Option<Seq<char>>,
    shape: Option<Seq<char>>,
    object: Option<Seq<char>>,
    value: Option<DeclDriveTarget>,
) -> TargetOutcome {
    let dsv = default_shape_value(default_to_one);
    match (mesh, shape, object, value) {
        (Some(m), Some(s), None, Some(DeclDriveTarget::FloatParameter { value, .. })) => Ok(
            plain_shape(m, s, value),
        ),
        (Some(m), Some(s), None, None) => Ok(plain_shape(m, s, dsv)),
        (Some(m), None, None, Some(DeclDriveTarget::FloatParameter { value, .. })) => Ok(
            plain_shape(m, label, value),
        ),
        (Some(m), None, None, None) => Ok(plain_shape(m, label, dsv)),
        (None, Some(s), None, Some(DeclDriveTarget::FloatParameter { value, .. })) => match default_mesh {
            Some(dm) => Ok(plain_shape(dm, s, value)),
            None => Err(shape_change_error(group_name, s)),
        },
        (None, Some(s), None, None) => match default_mesh {
            Some(dm) => Ok(plain_shape(dm, s, dsv)),
            None => Err(shape_change_error(group_name, s)),
        },
        (None, None, Some(o), Some(DeclDriveTarget::BoolParameter { value, .. })) => Ok(
            plain_object(o, value),
        ),
        (None, None, Some(o), None) => Ok(plain_object(o, default_to_one)),
        (None, None, None, Some(DeclDriveTarget::FloatParameter { value, .. })) => match default_mesh {
            Some(dm) => Ok(plain_shape(dm, label, value)),
            None => Err(shape_change_error(group_name, label)),
        },
        (None, None, None, Some(DeclDriveTarget::BoolParameter { value, .. })) => Ok(
            plain_object(label, value),
        ),
        (None, None, None, None) => match default_mesh {
            Some(dm) => Ok(plain_shape(dm, label, dsv)),
            None => Ok(plain_object(label, default_to_one)),
        },
        _ => Err(shape_change_error(group_name, label)),
    }
}

/// A target of undetermined kind takes its kind from what is declared: a float value, a mesh or
/// a shape name make it a shape, a bool value or an object name an object. It keeps the
/// declared names, its own mesh or else the default one, and the declared value, else 1.0
/// (shape) or on (object) in an option and 0.0 or off in the default block; the label names
/// what is not named. With nothing declared it is a shape on the default mesh, or an object
/// where there is no default mesh; a lone object name always resolves.
pub proof fn lemma_indeterminate_target_takes_declared_kind(
    group_name: Seq<char>,
    default_mesh: Option<Seq<char>>,
    default_to_one: bool,
    label: Seq<char>,
    mesh: Option<Seq<char>>,
    shape: Option<Seq<char>>,
    object: Option<Seq<char>>,
    value: Option<DeclDriveTarget>,
)
    ensures
        ({
            let r = indeterminate_spec(group_name, default_mesh, default_to_one, label, mesh, shape, object, value);
            &&& r matches Ok(TargetView::Shape { mesh: m, name, value: v, cancel_to }) ==> {
                &&& cancel_to is None
                &&& object is None
                &&& (mesh matches Some(x) ==> m == x)
                &&& (mesh is None ==> default_mesh == Some(m))
                &&& (shape matches Some(x) ==> name == x)
                &&& (shape is None ==> name == label)
                &&& match value {
                    Some(DeclDriveTarget::FloatParameter { value: x, .. }) => v == x,
                    None => v == (if default_to_one { ONE_BITS } else { 0 }),
                    _ => false,
                }
            }
            &&& r matches Ok(TargetView::Object { name, enabled, cancel_to }) ==> {
                &&& cancel_to is None
                &&& mesh is None && shape is None
                &&& (object matches Some(x) ==> name == x)
                &&& (object is None ==> name == label)
                &&& match value {
                    Some(DeclDriveTarget::BoolParameter { value: x, .. }) => enabled == x,
                    None => enabled == default_to_one,
                    _ => false,
                }
            }
            &&& r is Ok ==> !(r->Ok_0 is Material)
            &&& (object is Some && mesh is None && shape is None && (value is None || value matches Some(
                DeclDriveTarget::BoolParameter { .. },
            ))) ==> r is Ok
            &&& (mesh is None && shape is None && object is None && value is None) ==> r is Ok && (r->Ok_0 is Shape
                <==> default_mesh is Some)
        }),
{
}

pub open spec fn str_opt_view(s: Option<&str>) -> Option<Seq<char>> {
    match s {
        Some(s) => Some(s@),
        None => None,
    }
}

/// The log after one outcome: unchanged on success, one error more on failure.
pub open spec fn logs_after<T>(logs: Seq<(LogLevel, Seq<char>)>, outcome: Result<T, Seq<char>>) -> Seq<
    (LogLevel, Seq<char>),
> {
    match outcome {
        Ok(_) => logs,
        Err(t) => logs.push(error_entry(t)),
    }
}

/// Resolves a target whose kind the declaration leaves open.
#[verifier::rlimit(30)]
pub fn compile_indeterminate_target(
    ctx: &mut Context,
    sources: &CompiledSources,
    group_name: &str,
    default_mesh: Option<&str>,
    default_to_one: bool,
    declared: (String, Option<String>, Option<String>, Option<String>, Option<DeclDriveTarget>),
) -> (r: Compiled<Target>)
    requires
        old(ctx).wf(),
    ensures
        final(ctx).wf(),
        ({
            let outcome = indeterminate_spec(
                group_name@,
                str_opt_view(default_mesh),
                default_to_one,
                declared.0@,
                opt_view(declared.1),
                opt_view(declared.2),
                opt_view(declared.3),
                declared.4,
            );
            &&& match outcome {
                Ok(v) => r is Some && target_view(r->0) == v,
                Err(_) => r is None,
            }
            &&& final(ctx).logs_view() == logs_after(old(ctx).logs_view(), outcome)
        }),
{
    let (label, mesh, shape, object, value) = declared;
    let default_shape_value: u64 = if default_to_one {
        ONE_BITS
    } else {
        0
    };
    match (mesh, shape, object, value) {
        (Some(mesh), Some(shape), None, Some(DeclDriveTarget::FloatParameter { value, .. })) => success(
            Target::Shape(ShapeTarget { mesh, name: shape, value, cancel_to: None }),
        ),
        (Some(mesh), Some(shape), None, None) => success(
            Target::Shape(ShapeTarget { mesh, name: shape, value: default_shape_value, cancel_to: None }),
        ),
        (Some(mesh), None, None, Some(DeclDriveTarget::FloatParameter { value, .. })) => success(
            Target::Shape(ShapeTarget { mesh, name: label, value, cancel_to: None }),
        ),
        (Some(mesh), None, None, None) => success(
            Target::Shape(ShapeTarget { mesh, name: label, value: default_shape_value, cancel_to: None }),
        ),
        (None, Some(shape), None, Some(DeclDriveTarget::FloatParameter { value, .. })) => {
            let mesh_name = match default_mesh {
                Some(m) => m,
                None => {
                    ctx.log_error(
                        LogKind::AnimationGroupIndeterminateShapeChange(
                            String::from_str(group_name),
                            shape,
                        ),
                    );
                    return failure();
                },
            };
            success(
                Target::Shape(
                    ShapeTarget { mesh: String::from_str(mesh_name), name: shape, value, cancel_to: None },
                ),
            )
        },
        (None, Some(shape), None, None) => {
            let mesh_name = match default_mesh {
                Some(m) => m,
                None => {
                    ctx.log_error(
                        LogKind::AnimationGroupIndeterminateShapeChange(
                            String::from_str(group_name),
                            shape,
                        ),
                    );
                    return failure();
                },
            };
            success(
                Target::Shape(
                    ShapeTarget {
                        mesh: String::from_str(mesh_name),
                        name: shape,
                        value: default_shape_value,
                        cancel_to: None,
                    },
                ),
            )
        },
        (None, None, Some(object), Some(DeclDriveTarget::BoolParameter { value, .. })) => success(
            Target::Object(ObjectTarget { name: object, enabled: value, cancel_to: None }),
        ),
        (None, None, Some(object), None) => success(
            Target::Object(ObjectTarget { name: object, enabled: default_to_one, cancel_to: None }),
        ),
        (None, None, None, Some(DeclDriveTarget::FloatParameter { value, .. })) => {
            let mesh_name = match default_mesh {
                Some(m) => m,
                None => {
                    ctx.log_error(
                        LogKind::AnimationGroupIndeterminateShapeChange(
                            String::from_str(group_name),
                            label,
                        ),
                    );
                    return failure();
                },
            };
            success(
                Target::Shape(
                    ShapeTarget { mesh: String::from_str(mesh_name), name: label, value, cancel_to: None },
                ),
            )
        },
        (None, None, None, Some(DeclDriveTarget::BoolParameter { value, .. })) => success(
            Target::Object(ObjectTarget { name: label, enabled: value, cancel_to: None }),
        ),
        (None, None, None, None) => {
            if let Some(mesh_name) = default_mesh {
                success(
                    Target::Shape(
                        ShapeTarget {
                            mesh: String::from_str(mesh_name),
                            name: label,
                            value: default_shape_value,
                            cancel_to: None,
                        },
                    ),
                )
            } else {
                success(
                    Target::Object(ObjectTarget { name: label, enabled: default_to_one, cancel_to: None }),
                )
            }
        },
        _ => {
            ctx.log_error(
                LogKind::AnimationGroupIndeterminateShapeChange(String::from_str(group_name), label),
            );
            failure()
        },
    }
}

/// How a determinate target compiles: a shape or material needs a mesh (its own or the default),
/// a material needs a value, and its assets must be materials.
pub open spec fn animation_target_spec(
    sources: SourcesView,
    group_name: Seq<char>,
    default_mesh: Option<Seq<char>>,
    default_to_one: bool,
    t: DeclTarget,
) -> TargetOutcome {
    match t {
        DeclTarget::Shape { shape, mesh, value, cancel_to } => {
            let m = match opt_view(mesh) {
                Some(m) => Some(m),
                None => default_mesh,
            };
            match m {
                None => Err(shape_change_error(group_name, shape@)),
                Some(m) => Ok(
                    TargetView::Shape {
                        mesh: m,
                        name: shape@,
                        value: match value {
                            Some(v) => v,
                            None => default_shape_value(default_to_one),
                        },
                        cancel_to,
                    },
                ),
            }
        },
        DeclTarget::Object { object, value, cancel_to } => Ok(
            TargetView::Object {
                name: object@,
                enabled: match value {
                    Some(v) => v,
                    None => default_to_one,
                },
                cancel_to,
            },
        ),
        DeclTarget::Material { slot, value, mesh, cancel_to } => match value {
            None => Err("group name '"@ + decimal(slot as nat) + "', material target failure"@),
            Some(asset_key) => match asset_lookup(sources.1, asset_key.key@, AssetType::Material) {
                Err(t) => Err(t),
                Ok(_) => match match cancel_to {
                    Some(c) => match asset_lookup(sources.1, c.key@, AssetType::Material) {
                        Err(t) => Some(t),
                        Ok(_) => None,
                    },
                    None => None,
                } {
                    Some(t) => Err(t),
                    None => {
                        let m = match opt_view(mesh) {
                            Some(m) => Some(m),
                            None => default_mesh,
                        };
                        match m {
                            None => Err(
                                "group name '"@ + group_name + "', '"@ + decimal(slot as nat)
                                    + "' does not have mesh target"@,
                            ),
                            Some(m) => Ok(
                                TargetView::Material {
                                    mesh: m,
                                    slot,
                                    asset_key: asset_key.key@,
                                    cancel_to: match cancel_to {
                                        Some(c) => Some(c.key@),
                                        None => None,
                                    },
                                },
                            ),
                        }
                    },
                },
            },
        },
        DeclTarget::Indeterminate { .. } => Err(Seq::empty()),
    }
}

/// A target of declared kind keeps its kind, its names, its value (else 1.0 or on in an option,
/// 0.0 or off in the default block) and what it cancels to; a shape or material takes its own
/// mesh or else the default one, and a material keeps its slot and asset. An object always
/// compiles; a shape fails only without any mesh, and a material without a value.
pub proof fn lemma_declared_target_keeps_its_kind(
    sources: SourcesView,
    group_name: Seq<char>,
    default_mesh: Option<Seq<char>>,
    default_to_one: bool,
    t: DeclTarget,
)
    ensures
        ({
            let r = animation_target_spec(sources, group_name, default_mesh, default_to_one, t);
            match t {
                DeclTarget::Shape { shape, mesh, value, cancel_to } => (r is Err <==> mesh is None
                    && default_mesh is None) && (r matches Ok(v) ==> v matches TargetView::Shape {
                    mesh: m,
                    name,
                    value: x,
                    cancel_to: c,
                } && name == shape@ && c == cancel_to && (mesh matches Some(y) ==> m == y@) && (mesh is None
                    ==> default_mesh == Some(m)) && x == match value {
                    Some(y) => y,
                    None => if default_to_one {
                        ONE_BITS
                    } else {
                        0
                    },
                }),
                DeclTarget::Object { object, value, cancel_to } => r == Ok::<TargetView, Seq<char>>(
                    TargetView::Object {
                        name: object@,
                        enabled: match value {
                            Some(y) => y,
                            None => default_to_one,
                        },
                        cancel_to,
                    },
                ),
                DeclTarget::Material { slot, value, mesh, cancel_to } => (value is None ==> r is Err) && (r matches Ok(
                    v,
                ) ==> v matches TargetView::Material { mesh: m, slot: s, asset_key, cancel_to: c }
                    && value matches Some(a) && s == slot && asset_key == a.key@ && (mesh matches Some(y)
                    ==> m == y@) && (mesh is None ==> default_mesh == Some(m)) && (cancel_to matches Some(y)
                    ==> c == Some(y.key@)) && (cancel_to is None ==> c is None)),
                DeclTarget::Indeterminate { .. } => r is Err,
            }
        }),
{
}

/// Compiles a target whose kind is declared.
pub fn compile_animation_target(
    ctx: &mut Context,
    sources: &CompiledSources,
    group_name: &str,
    default_mesh: Option<&str>,
    default_to_one: bool,
    decl_target: DeclTarget,
) -> (r: Compiled<Target>)
    requires
        old(ctx).wf(),
        !(decl_target is Indeterminate),
    ensures
        final(ctx).wf(),
        ({
            let outcome = animation_target_spec(
                sources@,
                group_name@,
                str_opt_view(default_mesh),
                default_to_one,
                decl_target,
            );
            &&& match outcome {
                Ok(v) => r is Some && target_view(r->0) == v,
                Err(_) => r is None,
            }
            &&& final(ctx).logs_view() == logs_after(old(ctx).logs_view(), outcome)
        }),
{
    let default_shape_value: u64 = if default_to_one {
        ONE_BITS
    } else {
        0
    };
    match decl_target {
        DeclTarget::Shape { shape, mesh, value, cancel_to } => {
            let mesh_name = match mesh {
                Some(m) => m,
                None => match default_mesh {
                    Some(m) => String::from_str(m),
                    None => {
                        ctx.log_error(
                            LogKind::AnimationGroupIndeterminateShapeChange(
                                String::from_str(group_name),
                                shape,
                            ),
                        );
                        return failure();
                    },
                },
            };
            success(
                Target::Shape(
                    ShapeTarget {
                        mesh: mesh_name,
                        name: shape,
                        value: match value {
                            Some(v) => v,
                            None => default_shape_value,
                        },
                        cancel_to,
                    },
                ),
            )
        },
        DeclTarget::Object { object, value, cancel_to } => success(
            Target::Object(
                ObjectTarget {
                    name: object,
                    enabled: match value {
                        Some(v) => v,
                        None => default_to_one,
                    },
                    cancel_to,
                },
            ),
        ),
        DeclTarget::Material { slot, value, mesh, cancel_to } => {
            let asset_key = match value {
                Some(k) => k,
                None => {
                    ctx.log_error(LogKind::AnimationGroupMaterialFailure(slot));
                    return failure();
                },
            };
            match sources.find_asset(ctx, asset_key.key.as_str(), AssetType::Material) {
                Some(_) => {},
                None => {
                    return failure();
                },
            }
            if let Some(cancel_asset_key) = &cancel_to {
                match sources.find_asset(ctx, cancel_asset_key.key.as_str(), AssetType::Material) {
                    Some(_) => {},
                    None => {
                        return failure();
                    },
                }
            }
            let mesh_name = match mesh {
                Some(m) => m,
                None => match default_mesh {
                    Some(m) => String::from_str(m),
                    None => {
                        ctx.log_error(
                            LogKind::AnimationGroupIndeterminateMaterialChange(
                                String::from_str(group_name),
                                slot,
                            ),
                        );
                        return failure();
                    },
                },
            };
            success(
                Target::Material(
                    MaterialTarget {
                        mesh: mesh_name,
                        slot,
                        asset_key: asset_key.key,
                        cancel_to: match cancel_to {
                            Some(c) => Some(c.key),
                            None => None,
                        },
                    },
                ),
            )
        },
        DeclTarget::Indeterminate { .. } => {
            proof {
                assert(false);
            }
            failure()
        },
    }
}

} // verus!

verus! {

/// Whether a block's targets are well formed: an undetermined block starts with an undetermined
/// target, and a determinate block has none.
pub open spec fn block_well_formed(b: DeclGroupBlock) -> bool {
    if b.indeterminate {
        b.targets@.len() > 0 && b.targets@[0] is Indeterminate
    } else {
        forall|i: int| 0 <= i < b.targets@.len() ==> !(#[trigger] b.targets@[i] is Indeterminate)
    }
}

pub type TargetsAcc = (Seq<TargetView>, Seq<(LogLevel, Seq<char>)>);

pub open spec fn targets_fold(
    sources: SourcesView,
    group_name: Seq<char>,
    default_mesh: Option<Seq<char>>,
    default_to_one: bool,
    acc: TargetsAcc,
    ts: Seq<DeclTarget>,
) -> TargetsAcc
    decreases ts.len(),
{
    if ts.len() == 0 {
        acc
    } else {
        let o = animation_target_spec(sources, group_name, default_mesh, default_to_one, ts[0]);
        let targets = match o {
            Ok(v) => acc.0.push(v),
            Err(_) => acc.0,
        };
        targets_fold(
            sources,
            group_name,
            default_mesh,
            default_to_one,
            (targets, logs_after(acc.1, o)),
            ts.drop_first(),
        )
    }
}

/// A group option as its name, order and targets.
pub type OptionView = (Seq<char>, usize, Seq<TargetView>);

pub open spec fn group_option_view(o: GroupOption) -> OptionView {
    (o.name@, o.order, o.targets@.map_values(|t: Target| target_view(t)))
}

pub open spec fn block_name(b: DeclGroupBlock) -> Seq<char> {
    match b.name {
        Some(n) => n@,
        None => Seq::empty(),
    }
}

/// How a block compiles: its targets (the ones that compile) under its name and order,
/// and the logs that follow. Targets are reported under the option's own name.
pub open spec fn group_option_spec(
    sources: SourcesView,
    default_mesh: Option<Seq<char>>,
    default_to_one: bool,
    b: DeclGroupBlock,
    logs: Seq<(LogLevel, Seq<char>)>,
) -> (OptionView, Seq<(LogLevel, Seq<char>)>) {
    let name = block_name(b);
    if b.indeterminate {
        match b.targets@[0] {
            DeclTarget::Indeterminate { label, object, mesh, shape, value } => {
                let o = indeterminate_spec(
                    name,
                    default_mesh,
                    default_to_one,
                    label@,
                    opt_view(mesh),
                    opt_view(shape),
                    opt_view(object),
                    value,
                );
                (
                    (
                        name,
                        b.declared_order,
                        match o {
                            Ok(v) => seq![v],
                            Err(_) => Seq::empty(),
                        },
                    ),
                    logs_after(logs, o),
                )
            },
            _ => ((name, b.declared_order, Seq::empty()), logs),
        }
    } else {
        let (targets, logs) = targets_fold(
            sources,
            name,
            default_mesh,
            default_to_one,
            (Seq::empty(), logs),
            b.targets@,
        );
        ((name, b.declared_order, targets), logs)
    }
}

/// Compiles a block of targets; it always yields an option, leaving out targets that fail.
pub fn compile_group_option(
    ctx: &mut Context,
    sources: &CompiledSources,
    default_mesh: Option<&str>,
    default_to_one: bool,
    decl_group_block: DeclGroupBlock,
) -> (r: Compiled<GroupOption>)
    requires
        old(ctx).wf(),
        block_well_formed(decl_group_block),
    ensures
        final(ctx).wf(),
        ({
            let (v, logs) = group_option_spec(
                sources@,
                str_opt_view(default_mesh),
                default_to_one,
                decl_group_block,
                old(ctx).logs_view(),
            );
            &&& r is Some
            &&& group_option_view(r->0) == v
            &&& final(ctx).logs_view() == logs
        }),
{
    let ghost b = decl_group_block;
    let name = match decl_group_block.name {
        Some(n) => n,
        None => String::new(),
    };
    let declared_order = decl_group_block.declared_order;
    let mut block_targets = decl_group_block.targets;
    let mut targets: Vec<Target> = Vec::new();
    if decl_group_block.indeterminate {
        let target = block_targets.remove(0);
        match target {
            DeclTarget::Indeterminate { label, object, mesh, shape, value } => {
                match compile_indeterminate_target(
                    ctx,
                    sources,
                    name.as_str(),
                    default_mesh,
                    default_to_one,
                    (label, mesh, shape, object, value),
                ) {
                    Some(t) => {
                        targets.push(t);
                        proof {
                            assert(targets@.map_values(|t: Target| target_view(t)) =~= seq![
                                target_view(t),
                            ]);
                        }
                    },
                    None => {
                        proof {
                            assert(targets@.map_values(|t: Target| target_view(t)) =~= Seq::<
                                TargetView,
                            >::empty());
                        }
                    },
                }
            },
            _ => {
                proof {
                    assert(false);
                }
            },
        }
    } else {
        let ghost total = targets_fold(
            sources@,
            name@,
            str_opt_view(default_mesh),
            default_to_one,
            (Seq::empty(), ctx.logs_view()),
            block_targets@,
        );
        proof {
            assert(targets@.map_values(|t: Target| target_view(t)) =~= Seq::<TargetView>::empty());
        }
        while block_targets.len() > 0
            invariant
                ctx.wf(),
                forall|i: int|
                    0 <= i < block_targets@.len() ==> !(#[trigger] block_targets@[i] is Indeterminate),
                total == targets_fold(
                    sources@,
                    name@,
                    str_opt_view(default_mesh),
                    default_to_one,
                    (targets@.map_values(|t: Target| target_view(t)), ctx.logs_view()),
                    block_targets@,
                ),
            decreases block_targets@.len(),
        {
            let ghost before = block_targets@;
            let decl_target = block_targets.remove(0);
            proof {
                assert(block_targets@ =~= before.drop_first());
                assert(decl_target == before[0]);
            }
            let ghost views_before = targets@.map_values(|t: Target| target_view(t));
            match compile_animation_target(
                ctx,
                sources,
                name.as_str(),
                default_mesh,
                default_to_one,
                decl_target,
            ) {
                Some(t) => {
                    targets.push(t);
                    proof {
                        assert(targets@.map_values(|t: Target| target_view(t)) =~= views_before.push(
                            target_view(t),
                        ));
                    }
                },
                None => {},
            }
        }
    }
    success(GroupOption { name, order: declared_order, targets })
}

} // verus!

verus! {

/// The key under which a target is unique within an animation (see `target_index`).
pub open spec fn view_index(v: TargetView) -> Seq<char> {
    match v {
        TargetView::Shape { mesh, name, .. } => "s-"@ + mesh + "-"@ + name,
        TargetView::Object { name, .. } => "o-"@ + name,
        TargetView::Material { mesh, slot, .. } => "m-"@ + mesh + "-"@ + decimal(slot as nat),
    }
}

/// The resting state of a shape (value 0) or object (disabled); a material has none.
pub open spec fn disabled_view(v: TargetView) -> Option<TargetView> {
    match v {
        TargetView::Shape { mesh, name, .. } => Some(plain_shape(mesh, name, 0)),
        TargetView::Object { name, .. } => Some(plain_object(name, false)),
        TargetView::Material { .. } => None,
    }
}

/// The state a target returns to when an option cancels the default, if it names one.
pub open spec fn canceled_view(v: TargetView) -> Option<TargetView> {
    match v {
        TargetView::Shape { mesh, name, cancel_to, .. } => match cancel_to {
            Some(c) => Some(plain_shape(mesh, name, c)),
            None => None,
        },
        TargetView::Object { name, cancel_to, .. } => match cancel_to {
            Some(c) => Some(plain_object(name, c)),
            None => None,
        },
        TargetView::Material { mesh, slot, cancel_to, .. } => match cancel_to {
            Some(k) => Some(TargetView::Material { mesh, slot, asset_key: k, cancel_to: None }),
            None => None,
        },
    }
}

pub open spec fn option_seq<T>(o: Option<T>) -> Seq<T> {
    match o {
        Some(t) => seq![t],
        None => Seq::empty(),
    }
}

/// The canceled states of the targets that name one, in order.
pub open spec fn canceled_all(vs: Seq<TargetView>) -> Seq<TargetView>
    decreases vs.len(),
{
    if vs.len() == 0 {
        Seq::empty()
    } else {
        canceled_all(vs.drop_last()) + option_seq(canceled_view(vs.last()))
    }
}

/// Whether some target in `vs` has this key.
pub open spec fn has_index(vs: Seq<TargetView>, key: Seq<char>) -> bool {
    exists|j: int| 0 <= j < vs.len() && view_index(#[trigger] vs[j]) == key
}

/// Adds to the defaults the resting state of each target whose key no default has yet;
/// fails with the first such target that has no resting state.
pub open spec fn absorb_disabled(defaults: Seq<TargetView>, ts: Seq<TargetView>) -> Result<
    Seq<TargetView>,
    TargetView,
>
    decreases ts.len(),
{
    if ts.len() == 0 {
        Ok(defaults)
    } else if has_index(defaults, view_index(ts[0])) {
        absorb_disabled(defaults, ts.drop_first())
    } else {
        match disabled_view(ts[0]) {
            None => Err(ts[0]),
            Some(d) => absorb_disabled(defaults.push(d), ts.drop_first()),
        }
    }
}

pub open spec fn disabled_failure_text(group_name: Seq<char>, t: TargetView) -> Seq<char> {
    "group name '"@ + group_name + "', target '"@ + view_index(t)
        + "' has no auto-generated disabled target"@
}

pub open spec fn cancels_default(b: DeclGroupBlock) -> bool {
    match b.cancel_default {
        Some(c) => c,
        None => false,
    }
}

/// A compiled group's default targets and options.
pub type GroupBody = (Seq<TargetView>, Seq<OptionView>);

/// How the options of a group compile, one after another: each option's targets feed the
/// defaults; an option that cancels the default gets the canceled defaults appended.
pub open spec fn options_fold(
    sources: SourcesView,
    group_name: Seq<char>,
    default_mesh: Option<Seq<char>>,
    canceled: Seq<TargetView>,
    body: GroupBody,
    logs: Seq<(LogLevel, Seq<char>)>,
    blocks: Seq<DeclGroupBlock>,
) -> (Option<GroupBody>, Seq<(LogLevel, Seq<char>)>)
    decreases blocks.len(),
{
    if blocks.len() == 0 {
        (Some(body), logs)
    } else {
        let b = blocks[0];
        let (ov, logs1) = group_option_spec(sources, default_mesh, true, b, logs);
        match absorb_disabled(body.0, ov.2) {
            Err(t) => (None, logs1.push(error_entry(disabled_failure_text(group_name, t)))),
            Ok(defaults) => {
                let targets = if cancels_default(b) {
                    ov.2 + canceled
                } else {
                    ov.2
                };
                options_fold(
                    sources,
                    group_name,
                    default_mesh,
                    canceled,
                    (defaults, body.1.push((ov.0, ov.1, targets))),
                    logs1,
                    blocks.drop_first(),
                )
            },
        }
    }
}

pub open spec fn group_well_formed(g: DeclAnimationGroup) -> bool {
    &&& (g.default_block matches Some(db) ==> block_well_formed(db))
    &&& forall|i: int| 0 <= i < g.options@.len() ==> block_well_formed(#[trigger] g.options@[i])
}

/// How a group compiles: its parameter must be an int; the default block gives the first
/// defaults, and the options follow.
pub open spec fn group_spec(
    sources: SourcesView,
    g: DeclAnimationGroup,
    logs: Seq<(LogLevel, Seq<char>)>,
) -> (Option<GroupBody>, Seq<(LogLevel, Seq<char>)>) {
    match typed_lookup(
        sources.0,
        g.parameter@,
        ParameterType::Int(0),
        ParameterScope::Internal,
    ) {
        Err(t) => (None, logs.push(error_entry(t))),
        Ok(_) => {
            let dm = opt_view(g.default_mesh);
            let (defaults, logs1) = match g.default_block {
                Some(db) => {
                    let (ov, l) = group_option_spec(sources, dm, false, db, logs);
                    (ov.2, l)
                },
                None => (Seq::empty(), logs),
            };
            options_fold(
                sources,
                g.name@,
                dm,
                canceled_all(defaults),
                (defaults, Seq::empty()),
                logs1,
                g.options@,
            )
        },
    }
}

pub open spec fn decl_preventions(p: crate::decl::data::Preventions) -> Preventions {
    Preventions {
        mouth: match p.mouth {
            Some(b) => b,
            None => false,
        },
        eyelids: match p.eyelids {
            Some(b) => b,
            None => false,
        },
    }
}

/// Whether `g` is a group block with these contents.
pub open spec fn is_group(
    g: AnimationGroup,
    name: Seq<char>,
    parameter: Seq<char>,
    preventions: Preventions,
    body: GroupBody,
) -> bool {
    &&& g.name@ == name
    &&& match g.content {
        AnimationGroupContent::Group { parameter: p, preventions: pv, default_targets, options } => {
            &&& p@ == parameter
            &&& pv == preventions
            &&& default_targets@.map_values(|t: Target| target_view(t)) == body.0
            &&& options@.map_values(|o: GroupOption| group_option_view(o)) == body.1
        },
        _ => false,
    }
}

proof fn lemma_target_index_view(t: Target)
    ensures
        target_index(t) == view_index(target_view(t)),
{
}

proof fn lemma_views_push(ts: Seq<Target>, t: Target)
    ensures
        ts.push(t).map_values(|x: Target| target_view(x)) == ts.map_values(
            |x: Target| target_view(x),
        ).push(target_view(t)),
{
    assert(ts.push(t).map_values(|x: Target| target_view(x)) =~= ts.map_values(
        |x: Target| target_view(x),
    ).push(target_view(t)));
}

/// Strings that are the keys of a list of targets, one for one.
pub open spec fn keys_of(indices: Seq<String>, ts: Seq<Target>) -> bool {
    &&& indices.len() == ts.len()
    &&& forall|j: int| 0 <= j < ts.len() ==> (#[trigger] indices[j])@ == target_index(ts[j])
}

proof fn lemma_keys_contains(indices: Seq<String>, ts: Seq<Target>, key: Seq<char>)
    requires
        keys_of(indices, ts),
    ensures
        indices.map_values(|x: String| x@).contains(key) == has_index(
            ts.map_values(|x: Target| target_view(x)),
            key,
        ),
{
    let names = indices.map_values(|x: String| x@);
    let vs = ts.map_values(|x: Target| target_view(x));
    if names.contains(key) {
        let j = choose|j: int| 0 <= j < names.len() && names[j] == key;
        lemma_target_index_view(ts[j]);
        assert(view_index(vs[j]) == key);
    }
    if has_index(vs, key) {
        let j = choose|j: int| 0 <= j < vs.len() && view_index(#[trigger] vs[j]) == key;
        lemma_target_index_view(ts[j]);
        assert(names[j] == key);
    }
}

/// Compiles a group: one option per block, with each option's targets reset by default.
#[verifier::rlimit(60)]
#[verifier::loop_isolation(false)]
pub fn compile_group(
    ctx: &mut Context,
    sources: &CompiledSources,
    decl_group: DeclAnimationGroup,
) -> (r: Compiled<AnimationGroup>)
    requires
        old(ctx).wf(),
        group_well_formed(decl_group),
    ensures
        final(ctx).wf(),
        ({
            let (v, logs) = group_spec(sources@, decl_group, old(ctx).logs_view());
            &&& final(ctx).logs_view() == logs
            &&& match v {
                None => r is None,
                Some(body) => r matches Some(g) && is_group(
                    g,
                    decl_group.name@,
                    decl_group.parameter@,
                    decl_preventions(decl_group.preventions),
                    body,
                ),
            }
        }),
{
    let ghost g = decl_group;
    let found = sources.find_parameter(
        ctx,
        decl_group.parameter.as_str(),
        ParameterType::Int(0),
        ParameterScope::MAYBE_INTERNAL,
    );
    if found.is_none() {
        return failure();
    }
    let DeclAnimationGroup { name, parameter, default_mesh, preventions, default_block, options: decl_options } =
        decl_group;
    let default_mesh_ref: Option<&str> = match &default_mesh {
        Some(m) => Some(m.as_str()),
        None => None,
    };
    let ghost dm = opt_view(g.default_mesh);
    proof {
        assert(str_opt_view(default_mesh_ref) == dm);
    }
    let mut default_targets: Vec<Target> = match default_block {
        Some(db) => match compile_group_option(ctx, sources, default_mesh_ref, false, db) {
            Some(b) => b.targets,
            None => Vec::new(),
        },
        None => Vec::new(),
    };
    let ghost defaults0 = default_targets@.map_values(|t: Target| target_view(t));
    proof {
        if g.default_block is None {
            assert(defaults0 =~= Seq::<TargetView>::empty());
        }
    }
    let mut indices: Vec<String> = Vec::new();
    let mut canceled: Vec<Target> = Vec::new();
    let mut i: usize = 0;
    while i < default_targets.len()
        invariant
            i <= default_targets@.len(),
            defaults0 == default_targets@.map_values(|t: Target| target_view(t)),
            keys_of(indices@, default_targets@.subrange(0, i as int)),
            canceled@.map_values(|t: Target| target_view(t)) == canceled_all(
                defaults0.subrange(0, i as int),
            ),
        decreases default_targets@.len() - i,
    {
        let idx = default_targets[i].index();
        indices.push(idx);
        let ghost before_c = canceled@;
        match default_targets[i].clone_as_canceled() {
            Some(c) => {
                canceled.push(c);
                proof {
                    lemma_views_push(before_c, c);
                }
            },
            None => {},
        }
        proof {
            let pre = defaults0.subrange(0, i + 1);
            assert(pre.drop_last() =~= defaults0.subrange(0, i as int));
            assert(pre.last() == target_view(default_targets@[i as int]));
            assert(canceled@.map_values(|t: Target| target_view(t)) =~= canceled_all(pre));
            assert forall|j: int| 0 <= j < i + 1 implies (#[trigger] indices@[j])@ == target_index(
                default_targets@.subrange(0, i + 1)[j],
            ) by {
                if j < i {
                    assert(default_targets@.subrange(0, i + 1)[j] == default_targets@.subrange(
                        0,
                        i as int,
                    )[j]);
                }
            }
        }
        i += 1;
    }
    proof {
        assert(defaults0.subrange(0, defaults0.len() as int) =~= defaults0);
        assert(default_targets@.subrange(0, i as int) =~= default_targets@);
    }
    let ghost canceled_v = canceled_all(defaults0);
    let ghost total = options_fold(
        sources@,
        name@,
        dm,
        canceled_v,
        (defaults0, Seq::empty()),
        ctx.logs_view(),
        decl_options@,
    );
    let mut options: Vec<GroupOption> = Vec::new();
    proof {
        assert(options@.map_values(|o: GroupOption| group_option_view(o)) =~= Seq::<
            OptionView,
        >::empty());
        assert(group_spec(sources@, g, old(ctx).logs_view()) == total);
    }
    let mut remaining = decl_options;
    while remaining.len() > 0
        invariant
            ctx.wf(),
            forall|j: int| 0 <= j < remaining@.len() ==> block_well_formed(#[trigger] remaining@[j]),
            canceled@.map_values(|t: Target| target_view(t)) == canceled_v,
            keys_of(indices@, default_targets@),
            str_opt_view(default_mesh_ref) == dm,
            group_spec(sources@, g, old(ctx).logs_view()) == total,
            total == options_fold(
                sources@,
                name@,
                dm,
                canceled_v,
                (
                    default_targets@.map_values(|t: Target| target_view(t)),
                    options@.map_values(|o: GroupOption| group_option_view(o)),
                ),
                ctx.logs_view(),
                remaining@,
            ),
        decreases remaining@.len(),
    {
        let ghost before = remaining@;
        let ghost logs0 = ctx.logs_view();
        let ghost start = default_targets@.map_values(|t: Target| target_view(t));
        let decl_option = remaining.remove(0);
        proof {
            assert(remaining@ =~= before.drop_first());
            assert(block_well_formed(before[0]));
        }
        let cancel_default = match decl_option.cancel_default {
            Some(c) => c,
            None => false,
        };
        let ghost b = decl_option;
        let ghost (ov, logs1) = group_option_spec(sources@, dm, true, b, logs0);
        if let Some(mut option) = compile_group_option(ctx, sources, default_mesh_ref, true, decl_option) {
            let ghost ts = option.targets@.map_values(|t: Target| target_view(t));
            proof {
                assert(ts == ov.2);
                assert(ts.subrange(0, ts.len() as int) =~= ts);
            }
            let mut k: usize = 0;
            while k < option.targets.len()
                invariant
                    ctx.wf(),
                    ctx.logs_view() == logs1,
                    k <= option.targets@.len(),
                    ts == option.targets@.map_values(|t: Target| target_view(t)),
                    keys_of(indices@, default_targets@),
                    absorb_disabled(start, ts) == absorb_disabled(
                        default_targets@.map_values(|t: Target| target_view(t)),
                        ts.subrange(k as int, ts.len() as int),
                    ),
                decreases option.targets@.len() - k,
            {
                let ghost cur_ts = default_targets@;
                let ghost cur = default_targets@.map_values(|t: Target| target_view(t));
                let ghost rest = ts.subrange(k as int, ts.len() as int);
                proof {
                    assert(rest[0] == ts[k as int]);
                    assert(rest.drop_first() =~= ts.subrange(k + 1, ts.len() as int));
                    lemma_target_index_view(option.targets@[k as int]);
                    assert(ts[k as int] == target_view(option.targets@[k as int]));
                }
                let shape_index = option.targets[k].index();
                let present = contains_str(&indices, shape_index.as_str());
                proof {
                    lemma_keys_contains(indices@, default_targets@, shape_index@);
                }
                if !present {
                    match option.targets[k].clone_as_disabled() {
                        None => {
                            proof {
                                assert(absorb_disabled(start, ts) == Err::<Seq<TargetView>, TargetView>(
                                    ts[k as int],
                                ));
                            }
                            let ghost name_v = name@;
                            let ghost key = shape_index@;
                            ctx.log_error(
                                LogKind::AnimationGroupDisabledTargetFailure(name, shape_index),
                            );
                            proof {
                                assert(key == view_index(ts[k as int]));
                                assert(ctx.logs_view() == logs1.push(
                                    error_entry(disabled_failure_text(name_v, ts[k as int])),
                                ));
                                assert(total == options_fold(
                                    sources@,
                                    name_v,
                                    dm,
                                    canceled_v,
                                    (start, options@.map_values(|o: GroupOption| group_option_view(o))),
                                    logs0,
                                    before,
                                ));
                                assert(before[0] == b);
                            }
                            return failure();
                        },
                        Some(d) => {
                            proof {
                                assert(target_view(d) == disabled_view(ts[k as int])->0);
                                lemma_target_index_view(d);
                            }
                            default_targets.push(d);
                            indices.push(shape_index);
                            proof {
                                lemma_views_push(cur_ts, d);
                                assert(keys_of(indices@, default_targets@)) by {
                                    assert forall|j: int|
                                        0 <= j < default_targets@.len() implies (
                                        #[trigger] indices@[j])@ == target_index(
                                        default_targets@[j],
                                    ) by {
                                        if j < cur_ts.len() {
                                            assert(default_targets@[j] == cur_ts[j]);
                                        }
                                    }
                                }
                            }
                        },
                    }
                }
                k += 1;
            }
            proof {
                assert(ts.subrange(ts.len() as int, ts.len() as int) =~= Seq::<TargetView>::empty());
                assert(absorb_disabled(start, ts) == Ok::<Seq<TargetView>, TargetView>(
                    default_targets@.map_values(|t: Target| target_view(t)),
                ));
            }
            let ghost opt0 = option;
            if cancel_default {
                let mut j: usize = 0;
                while j < canceled.len()
                    invariant
                        j <= canceled@.len(),
                        option.name == opt0.name,
                        option.order == opt0.order,
                        canceled@.map_values(|t: Target| target_view(t)) == canceled_v,
                        option.targets@.map_values(|t: Target| target_view(t)) == ts
                            + canceled_v.subrange(0, j as int),
                    decreases canceled@.len() - j,
                {
                    let ghost before_t = option.targets@;
                    let c = canceled[j].clone();
                    proof {
                        assert(canceled_v[j as int] == target_view(canceled@[j as int]));
                    }
                    option.targets.push(c);
                    proof {
                        lemma_views_push(before_t, c);
                        assert(ts + canceled_v.subrange(0, j + 1) =~= (ts + canceled_v.subrange(
                            0,
                            j as int,
                        )).push(canceled_v[j as int]));
                    }
                    j += 1;
                }
                proof {
                    assert(canceled_v.subrange(0, canceled_v.len() as int) =~= canceled_v);
                }
            } else {
                proof {
                    assert(ts + Seq::<TargetView>::empty() =~= ts);
                }
            }
            let ghost opts_before = options@.map_values(|o: GroupOption| group_option_view(o));
            proof {
                assert(group_option_view(option) == (
                    ov.0,
                    ov.1,
                    if cancels_default(b) {
                        ov.2 + canceled_v
                    } else {
                        ov.2
                    },
                ));
            }
            options.push(option);
            proof {
                assert(options@.map_values(|o: GroupOption| group_option_view(o)) =~= opts_before.push(
                    group_option_view(option),
                ));
                assert(before[0] == b);
            }
        }
    }
    success(
        AnimationGroup {
            name,
            content: AnimationGroupContent::Group {
                parameter,
                preventions: Preventions {
                    mouth: match preventions.mouth {
                        Some(b) => b,
                        None => false,
                    },
                    eyelids: match preventions.eyelids {
                        Some(b) => b,
                        None => false,
                    },
                },
                default_targets,
                options,
            },
        },
    )
}

} // verus!

verus! {

/// A compiled group as its name, parameter, preventions, default targets and options.
pub type GroupView = (Seq<char>, Seq<char>, Preventions, GroupBody);

pub open spec fn is_group_view(g: AnimationGroup, v: GroupView) -> bool {
    is_group(g, v.0, v.1, v.2, v.3)
}

/// Switches are not compiled by this version: the element is dropped.
pub fn compile_switch(
    ctx: &mut Context,
    sources: &CompiledSources,
    decl_switch: DeclAnimationSwitch,
) -> (r: Compiled<AnimationGroup>)
    ensures
        r is None,
        *final(ctx) == *old(ctx),
{
    failure()
}

/// Puppets are not compiled by this version: the element is dropped.
pub fn compile_puppet(
    ctx: &mut Context,
    sources: &CompiledSources,
    decl_puppet: DeclPuppet,
) -> (r: Compiled<AnimationGroup>)
    ensures
        r is None,
        *final(ctx) == *old(ctx),
{
    failure()
}

/// Raw layers are not compiled by this version: the element is dropped.
pub fn compile_raw_layer(
    ctx: &mut Context,
    sources: &CompiledSources,
    decl_layer: DeclLayer,
) -> (r: Compiled<AnimationGroup>)
    ensures
        r is None,
        *final(ctx) == *old(ctx),
{
    failure()
}

/// How one animation element compiles; only group elements yield a group.
pub open spec fn element_spec(
    sources: SourcesView,
    e: DeclAnimationElement,
    logs: Seq<(LogLevel, Seq<char>)>,
) -> (Option<GroupView>, Seq<(LogLevel, Seq<char>)>) {
    match e {
        DeclAnimationElement::Group(g) => {
            let (v, l) = group_spec(sources, g, logs);
            (
                match v {
                    Some(body) => Some(
                        (g.name@, g.parameter@, decl_preventions(g.preventions), body),
                    ),
                    None => None,
                },
                l,
            )
        },
        _ => (None, logs),
    }
}

pub open spec fn element_well_formed(e: DeclAnimationElement) -> bool {
    e matches DeclAnimationElement::Group(g) ==> group_well_formed(g)
}

pub open spec fn duplicate_group_text(name: Seq<char>) -> Seq<char> {
    "group name '"@ + name + "' is duplicate"@
}

pub open spec fn view_names(vs: Seq<GroupView>) -> Seq<Seq<char>> {
    vs.map_values(|v: GroupView| v.0)
}

pub type AnimationsAcc = (Seq<GroupView>, Seq<(LogLevel, Seq<char>)>);

/// How the elements compile in order: every group that compiles is kept, and one whose name
/// an earlier group has is kept with a warning.
pub open spec fn elements_fold(sources: SourcesView, acc: AnimationsAcc, es: Seq<DeclAnimationElement>) -> AnimationsAcc
    decreases es.len(),
{
    if es.len() == 0 {
        acc
    } else {
        let (v, logs) = element_spec(sources, es[0], acc.1);
        let next = match v {
            None => (acc.0, logs),
            Some(gv) => (
                acc.0.push(gv),
                if view_names(acc.0).contains(gv.0) {
                    logs.push((LogLevel::Warning, duplicate_group_text(gv.0)))
                } else {
                    logs
                },
            ),
        };
        elements_fold(sources, next, es.drop_first())
    }
}

/// All elements of all blocks, in order.
pub open spec fn flatten_elements(blocks: Seq<DeclAnimations>) -> Seq<DeclAnimationElement>
    decreases blocks.len(),
{
    if blocks.len() == 0 {
        Seq::empty()
    } else {
        blocks[0].elements@ + flatten_elements(blocks.drop_first())
    }
}

pub open spec fn blocks_well_formed(blocks: Seq<DeclAnimations>) -> bool {
    forall|i: int, j: int|
        0 <= i < blocks.len() && 0 <= j < blocks[i].elements@.len() ==> element_well_formed(
            #[trigger] blocks[i].elements@[j],
        )
}

proof fn lemma_elements_fold_concat(
    sources: SourcesView,
    acc: AnimationsAcc,
    a: Seq<DeclAnimationElement>,
    b: Seq<DeclAnimationElement>,
)
    ensures
        elements_fold(sources, acc, a + b) == elements_fold(
            sources,
            elements_fold(sources, acc, a),
            b,
        ),
    decreases a.len(),
{
    if a.len() > 0 {
        assert((a + b).drop_first() =~= a.drop_first() + b);
        assert((a + b)[0] == a[0]);
        let (v, logs) = element_spec(sources, a[0], acc.1);
        let next = match v {
            None => (acc.0, logs),
            Some(gv) => (
                acc.0.push(gv),
                if view_names(acc.0).contains(gv.0) {
                    logs.push((LogLevel::Warning, duplicate_group_text(gv.0)))
                } else {
                    logs
                },
            ),
        };
        lemma_elements_fold_concat(sources, next, a.drop_first(), b);
    } else {
        assert(a + b =~= b);
    }
}

/// Whether a group among `groups` has this name.
fn group_name_taken(groups: &Vec<AnimationGroup>, name: &str) -> (r: bool)
    ensures
        r == exists|j: int| 0 <= j < groups@.len() && (#[trigger] groups@[j]).name@ == name@,
{
    let mut i: usize = 0;
    while i < groups.len()
        invariant
            i <= groups@.len(),
            forall|j: int| 0 <= j < i ==> (#[trigger] groups@[j]).name@ != name@,
        decreases groups@.len() - i,
    {
        if crate::avatar::transformer::dependencies::str_equal(groups[i].name.as_str(), name) {
            return true;
        }
        i += 1;
    }
    false
}

/// Compiles the elements of every block in order; elements that fail are left out, and a
/// repeated group name draws a warning.
#[verifier::loop_isolation(false)]
pub fn compile_animations_blocks(
    ctx: &mut Context,
    sources: &CompiledSources,
    animations_blocks: Vec<DeclAnimations>,
) -> (r: Compiled<Vec<AnimationGroup>>)
    requires
        old(ctx).wf(),
        blocks_well_formed(animations_blocks@),
    ensures
        final(ctx).wf(),
        ({
            let (groups, logs) = elements_fold(
                sources@,
                (Seq::empty(), old(ctx).logs_view()),
                flatten_elements(animations_blocks@),
            );
            &&& r is Some
            &&& r->0@.len() == groups.len()
            &&& forall|j: int| 0 <= j < groups.len() ==> is_group_view(#[trigger] r->0@[j], groups[j])
            &&& final(ctx).logs_view() == logs
        }),
{
    let mut animation_groups: Vec<AnimationGroup> = Vec::new();
    let ghost mut views: Seq<GroupView> = Seq::empty();
    let mut blocks = animations_blocks;
    let ghost total = elements_fold(
        sources@,
        (Seq::empty(), old(ctx).logs_view()),
        flatten_elements(blocks@),
    );
    while blocks.len() > 0
        invariant
            ctx.wf(),
            blocks_well_formed(blocks@),
            animation_groups@.len() == views.len(),
            forall|j: int| 0 <= j < views.len() ==> is_group_view(#[trigger] animation_groups@[j], views[j]),
            total == elements_fold(sources@, (views, ctx.logs_view()), flatten_elements(blocks@)),
        decreases blocks@.len(),
    {
        let ghost before = blocks@;
        let mut block = blocks.remove(0);
        proof {
            assert(blocks@ =~= before.drop_first());
            assert(block == before[0]);
            assert forall|i: int, j: int|
                0 <= i < blocks@.len() && 0 <= j < blocks@[i].elements@.len() implies element_well_formed(
                #[trigger] blocks@[i].elements@[j],
            ) by {
                assert(blocks@[i] == before[i + 1]);
            }
            lemma_elements_fold_concat(
                sources@,
                (views, ctx.logs_view()),
                block.elements@,
                flatten_elements(blocks@),
            );
        }
        while block.elements.len() > 0
            invariant
                ctx.wf(),
                forall|j: int|
                    0 <= j < block.elements@.len() ==> element_well_formed(#[trigger] block.elements@[j]),
                animation_groups@.len() == views.len(),
                forall|j: int| 0 <= j < views.len() ==> is_group_view(#[trigger] animation_groups@[j], views[j]),
                total == elements_fold(
                    sources@,
                    elements_fold(sources@, (views, ctx.logs_view()), block.elements@),
                    flatten_elements(blocks@),
                ),
            decreases block.elements@.len(),
        {
            let ghost es_before = block.elements@;
            let ghost logs0 = ctx.logs_view();
            let decl_animation = block.elements.remove(0);
            proof {
                assert(block.elements@ =~= es_before.drop_first());
                assert(decl_animation == es_before[0]);
                assert(element_well_formed(es_before[0]));
            }
            let ghost e = decl_animation;
            let animation_group = match decl_animation {
                DeclAnimationElement::Group(group) => compile_group(ctx, sources, group),
                DeclAnimationElement::Switch(switch) => compile_switch(ctx, sources, switch),
                DeclAnimationElement::Puppet(puppet) => compile_puppet(ctx, sources, puppet),
                DeclAnimationElement::Layer(layer) => compile_raw_layer(ctx, sources, layer),
            };
            let ghost (ev, logs1) = element_spec(sources@, e, logs0);
            proof {
                assert(ctx.logs_view() == logs1);
            }
            match animation_group {
                Some(animation_group) => {
                    proof {
                        assert(ev is Some && is_group_view(animation_group, ev->0));
                    }
                    let taken = group_name_taken(&animation_groups, animation_group.name.as_str());
                    proof {
                        let names = view_names(views);
                        let gv = ev->0;
                        let key = gv.0;
                        if taken {
                            let j = choose|j: int|
                                0 <= j < animation_groups@.len() && (#[trigger] animation_groups@[j]).name@
                                    == animation_group.name@;
                            assert(names[j] == key);
                        }
                        if names.contains(key) {
                            let j = choose|j: int| 0 <= j < names.len() && names[j] == key;
                            assert(animation_groups@[j].name@ == views[j].0);
                        }
                    }
                    if taken {
                        ctx.log_warn(LogKind::DuplicateGroupName(animation_group.name.clone()));
                    }
                    animation_groups.push(animation_group);
                    proof {
                        views = views.push(ev->0);
                    }
                },
                None => {
                    proof {
                        assert(ev is None);
                    }
                },
            }
        }
        proof {
            assert(block.elements@ =~= Seq::<DeclAnimationElement>::empty());
        }
    }
    proof {
        assert(blocks@ =~= Seq::<DeclAnimations>::empty());
    }
    success(animation_groups)
}

/// Whether every target of every option has a default target with the same key.
pub open spec fn options_covered(defaults: Seq<TargetView>, options: Seq<OptionView>) -> bool {
    forall|i: int, j: int|
        0 <= i < options.len() && 0 <= j < options[i].2.len() ==> has_index(
            defaults,
            view_index(#[trigger] options[i].2[j]),
        )
}

pub open spec fn extends(d: Seq<TargetView>, d2: Seq<TargetView>) -> bool {
    d.len() <= d2.len() && d2.subrange(0, d.len() as int) == d
}

proof fn lemma_has_index_extends(d: Seq<TargetView>, d2: Seq<TargetView>, key: Seq<char>)
    requires
        extends(d, d2),
        has_index(d, key),
    ensures
        has_index(d2, key),
{
    let j = choose|j: int| 0 <= j < d.len() && view_index(#[trigger] d[j]) == key;
    assert(d2.subrange(0, d.len() as int)[j] == d2[j]);
    assert(view_index(d2[j]) == key);
}

proof fn lemma_absorb_covers(d: Seq<TargetView>, ts: Seq<TargetView>)
    requires
        absorb_disabled(d, ts) is Ok,
    ensures
        extends(d, absorb_disabled(d, ts)->Ok_0),
        forall|j: int| 0 <= j < ts.len() ==> has_index(absorb_disabled(d, ts)->Ok_0, view_index(#[trigger] ts[j])),
    decreases ts.len(),
{
    if ts.len() == 0 {
        assert(d.subrange(0, d.len() as int) =~= d);
    } else {
        let r = absorb_disabled(d, ts)->Ok_0;
        if has_index(d, view_index(ts[0])) {
            lemma_absorb_covers(d, ts.drop_first());
            lemma_has_index_extends(d, r, view_index(ts[0]));
            assert forall|j: int| 0 <= j < ts.len() implies has_index(r, view_index(#[trigger] ts[j])) by {
                if j > 0 {
                    assert(ts[j] == ts.drop_first()[j - 1]);
                }
            }
        } else {
            let dd = disabled_view(ts[0])->0;
            let d1 = d.push(dd);
            lemma_absorb_covers(d1, ts.drop_first());
            assert(view_index(dd) == view_index(ts[0]));
            assert(d1[d.len() as int] == dd);
            assert(has_index(d1, view_index(ts[0])));
            lemma_has_index_extends(d1, r, view_index(ts[0]));
            assert(d1.subrange(0, d.len() as int) =~= d);
            assert(r.subrange(0, d.len() as int) =~= r.subrange(0, d1.len() as int).subrange(0, d.len() as int));
            assert(r.subrange(0, d.len() as int) =~= d);
            assert forall|j: int| 0 <= j < ts.len() implies has_index(r, view_index(#[trigger] ts[j])) by {
                if j > 0 {
                    assert(ts[j] == ts.drop_first()[j - 1]);
                }
            }
        }
    }
}

proof fn lemma_canceled_covered(vs: Seq<TargetView>)
    ensures
        forall|j: int| 0 <= j < canceled_all(vs).len() ==> has_index(vs, view_index(#[trigger] canceled_all(vs)[j])),
    decreases vs.len(),
{
    if vs.len() > 0 {
        let init = vs.drop_last();
        lemma_canceled_covered(init);
        let c = canceled_all(vs);
        assert forall|j: int| 0 <= j < c.len() implies has_index(vs, view_index(#[trigger] c[j])) by {
            if j < canceled_all(init).len() {
                assert(c[j] == canceled_all(init)[j]);
                let k = choose|k: int| 0 <= k < init.len() && view_index(#[trigger] init[k]) == view_index(c[j]);
                assert(vs[k] == init[k]);
            } else {
                assert(c[j] == canceled_view(vs.last())->0);
                assert(view_index(c[j]) == view_index(vs[vs.len() - 1]));
            }
        }
    }
}

proof fn lemma_options_fold_covers(
    sources: SourcesView,
    group_name: Seq<char>,
    default_mesh: Option<Seq<char>>,
    canceled: Seq<TargetView>,
    body: GroupBody,
    logs: Seq<(LogLevel, Seq<char>)>,
    blocks: Seq<DeclGroupBlock>,
)
    requires
        options_covered(body.0, body.1),
        forall|j: int| 0 <= j < canceled.len() ==> has_index(body.0, view_index(#[trigger] canceled[j])),
    ensures
        options_fold(sources, group_name, default_mesh, canceled, body, logs, blocks).0 matches Some(r)
            ==> options_covered(r.0, r.1),
    decreases blocks.len(),
{
    if blocks.len() > 0 {
        let b = blocks[0];
        let (ov, logs1) = group_option_spec(sources, default_mesh, true, b, logs);
        if absorb_disabled(body.0, ov.2) is Ok {
            let d2 = absorb_disabled(body.0, ov.2)->Ok_0;
            lemma_absorb_covers(body.0, ov.2);
            let targets = if cancels_default(b) {
                ov.2 + canceled
            } else {
                ov.2
            };
            let opts2 = body.1.push((ov.0, ov.1, targets));
            assert forall|j: int| 0 <= j < canceled.len() implies has_index(d2, view_index(#[trigger] canceled[j])) by {
                lemma_has_index_extends(body.0, d2, view_index(canceled[j]));
            }
            assert forall|i: int, j: int|
                0 <= i < opts2.len() && 0 <= j < opts2[i].2.len() implies has_index(
                d2,
                view_index(#[trigger] opts2[i].2[j]),
            ) by {
                if i < body.1.len() {
                    assert(opts2[i] == body.1[i]);
                    lemma_has_index_extends(body.0, d2, view_index(body.1[i].2[j]));
                } else {
                    if j < ov.2.len() {
                        assert(opts2[i].2[j] == ov.2[j]);
                    } else {
                        assert(opts2[i].2[j] == canceled[j - ov.2.len()]);
                    }
                }
            }
            lemma_options_fold_covers(
                sources,
                group_name,
                default_mesh,
                canceled,
                (d2, opts2),
                logs1,
                blocks.drop_first(),
            );
        }
    }
}

/// Every target that a compiled group's options set has a default target under the same key:
/// the default resets whatever an option changes.
pub proof fn lemma_group_defaults_cover_options(
    sources: SourcesView,
    g: DeclAnimationGroup,
    logs: Seq<(LogLevel, Seq<char>)>,
)
    ensures
        group_spec(sources, g, logs).0 matches Some(body) ==> options_covered(body.0, body.1),
{
    match typed_lookup(sources.0, g.parameter@, ParameterType::Int(0), ParameterScope::Internal) {
        Err(_) => {},
        Ok(_) => {
            let dm = opt_view(g.default_mesh);
            let (defaults, logs1) = match g.default_block {
                Some(db) => {
                    let (ov, l) = group_option_spec(sources, dm, false, db, logs);
                    (ov.2, l)
                },
                None => (Seq::empty(), logs),
            };
            lemma_canceled_covered(defaults);
            assert(options_covered(defaults, Seq::<OptionView>::empty()));
            lemma_options_fold_covers(
                sources,
                g.name@,
                dm,
                canceled_all(defaults),
                (defaults, Seq::empty()),
                logs1,
                g.options@,
            );
        },
    }
}

} // verus!

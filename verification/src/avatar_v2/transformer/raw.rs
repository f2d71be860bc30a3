//! Compiles raw layers: states, what they play, and the transitions between them.
use vstd::prelude::*;

use crate::avatar_v2::data::asset::AssetType;
use crate::avatar_v2::data::layer::{
    LayerAnimation, LayerRawAnimationKind, LayerRawBlendTreeType, LayerRawCondition, LayerRawField,
    LayerRawState, LayerRawTransition,
};
use crate::avatar_v2::data::parameter::ParameterType;
use crate::avatar_v2::logger::{Log, LogView, Logger};
use crate::avatar_v2::transformer::layer::{animation_view, keyed_values, AnimationView};
use crate::avatar_v2::transformer::switch_puppet::{compile_undriven_targets, undriven_targets_fold};
use crate::avatar_v2::transformer::layer::{layer_view, ContentView};
use crate::avatar_v2::transformer::{
    asset_outcome, failure, query_outcome, query_view, raw_outcome, success, untyped_query_outcome,
    Compiled, FirstPassData, UnsetValue,
};
use crate::avatar_v2::data::layer::{Layer, LayerContent};
use crate::decl_v2::data::{
    reference_query, DeclParameterReference, DeclRawLayer, DeclRawLayerAnimation, DeclRawLayerAnimationKind,
    DeclRawLayerBlendTreeField, DeclRawLayerBlendTreeType, DeclRawLayerState, DeclRawLayerTransition,
    DeclRawLayerTransitionCondition, DeclRawLayerTransitionOrdering,
};
use crate::lookup::{first_index_of, lemma_first_index_absent, lemma_first_index_found, lemma_first_index_properties};
use crate::text::concat3;

verus! {

/// What a raw state plays, with its strings as sequences.
pub enum RawAnimationView {
    Clip(AnimationView, Option<u64>, Option<Seq<char>>, Option<Seq<char>>),
    BlendTree(LayerRawBlendTreeType, Seq<Seq<char>>, Seq<(AnimationView, [u64; 2])>),
}

pub open spec fn opt_view(s: Option<String>) -> Option<Seq<char>> {
    match s {
        Some(s) => Some(s@),
        None => None,
    }
}

pub open spec fn field_view(f: LayerRawField) -> (AnimationView, [u64; 2]) {
    (animation_view(f.animation), f.position)
}

pub open spec fn raw_animation_view(a: LayerRawAnimationKind) -> RawAnimationView {
    match a {
        LayerRawAnimationKind::Clip { animation, speed, speed_by, time_by } => RawAnimationView::Clip(
            animation_view(animation),
            speed,
            opt_view(speed_by),
            opt_view(time_by),
        ),
        LayerRawAnimationKind::BlendTree { blend_type, params, fields } => RawAnimationView::BlendTree(
            blend_type,
            params@.map_values(|p: String| p@),
            fields@.map_values(|f: LayerRawField| field_view(f)),
        ),
    }
}

/// A raw state as its name and what it plays.
pub type RawStateView = (Seq<char>, RawAnimationView);

pub open spec fn raw_state_view(s: LayerRawState) -> RawStateView {
    (s.name@, raw_animation_view(s.animation))
}

/// A transition condition with its parameter name as a sequence.
pub enum RawConditionView {
    Be(Seq<char>),
    Not(Seq<char>),
    EqInt(Seq<char>, i64),
    NeqInt(Seq<char>, i64),
    GtInt(Seq<char>, i64),
    LeInt(Seq<char>, i64),
    GtFloat(Seq<char>, u64),
    LeFloat(Seq<char>, u64),
}

pub open spec fn raw_condition_view(c: LayerRawCondition) -> RawConditionView {
    match c {
        LayerRawCondition::Be(p) => RawConditionView::Be(p@),
        LayerRawCondition::Not(p) => RawConditionView::Not(p@),
        LayerRawCondition::EqInt(p, v) => RawConditionView::EqInt(p@, v),
        LayerRawCondition::NeqInt(p, v) => RawConditionView::NeqInt(p@, v),
        LayerRawCondition::GtInt(p, v) => RawConditionView::GtInt(p@, v),
        LayerRawCondition::LeInt(p, v) => RawConditionView::LeInt(p@, v),
        LayerRawCondition::GtFloat(p, v) => RawConditionView::GtFloat(p@, v),
        LayerRawCondition::LeFloat(p, v) => RawConditionView::LeFloat(p@, v),
    }
}

/// A transition as its source and target state indices, its duration and its conditions.
pub type RawTransitionView = (usize, usize, u64, Seq<RawConditionView>);

pub open spec fn raw_transition_view(t: LayerRawTransition) -> RawTransitionView {
    (
        t.from_index,
        t.target_index,
        t.duration,
        t.conditions@.map_values(|c: LayerRawCondition| raw_condition_view(c)),
    )
}

/// How an animation of a raw state compiles: targets in place (with no default mesh, unset
/// targets active, drives logged and left out), or an animation asset.
pub open spec fn raw_animation_spec(
    fp: FirstPassData,
    a: DeclRawLayerAnimation,
    logs: Seq<LogView>,
    contexts: Seq<Seq<char>>,
) -> (Option<AnimationView>, Seq<LogView>) {
    match a {
        DeclRawLayerAnimation::Inline(it) => {
            let (m, l) = undriven_targets_fold(
                fp,
                None,
                UnsetValue::Active,
                contexts,
                (Seq::empty(), logs),
                it.targets@,
            );
            (Some(AnimationView::Inline(keyed_values(m))), l)
        },
        DeclRawLayerAnimation::External(name) => match asset_outcome(
            fp.assets_view(),
            name@,
            AssetType::Animation,
        ) {
            Err(e) => (None, logs.push((e, contexts))),
            Ok(_) => (Some(AnimationView::External(name@)), logs),
        },
    }
}

/// Compiles an animation of a raw state (see `raw_animation_spec`).
pub fn compile_raw_animation(
    logger: &mut Logger,
    first_pass: &FirstPassData,
    decl_animation: DeclRawLayerAnimation,
) -> (r: Compiled<LayerAnimation>)
    requires
        old(logger).wf(),
    ensures
        final(logger).wf(),
        final(logger).open_contexts() == old(logger).open_contexts(),
        ({
            let (a, logs) = raw_animation_spec(
                *first_pass,
                decl_animation,
                old(logger).log_view(),
                old(logger).open_contexts(),
            );
            &&& final(logger).log_view() == logs
            &&& match a {
                Some(av) => r matches Some(anim) && animation_view(anim) == av,
                None => r is None,
            }
        }),
{
    match decl_animation {
        DeclRawLayerAnimation::Inline(targets) => {
            let compiled = compile_undriven_targets(logger, first_pass, None, UnsetValue::Active, targets.targets);
            success(LayerAnimation::Inline(compiled))
        },
        DeclRawLayerAnimation::External(name) => {
            if first_pass.find_asset(logger, name.as_str(), AssetType::Animation).is_none() {
                return failure();
            }
            success(LayerAnimation::External(name))
        },
    }
}

/// A float parameter that a clip may name: its full name; where it cannot be read, an error
/// is logged and the clip goes without it.
pub open spec fn float_parameter_spec(
    fp: FirstPassData,
    r: Option<DeclParameterReference>,
    logs: Seq<LogView>,
    contexts: Seq<Seq<char>>,
) -> (Option<Seq<char>>, Seq<LogView>) {
    match r {
        None => (None, logs),
        Some(r) => match query_outcome(
            fp.parameters_view(),
            query_view(reference_query(r)),
            ParameterType::Float(0),
            false,
        ) {
            Err(e) => (None, logs.push((e, contexts))),
            Ok(q) => (Some(q.0), logs),
        },
    }
}

fn compile_float_parameter(
    logger: &mut Logger,
    first_pass: &FirstPassData,
    r: Option<DeclParameterReference>,
) -> (n: Option<String>)
    requires
        old(logger).wf(),
    ensures
        final(logger).wf(),
        final(logger).open_contexts() == old(logger).open_contexts(),
        ({
            let (v, logs) = float_parameter_spec(
                *first_pass,
                r,
                old(logger).log_view(),
                old(logger).open_contexts(),
            );
            final(logger).log_view() == logs && opt_view(n) == v
        }),
{
    match r {
        None => None,
        Some(r) => match first_pass.find_read_parameter(logger, &r.into_query(), ParameterType::float_type()) {
            Some(q) => Some(q.name),
            None => None,
        },
    }
}

/// The kind of a blend tree and the parameters it blends by.
pub open spec fn tree_parts(t: DeclRawLayerBlendTreeType) -> (LayerRawBlendTreeType, Seq<DeclParameterReference>) {
    match t {
        DeclRawLayerBlendTreeType::Linear(p) => (LayerRawBlendTreeType::Linear, seq![p]),
        DeclRawLayerBlendTreeType::Simple2D(px, py) => (LayerRawBlendTreeType::Simple2D, seq![px, py]),
        DeclRawLayerBlendTreeType::Freeform2D(px, py) => (LayerRawBlendTreeType::Freeform2D, seq![px, py]),
        DeclRawLayerBlendTreeType::Cartesian2D(px, py) => (LayerRawBlendTreeType::Cartesian2D, seq![px, py]),
    }
}

pub type NamesAcc = (Seq<Seq<char>>, Seq<LogView>);

/// The float parameters of a blend tree, one after another: those that cannot be read are
/// logged and left out.
pub open spec fn blend_parameters_fold(
    fp: FirstPassData,
    contexts: Seq<Seq<char>>,
    acc: NamesAcc,
    refs: Seq<DeclParameterReference>,
) -> NamesAcc
    decreases refs.len(),
{
    if refs.len() == 0 {
        acc
    } else {
        let (n, l) = float_parameter_spec(fp, Some(refs[0]), acc.1, contexts);
        let next = match n {
            Some(name) => (acc.0.push(name), l),
            None => (acc.0, l),
        };
        blend_parameters_fold(fp, contexts, next, refs.drop_first())
    }
}

pub type FieldView = (AnimationView, [u64; 2]);

/// The fields of a blend tree, one after another; the first that fails fails them all, and
/// those after it are not compiled.
pub open spec fn fields_fold(
    fp: FirstPassData,
    contexts: Seq<Seq<char>>,
    acc: Seq<FieldView>,
    logs: Seq<LogView>,
    fields: Seq<DeclRawLayerBlendTreeField>,
) -> (Option<Seq<FieldView>>, Seq<LogView>)
    decreases fields.len(),
{
    if fields.len() == 0 {
        (Some(acc), logs)
    } else {
        let (a, l) = raw_animation_spec(fp, fields[0].animation, logs, contexts);
        match a {
            None => (None, l),
            Some(av) => fields_fold(fp, contexts, acc.push((av, fields[0].values)), l, fields.drop_first()),
        }
    }
}

/// How what a raw state plays compiles: a clip needs its animation, and reads its speed and
/// time parameters where it can; a blend tree reads the parameters it can, then needs every
/// field.
pub open spec fn raw_kind_spec(
    fp: FirstPassData,
    k: DeclRawLayerAnimationKind,
    logs: Seq<LogView>,
    contexts: Seq<Seq<char>>,
) -> (Option<RawAnimationView>, Seq<LogView>) {
    match k {
        DeclRawLayerAnimationKind::Clip { animation, speed, time } => {
            let (a, l1) = raw_animation_spec(fp, animation, logs, contexts);
            match a {
                None => (None, l1),
                Some(av) => {
                    let (speed_by, l2) = float_parameter_spec(fp, speed.1, l1, contexts);
                    let (time_by, l3) = float_parameter_spec(fp, time, l2, contexts);
                    (Some(RawAnimationView::Clip(av, speed.0, speed_by, time_by)), l3)
                },
            }
        },
        DeclRawLayerAnimationKind::BlendTree { tree_type, fields } => {
            let (blend_type, refs) = tree_parts(tree_type);
            let (params, l1) = blend_parameters_fold(fp, contexts, (Seq::empty(), logs), refs);
            let (fs, l2) = fields_fold(fp, contexts, Seq::empty(), l1, fields@);
            match fs {
                None => (None, l2),
                Some(f) => (Some(RawAnimationView::BlendTree(blend_type, params, f)), l2),
            }
        },
    }
}

fn tree_type_parts(t: DeclRawLayerBlendTreeType) -> (r: (LayerRawBlendTreeType, Vec<DeclParameterReference>))
    ensures
        (r.0, r.1@) == tree_parts(t),
{
    let r = match t {
        DeclRawLayerBlendTreeType::Linear(p) => (LayerRawBlendTreeType::Linear, vec![p]),
        DeclRawLayerBlendTreeType::Simple2D(px, py) => (LayerRawBlendTreeType::Simple2D, vec![px, py]),
        DeclRawLayerBlendTreeType::Freeform2D(px, py) => (LayerRawBlendTreeType::Freeform2D, vec![px, py]),
        DeclRawLayerBlendTreeType::Cartesian2D(px, py) => (LayerRawBlendTreeType::Cartesian2D, vec![px, py]),
    };
    proof {
        assert(r.1@ =~= tree_parts(t).1);
    }
    r
}

#[verifier::loop_isolation(false)]
fn compile_blend_parameters(
    logger: &mut Logger,
    first_pass: &FirstPassData,
    refs: Vec<DeclParameterReference>,
) -> (r: Vec<String>)
    requires
        old(logger).wf(),
    ensures
        final(logger).wf(),
        final(logger).open_contexts() == old(logger).open_contexts(),
        ({
            let (names, logs) = blend_parameters_fold(
                *first_pass,
                old(logger).open_contexts(),
                (Seq::empty(), old(logger).log_view()),
                refs@,
            );
            r@.map_values(|s: String| s@) == names && final(logger).log_view() == logs
        }),
{
    let ghost ctx = logger.open_contexts();
    let ghost total = blend_parameters_fold(*first_pass, ctx, (Seq::empty(), logger.log_view()), refs@);
    let mut names: Vec<String> = Vec::new();
    let mut refs = refs;
    proof {
        assert(names@.map_values(|s: String| s@) =~= Seq::<Seq<char>>::empty());
    }
    while refs.len() > 0
        invariant
            logger.wf(),
            logger.open_contexts() == ctx,
            total == blend_parameters_fold(
                *first_pass,
                ctx,
                (names@.map_values(|s: String| s@), logger.log_view()),
                refs@,
            ),
        decreases refs@.len(),
    {
        let ghost before = refs@;
        let ghost before_names = names@;
        let r = refs.remove(0);
        proof {
            assert(refs@ =~= before.drop_first());
        }
        match compile_float_parameter(logger, first_pass, Some(r)) {
            Some(n) => {
                names.push(n);
                proof {
                    assert(names@.map_values(|s: String| s@) =~= before_names.map_values(|s: String| s@).push(
                        names@.last()@,
                    ));
                }
            },
            None => {},
        }
    }
    names
}

#[verifier::loop_isolation(false)]
fn compile_fields(
    logger: &mut Logger,
    first_pass: &FirstPassData,
    fields: Vec<DeclRawLayerBlendTreeField>,
) -> (r: Compiled<Vec<LayerRawField>>)
    requires
        old(logger).wf(),
    ensures
        final(logger).wf(),
        final(logger).open_contexts() == old(logger).open_contexts(),
        ({
            let (fs, logs) = fields_fold(
                *first_pass,
                old(logger).open_contexts(),
                Seq::empty(),
                old(logger).log_view(),
                fields@,
            );
            &&& final(logger).log_view() == logs
            &&& match fs {
                Some(f) => r matches Some(v) && v@.map_values(|x: LayerRawField| field_view(x)) == f,
                None => r is None,
            }
        }),
{
    let ghost ctx = logger.open_contexts();
    let ghost total = fields_fold(*first_pass, ctx, Seq::empty(), logger.log_view(), fields@);
    let mut compiled: Vec<LayerRawField> = Vec::new();
    let mut fields = fields;
    proof {
        assert(compiled@.map_values(|x: LayerRawField| field_view(x)) =~= Seq::<FieldView>::empty());
    }
    while fields.len() > 0
        invariant
            logger.wf(),
            logger.open_contexts() == ctx,
            total == fields_fold(
                *first_pass,
                ctx,
                compiled@.map_values(|x: LayerRawField| field_view(x)),
                logger.log_view(),
                fields@,
            ),
        decreases fields@.len(),
    {
        let ghost before = fields@;
        let ghost before_compiled = compiled@;
        let field = fields.remove(0);
        proof {
            assert(fields@ =~= before.drop_first());
        }
        let DeclRawLayerBlendTreeField { animation, values } = field;
        match compile_raw_animation(logger, first_pass, animation) {
            Some(a) => {
                compiled.push(LayerRawField { animation: a, position: values });
                proof {
                    assert(compiled@.map_values(|x: LayerRawField| field_view(x)) =~= before_compiled.map_values(
                        |x: LayerRawField| field_view(x),
                    ).push(field_view(compiled@.last())));
                }
            },
            None => {
                return failure();
            },
        }
    }
    success(compiled)
}

/// Compiles what a raw state plays (see `raw_kind_spec`).
pub fn compile_raw_animation_kind(
    logger: &mut Logger,
    first_pass: &FirstPassData,
    decl_animation_kind: DeclRawLayerAnimationKind,
) -> (r: Compiled<LayerRawAnimationKind>)
    requires
        old(logger).wf(),
    ensures
        final(logger).wf(),
        final(logger).open_contexts() == old(logger).open_contexts(),
        ({
            let (k, logs) = raw_kind_spec(
                *first_pass,
                decl_animation_kind,
                old(logger).log_view(),
                old(logger).open_contexts(),
            );
            &&& final(logger).log_view() == logs
            &&& match k {
                Some(kv) => r matches Some(rk) && raw_animation_view(rk) == kv,
                None => r is None,
            }
        }),
{
    match decl_animation_kind {
        DeclRawLayerAnimationKind::Clip { animation, speed, time } => {
            let animation = match compile_raw_animation(logger, first_pass, animation) {
                Some(a) => a,
                None => {
                    return failure();
                },
            };
            let (speed, speed_ref) = speed;
            let speed_by = compile_float_parameter(logger, first_pass, speed_ref);
            let time_by = compile_float_parameter(logger, first_pass, time);
            success(LayerRawAnimationKind::Clip { animation, speed, speed_by, time_by })
        },
        DeclRawLayerAnimationKind::BlendTree { tree_type, fields } => {
            let (blend_type, refs) = tree_type_parts(tree_type);
            let params = compile_blend_parameters(logger, first_pass, refs);
            match compile_fields(logger, first_pass, fields) {
                Some(fields) => success(LayerRawAnimationKind::BlendTree { blend_type, params, fields }),
                None => failure(),
            }
        },
    }
}

pub open spec fn invalid_condition_text() -> Seq<char> {
    "transition condition is invalid"@
}

/// A bool parameter is or is not set.
pub open spec fn bool_condition_spec(
    fp: FirstPassData,
    r: DeclParameterReference,
    value: bool,
    logs: Seq<LogView>,
    contexts: Seq<Seq<char>>,
) -> (Option<RawConditionView>, Seq<LogView>) {
    match query_outcome(fp.parameters_view(), query_view(reference_query(r)), ParameterType::Bool(false), false) {
        Err(e) => (None, logs.push((e, contexts))),
        Ok(q) => (
            Some(
                if value {
                    RawConditionView::Be(q.0)
                } else {
                    RawConditionView::Not(q.0)
                },
            ),
            logs,
        ),
    }
}

/// An int parameter compared by any ordering.
pub open spec fn int_condition_spec(
    fp: FirstPassData,
    r: DeclParameterReference,
    order: DeclRawLayerTransitionOrdering,
    value: i64,
    logs: Seq<LogView>,
    contexts: Seq<Seq<char>>,
) -> (Option<RawConditionView>, Seq<LogView>) {
    match query_outcome(fp.parameters_view(), query_view(reference_query(r)), ParameterType::Int(0), false) {
        Err(e) => (None, logs.push((e, contexts))),
        Ok(q) => (
            Some(
                match order {
                    DeclRawLayerTransitionOrdering::Equal => RawConditionView::EqInt(q.0, value),
                    DeclRawLayerTransitionOrdering::NotEqual => RawConditionView::NeqInt(q.0, value),
                    DeclRawLayerTransitionOrdering::Greater => RawConditionView::GtInt(q.0, value),
                    DeclRawLayerTransitionOrdering::Lesser => RawConditionView::LeInt(q.0, value),
                },
            ),
            logs,
        ),
    }
}

/// A float parameter compared only by greater or lesser.
pub open spec fn float_condition_spec(
    fp: FirstPassData,
    r: DeclParameterReference,
    order: DeclRawLayerTransitionOrdering,
    value: u64,
    logs: Seq<LogView>,
    contexts: Seq<Seq<char>>,
) -> (Option<RawConditionView>, Seq<LogView>) {
    match query_outcome(fp.parameters_view(), query_view(reference_query(r)), ParameterType::Float(0), false) {
        Err(e) => (None, logs.push((e, contexts))),
        Ok(q) => match order {
            DeclRawLayerTransitionOrdering::Greater => (Some(RawConditionView::GtFloat(q.0, value)), logs),
            DeclRawLayerTransitionOrdering::Lesser => (Some(RawConditionView::LeFloat(q.0, value)), logs),
            _ => (None, logs.push((invalid_condition_text(), contexts))),
        },
    }
}

/// A zero test: on an int it compares with 0, on a bool it tests the bool, on a float it is
/// invalid.
pub open spec fn zero_condition_spec(
    fp: FirstPassData,
    r: DeclParameterReference,
    not_zero: bool,
    logs: Seq<LogView>,
    contexts: Seq<Seq<char>>,
) -> (Option<RawConditionView>, Seq<LogView>) {
    match untyped_query_outcome(fp.parameters_view(), query_view(reference_query(r))) {
        Err(e) => (None, logs.push((e, contexts))),
        Ok(q) => match q.1 {
            ParameterType::Int(_) => (
                Some(
                    if not_zero {
                        RawConditionView::NeqInt(q.0, 0)
                    } else {
                        RawConditionView::EqInt(q.0, 0)
                    },
                ),
                logs,
            ),
            ParameterType::Bool(_) => (
                Some(
                    if not_zero {
                        RawConditionView::Be(q.0)
                    } else {
                        RawConditionView::Not(q.0)
                    },
                ),
                logs,
            ),
            _ => (None, logs.push((invalid_condition_text(), contexts))),
        },
    }
}

/// How a transition condition compiles (see the spec of each kind).
pub open spec fn condition_spec(
    fp: FirstPassData,
    c: DeclRawLayerTransitionCondition,
    logs: Seq<LogView>,
    contexts: Seq<Seq<char>>,
) -> (Option<RawConditionView>, Seq<LogView>) {
    match c {
        DeclRawLayerTransitionCondition::Bool(r, value) => bool_condition_spec(fp, r, value, logs, contexts),
        DeclRawLayerTransitionCondition::Int(r, order, value) => int_condition_spec(fp, r, order, value, logs, contexts),
        DeclRawLayerTransitionCondition::Float(r, order, value) => float_condition_spec(
            fp,
            r,
            order,
            value,
            logs,
            contexts,
        ),
        DeclRawLayerTransitionCondition::Zero(r, not_zero) => zero_condition_spec(fp, r, not_zero, logs, contexts),
    }
}

fn compile_bool_condition(
    logger: &mut Logger,
    first_pass: &FirstPassData,
    query: DeclParameterReference,
    value: bool,
) -> (r: Compiled<LayerRawCondition>)
    requires
        old(logger).wf(),
    ensures
        final(logger).wf(),
        final(logger).open_contexts() == old(logger).open_contexts(),
        ({
            let (c, logs) = bool_condition_spec(*first_pass, query, value, old(logger).log_view(), old(logger).open_contexts());
            &&& final(logger).log_view() == logs
            &&& match c {
                Some(cv) => r matches Some(rc) && raw_condition_view(rc) == cv,
                None => r is None,
            }
        }),
{
    match first_pass.find_read_parameter(logger, &query.into_query(), ParameterType::bool_type()) {
        Some(q) => if value {
            success(LayerRawCondition::Be(q.name))
        } else {
            success(LayerRawCondition::Not(q.name))
        },
        None => failure(),
    }
}

fn compile_int_condition(
    logger: &mut Logger,
    first_pass: &FirstPassData,
    query: DeclParameterReference,
    order: DeclRawLayerTransitionOrdering,
    value: i64,
) -> (r: Compiled<LayerRawCondition>)
    requires
        old(logger).wf(),
    ensures
        final(logger).wf(),
        final(logger).open_contexts() == old(logger).open_contexts(),
        ({
            let (c, logs) = int_condition_spec(*first_pass, query, order, value, old(logger).log_view(), old(logger).open_contexts());
            &&& final(logger).log_view() == logs
            &&& match c {
                Some(cv) => r matches Some(rc) && raw_condition_view(rc) == cv,
                None => r is None,
            }
        }),
{
    match first_pass.find_read_parameter(logger, &query.into_query(), ParameterType::int_type()) {
        Some(q) => success(
            match order {
                DeclRawLayerTransitionOrdering::Equal => LayerRawCondition::EqInt(q.name, value),
                DeclRawLayerTransitionOrdering::NotEqual => LayerRawCondition::NeqInt(q.name, value),
                DeclRawLayerTransitionOrdering::Greater => LayerRawCondition::GtInt(q.name, value),
                DeclRawLayerTransitionOrdering::Lesser => LayerRawCondition::LeInt(q.name, value),
            },
        ),
        None => failure(),
    }
}

fn compile_float_condition(
    logger: &mut Logger,
    first_pass: &FirstPassData,
    query: DeclParameterReference,
    order: DeclRawLayerTransitionOrdering,
    value: u64,
) -> (r: Compiled<LayerRawCondition>)
    requires
        old(logger).wf(),
    ensures
        final(logger).wf(),
        final(logger).open_contexts() == old(logger).open_contexts(),
        ({
            let (c, logs) = float_condition_spec(*first_pass, query, order, value, old(logger).log_view(), old(logger).open_contexts());
            &&& final(logger).log_view() == logs
            &&& match c {
                Some(cv) => r matches Some(rc) && raw_condition_view(rc) == cv,
                None => r is None,
            }
        }),
{
    match first_pass.find_read_parameter(logger, &query.into_query(), ParameterType::float_type()) {
        Some(q) => match order {
            DeclRawLayerTransitionOrdering::Greater => success(LayerRawCondition::GtFloat(q.name, value)),
            DeclRawLayerTransitionOrdering::Lesser => success(LayerRawCondition::LeFloat(q.name, value)),
            _ => {
                logger.log(Log::LayerInvalidCondition);
                failure()
            },
        },
        None => failure(),
    }
}

fn compile_zero_condition(
    logger: &mut Logger,
    first_pass: &FirstPassData,
    query: DeclParameterReference,
    not_zero: bool,
) -> (r: Compiled<LayerRawCondition>)
    requires
        old(logger).wf(),
    ensures
        final(logger).wf(),
        final(logger).open_contexts() == old(logger).open_contexts(),
        ({
            let (c, logs) = zero_condition_spec(*first_pass, query, not_zero, old(logger).log_view(), old(logger).open_contexts());
            &&& final(logger).log_view() == logs
            &&& match c {
                Some(cv) => r matches Some(rc) && raw_condition_view(rc) == cv,
                None => r is None,
            }
        }),
{
    match first_pass.find_untyped_parameter(logger, &query.into_query()) {
        Some(q) => match q.value_type {
            ParameterType::Int(_) => if not_zero {
                success(LayerRawCondition::NeqInt(q.name, 0))
            } else {
                success(LayerRawCondition::EqInt(q.name, 0))
            },
            ParameterType::Bool(_) => if not_zero {
                success(LayerRawCondition::Be(q.name))
            } else {
                success(LayerRawCondition::Not(q.name))
            },
            _ => {
                logger.log(Log::LayerInvalidCondition);
                failure()
            },
        },
        None => failure(),
    }
}

/// Compiles a transition condition (see `condition_spec`).
pub fn compile_raw_condition(
    logger: &mut Logger,
    first_pass: &FirstPassData,
    decl_condition: DeclRawLayerTransitionCondition,
) -> (r: Compiled<LayerRawCondition>)
    requires
        old(logger).wf(),
    ensures
        final(logger).wf(),
        final(logger).open_contexts() == old(logger).open_contexts(),
        ({
            let (c, logs) = condition_spec(
                *first_pass,
                decl_condition,
                old(logger).log_view(),
                old(logger).open_contexts(),
            );
            &&& final(logger).log_view() == logs
            &&& match c {
                Some(cv) => r matches Some(rc) && raw_condition_view(rc) == cv,
                None => r is None,
            }
        }),
{
    match decl_condition {
        DeclRawLayerTransitionCondition::Bool(query, value) => compile_bool_condition(logger, first_pass, query, value),
        DeclRawLayerTransitionCondition::Int(query, order, value) => compile_int_condition(
            logger,
            first_pass,
            query,
            order,
            value,
        ),
        DeclRawLayerTransitionCondition::Float(query, order, value) => compile_float_condition(
            logger,
            first_pass,
            query,
            order,
            value,
        ),
        DeclRawLayerTransitionCondition::Zero(query, not_zero) => compile_zero_condition(
            logger,
            first_pass,
            query,
            not_zero,
        ),
    }
}

pub type ConditionsAcc = (Seq<RawConditionView>, Seq<LogView>);

/// The conditions of a transition, one after another: those that fail are left out.
pub open spec fn conditions_fold(
    fp: FirstPassData,
    contexts: Seq<Seq<char>>,
    acc: ConditionsAcc,
    cs: Seq<DeclRawLayerTransitionCondition>,
) -> ConditionsAcc
    decreases cs.len(),
{
    if cs.len() == 0 {
        acc
    } else {
        let (c, l) = condition_spec(fp, cs[0], acc.1, contexts);
        let next = match c {
            Some(cv) => (acc.0.push(cv), l),
            None => (acc.0, l),
        };
        conditions_fold(fp, contexts, next, cs.drop_first())
    }
}

proof fn lemma_fields_fold_keep_values(
    fp: FirstPassData,
    contexts: Seq<Seq<char>>,
    acc: Seq<FieldView>,
    logs: Seq<LogView>,
    fields: Seq<DeclRawLayerBlendTreeField>,
)
    ensures
        fields_fold(fp, contexts, acc, logs, fields).0 matches Some(f) ==> f.len() == acc.len() + fields.len()
            && (forall|i: int| 0 <= i < acc.len() ==> #[trigger] f[i] == acc[i]) && forall|i: int|
            0 <= i < fields.len() ==> (#[trigger] f[acc.len() + i]).1 == fields[i].values,
    decreases fields.len(),
{
    if fields.len() > 0 {
        let (a, l) = raw_animation_spec(fp, fields[0].animation, logs, contexts);
        if let Some(av) = a {
            let next = acc.push((av, fields[0].values));
            lemma_fields_fold_keep_values(fp, contexts, next, l, fields.drop_first());
            if let Some(f) = fields_fold(fp, contexts, acc, logs, fields).0 {
                assert forall|i: int| 0 <= i < acc.len() implies #[trigger] f[i] == acc[i] by {
                    assert(f[i] == next[i]);
                }
                assert forall|i: int| 0 <= i < fields.len() implies (#[trigger] f[acc.len() + i]).1 == fields[i].values by {
                    if i == 0 {
                        assert(f[acc.len() as int] == next[acc.len() as int]);
                    } else {
                        assert(f[next.len() + (i - 1)].1 == fields.drop_first()[i - 1].values);
                        assert(acc.len() + i == next.len() + (i - 1));
                    }
                }
            }
        }
    }
}

/// What a raw state plays keeps its parts: a clip keeps its speed and reads its speed
/// parameter only from the declared speed parameter and its time parameter only from the
/// declared time parameter, each as a readable float; a blend tree keeps its kind and one field
/// for each declared field, in order, with the field's values.
pub proof fn lemma_raw_kind_keeps_its_parts(
    fp: FirstPassData,
    k: DeclRawLayerAnimationKind,
    logs: Seq<LogView>,
    contexts: Seq<Seq<char>>,
)
    ensures
        raw_kind_spec(fp, k, logs, contexts).0 matches Some(v) ==> match k {
            DeclRawLayerAnimationKind::Clip { animation, speed, time } => v matches RawAnimationView::Clip(
                _,
                sv,
                sb,
                tb,
            ) && sv == speed.0 && match speed.1 {
                None => sb is None,
                Some(r) => sb == match query_outcome(
                    fp.parameters_view(),
                    query_view(reference_query(r)),
                    ParameterType::Float(0),
                    false,
                ) {
                    Ok(q) => Some(q.0),
                    Err(_) => None,
                },
            } && match time {
                None => tb is None,
                Some(r) => tb == match query_outcome(
                    fp.parameters_view(),
                    query_view(reference_query(r)),
                    ParameterType::Float(0),
                    false,
                ) {
                    Ok(q) => Some(q.0),
                    Err(_) => None,
                },
            },
            DeclRawLayerAnimationKind::BlendTree { tree_type, fields } => v matches RawAnimationView::BlendTree(
                bt,
                _,
                fs,
            ) && bt == match tree_type {
                DeclRawLayerBlendTreeType::Linear(_) => LayerRawBlendTreeType::Linear,
                DeclRawLayerBlendTreeType::Simple2D(_, _) => LayerRawBlendTreeType::Simple2D,
                DeclRawLayerBlendTreeType::Freeform2D(_, _) => LayerRawBlendTreeType::Freeform2D,
                DeclRawLayerBlendTreeType::Cartesian2D(_, _) => LayerRawBlendTreeType::Cartesian2D,
            } && fs.len() == fields@.len() && forall|i: int| 0 <= i < fs.len() ==> (#[trigger] fs[i]).1 == fields@[i].values,
        },
{
    if let DeclRawLayerAnimationKind::BlendTree { tree_type, fields } = k {
        let (blend_type, refs) = tree_parts(tree_type);
        let (params, l1) = blend_parameters_fold(fp, contexts, (Seq::empty(), logs), refs);
        lemma_fields_fold_keep_values(fp, contexts, Seq::empty(), l1, fields@);
        if let Some(f) = fields_fold(fp, contexts, Seq::empty(), l1, fields@).0 {
            assert forall|i: int| 0 <= i < f.len() implies (#[trigger] f[i]).1 == fields@[i].values by {
                assert(f[0 + i] == f[i]);
            }
        }
    }
}

/// A transition leaves the state it belongs to for the first of the layer's states that bears
/// the declared target name, and is dropped when there is none; it lasts the declared duration,
/// or 0.0 where none is declared.
pub proof fn lemma_transition_keeps_its_target(
    fp: FirstPassData,
    t: DeclRawLayerTransition,
    from: usize,
    state_names: Seq<Seq<char>>,
    logs: Seq<LogView>,
    contexts: Seq<Seq<char>>,
)
    requires
        state_names.len() <= usize::MAX,
    ensures
        (transition_spec(fp, t, from, state_names, logs, contexts).0 is None) <==> forall|j: int|
            0 <= j < state_names.len() ==> state_names[j] != t.target@,
        transition_spec(fp, t, from, state_names, logs, contexts).0 matches Some((f, ti, d, _)) ==> {
            &&& f == from
            &&& ti < state_names.len() && state_names[ti as int] == t.target@
            &&& forall|j: int| 0 <= j < ti ==> state_names[j] != t.target@
            &&& d == match t.duration {
                Some(x) => x,
                None => 0u64,
            }
        },
{
    lemma_first_index_properties(state_names, t.target@);
}

/// How a transition from the state at `from` compiles: its target must be one of the layer's
/// declared states (otherwise it is dropped without a log); its duration defaults to 0.0;
/// its conditions that compile are kept.
pub open spec fn transition_spec(
    fp: FirstPassData,
    t: DeclRawLayerTransition,
    from: usize,
    state_names: Seq<Seq<char>>,
    logs: Seq<LogView>,
    contexts: Seq<Seq<char>>,
) -> (Option<RawTransitionView>, Seq<LogView>) {
    match first_index_of(state_names, t.target@) {
        None => (None, logs),
        Some(ti) => {
            let (cs, l) = conditions_fold(fp, contexts, (Seq::empty(), logs), t.conditions@);
            (
                Some(
                    (
                        from,
                        ti as usize,
                        match t.duration {
                            Some(d) => d,
                            None => 0u64,
                        },
                        cs,
                    ),
                ),
                l,
            )
        },
    }
}

fn position_of(names: &Vec<String>, name: &str) -> (r: Option<usize>)
    ensures
        match first_index_of(names@.map_values(|s: String| s@), name@) {
            Some(i) => r matches Some(k) && k as int == i,
            None => r is None,
        },
{
    let ghost views = names@.map_values(|s: String| s@);
    proof {
        lemma_first_index_properties(views, name@);
    }
    let mut i: usize = 0;
    while i < names.len()
        invariant
            i <= names@.len(),
            views == names@.map_values(|s: String| s@),
            forall|j: int| 0 <= j < i ==> views[j] != name@,
        decreases names@.len() - i,
    {
        if crate::avatar::transformer::dependencies::str_equal(names[i].as_str(), name) {
            proof {
                lemma_first_index_found(views, name@, i as int);
            }
            return Some(i);
        }
        i = i + 1;
    }
    proof {
        lemma_first_index_absent(views, name@);
    }
    None
}

/// Compiles a transition (see `transition_spec`).
#[verifier::loop_isolation(false)]
pub fn compile_raw_transition(
    logger: &mut Logger,
    first_pass: &FirstPassData,
    decl_transition: DeclRawLayerTransition,
    from_index: usize,
    layer_names: &Vec<String>,
) -> (r: Compiled<LayerRawTransition>)
    requires
        old(logger).wf(),
    ensures
        final(logger).wf(),
        final(logger).open_contexts() == old(logger).open_contexts(),
        ({
            let (t, logs) = transition_spec(
                *first_pass,
                decl_transition,
                from_index,
                layer_names@.map_values(|s: String| s@),
                old(logger).log_view(),
                old(logger).open_contexts(),
            );
            &&& final(logger).log_view() == logs
            &&& match t {
                Some(tv) => r matches Some(rt) && raw_transition_view(rt) == tv,
                None => r is None,
            }
        }),
{
    let DeclRawLayerTransition { target, duration, conditions } = decl_transition;
    let target_index = match position_of(layer_names, target.as_str()) {
        Some(i) => i,
        None => {
            return failure();
        },
    };
    let ghost ctx = logger.open_contexts();
    let ghost total = conditions_fold(*first_pass, ctx, (Seq::empty(), logger.log_view()), conditions@);
    let mut compiled: Vec<LayerRawCondition> = Vec::new();
    let mut conditions = conditions;
    proof {
        assert(compiled@.map_values(|c: LayerRawCondition| raw_condition_view(c)) =~= Seq::<RawConditionView>::empty());
    }
    while conditions.len() > 0
        invariant
            logger.wf(),
            logger.open_contexts() == ctx,
            total == conditions_fold(
                *first_pass,
                ctx,
                (compiled@.map_values(|c: LayerRawCondition| raw_condition_view(c)), logger.log_view()),
                conditions@,
            ),
        decreases conditions@.len(),
    {
        let ghost before = conditions@;
        let ghost before_compiled = compiled@;
        let c = conditions.remove(0);
        proof {
            assert(conditions@ =~= before.drop_first());
        }
        match compile_raw_condition(logger, first_pass, c) {
            Some(rc) => {
                compiled.push(rc);
                proof {
                    assert(compiled@.map_values(|c: LayerRawCondition| raw_condition_view(c)) =~= before_compiled.map_values(
                        |c: LayerRawCondition| raw_condition_view(c),
                    ).push(raw_condition_view(rc)));
                }
            },
            None => {},
        }
    }
    let duration = match duration {
        Some(d) => d,
        None => 0u64,
    };
    success(LayerRawTransition { from_index, target_index, duration, conditions: compiled })
}

pub type TransitionsAcc = (Seq<RawTransitionView>, Seq<LogView>);

/// The transitions of the state at `from`, one after another: those that fail are left out.
pub open spec fn transitions_fold(
    fp: FirstPassData,
    from: usize,
    state_names: Seq<Seq<char>>,
    contexts: Seq<Seq<char>>,
    acc: TransitionsAcc,
    ts: Seq<DeclRawLayerTransition>,
) -> TransitionsAcc
    decreases ts.len(),
{
    if ts.len() == 0 {
        acc
    } else {
        let (t, l) = transition_spec(fp, ts[0], from, state_names, acc.1, contexts);
        let next = match t {
            Some(tv) => (acc.0.push(tv), l),
            None => (acc.0, l),
        };
        transitions_fold(fp, from, state_names, contexts, next, ts.drop_first())
    }
}

pub type StatesAcc = (Seq<RawStateView>, Seq<RawTransitionView>, Seq<LogView>);

/// The states of a raw layer, one after another, numbered from `index` in their declared
/// order: a state whose animation compiles is kept with its transitions that compile; one
/// whose animation fails is left out with all its transitions.
pub open spec fn states_fold(
    fp: FirstPassData,
    state_names: Seq<Seq<char>>,
    contexts: Seq<Seq<char>>,
    acc: StatesAcc,
    states: Seq<DeclRawLayerState>,
    index: nat,
) -> StatesAcc
    decreases states.len(),
{
    if states.len() == 0 {
        acc
    } else {
        let next = state_step(fp, state_names, contexts, acc, states[0], index);
        states_fold(fp, state_names, contexts, next, states.drop_first(), index + 1)
    }
}

/// One state of a raw layer, at `index` (see `states_fold`).
#[verifier::opaque]
pub open spec fn state_step(
    fp: FirstPassData,
    state_names: Seq<Seq<char>>,
    contexts: Seq<Seq<char>>,
    acc: StatesAcc,
    st: DeclRawLayerState,
    index: nat,
) -> StatesAcc {
    let (k, l) = raw_kind_spec(fp, st.kind, acc.2, contexts);
    match k {
        None => (acc.0, acc.1, l),
        Some(kv) => {
            let (ts, l2) = transitions_fold(fp, index as usize, state_names, contexts, (acc.1, l), st.transitions@);
            (acc.0.push((st.name@, kv)), ts, l2)
        },
    }
}

fn compile_state(
    logger: &mut Logger,
    first_pass: &FirstPassData,
    index: usize,
    layer_names: &Vec<String>,
    st: DeclRawLayerState,
    compiled: &mut Vec<LayerRawState>,
    transitions: &mut Vec<LayerRawTransition>,
)
    requires
        old(logger).wf(),
    ensures
        final(logger).wf(),
        final(logger).open_contexts() == old(logger).open_contexts(),
        (states_view(final(compiled)@), transitions_view(final(transitions)@), final(logger).log_view())
            == state_step(
            *first_pass,
            layer_names@.map_values(|s: String| s@),
            old(logger).open_contexts(),
            (states_view(old(compiled)@), transitions_view(old(transitions)@), old(logger).log_view()),
            st,
            index as nat,
        ),
{
    proof {
        reveal(state_step);
    }
    let DeclRawLayerState { name, kind, transitions: decl_transitions } = st;
    match compile_raw_animation_kind(logger, first_pass, kind) {
        Some(animation) => {
            compiled.push(LayerRawState { name, animation });
            proof {
                assert(states_view(compiled@) =~= states_view(old(compiled)@).push(raw_state_view(compiled@.last())));
            }
            compile_transitions(logger, first_pass, index, layer_names, decl_transitions, transitions);
        },
        None => {},
    }
}

pub open spec fn state_view_names(states: Seq<RawStateView>) -> Seq<Seq<char>> {
    states.map_values(|s: RawStateView| s.0)
}

pub open spec fn state_not_found_text(name: Seq<char>) -> Seq<char> {
    "state '"@ + name + "' not found"@
}

/// How a raw layer compiles, reported inside "raw layer 'NAME'": it must have been declared
/// as a raw layer, whose state names transitions refer to; then its states; then the default
/// state, by name among the states that compiled, or the first.
pub open spec fn raw_layer_spec(
    fp: FirstPassData,
    d: DeclRawLayer,
    logs: Seq<LogView>,
    contexts: Seq<Seq<char>>,
) -> (Option<(Seq<char>, ContentView)>, Seq<LogView>) {
    let inner = contexts.push("raw layer '"@ + d.name@ + "'"@);
    match raw_outcome(fp.layers_view(), d.name@) {
        Err(e) => (None, logs.push((e, inner))),
        Ok(names) => {
            let (states, ts, l) = states_fold(fp, names, inner, (Seq::empty(), Seq::empty(), logs), d.states@, 0);
            match d.default {
                None => (Some((d.name@, ContentView::Raw(0, states, ts))), l),
                Some(dsn) => match first_index_of(state_view_names(states), dsn@) {
                    Some(i) => (Some((d.name@, ContentView::Raw(i as usize, states, ts))), l),
                    None => (None, l.push((state_not_found_text(dsn@), inner))),
                },
            }
        },
    }
}

pub open spec fn transitions_view(ts: Seq<LayerRawTransition>) -> Seq<RawTransitionView> {
    ts.map_values(|t: LayerRawTransition| raw_transition_view(t))
}

pub open spec fn states_view(ss: Seq<LayerRawState>) -> Seq<RawStateView> {
    ss.map_values(|s: LayerRawState| raw_state_view(s))
}

#[verifier::loop_isolation(false)]
fn compile_transitions(
    logger: &mut Logger,
    first_pass: &FirstPassData,
    from_index: usize,
    layer_names: &Vec<String>,
    transitions: Vec<DeclRawLayerTransition>,
    out: &mut Vec<LayerRawTransition>,
)
    requires
        old(logger).wf(),
    ensures
        final(logger).wf(),
        final(logger).open_contexts() == old(logger).open_contexts(),
        (transitions_view(final(out)@), final(logger).log_view()) == transitions_fold(
            *first_pass,
            from_index,
            layer_names@.map_values(|s: String| s@),
            old(logger).open_contexts(),
            (transitions_view(old(out)@), old(logger).log_view()),
            transitions@,
        ),
{
    let ghost ctx = logger.open_contexts();
    let ghost names = layer_names@.map_values(|s: String| s@);
    let ghost total = transitions_fold(
        *first_pass,
        from_index,
        names,
        ctx,
        (transitions_view(out@), logger.log_view()),
        transitions@,
    );
    let mut transitions = transitions;
    while transitions.len() > 0
        invariant
            logger.wf(),
            logger.open_contexts() == ctx,
            names == layer_names@.map_values(|s: String| s@),
            total == transitions_fold(
                *first_pass,
                from_index,
                names,
                ctx,
                (transitions_view(out@), logger.log_view()),
                transitions@,
            ),
        decreases transitions@.len(),
    {
        let ghost before = transitions@;
        let ghost before_out = out@;
        let t = transitions.remove(0);
        proof {
            assert(transitions@ =~= before.drop_first());
        }
        match compile_raw_transition(logger, first_pass, t, from_index, layer_names) {
            Some(rt) => {
                out.push(rt);
                proof {
                    assert(transitions_view(out@) =~= transitions_view(before_out).push(raw_transition_view(rt)));
                }
            },
            None => {},
        }
    }
}

#[verifier::loop_isolation(false)]
fn compile_states(
    logger: &mut Logger,
    first_pass: &FirstPassData,
    layer_names: &Vec<String>,
    states: Vec<DeclRawLayerState>,
) -> (r: (Vec<LayerRawState>, Vec<LayerRawTransition>))
    requires
        old(logger).wf(),
    ensures
        final(logger).wf(),
        final(logger).open_contexts() == old(logger).open_contexts(),
        (states_view(r.0@), transitions_view(r.1@), final(logger).log_view()) == states_fold(
            *first_pass,
            layer_names@.map_values(|s: String| s@),
            old(logger).open_contexts(),
            (Seq::empty(), Seq::empty(), old(logger).log_view()),
            states@,
            0,
        ),
{
    let ghost ctx = logger.open_contexts();
    let ghost names = layer_names@.map_values(|s: String| s@);
    let ghost total = states_fold(
        *first_pass,
        names,
        ctx,
        (Seq::empty(), Seq::empty(), logger.log_view()),
        states@,
        0,
    );
    let mut compiled: Vec<LayerRawState> = Vec::new();
    let mut transitions: Vec<LayerRawTransition> = Vec::new();
    let mut states = states;
    let n: usize = states.len();
    let mut index: usize = 0;
    proof {
        assert(states_view(compiled@) =~= Seq::<RawStateView>::empty());
        assert(transitions_view(transitions@) =~= Seq::<RawTransitionView>::empty());
    }
    while states.len() > 0
        invariant
            logger.wf(),
            logger.open_contexts() == ctx,
            names == layer_names@.map_values(|s: String| s@),
            index + states@.len() == n,
            total == states_fold(
                *first_pass,
                names,
                ctx,
                (states_view(compiled@), transitions_view(transitions@), logger.log_view()),
                states@,
                index as nat,
            ),
        decreases states@.len(),
    {
        let ghost before = states@;
        let st = states.remove(0);
        proof {
            assert(states@ =~= before.drop_first());
        }
        compile_state(logger, first_pass, index, layer_names, st, &mut compiled, &mut transitions);
        index = index + 1;
    }
    (compiled, transitions)
}

fn state_position(states: &Vec<LayerRawState>, name: &str) -> (r: Option<usize>)
    ensures
        match first_index_of(state_view_names(states_view(states@)), name@) {
            Some(i) => r matches Some(k) && k as int == i,
            None => r is None,
        },
{
    let ghost views = state_view_names(states_view(states@));
    proof {
        lemma_first_index_properties(views, name@);
    }
    let mut i: usize = 0;
    while i < states.len()
        invariant
            i <= states@.len(),
            views == state_view_names(states_view(states@)),
            forall|j: int| 0 <= j < i ==> views[j] != name@,
        decreases states@.len() - i,
    {
        proof {
            assert(views[i as int] == states@[i as int].name@);
        }
        if crate::avatar::transformer::dependencies::str_equal(states[i].name.as_str(), name) {
            proof {
                lemma_first_index_found(views, name@, i as int);
            }
            return Some(i);
        }
        i = i + 1;
    }
    proof {
        lemma_first_index_absent(views, name@);
    }
    None
}

fn compile_raw_body(
    logger: &mut Logger,
    first_pass: &FirstPassData,
    name: String,
    default: Option<String>,
    layer_names: &Vec<String>,
    decl_states: Vec<DeclRawLayerState>,
) -> (r: Compiled<Layer>)
    requires
        old(logger).wf(),
    ensures
        final(logger).wf(),
        final(logger).open_contexts() == old(logger).open_contexts(),
        ({
            let names = layer_names@.map_values(|s: String| s@);
            let inner = old(logger).open_contexts();
            let (states, ts, l) = states_fold(
                *first_pass,
                names,
                inner,
                (Seq::empty(), Seq::empty(), old(logger).log_view()),
                decl_states@,
                0,
            );
            match default {
                None => final(logger).log_view() == l && (r matches Some(layer) && layer_view(layer) == (
                    name@,
                    ContentView::Raw(0, states, ts),
                )),
                Some(dsn) => match first_index_of(state_view_names(states), dsn@) {
                    Some(i) => final(logger).log_view() == l && (r matches Some(layer) && layer_view(layer)
                        == (name@, ContentView::Raw(i as usize, states, ts))),
                    None => final(logger).log_view() == l.push((state_not_found_text(dsn@), inner))
                        && r is None,
                },
            }
        }),
{
    let (states, transitions) = compile_states(logger, first_pass, layer_names, decl_states);
    let default_index = match default {
        Some(dsn) => match state_position(&states, dsn.as_str()) {
            Some(i) => i,
            None => {
                logger.log(Log::LayerStateNotFound(dsn));
                return failure();
            },
        },
        None => 0,
    };
    let layer = Layer { name, content: LayerContent::Raw { default_index, states, transitions } };
    proof {
        assert(layer_view(layer) == (
            name@,
            ContentView::Raw(default_index, states_view(states@), transitions_view(transitions@)),
        ));
    }
    success(layer)
}

/// Compiles a raw layer (see `raw_layer_spec`).
pub fn compile_raw_layer(
    logger: &mut Logger,
    first_pass: &FirstPassData,
    decl_raw_layer: DeclRawLayer,
) -> (r: Compiled<Layer>)
    requires
        old(logger).wf(),
    ensures
        final(logger).wf(),
        final(logger).open_contexts() == old(logger).open_contexts(),
        ({
            let (v, logs) = raw_layer_spec(
                *first_pass,
                decl_raw_layer,
                old(logger).log_view(),
                old(logger).open_contexts(),
            );
            &&& final(logger).log_view() == logs
            &&& match v {
                Some(lv) => r matches Some(l) && layer_view(l) == lv,
                None => r is None,
            }
        }),
{
    let ghost outer = logger.open_contexts();
    let DeclRawLayer { name, default, states } = decl_raw_layer;
    logger.push_context(concat3("raw layer '", name.as_str(), "'"));
    let result = match first_pass.find_raw(logger, name.as_str()) {
        Some(layer_names) => compile_raw_body(logger, first_pass, name, default, layer_names, states),
        None => failure(),
    };
    logger.pop_context();
    proof {
        assert(logger.open_contexts() =~= outer);
    }
    result
}

/// Whether a transition starts at one of `bound` declared states and leads to one of
/// `targets` named states.
pub open spec fn transition_in_range(t: RawTransitionView, bound: int, targets: int) -> bool {
    (t.0 as int) < bound && (t.1 as int) < targets
}

proof fn lemma_transitions_fold_in_range(
    fp: FirstPassData,
    from: usize,
    state_names: Seq<Seq<char>>,
    contexts: Seq<Seq<char>>,
    acc: TransitionsAcc,
    ts: Seq<DeclRawLayerTransition>,
    bound: int,
)
    requires
        (from as int) < bound,
        forall|k: int| 0 <= k < acc.0.len() ==> transition_in_range(#[trigger] acc.0[k], bound, state_names.len() as int),
    ensures
        forall|k: int|
            0 <= k < transitions_fold(fp, from, state_names, contexts, acc, ts).0.len() ==> transition_in_range(
                #[trigger] transitions_fold(fp, from, state_names, contexts, acc, ts).0[k],
                bound,
                state_names.len() as int,
            ),
    decreases ts.len(),
{
    if ts.len() > 0 {
        let (t, l) = transition_spec(fp, ts[0], from, state_names, acc.1, contexts);
        let next = match t {
            Some(tv) => (acc.0.push(tv), l),
            None => (acc.0, l),
        };
        lemma_first_index_properties(state_names, ts[0].target@);
        assert forall|k: int| 0 <= k < next.0.len() implies transition_in_range(
            #[trigger] next.0[k],
            bound,
            state_names.len() as int,
        ) by {
            if k < acc.0.len() {
                assert(next.0[k] == acc.0[k]);
            }
        }
        lemma_transitions_fold_in_range(fp, from, state_names, contexts, next, ts.drop_first(), bound);
        assert(transitions_fold(fp, from, state_names, contexts, acc, ts) == transitions_fold(
            fp,
            from,
            state_names,
            contexts,
            next,
            ts.drop_first(),
        ));
    }
}

proof fn lemma_states_fold_in_range(
    fp: FirstPassData,
    state_names: Seq<Seq<char>>,
    contexts: Seq<Seq<char>>,
    acc: StatesAcc,
    states: Seq<DeclRawLayerState>,
    index: nat,
    bound: int,
)
    requires
        index + states.len() <= bound,
        forall|k: int| 0 <= k < acc.1.len() ==> transition_in_range(#[trigger] acc.1[k], bound, state_names.len() as int),
    ensures
        forall|k: int|
            0 <= k < states_fold(fp, state_names, contexts, acc, states, index).1.len() ==> transition_in_range(
                #[trigger] states_fold(fp, state_names, contexts, acc, states, index).1[k],
                bound,
                state_names.len() as int,
            ),
    decreases states.len(),
{
    if states.len() > 0 {
        let st = states[0];
        let next = state_step(fp, state_names, contexts, acc, st, index);
        let (k, l) = raw_kind_spec(fp, st.kind, acc.2, contexts);
        if k is Some {
            assert((index as usize) as int <= index);
            lemma_transitions_fold_in_range(
                fp,
                index as usize,
                state_names,
                contexts,
                (acc.1, l),
                st.transitions@,
                bound,
            );
            assert(next.1 == transitions_fold(fp, index as usize, state_names, contexts, (acc.1, l), st.transitions@).0)
                by {
                reveal(state_step);
            }
        } else {
            assert(next.1 == acc.1) by {
                reveal(state_step);
            }
        }
        lemma_states_fold_in_range(fp, state_names, contexts, next, states.drop_first(), index + 1, bound);
        assert(states_fold(fp, state_names, contexts, acc, states, index) == states_fold(
            fp,
            state_names,
            contexts,
            next,
            states.drop_first(),
            index + 1,
        ));
    }
}

/// Every transition of a compiled raw layer starts at one of the layer's declared states and
/// leads to one of the states its first pass declared; a default state that is named is one
/// of the states that compiled.
pub proof fn lemma_raw_indices_in_range(fp: FirstPassData, d: DeclRawLayer, logs: Seq<LogView>, contexts: Seq<Seq<char>>)
    ensures
        raw_layer_spec(fp, d, logs, contexts).0 matches Some((_, ContentView::Raw(default_index, states, ts))) ==> {
            &&& raw_outcome(fp.layers_view(), d.name@) is Ok
            &&& forall|k: int|
                0 <= k < ts.len() ==> transition_in_range(
                    #[trigger] ts[k],
                    d.states@.len() as int,
                    raw_outcome(fp.layers_view(), d.name@)->Ok_0.len() as int,
                )
            &&& d.default is Some ==> (default_index as int) < states.len()
        },
{
    let inner = contexts.push("raw layer '"@ + d.name@ + "'"@);
    match raw_outcome(fp.layers_view(), d.name@) {
        Err(_) => {},
        Ok(names) => {
            let acc: StatesAcc = (Seq::empty(), Seq::empty(), logs);
            lemma_states_fold_in_range(fp, names, inner, acc, d.states@, 0, d.states@.len() as int);
            let (states, ts, l) = states_fold(fp, names, inner, acc, d.states@, 0);
            match d.default {
                None => {},
                Some(dsn) => {
                    lemma_first_index_properties(state_view_names(states), dsn@);
                },
            }
        },
    }
}


/// A transition condition keeps the comparison it was declared with, against the declared
/// value, on the parameter its reference finds: a bool condition tests that the bool is set
/// (or not); an int condition compares equal, unequal, greater or lesser as declared; a float
/// condition compares greater as greater and lesser as lesser, and nothing else; a zero test
/// compares an int with 0, or tests a bool.
pub proof fn lemma_condition_keeps_its_comparison(
    fp: FirstPassData,
    c: DeclRawLayerTransitionCondition,
    logs: Seq<LogView>,
    contexts: Seq<Seq<char>>,
)
    ensures
        condition_spec(fp, c, logs, contexts).0 matches Some(v) ==> match c {
            DeclRawLayerTransitionCondition::Bool(r, b) => {
                let p = (query_outcome(fp.parameters_view(), query_view(reference_query(r)), ParameterType::Bool(false), false)->Ok_0).0;
                v == if b { RawConditionView::Be(p) } else { RawConditionView::Not(p) }
            },
            DeclRawLayerTransitionCondition::Int(r, order, value) => {
                let p = (query_outcome(fp.parameters_view(), query_view(reference_query(r)), ParameterType::Int(0), false)->Ok_0).0;
                v == match order {
                    DeclRawLayerTransitionOrdering::Equal => RawConditionView::EqInt(p, value),
                    DeclRawLayerTransitionOrdering::NotEqual => RawConditionView::NeqInt(p, value),
                    DeclRawLayerTransitionOrdering::Greater => RawConditionView::GtInt(p, value),
                    DeclRawLayerTransitionOrdering::Lesser => RawConditionView::LeInt(p, value),
                }
            },
            DeclRawLayerTransitionCondition::Float(r, order, value) => {
                let p = (query_outcome(fp.parameters_view(), query_view(reference_query(r)), ParameterType::Float(0), false)->Ok_0).0;
                ||| order is Greater && v == RawConditionView::GtFloat(p, value)
                ||| order is Lesser && v == RawConditionView::LeFloat(p, value)
            },
            DeclRawLayerTransitionCondition::Zero(r, not_zero) => {
                let q = untyped_query_outcome(fp.parameters_view(), query_view(reference_query(r)))->Ok_0;
                if not_zero {
                    v == RawConditionView::NeqInt(q.0, 0) && q.1 is Int || v == RawConditionView::Be(q.0) && q.1 is Bool
                } else {
                    v == RawConditionView::EqInt(q.0, 0) && q.1 is Int || v == RawConditionView::Not(q.0) && q.1 is Bool
                }
            },
        },
{
}

} // verus!

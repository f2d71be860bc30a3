//! Compiles switch layers and puppet layers.
use vstd::prelude::*;
use vstd::string::*;

use crate::avatar_v2::data::asset::AssetType;
use crate::avatar_v2::data::layer::{Layer, LayerAnimation, LayerContent, LayerPuppetKeyframe, Target};
use crate::avatar_v2::data::parameter::ParameterType;
use crate::avatar_v2::logger::{recorded_text, Log, LogView, Logger};
use crate::avatar_v2::transformer::layer::{
    animation_view, compile_option_animation, compile_target, empty_inline, exclusive_text, keyed_insert,
    keyed_values, layer_view, option_animation_spec, opt_string, str_opt, target_spec, target_view, targets_view,
    view_key, AnimationView, ContentView, KeyedAcc, KeyedTargets, TargetView,
};
use crate::avatar_v2::transformer::{
    asset_outcome, failure, gate_outcome, query_outcome, query_view, success, Compiled, FirstPassData,
    UnsetValue, ONE_BITS,
};
use crate::decl_v2::data::{
    reference_query, DeclGroupOption, DeclParameterReference, DeclGroupOptionKind, DeclGroupOptionTarget, DeclPuppetLayer,
    DeclSwitchLayer,
};
use crate::text::{concat2, concat3, decimal, u64_to_decimal};

verus! {

/// The context a switch option is reported in.
pub open spec fn switch_context(value: bool) -> Seq<char> {
    if value {
        "enabled option"@
    } else {
        "disabled option"@
    }
}

/// How an option of a switch layer compiles: on or off, and its animation, reported inside
/// `switch_context`.
pub open spec fn switch_option_spec(
    fp: FirstPassData,
    o: DeclGroupOption,
    default_mesh: Option<Seq<char>>,
    unset: UnsetValue,
    logs: Seq<LogView>,
    contexts: Seq<Seq<char>>,
) -> (Option<(bool, AnimationView)>, Seq<LogView>) {
    match o.kind {
        DeclGroupOptionKind::Boolean(v) => {
            let (a, l) = option_animation_spec(fp, o, default_mesh, unset, logs, contexts.push(switch_context(v)));
            match a {
                Some(av) => (Some((v, av)), l),
                None => (None, l),
            }
        },
        _ => (None, logs),
    }
}

/// Compiles an option of a switch layer (see `switch_option_spec`); its kind must be boolean.
pub fn compile_switch_option(
    logger: &mut Logger,
    first_pass: &FirstPassData,
    decl_group_option: DeclGroupOption,
    default_mesh: Option<&str>,
    unset_value: UnsetValue,
) -> (r: Compiled<(bool, LayerAnimation)>)
    requires
        old(logger).wf(),
        decl_group_option.kind is Boolean,
    ensures
        final(logger).wf(),
        final(logger).open_contexts() == old(logger).open_contexts(),
        ({
            let (o, logs) = switch_option_spec(
                *first_pass,
                decl_group_option,
                str_opt(default_mesh),
                unset_value,
                old(logger).log_view(),
                old(logger).open_contexts(),
            );
            &&& final(logger).log_view() == logs
            &&& match o {
                Some((v, av)) => r matches Some((rv, ra)) && rv == v && animation_view(ra) == av,
                None => r is None,
            }
        }),
{
    let ghost outer = logger.open_contexts();
    let value = match &decl_group_option.kind {
        DeclGroupOptionKind::Boolean(v) => *v,
        _ => {
            proof {
                assert(false);
            }
            return failure();
        },
    };
    let context = if value {
        String::from_str("enabled option")
    } else {
        String::from_str("disabled option")
    };
    proof {
        reveal_strlit("enabled option");
        reveal_strlit("disabled option");
    }
    logger.push_context(context);
    let animation = compile_option_animation(logger, first_pass, decl_group_option, default_mesh, unset_value);
    logger.pop_context();
    proof {
        assert(logger.open_contexts() =~= outer);
    }
    match animation {
        Some(a) => success((value, a)),
        None => failure(),
    }
}

/// The animation of a switch option that compiled, or an empty one.
pub open spec fn switch_animation(o: Option<(bool, AnimationView)>) -> AnimationView {
    match o {
        Some((_, av)) => av,
        None => AnimationView::Inline(Seq::empty()),
    }
}

pub open spec fn indeterminate_source_text() -> Seq<char> {
    "switch layer must be driven by either a parameter or a gate"@
}

pub open spec fn switch_layer_well_formed(d: DeclSwitchLayer) -> bool {
    d.disabled.kind is Boolean && d.enabled.kind is Boolean
}

/// How a switch layer compiles, reported inside "switch layer 'NAME'": the disabled option
/// (unset targets inactive) and the enabled option (unset targets active), each empty where
/// it fails; then its source: a readable bool parameter, or a declared gate, but not both.
pub open spec fn switch_layer_spec(
    fp: FirstPassData,
    d: DeclSwitchLayer,
    logs: Seq<LogView>,
    contexts: Seq<Seq<char>>,
) -> (Option<(Seq<char>, ContentView)>, Seq<LogView>) {
    let inner = contexts.push("switch layer '"@ + d.name@ + "'"@);
    let dm = opt_string(d.default_mesh);
    let (disabled, l1) = switch_option_spec(fp, d.disabled, dm, UnsetValue::Inactive, logs, inner);
    let (enabled, l2) = switch_option_spec(fp, d.enabled, dm, UnsetValue::Active, l1, inner);
    switch_source_spec(
        fp,
        d.name@,
        d.driven_by,
        d.with_gate,
        switch_animation(disabled),
        switch_animation(enabled),
        l2,
        inner,
    )
}

/// How the source of a switch layer resolves: a readable bool parameter, or a declared gate,
/// but not both.
pub open spec fn switch_source_spec(
    fp: FirstPassData,
    name: Seq<char>,
    driven_by: Option<DeclParameterReference>,
    with_gate: Option<String>,
    dv: AnimationView,
    ev: AnimationView,
    logs: Seq<LogView>,
    inner: Seq<Seq<char>>,
) -> (Option<(Seq<char>, ContentView)>, Seq<LogView>) {
    match (driven_by, with_gate) {
        (Some(db), None) => match query_outcome(
            fp.parameters_view(),
            query_view(reference_query(db)),
            ParameterType::Bool(false),
            false,
        ) {
            Err(e) => (None, logs.push((e, inner))),
            Ok(q) => (Some((name, ContentView::Switch(q.0, dv, ev))), logs),
        },
        (None, Some(wg)) => match gate_outcome(fp.gates_view(), wg@) {
            Err(e) => (None, logs.push((e, inner))),
            Ok(g) => (Some((name, ContentView::SwitchGate(g, dv, ev))), logs),
        },
        _ => (None, logs.push((indeterminate_source_text(), inner))),
    }
}

fn compile_switch_source(
    logger: &mut Logger,
    first_pass: &FirstPassData,
    name: String,
    driven_by: Option<DeclParameterReference>,
    with_gate: Option<String>,
    disabled: LayerAnimation,
    enabled: LayerAnimation,
) -> (r: Compiled<Layer>)
    requires
        old(logger).wf(),
    ensures
        final(logger).wf(),
        final(logger).open_contexts() == old(logger).open_contexts(),
        ({
            let (v, logs) = switch_source_spec(
                *first_pass,
                name@,
                driven_by,
                with_gate,
                animation_view(disabled),
                animation_view(enabled),
                old(logger).log_view(),
                old(logger).open_contexts(),
            );
            &&& final(logger).log_view() == logs
            &&& match v {
                Some(lv) => r matches Some(l) && layer_view(l) == lv,
                None => r is None,
            }
        }),
{
    match (driven_by, with_gate) {
        (Some(db), None) => {
            match first_pass.find_read_parameter(logger, &db.into_query(), ParameterType::bool_type()) {
                Some(q) => success(
                    Layer { name, content: LayerContent::Switch { parameter: q.name, disabled, enabled } },
                ),
                None => failure(),
            }
        },
        (None, Some(wg)) => match first_pass.find_gate(logger, wg.as_str()) {
            Some(g) => success(
                Layer { name, content: LayerContent::SwitchGate { gate: g.clone(), disabled, enabled } },
            ),
            None => failure(),
        },
        _ => {
            logger.log(Log::LayerSwitchIndeterminateSource);
            failure()
        },
    }
}

fn animation_or_empty(o: Compiled<(bool, LayerAnimation)>) -> (r: LayerAnimation)
    ensures
        animation_view(r) == match o {
            Some((_, a)) => animation_view(a),
            None => AnimationView::Inline(Seq::empty()),
        },
{
    match o {
        Some((_, a)) => a,
        None => empty_inline(),
    }
}

/// Compiles a switch layer (see `switch_layer_spec`).
pub fn compile_switch_layer(
    logger: &mut Logger,
    first_pass: &FirstPassData,
    decl_switch_layer: DeclSwitchLayer,
) -> (r: Compiled<Layer>)
    requires
        old(logger).wf(),
        switch_layer_well_formed(decl_switch_layer),
    ensures
        final(logger).wf(),
        final(logger).open_contexts() == old(logger).open_contexts(),
        ({
            let (v, logs) = switch_layer_spec(
                *first_pass,
                decl_switch_layer,
                old(logger).log_view(),
                old(logger).open_contexts(),
            );
            &&& final(logger).log_view() == logs
            &&& match v {
                Some(lv) => r matches Some(l) && layer_view(l) == lv,
                None => r is None,
            }
        }),
{
    let ghost outer = logger.open_contexts();
    let DeclSwitchLayer { name, driven_by, with_gate, default_mesh, disabled, enabled } = decl_switch_layer;
    logger.push_context(concat3("switch layer '", name.as_str(), "'"));
    let dm = match &default_mesh {
        Some(m) => Some(m.as_str()),
        None => None,
    };
    let disabled = animation_or_empty(
        compile_switch_option(logger, first_pass, disabled, dm, UnsetValue::Inactive),
    );
    let enabled = animation_or_empty(compile_switch_option(logger, first_pass, enabled, dm, UnsetValue::Active));
    let result = compile_switch_source(logger, first_pass, name, driven_by, with_gate, disabled, enabled);
    logger.pop_context();
    proof {
        assert(logger.open_contexts() =~= outer);
    }
    result
}

/// A switch layer keeps its name and its two sides: its off side is the declared disabled
/// option compiled with unset targets inactive, and its on side the declared enabled option
/// compiled with unset targets active (an empty animation where an option fails). It is
/// switched by the declared bool parameter when only that is given, by the declared gate when
/// only that is given, and fails when both or neither are given.
pub proof fn lemma_switch_layer_keeps_its_sides(
    fp: FirstPassData,
    d: DeclSwitchLayer,
    logs: Seq<LogView>,
    contexts: Seq<Seq<char>>,
)
    ensures
        ({
            let inner = contexts.push("switch layer '"@ + d.name@ + "'"@);
            let dm = opt_string(d.default_mesh);
            let (off, l1) = switch_option_spec(fp, d.disabled, dm, UnsetValue::Inactive, logs, inner);
            let (on, l2) = switch_option_spec(fp, d.enabled, dm, UnsetValue::Active, l1, inner);
            let (r, l) = switch_layer_spec(fp, d, logs, contexts);
            &&& match (d.driven_by, d.with_gate) {
                (Some(db), None) => match query_outcome(
                    fp.parameters_view(),
                    query_view(reference_query(db)),
                    ParameterType::Bool(false),
                    false,
                ) {
                    Ok(q) => r == Some(
                        (d.name@, ContentView::Switch(q.0, switch_animation(off), switch_animation(on))),
                    ) && l == l2,
                    Err(e) => r is None && l == l2.push((e, inner)),
                },
                (None, Some(g)) => match gate_outcome(fp.gates_view(), g@) {
                    Ok(gate) => gate == g@ && r == Some(
                        (d.name@, ContentView::SwitchGate(gate, switch_animation(off), switch_animation(on))),
                    ) && l == l2,
                    Err(e) => r is None && l == l2.push((e, inner)),
                },
                _ => r is None && l == l2.push((indeterminate_source_text(), inner)),
            }
        }),
{
}

pub open spec fn cannot_drive_text() -> Seq<char> {
    "puppet layer cannot drive parameters"@
}

/// Keeps each of `vs` under its key, except drives, each of which is logged instead.
pub open spec fn undriven_insert(acc: KeyedAcc, vs: Seq<TargetView>, contexts: Seq<Seq<char>>) -> KeyedAcc
    decreases vs.len(),
{
    if vs.len() == 0 {
        acc
    } else {
        let next = match vs[0] {
            TargetView::Drive(_) => (acc.0, acc.1.push((cannot_drive_text(), contexts))),
            v => (keyed_insert(acc.0, view_key(v), v), acc.1),
        };
        undriven_insert(next, vs.drop_first(), contexts)
    }
}

/// How targets that may not drive parameters compile one after another: as the targets of
/// an option, except that drives are logged and left out.
pub open spec fn undriven_targets_fold(
    fp: FirstPassData,
    default_mesh: Option<Seq<char>>,
    unset: UnsetValue,
    contexts: Seq<Seq<char>>,
    acc: KeyedAcc,
    ds: Seq<DeclGroupOptionTarget>,
) -> KeyedAcc
    decreases ds.len(),
{
    if ds.len() == 0 {
        acc
    } else {
        let next = match target_spec(fp, default_mesh, unset, ds[0]) {
            Err(e) => (acc.0, acc.1.push((e, contexts))),
            Ok(vs) => undriven_insert(acc, vs, contexts),
        };
        undriven_targets_fold(fp, default_mesh, unset, contexts, next, ds.drop_first())
    }
}

#[verifier::loop_isolation(false)]
fn insert_undriven(logger: &mut Logger, compiled: &mut KeyedTargets, ts: Vec<Target>)
    requires
        old(logger).wf(),
    ensures
        final(logger).wf(),
        final(logger).open_contexts() == old(logger).open_contexts(),
        (final(compiled).view_entries(), final(logger).log_view()) == undriven_insert(
            (old(compiled).view_entries(), old(logger).log_view()),
            targets_view(ts@),
            old(logger).open_contexts(),
        ),
{
    let ghost ctx = logger.open_contexts();
    let ghost total = undriven_insert(
        (compiled.view_entries(), logger.log_view()),
        targets_view(ts@),
        ctx,
    );
    let mut ts = ts;
    while ts.len() > 0
        invariant
            logger.wf(),
            logger.open_contexts() == ctx,
            total == undriven_insert((compiled.view_entries(), logger.log_view()), targets_view(ts@), ctx),
        decreases ts@.len(),
    {
        let ghost before = ts@;
        let t = ts.remove(0);
        proof {
            assert(ts@ =~= before.drop_first());
            assert(targets_view(before).drop_first() =~= targets_view(ts@));
            assert(targets_view(before)[0] == target_view(t));
        }
        match t {
            Target::ParameterDrive(_) => {
                logger.log(Log::LayerPuppetCannotDrive);
            },
            _ => {
                compiled.insert(t);
            },
        }
    }
}

/// Compiles targets that may not drive parameters (see `undriven_targets_fold`), in key order.
#[verifier::loop_isolation(false)]
pub fn compile_undriven_targets(
    logger: &mut Logger,
    first_pass: &FirstPassData,
    default_mesh: Option<&str>,
    unset_value: UnsetValue,
    targets: Vec<DeclGroupOptionTarget>,
) -> (r: Vec<Target>)
    requires
        old(logger).wf(),
    ensures
        final(logger).wf(),
        final(logger).open_contexts() == old(logger).open_contexts(),
        ({
            let (m, logs) = undriven_targets_fold(
                *first_pass,
                str_opt(default_mesh),
                unset_value,
                old(logger).open_contexts(),
                (Seq::empty(), old(logger).log_view()),
                targets@,
            );
            targets_view(r@) == keyed_values(m) && final(logger).log_view() == logs
        }),
{
    let ghost ctx = logger.open_contexts();
    let mut compiled = KeyedTargets::new();
    let mut targets = targets;
    let ghost total = undriven_targets_fold(
        *first_pass,
        str_opt(default_mesh),
        unset_value,
        ctx,
        (Seq::empty(), logger.log_view()),
        targets@,
    );
    while targets.len() > 0
        invariant
            logger.wf(),
            logger.open_contexts() == ctx,
            total == undriven_targets_fold(
                *first_pass,
                str_opt(default_mesh),
                unset_value,
                ctx,
                (compiled.view_entries(), logger.log_view()),
                targets@,
            ),
        decreases targets@.len(),
    {
        let ghost before = targets@;
        let decl_target = targets.remove(0);
        proof {
            assert(targets@ =~= before.drop_first());
        }
        match compile_target(logger, first_pass, default_mesh, unset_value, decl_target) {
            Some(ts) => {
                insert_undriven(logger, &mut compiled, ts);
            },
            None => {},
        }
    }
    compiled.into_values()
}

/// The context a keyframe is reported in.
pub open spec fn keyframe_context(value: u64) -> Seq<char> {
    "keyframe IEEE-754 bits "@ + decimal(value as nat)
}

pub open spec fn inlined_text() -> Seq<char> {
    "puppet option cannot be external animation"@
}

/// A keyframe as its position (IEEE-754 bits) and its targets.
pub type KeyframeView = (u64, Seq<TargetView>);

/// How a keyframe of a puppet layer compiles, reported inside `keyframe_context`: it may not
/// name an animation asset; its targets compile without drives.
pub open spec fn puppet_option_spec(
    fp: FirstPassData,
    o: DeclGroupOption,
    default_mesh: Option<Seq<char>>,
    unset: UnsetValue,
    logs: Seq<LogView>,
    contexts: Seq<Seq<char>>,
) -> (Option<KeyframeView>, Seq<LogView>) {
    match o.kind {
        DeclGroupOptionKind::Keyframe(v) => {
            let inner = contexts.push(keyframe_context(v));
            if o.animation_asset is Some {
                (None, logs.push((inlined_text(), inner)))
            } else {
                let (m, l) = undriven_targets_fold(fp, default_mesh, unset, inner, (Seq::empty(), logs), o.targets@);
                (Some((v, keyed_values(m))), l)
            }
        },
        _ => (None, logs),
    }
}

/// Compiles a keyframe of a puppet layer (see `puppet_option_spec`); its kind must be a keyframe.
pub fn compile_puppet_option(
    logger: &mut Logger,
    first_pass: &FirstPassData,
    decl_group_option: DeclGroupOption,
    default_mesh: Option<&str>,
    unset_value: UnsetValue,
) -> (r: Compiled<(u64, Vec<Target>)>)
    requires
        old(logger).wf(),
        decl_group_option.kind is Keyframe,
    ensures
        final(logger).wf(),
        final(logger).open_contexts() == old(logger).open_contexts(),
        ({
            let (o, logs) = puppet_option_spec(
                *first_pass,
                decl_group_option,
                str_opt(default_mesh),
                unset_value,
                old(logger).log_view(),
                old(logger).open_contexts(),
            );
            &&& final(logger).log_view() == logs
            &&& match o {
                Some((v, tv)) => r matches Some((rv, ts)) && rv == v && targets_view(ts@) == tv,
                None => r is None,
            }
        }),
{
    let ghost outer = logger.open_contexts();
    let DeclGroupOption { kind, animation_asset, targets } = decl_group_option;
    let value = match kind {
        DeclGroupOptionKind::Keyframe(v) => v,
        _ => {
            proof {
                assert(false);
            }
            return failure();
        },
    };
    let digits = u64_to_decimal(value);
    logger.push_context(concat2("keyframe IEEE-754 bits ", digits.as_str()));
    if animation_asset.is_some() {
        logger.log(Log::LayerPuppetOptionMustBeInlined);
        logger.pop_context();
        proof {
            assert(logger.open_contexts() =~= outer);
        }
        return failure();
    }
    let compiled = compile_undriven_targets(logger, first_pass, default_mesh, unset_value, targets);
    logger.pop_context();
    proof {
        assert(logger.open_contexts() =~= outer);
    }
    success((value, compiled))
}

/// The IEEE-754 bits of -0.0.
pub const NEGATIVE_ZERO_BITS: u64 = 0x8000_0000_0000_0000u64;

/// Whether the float with these bits lies in [0.0, 1.0] (-0.0 does; NaN does not).
pub open spec fn in_unit_range(bits: u64) -> bool {
    bits <= ONE_BITS || bits == NEGATIVE_ZERO_BITS
}

/// The place of a float in the total order of IEEE-754 floats: negatives, by their bits
/// reversed, come before positives, by their bits.
pub open spec fn total_key(bits: u64) -> int {
    if bits >= NEGATIVE_ZERO_BITS {
        -1 - (bits - NEGATIVE_ZERO_BITS)
    } else {
        bits as int
    }
}

/// Whether the float with bits `a` comes before that with bits `b` in the total order.
pub fn total_before(a: u64, b: u64) -> (r: bool)
    ensures
        r == (total_key(a) < total_key(b)),
{
    let a_negative = a >= NEGATIVE_ZERO_BITS;
    let b_negative = b >= NEGATIVE_ZERO_BITS;
    if a_negative && b_negative {
        a > b
    } else if a_negative {
        true
    } else if b_negative {
        false
    } else {
        a < b
    }
}

/// `k` placed after every keyframe whose position does not come after its own.
pub open spec fn insert_keyframe(sorted: Seq<KeyframeView>, k: KeyframeView) -> Seq<KeyframeView>
    decreases sorted.len(),
{
    if sorted.len() == 0 {
        seq![k]
    } else if total_key(k.0) < total_key(sorted.last().0) {
        insert_keyframe(sorted.drop_last(), k).push(sorted.last())
    } else {
        sorted.push(k)
    }
}

/// Keyframes sorted by position in the total order; keyframes at the same position keep
/// their order.
pub open spec fn sort_keyframes(ks: Seq<KeyframeView>) -> Seq<KeyframeView>
    decreases ks.len(),
{
    if ks.len() == 0 {
        ks
    } else {
        insert_keyframe(sort_keyframes(ks.drop_last()), ks.last())
    }
}

pub open spec fn out_of_range_text(value: u64) -> Seq<char> {
    recorded_text(Log::LayerKeyframeOutOfRange(value))
}

pub type KeyframesAcc = (Seq<KeyframeView>, Seq<LogView>);

/// How the keyframes of a puppet layer compile one after another: those that compile and lie
/// in [0, 1] are kept in order; one outside is logged and left out.
pub open spec fn keyframes_fold(
    fp: FirstPassData,
    default_mesh: Option<Seq<char>>,
    contexts: Seq<Seq<char>>,
    acc: KeyframesAcc,
    ds: Seq<DeclGroupOption>,
) -> KeyframesAcc
    decreases ds.len(),
{
    if ds.len() == 0 {
        acc
    } else {
        let (o, l) = puppet_option_spec(fp, ds[0], default_mesh, UnsetValue::Active, acc.1, contexts);
        let next = match o {
            None => (acc.0, l),
            Some(k) => if in_unit_range(k.0) {
                (acc.0.push(k), l)
            } else {
                (acc.0, l.push((out_of_range_text(k.0), contexts)))
            },
        };
        keyframes_fold(fp, default_mesh, contexts, next, ds.drop_first())
    }
}

pub open spec fn keyframe_view(k: LayerPuppetKeyframe) -> KeyframeView {
    (k.value, targets_view(k.targets@))
}

pub open spec fn keyframes_view(ks: Seq<LayerPuppetKeyframe>) -> Seq<KeyframeView> {
    ks.map_values(|k: LayerPuppetKeyframe| keyframe_view(k))
}

/// Places a keyframe into keyframes kept in order (see `insert_keyframe`).
fn insert_sorted(sorted: &mut Vec<LayerPuppetKeyframe>, k: LayerPuppetKeyframe)
    ensures
        keyframes_view(final(sorted)@) == insert_keyframe(keyframes_view(old(sorted)@), keyframe_view(k)),
{
    let ghost s = keyframes_view(sorted@);
    let ghost kv = keyframe_view(k);
    let mut j: usize = sorted.len();
    proof {
        assert(s.subrange(0, j as int) =~= s);
        assert(insert_keyframe(s, kv) =~= insert_keyframe(s.subrange(0, j as int), kv) + s.subrange(
            j as int,
            s.len() as int,
        ));
    }
    while j > 0 && total_before(k.value, sorted[j - 1].value)
        invariant
            j <= sorted@.len(),
            sorted@ == old(sorted)@,
            s == keyframes_view(sorted@),
            kv == keyframe_view(k),
            insert_keyframe(s, kv) == insert_keyframe(s.subrange(0, j as int), kv) + s.subrange(
                j as int,
                s.len() as int,
            ),
        decreases j,
    {
        let ghost prefix = s.subrange(0, j as int);
        proof {
            assert(prefix.last() == s[j - 1]);
            assert(prefix.drop_last() =~= s.subrange(0, j - 1));
            assert(s.subrange(j - 1, s.len() as int) =~= seq![s[j - 1]] + s.subrange(j as int, s.len() as int));
            assert(insert_keyframe(prefix, kv) == insert_keyframe(s.subrange(0, j - 1), kv).push(s[j - 1]));
            assert(insert_keyframe(s.subrange(0, j - 1), kv).push(s[j - 1]) + s.subrange(j as int, s.len() as int)
                =~= insert_keyframe(s.subrange(0, j - 1), kv) + s.subrange(j - 1, s.len() as int));
        }
        j = j - 1;
    }
    proof {
        let prefix = s.subrange(0, j as int);
        if j > 0 {
            assert(prefix.last() == s[j - 1]);
        }
        assert(insert_keyframe(prefix, kv) == prefix.push(kv));
    }
    sorted.insert(j, k);
    proof {
        assert(keyframes_view(sorted@) =~= s.subrange(0, j as int).push(kv) + s.subrange(j as int, s.len() as int));
    }
}

pub open spec fn keyframes_well_formed(ds: Seq<DeclGroupOption>) -> bool {
    forall|i: int| 0 <= i < ds.len() ==> (#[trigger] ds[i]).kind is Keyframe
}

/// Compiles the keyframes of a puppet layer (see `keyframes_fold`) and sorts them.
#[verifier::loop_isolation(false)]
fn compile_keyframes(
    logger: &mut Logger,
    first_pass: &FirstPassData,
    keyframes: Vec<DeclGroupOption>,
    default_mesh: Option<&str>,
) -> (r: Vec<LayerPuppetKeyframe>)
    requires
        old(logger).wf(),
        keyframes_well_formed(keyframes@),
    ensures
        final(logger).wf(),
        final(logger).open_contexts() == old(logger).open_contexts(),
        ({
            let (ks, logs) = keyframes_fold(
                *first_pass,
                str_opt(default_mesh),
                old(logger).open_contexts(),
                (Seq::empty(), old(logger).log_view()),
                keyframes@,
            );
            keyframes_view(r@) == sort_keyframes(ks) && final(logger).log_view() == logs
        }),
{
    let ghost ctx = logger.open_contexts();
    let ghost total = keyframes_fold(
        *first_pass,
        str_opt(default_mesh),
        ctx,
        (Seq::empty(), logger.log_view()),
        keyframes@,
    );
    let ghost mut kept: Seq<KeyframeView> = Seq::empty();
    let mut sorted: Vec<LayerPuppetKeyframe> = Vec::new();
    let mut keyframes = keyframes;
    proof {
        assert(keyframes_view(sorted@) =~= sort_keyframes(kept));
    }
    while keyframes.len() > 0
        invariant
            logger.wf(),
            logger.open_contexts() == ctx,
            keyframes_well_formed(keyframes@),
            keyframes_view(sorted@) == sort_keyframes(kept),
            total == keyframes_fold(
                *first_pass,
                str_opt(default_mesh),
                ctx,
                (kept, logger.log_view()),
                keyframes@,
            ),
        decreases keyframes@.len(),
    {
        let ghost before = keyframes@;
        let decl_option = keyframes.remove(0);
        proof {
            assert(keyframes@ =~= before.drop_first());
            assert(before[0] == decl_option);
            assert(decl_option.kind is Keyframe);
        }
        match compile_puppet_option(logger, first_pass, decl_option, default_mesh, UnsetValue::Active) {
            Some((value, targets)) => {
                if value <= ONE_BITS || value == NEGATIVE_ZERO_BITS {
                    let ghost kv = (value, targets_view(targets@));
                    proof {
                        assert(kept.push(kv).drop_last() =~= kept);
                        kept = kept.push(kv);
                    }
                    insert_sorted(&mut sorted, LayerPuppetKeyframe { value, targets });
                } else {
                    logger.log(Log::LayerKeyframeOutOfRange(value));
                }
            },
            None => {},
        }
    }
    sorted
}

/// The animation of a puppet layer: an animation asset (which excludes keyframes and must be
/// an animation), or its keyframes that compile and lie in [0, 1], sorted by position.
pub open spec fn puppet_animation_spec(
    fp: FirstPassData,
    animation_asset: Option<String>,
    keyframes: Seq<DeclGroupOption>,
    default_mesh: Option<Seq<char>>,
    logs: Seq<LogView>,
    contexts: Seq<Seq<char>>,
) -> (Option<AnimationView>, Seq<LogView>) {
    match animation_asset {
        Some(a) => if keyframes.len() > 0 {
            (None, logs.push((exclusive_text(), contexts)))
        } else {
            match asset_outcome(fp.assets_view(), a@, AssetType::Animation) {
                Err(e) => (None, logs.push((e, contexts))),
                Ok(_) => (Some(AnimationView::External(a@)), logs),
            }
        },
        None => {
            let (ks, l) = keyframes_fold(fp, default_mesh, contexts, (Seq::empty(), logs), keyframes);
            (Some(AnimationView::KeyedInline(sort_keyframes(ks))), l)
        },
    }
}

/// How a puppet layer compiles, reported inside "puppet layer 'NAME'": its parameter must be a
/// readable float; then its animation (see `puppet_animation_spec`).
pub open spec fn puppet_layer_spec(
    fp: FirstPassData,
    d: DeclPuppetLayer,
    logs: Seq<LogView>,
    contexts: Seq<Seq<char>>,
) -> (Option<(Seq<char>, ContentView)>, Seq<LogView>) {
    let inner = contexts.push("puppet layer '"@ + d.name@ + "'"@);
    match query_outcome(
        fp.parameters_view(),
        query_view(reference_query(d.driven_by)),
        ParameterType::Float(0),
        false,
    ) {
        Err(e) => (None, logs.push((e, inner))),
        Ok(q) => {
            let (a, l) = puppet_animation_spec(
                fp,
                d.animation_asset,
                d.keyframes@,
                opt_string(d.default_mesh),
                logs,
                inner,
            );
            match a {
                Some(av) => (Some((d.name@, ContentView::Puppet(q.0, av))), l),
                None => (None, l),
            }
        },
    }
}

fn compile_puppet_animation(
    logger: &mut Logger,
    first_pass: &FirstPassData,
    animation_asset: Option<String>,
    keyframes: Vec<DeclGroupOption>,
    default_mesh: Option<&str>,
) -> (r: Compiled<LayerAnimation>)
    requires
        old(logger).wf(),
        keyframes_well_formed(keyframes@),
    ensures
        final(logger).wf(),
        final(logger).open_contexts() == old(logger).open_contexts(),
        ({
            let (a, logs) = puppet_animation_spec(
                *first_pass,
                animation_asset,
                keyframes@,
                str_opt(default_mesh),
                old(logger).log_view(),
                old(logger).open_contexts(),
            );
            &&& final(logger).log_view() == logs
            &&& match a {
                Some(av) => r matches Some(anim) && animation_view(anim) == av,
                None => r is None,
            }
        }),
{
    match animation_asset {
        Some(asset) => {
            if keyframes.len() > 0 {
                logger.log(Log::LayerOptionMustBeExclusive);
                return failure();
            }
            if first_pass.find_asset(logger, asset.as_str(), AssetType::Animation).is_none() {
                return failure();
            }
            success(LayerAnimation::External(asset))
        },
        None => {
            let sorted = compile_keyframes(logger, first_pass, keyframes, default_mesh);
            let r = LayerAnimation::KeyedInline(sorted);
            proof {
                assert(sorted@.map_values(|k: LayerPuppetKeyframe| (k.value, targets_view(k.targets@)))
                    =~= keyframes_view(sorted@));
            }
            success(r)
        },
    }
}

pub open spec fn puppet_layer_well_formed(d: DeclPuppetLayer) -> bool {
    keyframes_well_formed(d.keyframes@)
}

/// Compiles a puppet layer (see `puppet_layer_spec`).
pub fn compile_puppet_layer(
    logger: &mut Logger,
    first_pass: &FirstPassData,
    decl_puppet_layer: DeclPuppetLayer,
) -> (r: Compiled<Layer>)
    requires
        old(logger).wf(),
        puppet_layer_well_formed(decl_puppet_layer),
    ensures
        final(logger).wf(),
        final(logger).open_contexts() == old(logger).open_contexts(),
        ({
            let (v, logs) = puppet_layer_spec(
                *first_pass,
                decl_puppet_layer,
                old(logger).log_view(),
                old(logger).open_contexts(),
            );
            &&& final(logger).log_view() == logs
            &&& match v {
                Some(lv) => r matches Some(l) && layer_view(l) == lv,
                None => r is None,
            }
        }),
{
    let ghost outer = logger.open_contexts();
    let DeclPuppetLayer { name, driven_by, default_mesh, animation_asset, keyframes } = decl_puppet_layer;
    logger.push_context(concat3("puppet layer '", name.as_str(), "'"));
    let result = match first_pass.find_read_parameter(logger, &driven_by.into_query(), ParameterType::float_type()) {
        Some(q) => {
            let dm = match &default_mesh {
                Some(m) => Some(m.as_str()),
                None => None,
            };
            match compile_puppet_animation(logger, first_pass, animation_asset, keyframes, dm) {
                Some(animation) => success(
                    Layer { name, content: LayerContent::Puppet { parameter: q.name, animation } },
                ),
                None => failure(),
            }
        },
        None => failure(),
    };
    logger.pop_context();
    proof {
        assert(logger.open_contexts() =~= outer);
    }
    result
}

/// Whether keyframes are ordered by position.
pub open spec fn keyframes_sorted(ks: Seq<KeyframeView>) -> bool {
    forall|i: int, j: int| 0 <= i < j < ks.len() ==> total_key(ks[i].0) <= total_key(ks[j].0)
}

proof fn lemma_insert_keyframe(sorted: Seq<KeyframeView>, k: KeyframeView)
    requires
        keyframes_sorted(sorted),
    ensures
        keyframes_sorted(insert_keyframe(sorted, k)),
        insert_keyframe(sorted, k).to_multiset() == sorted.to_multiset().insert(k),
    decreases sorted.len(),
{
    broadcast use vstd::seq_lib::group_to_multiset_ensures;

    if sorted.len() == 0 {
        assert(seq![k] =~= Seq::<KeyframeView>::empty().push(k));
    } else if total_key(k.0) < total_key(sorted.last().0) {
        let init = sorted.drop_last();
        let last = sorted.last();
        lemma_insert_keyframe(init, k);
        let inner = insert_keyframe(init, k);
        assert(init.push(last) =~= sorted);
        assert forall|i: int| 0 <= i < inner.len() implies total_key(inner[i].0) <= total_key(last.0) by {
            assert(inner.to_multiset().count(inner[i]) > 0);
            if inner[i] != k {
                assert(init.to_multiset().count(inner[i]) > 0);
                let m = choose|m: int| 0 <= m < init.len() && init[m] == inner[i];
                assert(sorted[m] == init[m]);
            }
        }
        assert(sorted.to_multiset() == init.to_multiset().insert(last));
    } else {
        assert forall|i: int| 0 <= i < sorted.len() implies total_key(sorted[i].0) <= total_key(k.0) by {
            if i < sorted.len() - 1 {
                assert(total_key(sorted[i].0) <= total_key(sorted[sorted.len() - 1].0));
            }
        }
    }
}

/// Sorting keyframes orders them by position and keeps each of them, as often as it came.
pub proof fn lemma_sort_keyframes(ks: Seq<KeyframeView>)
    ensures
        keyframes_sorted(sort_keyframes(ks)),
        sort_keyframes(ks).to_multiset() == ks.to_multiset(),
    decreases ks.len(),
{
    broadcast use vstd::seq_lib::group_to_multiset_ensures;

    if ks.len() == 0 {
    } else {
        lemma_sort_keyframes(ks.drop_last());
        lemma_insert_keyframe(sort_keyframes(ks.drop_last()), ks.last());
        assert(ks.drop_last().push(ks.last()) =~= ks);
    }
}

proof fn lemma_keyframes_fold_in_range(
    fp: FirstPassData,
    default_mesh: Option<Seq<char>>,
    contexts: Seq<Seq<char>>,
    acc: KeyframesAcc,
    ds: Seq<DeclGroupOption>,
)
    requires
        forall|i: int| 0 <= i < acc.0.len() ==> in_unit_range(#[trigger] acc.0[i].0),
    ensures
        forall|i: int|
            0 <= i < keyframes_fold(fp, default_mesh, contexts, acc, ds).0.len() ==> in_unit_range(
                #[trigger] keyframes_fold(fp, default_mesh, contexts, acc, ds).0[i].0,
            ),
    decreases ds.len(),
{
    if ds.len() > 0 {
        let (o, l) = puppet_option_spec(fp, ds[0], default_mesh, UnsetValue::Active, acc.1, contexts);
        let next = match o {
            None => (acc.0, l),
            Some(k) => if in_unit_range(k.0) {
                (acc.0.push(k), l)
            } else {
                (acc.0, l.push((out_of_range_text(k.0), contexts)))
            },
        };
        assert forall|i: int| 0 <= i < next.0.len() implies in_unit_range(#[trigger] next.0[i].0) by {
            if i < acc.0.len() {
                assert(next.0[i] == acc.0[i]);
            }
        }
        lemma_keyframes_fold_in_range(fp, default_mesh, contexts, next, ds.drop_first());
        assert(keyframes_fold(fp, default_mesh, contexts, acc, ds) == keyframes_fold(
            fp,
            default_mesh,
            contexts,
            next,
            ds.drop_first(),
        ));
    }
}

/// The keyframes of a compiled puppet layer lie in [0, 1] and are ordered by position.
pub proof fn lemma_puppet_keyframes_sorted(
    fp: FirstPassData,
    d: DeclPuppetLayer,
    logs: Seq<LogView>,
    contexts: Seq<Seq<char>>,
)
    ensures
        puppet_layer_spec(fp, d, logs, contexts).0 matches Some(
            (_, ContentView::Puppet(_, AnimationView::KeyedInline(ks))),
        ) ==> keyframes_sorted(ks) && forall|i: int| 0 <= i < ks.len() ==> in_unit_range(#[trigger] ks[i].0),
{
    broadcast use vstd::seq_lib::group_to_multiset_ensures;

    let inner = contexts.push("puppet layer '"@ + d.name@ + "'"@);
    let dm = opt_string(d.default_mesh);
    if d.animation_asset is None {
        let (kept, _) = keyframes_fold(fp, dm, inner, (Seq::empty(), logs), d.keyframes@);
        lemma_keyframes_fold_in_range(fp, dm, inner, (Seq::empty(), logs), d.keyframes@);
        lemma_sort_keyframes(kept);
        let ks = sort_keyframes(kept);
        assert forall|i: int| 0 <= i < ks.len() implies in_unit_range(#[trigger] ks[i].0) by {
            assert(ks.to_multiset().count(ks[i]) > 0);
            assert(kept.to_multiset().count(ks[i]) > 0);
            let m = choose|m: int| 0 <= m < kept.len() && kept[m] == ks[i];
            assert(in_unit_range(kept[m].0));
        }
    }
}

/// A puppet layer keeps its name and is driven by the float parameter it declares; it fails
/// when that parameter cannot be read as a float. With an animation asset it plays that asset,
/// which must be an animation and excludes keyframes; otherwise it plays its keyframes.
pub proof fn lemma_puppet_layer_keeps_its_source(
    fp: FirstPassData,
    d: DeclPuppetLayer,
    logs: Seq<LogView>,
    contexts: Seq<Seq<char>>,
)
    ensures
        ({
            let inner = contexts.push("puppet layer '"@ + d.name@ + "'"@);
            let (r, l) = puppet_layer_spec(fp, d, logs, contexts);
            match query_outcome(
                fp.parameters_view(),
                query_view(reference_query(d.driven_by)),
                ParameterType::Float(0),
                false,
            ) {
                Err(e) => r is None && l == logs.push((e, inner)),
                Ok(q) => match d.animation_asset {
                    Some(a) => if d.keyframes@.len() > 0 {
                        r is None && l == logs.push((exclusive_text(), inner))
                    } else {
                        match asset_outcome(fp.assets_view(), a@, AssetType::Animation) {
                            Err(e) => r is None && l == logs.push((e, inner)),
                            Ok(_) => r == Some((d.name@, ContentView::Puppet(q.0, AnimationView::External(a@))))
                                && l == logs,
                        }
                    },
                    None => r matches Some((n, ContentView::Puppet(p, AnimationView::KeyedInline(_))))
                        && n == d.name@ && p == q.0,
                },
            }
        }),
{
}

} // verus!

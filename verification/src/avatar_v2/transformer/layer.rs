//! Compiles the layers of an avatar's FX controller.
use vstd::prelude::*;
use vstd::string::*;

use crate::avatar_v2::data::asset::AssetType;
use crate::avatar_v2::data::driver::{drive_target, ParameterDrive, TrackingControl, TrackingTarget};
use crate::avatar_v2::data::layer::{
    driving_key, tracking_names, Layer, LayerAnimation, LayerContent, LayerGroupOption,
    LayerPuppetKeyframe, LayerRawState, LayerRawTransition, MaterialValue, Target,
};
use crate::avatar_v2::data::parameter::ParameterType;
use crate::avatar_v2::logger::{Log, LogView, Logger};
use crate::avatar_v2::transformer::driver::{
    compile_parameter_drive, compile_tracking_control, drive_spec, drive_view, DriveView,
};
use crate::avatar_v2::transformer::raw::{raw_state_view, raw_transition_view, RawStateView, RawTransitionView};
use crate::avatar_v2::transformer::{
    asset_outcome, failure, query_outcome, query_view, success, Compiled, FirstPassData, UnsetValue,
    unset_bits, unset_bool, ONE_BITS,
};
use crate::decl_v2::data::{
    reference_query, DeclGroupCopyMode, DeclGroupLayer, DeclGroupOption, DeclGroupOptionKind,
    DeclGroupOptionTarget, DeclMaterialValue,
};
use crate::text::{concat2, concat3, decimal, usize_to_decimal};

verus! {

/// A target with its strings as sequences.
pub enum TargetView {
    Shape(Seq<char>, Seq<char>, u64),
    Object(Seq<char>, bool),
    Material(Seq<char>, usize, Seq<char>),
    MaterialProperty(Seq<char>, Seq<char>, MaterialValue),
    Drive(DriveView),
    Tracking(bool, Seq<TrackingTarget>),
}

pub open spec fn target_view(t: Target) -> TargetView {
    match t {
        Target::Shape { mesh, shape, value } => TargetView::Shape(mesh@, shape@, value),
        Target::Object { object, value } => TargetView::Object(object@, value),
        Target::Material { mesh, index, asset } => TargetView::Material(mesh@, index, asset@),
        Target::MaterialProperty { mesh, property, value } => TargetView::MaterialProperty(
            mesh@,
            property@,
            value,
        ),
        Target::ParameterDrive(pd) => TargetView::Drive(drive_view(pd)),
        Target::TrackingControl(tc) => TargetView::Tracking(tc.animation_desired, tc.targets@),
    }
}

pub open spec fn targets_view(ts: Seq<Target>) -> Seq<TargetView> {
    ts.map_values(|t: Target| target_view(t))
}

pub open spec fn drive_view_target(d: DriveView) -> Seq<char> {
    match d {
        DriveView::SetInt(p, _) => p,
        DriveView::SetFloat(p, _) => p,
        DriveView::SetBool(p, _) => p,
        DriveView::AddInt(p, _) => p,
        DriveView::AddFloat(p, _) => p,
        DriveView::RandomInt(p, _) => p,
        DriveView::RandomFloat(p, _) => p,
        DriveView::RandomBool(p, _) => p,
        DriveView::Copy(_, p) => p,
        DriveView::RangedCopy(_, p, _, _) => p,
    }
}

/// The key of what a target drives (see `driving_key`).
pub open spec fn view_key(v: TargetView) -> Seq<char> {
    match v {
        TargetView::Shape(mesh, shape, _) => "shape://"@ + mesh + "/"@ + shape,
        TargetView::Object(object, _) => "object://"@ + object,
        TargetView::Material(mesh, index, _) => "material://"@ + mesh + "/"@ + decimal(index as nat),
        TargetView::MaterialProperty(mesh, property, _) => "material+prop://"@ + mesh + "/"@ + property,
        TargetView::Drive(d) => "parameter://"@ + drive_view_target(d),
        TargetView::Tracking(_, ts) => "tracking://"@ + tracking_names(ts),
    }
}

pub proof fn lemma_view_key(t: Target)
    ensures
        driving_key(t) == view_key(target_view(t)),
{
    match t {
        Target::ParameterDrive(pd) => {
            assert(drive_target(pd) == drive_view_target(drive_view(pd)));
        },
        _ => {},
    }
}

/// Strings ordered as Rust orders them: lexicographically by character.
pub open spec fn key_lt(a: Seq<char>, b: Seq<char>) -> bool
    decreases a.len(),
{
    if a.len() == 0 {
        b.len() > 0
    } else if b.len() == 0 {
        false
    } else if a[0] != b[0] {
        (a[0] as int) < (b[0] as int)
    } else {
        key_lt(a.drop_first(), b.drop_first())
    }
}

/// Targets by key, in key order.
pub type Keyed = Seq<(Seq<char>, TargetView)>;

/// The targets with `v` under `k`: it replaces the target already under `k`, or comes in
/// where the order of keys puts it.
pub open spec fn keyed_insert(m: Keyed, k: Seq<char>, v: TargetView) -> Keyed
    decreases m.len(),
{
    if m.len() == 0 {
        seq![(k, v)]
    } else if m[0].0 == k {
        seq![(k, v)] + m.drop_first()
    } else if key_lt(k, m[0].0) {
        seq![(k, v)] + m
    } else {
        seq![m[0]] + keyed_insert(m.drop_first(), k, v)
    }
}

/// The targets with each of `vs` inserted under its key, in order.
pub open spec fn keyed_extend(m: Keyed, vs: Seq<TargetView>) -> Keyed
    decreases vs.len(),
{
    if vs.len() == 0 {
        m
    } else {
        keyed_extend(keyed_insert(m, view_key(vs[0]), vs[0]), vs.drop_first())
    }
}

pub open spec fn keyed_values(m: Keyed) -> Seq<TargetView> {
    m.map_values(|e: (Seq<char>, TargetView)| e.1)
}

pub open spec fn mesh_or(mesh: Option<String>, default_mesh: Option<Seq<char>>) -> Option<Seq<char>> {
    match mesh {
        Some(m) => Some(m@),
        None => default_mesh,
    }
}

pub open spec fn material_value(v: DeclMaterialValue) -> MaterialValue {
    match v {
        DeclMaterialValue::Float(f) => MaterialValue::Float(f),
        DeclMaterialValue::Color(c) => MaterialValue::VectorRgba(c),
        DeclMaterialValue::ColorHdr(c) => MaterialValue::VectorXyzw(c),
        DeclMaterialValue::Vector(c) => MaterialValue::VectorXyzw(c),
    }
}

pub open spec fn mesh_missing_text(what: Seq<char>) -> Seq<char> {
    "'"@ + what + "' does not have mesh target"@
}

/// How a declared target compiles: shapes, materials and material properties need a mesh
/// (theirs or the default); a material's asset must be a material; a drive compiles as a
/// drive; a tracking control gives one target for each tracking target.
pub open spec fn target_spec(
    fp: FirstPassData,
    default_mesh: Option<Seq<char>>,
    unset: UnsetValue,
    d: DeclGroupOptionTarget,
) -> Result<Seq<TargetView>, Seq<char>> {
    match d {
        DeclGroupOptionTarget::Shape(st) => match mesh_or(st.mesh, default_mesh) {
            None => Err(mesh_missing_text(st.shape@)),
            Some(mesh) => Ok(
                seq![
                    TargetView::Shape(
                        mesh,
                        st.shape@,
                        match st.value {
                            Some(v) => v,
                            None => unset_bits(unset),
                        },
                    ),
                ],
            ),
        },
        DeclGroupOptionTarget::Object(ot) => Ok(
            seq![
                TargetView::Object(
                    ot.object@,
                    match ot.value {
                        Some(v) => v,
                        None => unset_bool(unset),
                    },
                ),
            ],
        ),
        DeclGroupOptionTarget::Material(mt) => match mesh_or(mt.mesh, default_mesh) {
            None => Err(mesh_missing_text(decimal(mt.index as nat))),
            Some(mesh) => match asset_outcome(fp.assets_view(), mt.value@, AssetType::Material) {
                Err(e) => Err(e),
                Ok(_) => Ok(seq![TargetView::Material(mesh, mt.index, mt.value@)]),
            },
        },
        DeclGroupOptionTarget::MaterialProperty(mp) => match mesh_or(mp.mesh, default_mesh) {
            None => Err(mesh_missing_text(mp.property@)),
            Some(mesh) => Ok(
                seq![TargetView::MaterialProperty(mesh, mp.property@, material_value(mp.value))],
            ),
        },
        DeclGroupOptionTarget::ParameterDrive(pd) => match drive_spec(fp, unset, pd) {
            Err(e) => Err(e),
            Ok(v) => Ok(seq![TargetView::Drive(v)]),
        },
        DeclGroupOptionTarget::TrackingControl(tc) => Ok(
            tc.targets@.map_values(
                |t: TrackingTarget| TargetView::Tracking(tc.animation_desired, seq![t]),
            ),
        ),
    }
}

/// Whether `a` comes before `b` (see `key_lt`).
pub fn key_less(a: &str, b: &str) -> (r: bool)
    ensures
        r == key_lt(a@, b@),
{
    let la = a.unicode_len();
    let lb = b.unicode_len();
    let mut i: usize = 0;
    proof {
        assert(a@.subrange(0, la as int) =~= a@);
        assert(b@.subrange(0, lb as int) =~= b@);
    }
    while i < la && i < lb
        invariant
            i <= la,
            i <= lb,
            la == a@.len(),
            lb == b@.len(),
            key_lt(a@, b@) == key_lt(a@.subrange(i as int, la as int), b@.subrange(i as int, lb as int)),
        decreases la - i,
    {
        let ca = a.get_char(i);
        let cb = b.get_char(i);
        let ghost sa = a@.subrange(i as int, la as int);
        let ghost sb = b@.subrange(i as int, lb as int);
        proof {
            assert(sa[0] == ca);
            assert(sb[0] == cb);
        }
        if ca != cb {
            return (ca as u32) < (cb as u32);
        }
        proof {
            assert(sa.drop_first() =~= a@.subrange(i + 1, la as int));
            assert(sb.drop_first() =~= b@.subrange(i + 1, lb as int));
        }
        i = i + 1;
    }
    i == la && i < lb
}

/// Targets kept by the key of what they drive, in key order; a later target with a key
/// replaces the earlier one.
pub struct KeyedTargets {
    entries: Vec<(String, Target)>,
}

pub open spec fn entries_view(entries: Seq<(String, Target)>) -> Keyed {
    entries.map_values(|e: (String, Target)| (e.0@, target_view(e.1)))
}

proof fn lemma_keyed_insert_split(m: Keyed, i: int, k: Seq<char>, v: TargetView)
    requires
        0 <= i < m.len(),
        m[i].0 != k,
        !key_lt(k, m[i].0),
    ensures
        m.subrange(i, m.len() as int).drop_first() =~= m.subrange(i + 1, m.len() as int),
        keyed_insert(m.subrange(i, m.len() as int), k, v) == seq![m[i]] + keyed_insert(
            m.subrange(i + 1, m.len() as int),
            k,
            v,
        ),
{
    assert(m.subrange(i, m.len() as int).drop_first() =~= m.subrange(i + 1, m.len() as int));
    assert(m.subrange(i, m.len() as int)[0] == m[i]);
}

impl KeyedTargets {
    pub closed spec fn view_entries(&self) -> Keyed {
        entries_view(self.entries@)
    }

    pub fn new() -> (r: KeyedTargets)
        ensures
            r.view_entries() == Seq::<(Seq<char>, TargetView)>::empty(),
    {
        let r = KeyedTargets { entries: Vec::new() };
        proof {
            assert(r.view_entries() =~= Seq::<(Seq<char>, TargetView)>::empty());
        }
        r
    }

    /// Keeps `t` under its key.
    #[verifier::loop_isolation(false)]
    pub fn insert(&mut self, t: Target)
        ensures
            final(self).view_entries() == keyed_insert(
                old(self).view_entries(),
                view_key(target_view(t)),
                target_view(t),
            ),
    {
        let ghost m = self.view_entries();
        let ghost v = target_view(t);
        let key = t.driving_key();
        proof {
            lemma_view_key(t);
        }
        let ghost k = key@;
        let mut i: usize = 0;
        proof {
            assert(m.subrange(0, 0) + keyed_insert(m.subrange(0, m.len() as int), k, v) =~= keyed_insert(
                m,
                k,
                v,
            )) by {
                assert(m.subrange(0, m.len() as int) =~= m);
                assert(m.subrange(0, 0) =~= Seq::<(Seq<char>, TargetView)>::empty());
            }
        }
        while i < self.entries.len()
            invariant
                i <= self.entries@.len(),
                self.entries@ == old(self).entries@,
                m == entries_view(self.entries@),
                k == key@,
                keyed_insert(m, k, v) == m.subrange(0, i as int) + keyed_insert(
                    m.subrange(i as int, m.len() as int),
                    k,
                    v,
                ),
            decreases self.entries@.len() - i,
        {
            let ghost rest = m.subrange(i as int, m.len() as int);
            proof {
                assert(rest[0] == m[i as int]);
                assert(m[i as int] == (self.entries@[i as int].0@, target_view(self.entries@[i as int].1)));
            }
            if crate::avatar::transformer::dependencies::str_equal(self.entries[i].0.as_str(), key.as_str()) {
                self.entries.set(i, (key, t));
                proof {
                    assert(rest.drop_first() =~= m.subrange(i + 1, m.len() as int));
                    assert(self.view_entries() =~= m.subrange(0, i as int) + (seq![(k, v)] + rest.drop_first()));
                }
                return;
            }
            if key_less(key.as_str(), self.entries[i].0.as_str()) {
                self.entries.insert(i, (key, t));
                proof {
                    assert(self.view_entries() =~= m.subrange(0, i as int) + (seq![(k, v)] + rest));
                }
                return;
            }
            proof {
                lemma_keyed_insert_split(m, i as int, k, v);
                assert(m.subrange(0, i + 1) =~= m.subrange(0, i as int).push(m[i as int]));
                assert(m.subrange(0, i as int) + (seq![m[i as int]] + keyed_insert(
                    m.subrange(i + 1, m.len() as int),
                    k,
                    v,
                )) =~= m.subrange(0, i + 1) + keyed_insert(m.subrange(i + 1, m.len() as int), k, v));
            }
            i = i + 1;
        }
        self.entries.push((key, t));
        proof {
            assert(m.subrange(i as int, m.len() as int) =~= Seq::<(Seq<char>, TargetView)>::empty());
            assert(m.subrange(0, i as int) =~= m);
            assert(self.view_entries() =~= m + seq![(k, v)]);
        }
    }

    /// Keeps each target under its key, in order.
    pub fn extend(&mut self, targets: Vec<Target>)
        ensures
            final(self).view_entries() == keyed_extend(old(self).view_entries(), targets_view(targets@)),
    {
        let mut targets = targets;
        let ghost total = keyed_extend(self.view_entries(), targets_view(targets@));
        while targets.len() > 0
            invariant
                total == keyed_extend(self.view_entries(), targets_view(targets@)),
            decreases targets@.len(),
        {
            let ghost before = targets@;
            let t = targets.remove(0);
            proof {
                assert(targets@ =~= before.drop_first());
                assert(targets_view(before).drop_first() =~= targets_view(targets@));
                assert(targets_view(before)[0] == target_view(t));
            }
            self.insert(t);
        }
    }

    /// The targets in key order.
    pub fn into_values(self) -> (r: Vec<Target>)
        ensures
            targets_view(r@) == keyed_values(self.view_entries()),
    {
        let ghost all = self.view_entries();
        let mut entries = self.entries;
        let mut r: Vec<Target> = Vec::new();
        let ghost n = entries@.len();
        proof {
            assert(targets_view(r@) =~= keyed_values(all.subrange(0, 0)));
        }
        while entries.len() > 0
            invariant
                entries@.len() <= n,
                n == all.len(),
                entries_view(entries@) == all.subrange(n - entries@.len(), n as int),
                targets_view(r@) == keyed_values(all.subrange(0, n - entries@.len())),
            decreases entries@.len(),
        {
            let ghost before = entries@;
            let ghost rv = r@;
            let (_, t) = entries.remove(0);
            let ghost j = n - before.len();
            proof {
                assert(entries@ =~= before.drop_first());
                assert(entries_view(before)[0] == all[j]);
                assert(entries_view(before.drop_first()) =~= entries_view(before).drop_first());
                assert(all.subrange(j, n as int).drop_first() =~= all.subrange(j + 1, n as int));
                assert(entries_view(entries@) =~= all.subrange(j + 1, n as int));
            }
            r.push(t);
            proof {
                assert(targets_view(r@) =~= targets_view(rv).push(target_view(t)));
                assert(keyed_values(all.subrange(0, j + 1)) =~= keyed_values(all.subrange(0, j)).push(
                    all[j].1,
                ));
            }
        }
        proof {
            assert(all.subrange(0, n as int) =~= all);
        }
        r
    }
}

pub open spec fn str_opt(s: Option<&str>) -> Option<Seq<char>> {
    match s {
        Some(s) => Some(s@),
        None => None,
    }
}

fn mesh_or_default(mesh: Option<String>, default_mesh: Option<&str>) -> (r: Option<String>)
    ensures
        match mesh_or(mesh, str_opt(default_mesh)) {
            Some(m) => r matches Some(s) && s@ == m,
            None => r is None,
        },
{
    match mesh {
        Some(m) => Some(m),
        None => match default_mesh {
            Some(d) => Some(d.to_owned()),
            None => None,
        },
    }
}

fn tracking_targets(controls: Vec<TrackingControl>, Ghost(animation_desired): Ghost<bool>, Ghost(targets): Ghost<Seq<TrackingTarget>>) -> (r: Vec<Target>)
    requires
        controls@.len() == targets.len(),
        forall|i: int|
            0 <= i < controls@.len() ==> (#[trigger] controls@[i]).animation_desired == animation_desired
                && controls@[i].targets@ == seq![targets[i]],
    ensures
        targets_view(r@) == targets.map_values(
            |t: TrackingTarget| TargetView::Tracking(animation_desired, seq![t]),
        ),
{
    let mut r: Vec<Target> = Vec::new();
    let mut controls = controls;
    let ghost all = controls@;
    let ghost n = controls@.len();
    while controls.len() > 0
        invariant
            controls@.len() <= n,
            n == all.len(),
            controls@ == all.subrange(n - controls@.len(), n as int),
            n == targets.len(),
            forall|i: int|
                0 <= i < all.len() ==> (#[trigger] all[i]).animation_desired == animation_desired
                    && all[i].targets@ == seq![targets[i]],
            targets_view(r@) == targets.subrange(0, n - controls@.len()).map_values(
                |t: TrackingTarget| TargetView::Tracking(animation_desired, seq![t]),
            ),
        decreases controls@.len(),
    {
        let ghost before = r@;
        let ghost k = n - controls@.len();
        let ghost cs = controls@;
        let c = controls.remove(0);
        proof {
            assert(cs[0] == all[k]);
            assert(controls@ =~= all.subrange(k + 1, n as int));
        }
        let t = Target::TrackingControl(c);
        r.push(t);
        proof {
            assert(targets_view(r@) =~= targets_view(before).push(target_view(t)));
            assert(targets.subrange(0, k + 1).map_values(
                |t: TrackingTarget| TargetView::Tracking(animation_desired, seq![t]),
            ) =~= targets.subrange(0, k).map_values(
                |t: TrackingTarget| TargetView::Tracking(animation_desired, seq![t]),
            ).push(TargetView::Tracking(animation_desired, seq![targets[k]])));
        }
    }
    proof {
        assert(targets.subrange(0, n as int) =~= targets);
    }
    r
}

fn single_target(t: Target) -> (r: Vec<Target>)
    ensures
        targets_view(r@) == seq![target_view(t)],
{
    let mut r: Vec<Target> = Vec::new();
    r.push(t);
    proof {
        assert(targets_view(r@) =~= seq![target_view(t)]);
    }
    r
}

/// Compiles a declared target (see `target_spec`); a failure logs one error.
#[verifier::rlimit(30)]
pub fn compile_target(
    logger: &mut Logger,
    first_pass: &FirstPassData,
    default_mesh: Option<&str>,
    unset_value: UnsetValue,
    decl_target: DeclGroupOptionTarget,
) -> (r: Compiled<Vec<Target>>)
    requires
        old(logger).wf(),
    ensures
        final(logger).wf(),
        final(logger).open_contexts() == old(logger).open_contexts(),
        final(logger).log_view() == old(logger).logs_after(
            target_spec(*first_pass, str_opt(default_mesh), unset_value, decl_target),
        ),
        match target_spec(*first_pass, str_opt(default_mesh), unset_value, decl_target) {
            Ok(vs) => r matches Some(ts) && targets_view(ts@) == vs,
            Err(_) => r is None,
        },
{
    let target = match decl_target {
        DeclGroupOptionTarget::Shape(shape_target) => {
            let mesh = match mesh_or_default(shape_target.mesh, default_mesh) {
                Some(m) => m,
                None => {
                    logger.log(Log::LayerIndeterminateShapeChange(shape_target.shape));
                    return failure();
                },
            };
            Target::Shape {
                mesh,
                shape: shape_target.shape,
                value: unset_value.replace_f64(shape_target.value),
            }
        },
        DeclGroupOptionTarget::Object(object_target) => Target::Object {
            object: object_target.object,
            value: unset_value.replace_bool(object_target.value),
        },
        DeclGroupOptionTarget::Material(material_target) => {
            let mesh = match mesh_or_default(material_target.mesh, default_mesh) {
                Some(m) => m,
                None => {
                    logger.log(
                        Log::LayerIndeterminateMaterialChange(usize_to_decimal(material_target.index)),
                    );
                    return failure();
                },
            };
            if first_pass.find_asset(logger, material_target.value.as_str(), AssetType::Material).is_none() {
                return failure();
            }
            Target::Material { mesh, index: material_target.index, asset: material_target.value }
        },
        DeclGroupOptionTarget::MaterialProperty(material_prop_target) => {
            let mesh = match mesh_or_default(material_prop_target.mesh, default_mesh) {
                Some(m) => m,
                None => {
                    logger.log(Log::LayerIndeterminateShapeChange(material_prop_target.property));
                    return failure();
                },
            };
            let value = match material_prop_target.value {
                DeclMaterialValue::Float(v) => MaterialValue::Float(v),
                DeclMaterialValue::Color(v) => MaterialValue::VectorRgba(v),
                DeclMaterialValue::ColorHdr(v) => MaterialValue::VectorXyzw(v),
                DeclMaterialValue::Vector(v) => MaterialValue::VectorXyzw(v),
            };
            Target::MaterialProperty { mesh, property: material_prop_target.property, value }
        },
        DeclGroupOptionTarget::ParameterDrive(parameter_drive) => {
            match compile_parameter_drive(logger, first_pass, unset_value, parameter_drive) {
                Some(pd) => Target::ParameterDrive(pd),
                None => {
                    return failure();
                },
            }
        },
        DeclGroupOptionTarget::TrackingControl(tracking_control) => {
            let ghost desired = tracking_control.animation_desired;
            let ghost declared = tracking_control.targets@;
            let controls = match compile_tracking_control(logger, first_pass, tracking_control) {
                Some(c) => c,
                None => {
                    return failure();
                },
            };
            return success(tracking_targets(controls, Ghost(desired), Ghost(declared)));
        },
    };
    success(single_target(target))
}

/// An animation with its strings as sequences.
pub enum AnimationView {
    Inline(Seq<TargetView>),
    KeyedInline(Seq<(u64, Seq<TargetView>)>),
    External(Seq<char>),
}

pub open spec fn animation_view(a: LayerAnimation) -> AnimationView {
    match a {
        LayerAnimation::Inline(ts) => AnimationView::Inline(targets_view(ts@)),
        LayerAnimation::KeyedInline(ks) => AnimationView::KeyedInline(
            ks@.map_values(|k: LayerPuppetKeyframe| (k.value, targets_view(k.targets@))),
        ),
        LayerAnimation::External(name) => AnimationView::External(name@),
    }
}

pub type KeyedAcc = (Keyed, Seq<LogView>);

/// How the targets of an option compile one after another: each that compiles is kept
/// under its key, a later one replacing an earlier one with the same key.
pub open spec fn option_targets_fold(
    fp: FirstPassData,
    default_mesh: Option<Seq<char>>,
    unset: UnsetValue,
    contexts: Seq<Seq<char>>,
    acc: KeyedAcc,
    ds: Seq<DeclGroupOptionTarget>,
) -> KeyedAcc
    decreases ds.len(),
{
    if ds.len() == 0 {
        acc
    } else {
        let next = match target_spec(fp, default_mesh, unset, ds[0]) {
            Err(e) => (acc.0, acc.1.push((e, contexts))),
            Ok(vs) => (keyed_extend(acc.0, vs), acc.1),
        };
        option_targets_fold(fp, default_mesh, unset, contexts, next, ds.drop_first())
    }
}

pub open spec fn exclusive_text() -> Seq<char> {
    "external animation asset cannot be combined with targets"@
}

/// The animation of an option: an animation asset (which excludes targets and must be an
/// animation), or its targets in key order.
pub open spec fn option_animation_spec(
    fp: FirstPassData,
    o: DeclGroupOption,
    default_mesh: Option<Seq<char>>,
    unset: UnsetValue,
    logs: Seq<LogView>,
    contexts: Seq<Seq<char>>,
) -> (Option<AnimationView>, Seq<LogView>) {
    match o.animation_asset {
        Some(a) => if o.targets@.len() > 0 {
            (None, logs.push((exclusive_text(), contexts)))
        } else {
            match asset_outcome(fp.assets_view(), a@, AssetType::Animation) {
                Err(e) => (None, logs.push((e, contexts))),
                Ok(_) => (Some(AnimationView::External(a@)), logs),
            }
        },
        None => {
            let (m, l) = option_targets_fold(
                fp,
                default_mesh,
                unset,
                contexts,
                (Seq::empty(), logs),
                o.targets@,
            );
            (Some(AnimationView::Inline(keyed_values(m))), l)
        },
    }
}

/// Compiles the targets of an option into their keyed form.
#[verifier::loop_isolation(false)]
fn compile_option_targets(
    logger: &mut Logger,
    first_pass: &FirstPassData,
    default_mesh: Option<&str>,
    unset_value: UnsetValue,
    targets: Vec<DeclGroupOptionTarget>,
) -> (r: Vec<Target>)
    requires
        old(logger).wf(),
    ensures
        final(logger).wf(),
        final(logger).open_contexts() == old(logger).open_contexts(),
        ({
            let (m, logs) = option_targets_fold(
                *first_pass,
                str_opt(default_mesh),
                unset_value,
                old(logger).open_contexts(),
                (Seq::empty(), old(logger).log_view()),
                targets@,
            );
            targets_view(r@) == keyed_values(m) && final(logger).log_view() == logs
        }),
{
    let ghost ctx = logger.open_contexts();
    let mut compiled = KeyedTargets::new();
    let mut targets = targets;
    let ghost total = option_targets_fold(
        *first_pass,
        str_opt(default_mesh),
        unset_value,
        ctx,
        (Seq::empty(), logger.log_view()),
        targets@,
    );
    while targets.len() > 0
        invariant
            logger.wf(),
            logger.open_contexts() == ctx,
            total == option_targets_fold(
                *first_pass,
                str_opt(default_mesh),
                unset_value,
                ctx,
                (compiled.view_entries(), logger.log_view()),
                targets@,
            ),
        decreases targets@.len(),
    {
        let ghost before = targets@;
        let decl_target = targets.remove(0);
        proof {
            assert(targets@ =~= before.drop_first());
        }
        match compile_target(logger, first_pass, default_mesh, unset_value, decl_target) {
            Some(ts) => {
                compiled.extend(ts);
            },
            None => {},
        }
    }
    compiled.into_values()
}

/// Compiles the animation of an option (see `option_animation_spec`).
pub fn compile_option_animation(
    logger: &mut Logger,
    first_pass: &FirstPassData,
    decl_option: DeclGroupOption,
    default_mesh: Option<&str>,
    unset_value: UnsetValue,
) -> (r: Compiled<LayerAnimation>)
    requires
        old(logger).wf(),
    ensures
        final(logger).wf(),
        final(logger).open_contexts() == old(logger).open_contexts(),
        ({
            let (a, logs) = option_animation_spec(
                *first_pass,
                decl_option,
                str_opt(default_mesh),
                unset_value,
                old(logger).log_view(),
                old(logger).open_contexts(),
            );
            &&& final(logger).log_view() == logs
            &&& match a {
                Some(av) => r matches Some(anim) && animation_view(anim) == av,
                None => r is None,
            }
        }),
{
    match decl_option.animation_asset {
        Some(animation_asset) => {
            if decl_option.targets.len() > 0 {
                logger.log(Log::LayerOptionMustBeExclusive);
                return failure();
            }
            if first_pass.find_asset(logger, animation_asset.as_str(), AssetType::Animation).is_none() {
                return failure();
            }
            success(LayerAnimation::External(animation_asset))
        },
        None => {
            let targets = compile_option_targets(
                logger,
                first_pass,
                default_mesh,
                unset_value,
                decl_option.targets,
            );
            success(LayerAnimation::Inline(targets))
        },
    }
}

/// The context a group option is reported in.
pub open spec fn option_context(name: Option<String>) -> Seq<char> {
    match name {
        Some(n) => "option '"@ + n@ + "'"@,
        None => "default option"@,
    }
}

pub open spec fn opt_string(s: Option<String>) -> Option<Seq<char>> {
    match s {
        Some(s) => Some(s@),
        None => None,
    }
}

/// How a group option compiles: its name, its explicit value, and its animation, reported
/// inside `option_context`.
pub open spec fn group_option_spec(
    fp: FirstPassData,
    o: DeclGroupOption,
    default_mesh: Option<Seq<char>>,
    unset: UnsetValue,
    logs: Seq<LogView>,
    contexts: Seq<Seq<char>>,
) -> (Option<(Option<Seq<char>>, Option<usize>, AnimationView)>, Seq<LogView>) {
    match o.kind {
        DeclGroupOptionKind::Selection(name, value) => {
            let (a, l) = option_animation_spec(
                fp,
                o,
                default_mesh,
                unset,
                logs,
                contexts.push(option_context(name)),
            );
            match a {
                Some(av) => (Some((opt_string(name), value, av)), l),
                None => (None, l),
            }
        },
        _ => (None, logs),
    }
}

/// Compiles an option of a group layer (see `group_option_spec`); its kind must be a selection.
pub fn compile_group_option(
    logger: &mut Logger,
    first_pass: &FirstPassData,
    decl_group_option: DeclGroupOption,
    default_mesh: Option<&str>,
    unset_value: UnsetValue,
) -> (r: Compiled<(Option<String>, Option<usize>, LayerAnimation)>)
    requires
        old(logger).wf(),
        decl_group_option.kind is Selection,
    ensures
        final(logger).wf(),
        final(logger).open_contexts() == old(logger).open_contexts(),
        ({
            let (o, logs) = group_option_spec(
                *first_pass,
                decl_group_option,
                str_opt(default_mesh),
                unset_value,
                old(logger).log_view(),
                old(logger).open_contexts(),
            );
            &&& final(logger).log_view() == logs
            &&& match o {
                Some((n, v, av)) => r matches Some((rn, rv, ra)) && opt_string(rn) == n && rv == v
                    && animation_view(ra) == av,
                None => r is None,
            }
        }),
{
    let ghost outer = logger.open_contexts();
    let DeclGroupOption { kind, animation_asset, targets } = decl_group_option;
    let (name, value) = match kind {
        DeclGroupOptionKind::Selection(name, value) => (name, value),
        _ => {
            proof {
                assert(false);
            }
            return failure();
        },
    };
    let context = match &name {
        Some(n) => concat3("option '", n.as_str(), "'"),
        None => String::from_str("default option"),
    };
    proof {
        reveal_strlit("default option");
    }
    logger.push_context(context);
    let animation = compile_option_animation(
        logger,
        first_pass,
        DeclGroupOption { kind: DeclGroupOptionKind::Selection(None, None), animation_asset, targets },
        default_mesh,
        unset_value,
    );
    logger.pop_context();
    proof {
        assert(logger.open_contexts() =~= outer);
    }
    match animation {
        Some(a) => success((name, value, a)),
        None => failure(),
    }
}

/// A group option as its name, value and animation.
pub type GroupOptionView = (Seq<char>, usize, AnimationView);

pub open spec fn group_option_view(o: LayerGroupOption) -> GroupOptionView {
    (o.name@, o.value, animation_view(o.animation))
}

pub open spec fn group_options_view(os: Seq<LayerGroupOption>) -> Seq<GroupOptionView> {
    os.map_values(|o: LayerGroupOption| group_option_view(o))
}

pub type OptionsAcc = (Seq<GroupOptionView>, Seq<LogView>);

/// How the options of a group layer compile, numbered from `index`: an option keeps its
/// explicit value or takes its position counted from one; options without a name, or that
/// fail, are left out.
pub open spec fn group_options_fold(
    fp: FirstPassData,
    default_mesh: Option<Seq<char>>,
    contexts: Seq<Seq<char>>,
    acc: OptionsAcc,
    ds: Seq<DeclGroupOption>,
    index: int,
) -> OptionsAcc
    decreases ds.len(),
{
    if ds.len() == 0 {
        acc
    } else {
        let (o, l) = group_option_spec(fp, ds[0], default_mesh, UnsetValue::Active, acc.1, contexts);
        let options = match o {
            Some((Some(name), explicit, av)) => acc.0.push(
                (
                    name,
                    match explicit {
                        Some(v) => v,
                        None => (index + 1) as usize,
                    },
                    av,
                ),
            ),
            _ => acc.0,
        };
        group_options_fold(fp, default_mesh, contexts, (options, l), ds.drop_first(), index + 1)
    }
}

pub open spec fn zeroed_view(v: TargetView) -> Option<TargetView> {
    match v {
        TargetView::Shape(mesh, shape, _) => Some(TargetView::Shape(mesh, shape, 0)),
        TargetView::Object(object, _) => Some(TargetView::Object(object, false)),
        _ => None,
    }
}

/// Keeps the zero of each target that has one.
pub open spec fn zeroed_fold(m: Keyed, ts: Seq<TargetView>) -> Keyed
    decreases ts.len(),
{
    if ts.len() == 0 {
        m
    } else {
        let next = match zeroed_view(ts[0]) {
            Some(z) => keyed_insert(m, view_key(z), z),
            None => m,
        };
        zeroed_fold(next, ts.drop_first())
    }
}

/// The zeros of the inline targets of every option, in order.
pub open spec fn options_zeroed(m: Keyed, opts: Seq<GroupOptionView>) -> Keyed
    decreases opts.len(),
{
    if opts.len() == 0 {
        m
    } else {
        let next = match opts[0].2 {
            AnimationView::Inline(ts) => zeroed_fold(m, ts),
            _ => m,
        };
        options_zeroed(next, opts.drop_first())
    }
}

/// Each option's targets laid over a copy of the default's; an option that is not inline
/// fails them all.
pub open spec fn copied_to_options(default_targets: Seq<TargetView>, opts: Seq<GroupOptionView>) -> Option<
    Seq<GroupOptionView>,
>
    decreases opts.len(),
{
    if opts.len() == 0 {
        Some(Seq::empty())
    } else {
        match opts[0].2 {
            AnimationView::Inline(ts) => match copied_to_options(default_targets, opts.drop_first()) {
                Some(rest) => Some(
                    seq![
                        (
                            opts[0].0,
                            opts[0].1,
                            AnimationView::Inline(
                                keyed_values(keyed_extend(keyed_extend(Seq::empty(), default_targets), ts)),
                            ),
                        ),
                    ] + rest,
                ),
                None => None,
            },
            _ => None,
        }
    }
}

pub open spec fn invalid_copy_text() -> Seq<char> {
    "group copy mode is invalid"@
}

/// A compiled group layer: its name, parameter, default option and options.
pub type GroupLayerView = (Seq<char>, Seq<char>, GroupOptionView, Seq<GroupOptionView>);

pub open spec fn is_group_layer(l: Layer, v: GroupLayerView) -> bool {
    &&& l.name@ == v.0
    &&& match l.content {
        LayerContent::Group { parameter, default, options } => parameter@ == v.1
            && group_option_view(default) == v.2 && group_options_view(options@) == v.3,
        _ => false,
    }
}

pub open spec fn default_option(av: AnimationView) -> GroupOptionView {
    ("<default>"@, 0usize, av)
}

pub open spec fn options_all_selections(ds: Seq<DeclGroupOption>) -> bool {
    forall|i: int| 0 <= i < ds.len() ==> (#[trigger] ds[i]).kind is Selection
}

pub open spec fn group_layer_well_formed(g: DeclGroupLayer) -> bool {
    &&& (g.default matches Some(d) ==> d.kind is Selection)
    &&& options_all_selections(g.options@)
}

/// How a group layer compiles, reported inside "group layer 'NAME'": its parameter must be a
/// readable int; a default option that compiles without name or value animates the default,
/// which is otherwise empty; then the options; then the copy mode: zeroed copies of the
/// options' targets under the default's, or the default's targets under each option's.
pub open spec fn group_layer_spec(
    fp: FirstPassData,
    g: DeclGroupLayer,
    logs: Seq<LogView>,
    contexts: Seq<Seq<char>>,
) -> (Option<GroupLayerView>, Seq<LogView>) {
    let inner = contexts.push("group layer '"@ + g.name@ + "'"@);
    match query_outcome(
        fp.parameters_view(),
        query_view(reference_query(g.driven_by)),
        ParameterType::Int(0),
        false,
    ) {
        Err(e) => (None, logs.push((e, inner))),
        Ok(q) => {
            let dm = opt_string(g.default_mesh);
            let (default_animation, l1) = match g.default {
                None => (AnimationView::Inline(Seq::empty()), logs),
                Some(d) => {
                    let (o, l) = group_option_spec(fp, d, dm, UnsetValue::Inactive, logs, inner);
                    (
                        match o {
                            Some((None, None, av)) => av,
                            _ => AnimationView::Inline(Seq::empty()),
                        },
                        l,
                    )
                },
            };
            let (opts, l2) = group_options_fold(fp, dm, inner, (Seq::empty(), l1), g.options@, 0);
            match g.copy_mode {
                None => (Some((g.name@, q.0, default_option(default_animation), opts)), l2),
                Some(DeclGroupCopyMode::ToDefaultZeroed) => match default_animation {
                    AnimationView::Inline(dts) => (
                        Some(
                            (
                                g.name@,
                                q.0,
                                default_option(
                                    AnimationView::Inline(
                                        keyed_values(keyed_extend(options_zeroed(Seq::empty(), opts), dts)),
                                    ),
                                ),
                                opts,
                            ),
                        ),
                        l2,
                    ),
                    _ => (None, l2.push((invalid_copy_text(), inner))),
                },
                Some(DeclGroupCopyMode::ToOption) => match default_animation {
                    AnimationView::Inline(dts) => match copied_to_options(dts, opts) {
                        Some(copied) => (
                            Some((g.name@, q.0, default_option(default_animation), copied)),
                            l2,
                        ),
                        None => (None, l2),
                    },
                    _ => (None, l2.push((invalid_copy_text(), inner))),
                },
                Some(DeclGroupCopyMode::MutualZeroed) => (None, l2.push((invalid_copy_text(), inner))),
            }
        },
    }
}

} // verus!

verus! {

#[verifier::loop_isolation(false)]
fn compile_group_options(
    logger: &mut Logger,
    first_pass: &FirstPassData,
    default_mesh: Option<&str>,
    decl_options: Vec<DeclGroupOption>,
) -> (r: Vec<LayerGroupOption>)
    requires
        old(logger).wf(),
        options_all_selections(decl_options@),
    ensures
        final(logger).wf(),
        final(logger).open_contexts() == old(logger).open_contexts(),
        ({
            let (opts, logs) = group_options_fold(
                *first_pass,
                str_opt(default_mesh),
                old(logger).open_contexts(),
                (Seq::empty(), old(logger).log_view()),
                decl_options@,
                0,
            );
            group_options_view(r@) == opts && final(logger).log_view() == logs
        }),
{
    let ghost ctx = logger.open_contexts();
    let count = decl_options.len();
    let ghost n = decl_options@.len();
    let mut options: Vec<LayerGroupOption> = Vec::new();
    let mut remaining = decl_options;
    let mut index: usize = 0;
    let ghost total = group_options_fold(
        *first_pass,
        str_opt(default_mesh),
        ctx,
        (Seq::empty(), logger.log_view()),
        remaining@,
        0,
    );
    proof {
        assert(group_options_view(options@) =~= Seq::<GroupOptionView>::empty());
    }
    while remaining.len() > 0
        invariant
            logger.wf(),
            logger.open_contexts() == ctx,
            index + remaining@.len() == n,
            n == decl_options@.len(),
            n == count,
            options_all_selections(remaining@),
            total == group_options_fold(
                *first_pass,
                str_opt(default_mesh),
                ctx,
                (group_options_view(options@), logger.log_view()),
                remaining@,
                index as int,
            ),
        decreases remaining@.len(),
    {
        let ghost before = remaining@;
        let ghost views_before = group_options_view(options@);
        let decl_option = remaining.remove(0);
        proof {
            assert(remaining@ =~= before.drop_first());
            assert(before[0].kind is Selection);
        }
        match compile_group_option(logger, first_pass, decl_option, default_mesh, UnsetValue::Active) {
            Some((Some(name), explicit_index, animation)) => {
                let value = match explicit_index {
                    Some(v) => v,
                    None => index + 1,
                };
                let option = LayerGroupOption { name, value, animation };
                options.push(option);
                proof {
                    assert(group_options_view(options@) =~= views_before.push(group_option_view(option)));
                }
            },
            _ => {},
        }
        index = index + 1;
    }
    options
}

fn clone_targets(ts: &Vec<Target>) -> (r: Vec<Target>)
    ensures
        targets_view(r@) == targets_view(ts@),
{
    let mut r: Vec<Target> = Vec::new();
    let mut i: usize = 0;
    while i < ts.len()
        invariant
            i <= ts@.len(),
            targets_view(r@) == targets_view(ts@.subrange(0, i as int)),
        decreases ts@.len() - i,
    {
        let ghost before = r@;
        let t = ts[i].clone();
        proof {
            assert(target_view(t) == target_view(ts@[i as int]));
        }
        r.push(t);
        proof {
            assert(targets_view(r@) =~= targets_view(before).push(target_view(t)));
            assert(targets_view(ts@.subrange(0, i + 1)) =~= targets_view(ts@.subrange(0, i as int)).push(
                target_view(ts@[i as int]),
            ));
        }
        i = i + 1;
    }
    proof {
        assert(ts@.subrange(0, ts@.len() as int) =~= ts@);
    }
    r
}

/// The zeros of the options' inline targets, laid under the default targets.
fn zeroed_defaults(default_targets: Vec<Target>, options: &Vec<LayerGroupOption>) -> (r: Vec<Target>)
    ensures
        targets_view(r@) == keyed_values(
            keyed_extend(options_zeroed(Seq::empty(), group_options_view(options@)), targets_view(default_targets@)),
        ),
{
    let mut zeroed = KeyedTargets::new();
    let ghost opts = group_options_view(options@);
    let mut i: usize = 0;
    proof {
        assert(opts.subrange(0, opts.len() as int) =~= opts);
    }
    while i < options.len()
        invariant
            i <= options@.len(),
            opts == group_options_view(options@),
            options_zeroed(Seq::empty(), opts) == options_zeroed(
                zeroed.view_entries(),
                opts.subrange(i as int, opts.len() as int),
            ),
        decreases options@.len() - i,
    {
        let ghost rest = opts.subrange(i as int, opts.len() as int);
        proof {
            assert(rest[0] == group_option_view(options@[i as int]));
            assert(rest.drop_first() =~= opts.subrange(i + 1, opts.len() as int));
        }
        match &options[i].animation {
            LayerAnimation::Inline(targets) => {
                let ghost tv = targets_view(targets@);
                let mut k: usize = 0;
                proof {
                    assert(tv.subrange(0, tv.len() as int) =~= tv);
                }
                while k < targets.len()
                    invariant
                        k <= targets@.len(),
                        tv == targets_view(targets@),
                        options_zeroed(Seq::empty(), opts) == options_zeroed(
                            zeroed_fold(zeroed.view_entries(), tv.subrange(k as int, tv.len() as int)),
                            opts.subrange(i + 1, opts.len() as int),
                        ),
                    decreases targets@.len() - k,
                {
                    let ghost sub = tv.subrange(k as int, tv.len() as int);
                    proof {
                        assert(sub[0] == target_view(targets@[k as int]));
                        assert(sub.drop_first() =~= tv.subrange(k + 1, tv.len() as int));
                    }
                    match targets[k].clone_as_zeroed() {
                        Some(z) => {
                            proof {
                                assert(zeroed_view(sub[0]) == Some(target_view(z)));
                            }
                            zeroed.insert(z);
                        },
                        None => {},
                    }
                    k = k + 1;
                }
                proof {
                    assert(tv.subrange(tv.len() as int, tv.len() as int) =~= Seq::<TargetView>::empty());
                }
            },
            _ => {},
        }
        i = i + 1;
    }
    proof {
        assert(opts.subrange(opts.len() as int, opts.len() as int) =~= Seq::<GroupOptionView>::empty());
    }
    zeroed.extend(default_targets);
    zeroed.into_values()
}

/// Each option's targets laid over a copy of the default targets; `None` where an option
/// is not inline.
fn copy_to_options(default_targets: &Vec<Target>, options: Vec<LayerGroupOption>) -> (r: Option<
    Vec<LayerGroupOption>,
>)
    ensures
        match copied_to_options(targets_view(default_targets@), group_options_view(options@)) {
            Some(copied) => r matches Some(v) && group_options_view(v@) == copied,
            None => r is None,
        },
    decreases options@.len(),
{
    let ghost all = group_options_view(options@);
    let ghost dts = targets_view(default_targets@);
    if options.len() == 0 {
        let r: Vec<LayerGroupOption> = Vec::new();
        proof {
            assert(group_options_view(r@) =~= Seq::<GroupOptionView>::empty());
        }
        return Some(r);
    }
    let ghost whole = options@;
    let mut options = options;
    let option = options.remove(0);
    proof {
        assert(options@ =~= whole.drop_first());
        assert(all[0] == group_option_view(option));
        assert(all.drop_first() =~= group_options_view(options@));
    }
    let LayerGroupOption { name, value, animation } = option;
    let option_targets = match animation {
        LayerAnimation::Inline(ts) => ts,
        _ => {
            return None;
        },
    };
    let rest = match copy_to_options(default_targets, options) {
        Some(rest) => rest,
        None => {
            return None;
        },
    };
    let mut new_targets = KeyedTargets::new();
    new_targets.extend(clone_targets(default_targets));
    new_targets.extend(option_targets);
    let copied = LayerGroupOption {
        name,
        value,
        animation: LayerAnimation::Inline(new_targets.into_values()),
    };
    let ghost rest_view = rest@;
    let mut r: Vec<LayerGroupOption> = Vec::new();
    r.push(copied);
    let mut rest = rest;
    r.append(&mut rest);
    proof {
        assert(r@ =~= seq![copied] + rest_view);
        assert(group_options_view(r@) =~= seq![group_option_view(copied)] + group_options_view(rest_view));
    }
    Some(r)
}

pub fn empty_inline() -> (r: LayerAnimation)
    ensures
        animation_view(r) == AnimationView::Inline(Seq::empty()),
{
    let r = LayerAnimation::Inline(Vec::new());
    proof {
        assert(targets_view(Seq::<Target>::empty()) =~= Seq::<TargetView>::empty());
    }
    r
}

fn default_group_option(animation: LayerAnimation) -> (r: LayerGroupOption)
    ensures
        group_option_view(r) == default_option(animation_view(animation)),
{
    let name = String::from_str("<default>");
    proof {
        reveal_strlit("<default>");
    }
    LayerGroupOption { name, value: 0, animation }
}

/// Compiles a group layer (see `group_layer_spec`).
#[verifier::rlimit(60)]
pub fn compile_group_layer(
    logger: &mut Logger,
    first_pass: &FirstPassData,
    decl_group_layer: DeclGroupLayer,
) -> (r: Compiled<Layer>)
    requires
        old(logger).wf(),
        group_layer_well_formed(decl_group_layer),
    ensures
        final(logger).wf(),
        final(logger).open_contexts() == old(logger).open_contexts(),
        ({
            let (v, logs) = group_layer_spec(
                *first_pass,
                decl_group_layer,
                old(logger).log_view(),
                old(logger).open_contexts(),
            );
            &&& final(logger).log_view() == logs
            &&& match v {
                Some(gv) => r matches Some(l) && is_group_layer(l, gv),
                None => r is None,
            }
        }),
{
    let ghost outer = logger.open_contexts();
    let DeclGroupLayer { name, driven_by, default_mesh, copy_mode, default, options } = decl_group_layer;
    logger.push_context(concat3("group layer '", name.as_str(), "'"));
    let query = driven_by.into_query();
    let qualified = match first_pass.find_read_parameter(logger, &query, ParameterType::int_type()) {
        Some(q) => q,
        None => {
            logger.pop_context();
            proof {
                assert(logger.open_contexts() =~= outer);
            }
            return failure();
        },
    };
    let default_mesh_ref: Option<&str> = match &default_mesh {
        Some(m) => Some(m.as_str()),
        None => None,
    };
    proof {
        assert(str_opt(default_mesh_ref) == opt_string(default_mesh));
    }
    let default_animation = match default {
        Some(d) => match compile_group_option(logger, first_pass, d, default_mesh_ref, UnsetValue::Inactive) {
            Some((None, None, a)) => a,
            _ => empty_inline(),
        },
        None => empty_inline(),
    };
    let options = compile_group_options(logger, first_pass, default_mesh_ref, options);
    let (default_animation, options) = match copy_mode {
        None => (default_animation, options),
        Some(DeclGroupCopyMode::ToDefaultZeroed) => match default_animation {
            LayerAnimation::Inline(default_targets) => {
                let zeroed = zeroed_defaults(default_targets, &options);
                (LayerAnimation::Inline(zeroed), options)
            },
            _ => {
                logger.log(Log::LayerGroupInvalidCopy);
                logger.pop_context();
                proof {
                    assert(logger.open_contexts() =~= outer);
                }
                return failure();
            },
        },
        Some(DeclGroupCopyMode::ToOption) => match default_animation {
            LayerAnimation::Inline(default_targets) => {
                match copy_to_options(&default_targets, options) {
                    Some(copied) => (LayerAnimation::Inline(default_targets), copied),
                    None => {
                        logger.pop_context();
                        proof {
                            assert(logger.open_contexts() =~= outer);
                        }
                        return failure();
                    },
                }
            },
            _ => {
                logger.log(Log::LayerGroupInvalidCopy);
                logger.pop_context();
                proof {
                    assert(logger.open_contexts() =~= outer);
                }
                return failure();
            },
        },
        Some(DeclGroupCopyMode::MutualZeroed) => {
            logger.log(Log::LayerGroupInvalidCopy);
            logger.pop_context();
            proof {
                assert(logger.open_contexts() =~= outer);
            }
            return failure();
        },
    };
    logger.pop_context();
    proof {
        assert(logger.open_contexts() =~= outer);
    }
    success(
        Layer {
            name,
            content: LayerContent::Group {
                parameter: qualified.name,
                default: default_group_option(default_animation),
                options,
            },
        },
    )
}

/// Keys in strictly increasing order: one target per key.
pub open spec fn sorted_keys(m: Keyed) -> bool {
    forall|i: int, j: int| 0 <= i < j < m.len() ==> key_lt(#[trigger] m[i].0, #[trigger] m[j].0)
}

/// No key comes before itself.
pub proof fn lemma_key_lt_irreflexive(a: Seq<char>)
    ensures
        !key_lt(a, a),
    decreases a.len(),
{
    if a.len() > 0 {
        lemma_key_lt_irreflexive(a.drop_first());
    }
}

/// The key order is transitive.
pub proof fn lemma_key_lt_transitive(a: Seq<char>, b: Seq<char>, c: Seq<char>)
    requires
        key_lt(a, b),
        key_lt(b, c),
    ensures
        key_lt(a, c),
    decreases a.len(),
{
    if a.len() > 0 && b.len() > 0 && c.len() > 0 {
        if a[0] == b[0] && b[0] == c[0] {
            lemma_key_lt_transitive(a.drop_first(), b.drop_first(), c.drop_first());
        }
    }
}

/// Two different keys are ordered one way or the other.
pub proof fn lemma_key_lt_total(a: Seq<char>, b: Seq<char>)
    requires
        a != b,
    ensures
        key_lt(a, b) || key_lt(b, a),
    decreases a.len(),
{
    if a.len() > 0 && b.len() > 0 && a[0] == b[0] {
        if a.drop_first() == b.drop_first() {
            assert(a =~= seq![a[0]] + a.drop_first());
            assert(b =~= seq![b[0]] + b.drop_first());
        }
        lemma_key_lt_total(a.drop_first(), b.drop_first());
    } else if a.len() == 0 && b.len() == 0 {
        assert(a =~= b);
    } else if a.len() > 0 && b.len() > 0 {
        assert(a[0] != b[0]);
        assert((a[0] as int) != (b[0] as int));
    }
}

/// Keeping a target under its key keeps the targets in strict key order, holds the new target
/// under its key, and keeps every target with another key.
pub proof fn lemma_keyed_insert_sorted(m: Keyed, k: Seq<char>, v: TargetView)
    requires
        sorted_keys(m),
    ensures
        sorted_keys(keyed_insert(m, k, v)),
        keyed_insert(m, k, v).contains((k, v)),
        forall|j: int| 0 <= j < m.len() && m[j].0 != k ==> keyed_insert(m, k, v).contains(#[trigger] m[j]),
        forall|i: int|
            0 <= i < keyed_insert(m, k, v).len() ==> (#[trigger] keyed_insert(m, k, v)[i]).0 == k
                || m.contains(keyed_insert(m, k, v)[i]),
    decreases m.len(),
{
    let r = keyed_insert(m, k, v);
    if m.len() == 0 {
        assert(r[0] == (k, v));
        assert(r.drop_first().len() == 0);
    } else if m[0].0 == k {
        assert(r[0] == (k, v));
        assert forall|i: int, j: int| 0 <= i < j < r.len() implies key_lt(#[trigger] r[i].0, #[trigger] r[j].0) by {
            assert(r[j] == m[j]);
            if i > 0 {
                assert(r[i] == m[i]);
            }
        }
        assert forall|j: int| 0 <= j < m.len() && m[j].0 != k implies r.contains(#[trigger] m[j]) by {
            assert(r[j] == m[j]);
        }
        assert forall|i: int| 0 <= i < r.len() implies (#[trigger] r[i]).0 == k || m.contains(r[i]) by {
            if i > 0 {
                assert(r[i] == m[i]);
            }
        }
    } else if key_lt(k, m[0].0) {
        assert(r[0] == (k, v));
        assert forall|i: int, j: int| 0 <= i < j < r.len() implies key_lt(#[trigger] r[i].0, #[trigger] r[j].0) by {
            assert(r[j] == m[j - 1]);
            if i > 0 {
                assert(r[i] == m[i - 1]);
            } else if j > 1 {
                lemma_key_lt_transitive(k, m[0].0, m[j - 1].0);
            }
        }
        assert forall|j: int| 0 <= j < m.len() && m[j].0 != k implies r.contains(#[trigger] m[j]) by {
            assert(r[j + 1] == m[j]);
        }
        assert forall|i: int| 0 <= i < r.len() implies (#[trigger] r[i]).0 == k || m.contains(r[i]) by {
            if i > 0 {
                assert(r[i] == m[i - 1]);
            }
        }
    } else {
        let tail = m.drop_first();
        assert(sorted_keys(tail)) by {
            assert forall|i: int, j: int| 0 <= i < j < tail.len() implies key_lt(#[trigger] tail[i].0, #[trigger] tail[j].0) by {
                assert(tail[i] == m[i + 1]);
                assert(tail[j] == m[j + 1]);
            }
        }
        lemma_keyed_insert_sorted(tail, k, v);
        let rt = keyed_insert(tail, k, v);
        assert(r == seq![m[0]] + rt);
        lemma_key_lt_total(k, m[0].0);
        assert forall|i: int| 0 <= i < rt.len() implies key_lt(m[0].0, (#[trigger] rt[i]).0) by {
            if rt[i].0 == k {
            } else {
                assert(tail.contains(rt[i]));
                let j = choose|j: int| 0 <= j < tail.len() && tail[j] == rt[i];
                assert(tail[j] == m[j + 1]);
            }
        }
        assert forall|i: int, j: int| 0 <= i < j < r.len() implies key_lt(#[trigger] r[i].0, #[trigger] r[j].0) by {
            assert(r[j] == rt[j - 1]);
            if i > 0 {
                assert(r[i] == rt[i - 1]);
            }
        }
        let (kk, vv) = (k, v);
        assert(rt.contains((kk, vv)));
        let p = choose|p: int| 0 <= p < rt.len() && rt[p] == (kk, vv);
        assert(r[p + 1] == (k, v));
        assert forall|j: int| 0 <= j < m.len() && m[j].0 != k implies r.contains(#[trigger] m[j]) by {
            if j == 0 {
                assert(r[0] == m[0]);
            } else {
                assert(tail[j - 1] == m[j]);
                assert(rt.contains(tail[j - 1]));
                let q = choose|q: int| 0 <= q < rt.len() && rt[q] == tail[j - 1];
                assert(r[q + 1] == m[j]);
            }
        }
        assert forall|i: int| 0 <= i < r.len() implies (#[trigger] r[i]).0 == k || m.contains(r[i]) by {
            if i == 0 {
                assert(m[0] == r[0]);
            } else {
                assert(r[i] == rt[i - 1]);
                if rt[i - 1].0 != k {
                    assert(tail.contains(rt[i - 1]));
                    let q = choose|q: int| 0 <= q < tail.len() && tail[q] == rt[i - 1];
                    assert(m[q + 1] == tail[q]);
                }
            }
        }
    }
}

/// Keeping several targets keeps strict key order.
pub proof fn lemma_keyed_extend_sorted(m: Keyed, vs: Seq<TargetView>)
    requires
        sorted_keys(m),
    ensures
        sorted_keys(keyed_extend(m, vs)),
    decreases vs.len(),
{
    if vs.len() > 0 {
        lemma_keyed_insert_sorted(m, view_key(vs[0]), vs[0]);
        lemma_keyed_extend_sorted(keyed_insert(m, view_key(vs[0]), vs[0]), vs.drop_first());
    }
}

/// The targets of a compiled option come in strict key order: each thing is driven once.
pub proof fn lemma_option_targets_sorted(
    fp: FirstPassData,
    default_mesh: Option<Seq<char>>,
    unset: UnsetValue,
    contexts: Seq<Seq<char>>,
    acc: KeyedAcc,
    ds: Seq<DeclGroupOptionTarget>,
)
    requires
        sorted_keys(acc.0),
    ensures
        sorted_keys(option_targets_fold(fp, default_mesh, unset, contexts, acc, ds).0),
    decreases ds.len(),
{
    if ds.len() > 0 {
        let next = match target_spec(fp, default_mesh, unset, ds[0]) {
            Err(e) => (acc.0, acc.1.push((e, contexts))),
            Ok(vs) => (keyed_extend(acc.0, vs), acc.1),
        };
        match target_spec(fp, default_mesh, unset, ds[0]) {
            Ok(vs) => lemma_keyed_extend_sorted(acc.0, vs),
            Err(_) => {},
        }
        lemma_option_targets_sorted(fp, default_mesh, unset, contexts, next, ds.drop_first());
    }
}

/// What a compiled layer holds, with its strings as sequences.
pub enum ContentView {
    Group(Seq<char>, GroupOptionView, Seq<GroupOptionView>),
    Switch(Seq<char>, AnimationView, AnimationView),
    Puppet(Seq<char>, AnimationView),
    SwitchGate(Seq<char>, AnimationView, AnimationView),
    Raw(usize, Seq<RawStateView>, Seq<RawTransitionView>),
}

/// A compiled layer as its name and content.
pub open spec fn layer_view(l: Layer) -> (Seq<char>, ContentView) {
    (
        l.name@,
        match l.content {
            LayerContent::Group { parameter, default, options } => ContentView::Group(
                parameter@,
                group_option_view(default),
                group_options_view(options@),
            ),
            LayerContent::Switch { parameter, disabled, enabled } => ContentView::Switch(
                parameter@,
                animation_view(disabled),
                animation_view(enabled),
            ),
            LayerContent::Puppet { parameter, animation } => ContentView::Puppet(
                parameter@,
                animation_view(animation),
            ),
            LayerContent::SwitchGate { gate, disabled, enabled } => ContentView::SwitchGate(
                gate@,
                animation_view(disabled),
                animation_view(enabled),
            ),
            LayerContent::Raw { default_index, states, transitions } => ContentView::Raw(
                default_index,
                states@.map_values(|s: LayerRawState| raw_state_view(s)),
                transitions@.map_values(|t: LayerRawTransition| raw_transition_view(t)),
            ),
        },
    )
}

/// A group layer's view as a layer's view.
pub proof fn lemma_group_layer_view(l: Layer, v: GroupLayerView)
    ensures
        is_group_layer(l, v) <==> layer_view(l) == (v.0, ContentView::Group(v.1, v.2, v.3)),
{
}


/// The target kept under `k`, if any.
pub open spec fn keyed_lookup(m: Keyed, k: Seq<char>) -> Option<TargetView>
    decreases m.len(),
{
    if m.len() == 0 {
        None
    } else if m[0].0 == k {
        Some(m[0].1)
    } else {
        keyed_lookup(m.drop_first(), k)
    }
}

/// The last of `vs` whose key is `k`, if any.
pub open spec fn last_with_key(vs: Seq<TargetView>, k: Seq<char>) -> Option<TargetView>
    decreases vs.len(),
{
    if vs.len() == 0 {
        None
    } else {
        match last_with_key(vs.drop_first(), k) {
            Some(v) => Some(v),
            None => if view_key(vs[0]) == k {
                Some(vs[0])
            } else {
                None
            },
        }
    }
}

/// `first` where there is one, else `fallback`.
pub open spec fn overridden(first: Option<TargetView>, fallback: Option<TargetView>) -> Option<TargetView> {
    match first {
        Some(v) => Some(v),
        None => fallback,
    }
}

/// Keeping `v` under `k` makes it what `k` finds and leaves every other key as it was.
pub proof fn lemma_keyed_insert_lookup(m: Keyed, k: Seq<char>, v: TargetView, other: Seq<char>)
    ensures
        keyed_lookup(keyed_insert(m, k, v), other) == if other == k {
            Some(v)
        } else {
            keyed_lookup(m, other)
        },
    decreases m.len(),
{
    let r = keyed_insert(m, k, v);
    if m.len() == 0 {
        assert(r[0] == (k, v));
        assert(keyed_lookup(r.drop_first(), other) is None);
    } else if m[0].0 == k {
        assert(r[0] == (k, v));
        assert(r.drop_first() =~= m.drop_first());
    } else if key_lt(k, m[0].0) {
        assert(r[0] == (k, v));
        assert(r.drop_first() =~= m);
    } else {
        lemma_keyed_insert_lookup(m.drop_first(), k, v, other);
        assert(r[0] == m[0]);
        assert(r.drop_first() =~= keyed_insert(m.drop_first(), k, v));
    }
}

/// Laying targets over kept ones: under every key the last of the new targets with that key
/// stands, and where none has it, what was kept before.
pub proof fn lemma_keyed_extend_lookup(m: Keyed, vs: Seq<TargetView>, k: Seq<char>)
    ensures
        keyed_lookup(keyed_extend(m, vs), k) == overridden(last_with_key(vs, k), keyed_lookup(m, k)),
    decreases vs.len(),
{
    if vs.len() > 0 {
        lemma_keyed_insert_lookup(m, view_key(vs[0]), vs[0], k);
        lemma_keyed_extend_lookup(keyed_insert(m, view_key(vs[0]), vs[0]), vs.drop_first(), k);
    }
}

/// What a key finds is among the kept targets.
pub proof fn lemma_keyed_lookup_in_values(m: Keyed, k: Seq<char>)
    ensures
        keyed_lookup(m, k) matches Some(v) ==> keyed_values(m).contains(v),
    decreases m.len(),
{
    if m.len() > 0 {
        if m[0].0 == k {
            assert(keyed_values(m)[0] == m[0].1);
        } else {
            lemma_keyed_lookup_in_values(m.drop_first(), k);
            if keyed_lookup(m, k) is Some {
                let v = keyed_lookup(m, k)->0;
                let p = choose|p: int| 0 <= p < keyed_values(m.drop_first()).len()
                    && keyed_values(m.drop_first())[p] == v;
                assert(keyed_values(m)[p + 1] == v);
            }
        }
    }
}

/// In the copy mode that lays the default under each option, every option keeps its name and
/// value, and under every key it animates its own last target with that key, or else the
/// default's: an option overrides the default and misses nothing of it.
pub proof fn lemma_copied_options_override(
    default_targets: Seq<TargetView>,
    opts: Seq<GroupOptionView>,
    i: int,
    k: Seq<char>,
)
    requires
        copied_to_options(default_targets, opts) is Some,
        0 <= i < opts.len(),
    ensures
        copied_to_options(default_targets, opts)->0.len() == opts.len(),
        ({
            let copied = copied_to_options(default_targets, opts)->0[i];
            &&& copied.0 == opts[i].0
            &&& copied.1 == opts[i].1
            &&& opts[i].2 matches AnimationView::Inline(own) && copied.2 == AnimationView::Inline(
                keyed_values(keyed_extend(keyed_extend(Seq::empty(), default_targets), own)),
            ) && keyed_lookup(keyed_extend(keyed_extend(Seq::empty(), default_targets), own), k)
                == overridden(last_with_key(own, k), last_with_key(default_targets, k))
        }),
    decreases opts.len(),
{
    let rest = copied_to_options(default_targets, opts.drop_first());
    if i == 0 {
        if let AnimationView::Inline(own) = opts[0].2 {
            lemma_keyed_extend_lookup(keyed_extend(Seq::empty(), default_targets), own, k);
            lemma_keyed_extend_lookup(Seq::empty(), default_targets, k);
        }
        if opts.len() > 1 {
            lemma_copied_options_override(default_targets, opts.drop_first(), 0, k);
        }
    } else {
        lemma_copied_options_override(default_targets, opts.drop_first(), i - 1, k);
    }
}


/// Whether the option's `j`-th inline target has a zero, under key `k`.
pub open spec fn zeroes_under(o: GroupOptionView, j: int, k: Seq<char>) -> bool {
    &&& o.2 matches AnimationView::Inline(ts)
    &&& 0 <= j < ts.len()
    &&& zeroed_view(ts[j]) is Some
    &&& view_key(ts[j]) == k
}

proof fn lemma_zeroed_fold_lookup(m: Keyed, ts: Seq<TargetView>, k: Seq<char>)
    ensures
        keyed_lookup(m, k) is Some ==> keyed_lookup(zeroed_fold(m, ts), k) is Some,
        keyed_lookup(zeroed_fold(m, ts), k) matches Some(z) ==> keyed_lookup(m, k) == Some(z) || (
        zeroed_view(z) == Some(z) && view_key(z) == k),
        forall|j: int|
            0 <= j < ts.len() && zeroed_view(#[trigger] ts[j]) is Some && view_key(ts[j]) == k
                ==> keyed_lookup(zeroed_fold(m, ts), k) is Some,
    decreases ts.len(),
{
    if ts.len() > 0 {
        let next = match zeroed_view(ts[0]) {
            Some(z) => keyed_insert(m, view_key(z), z),
            None => m,
        };
        if let Some(z) = zeroed_view(ts[0]) {
            lemma_keyed_insert_lookup(m, view_key(z), z, k);
            assert(view_key(z) == view_key(ts[0]));
        }
        lemma_zeroed_fold_lookup(next, ts.drop_first(), k);
        assert forall|j: int|
            0 <= j < ts.len() && zeroed_view(#[trigger] ts[j]) is Some && view_key(ts[j]) == k implies keyed_lookup(
            zeroed_fold(m, ts),
            k,
        ) is Some by {
            if j > 0 {
                assert(ts.drop_first()[j - 1] == ts[j]);
            }
        }
    }
}

proof fn lemma_options_zeroed_lookup(m: Keyed, opts: Seq<GroupOptionView>, k: Seq<char>)
    ensures
        keyed_lookup(m, k) is Some ==> keyed_lookup(options_zeroed(m, opts), k) is Some,
        keyed_lookup(options_zeroed(m, opts), k) matches Some(z) ==> keyed_lookup(m, k) == Some(z) || (
        zeroed_view(z) == Some(z) && view_key(z) == k),
        forall|i: int, j: int|
            0 <= i < opts.len() && #[trigger] zeroes_under(opts[i], j, k) ==> keyed_lookup(
                options_zeroed(m, opts),
                k,
            ) is Some,
    decreases opts.len(),
{
    if opts.len() > 0 {
        let next = match opts[0].2 {
            AnimationView::Inline(ts) => zeroed_fold(m, ts),
            _ => m,
        };
        if let AnimationView::Inline(ts) = opts[0].2 {
            lemma_zeroed_fold_lookup(m, ts, k);
        }
        lemma_options_zeroed_lookup(next, opts.drop_first(), k);
        assert forall|i: int, j: int|
            0 <= i < opts.len() && #[trigger] zeroes_under(opts[i], j, k) implies keyed_lookup(
            options_zeroed(m, opts),
            k,
        ) is Some by {
            if i > 0 {
                assert(opts.drop_first()[i - 1] == opts[i]);
            } else {
                let ts = opts[0].2->Inline_0;
                assert(zeroed_view(ts[j]) is Some);
            }
        }
    }
}

/// In the copy mode that zeroes the options' targets into the default, the default animates
/// every target that an option animates and that has a zero; under every key its own last
/// target stands, and where it has none, the zero of an option's target.
pub proof fn lemma_zeroed_default_covers(opts: Seq<GroupOptionView>, default_targets: Seq<TargetView>, k: Seq<char>)
    ensures
        keyed_lookup(keyed_extend(options_zeroed(Seq::empty(), opts), default_targets), k) == overridden(
            last_with_key(default_targets, k),
            keyed_lookup(options_zeroed(Seq::empty(), opts), k),
        ),
        keyed_lookup(options_zeroed(Seq::empty(), opts), k) matches Some(z) ==> zeroed_view(z) == Some(z)
            && view_key(z) == k,
        forall|i: int, j: int|
            0 <= i < opts.len() && #[trigger] zeroes_under(opts[i], j, k) ==> keyed_lookup(
                keyed_extend(options_zeroed(Seq::empty(), opts), default_targets),
                k,
            ) is Some,
{
    lemma_keyed_extend_lookup(options_zeroed(Seq::empty(), opts), default_targets, k);
    lemma_options_zeroed_lookup(Seq::empty(), opts, k);
}


/// Each kept target sits under its own key.
pub open spec fn keys_match(m: Keyed) -> bool {
    forall|i: int| 0 <= i < m.len() ==> (#[trigger] m[i]).0 == view_key(m[i].1)
}

/// Laying targets over kept ones keeps each under its own key.
pub proof fn lemma_keyed_extend_keys_match(m: Keyed, vs: Seq<TargetView>)
    requires
        sorted_keys(m),
        keys_match(m),
    ensures
        keys_match(keyed_extend(m, vs)),
    decreases vs.len(),
{
    if vs.len() > 0 {
        let k = view_key(vs[0]);
        let r = keyed_insert(m, k, vs[0]);
        lemma_keyed_insert_sorted(m, k, vs[0]);
        assert forall|i: int| 0 <= i < r.len() implies (#[trigger] r[i]).0 == view_key(r[i].1) by {
            if r[i].0 != k {
                assert(m.contains(r[i]));
            } else {
                let p = choose|p: int| 0 <= p < r.len() && r[p] == (k, vs[0]);
                lemma_key_lt_irreflexive(k);
                if i < p {
                    assert(key_lt(r[i].0, r[p].0));
                } else if p < i {
                    assert(key_lt(r[p].0, r[i].0));
                }
            }
        }
        lemma_keyed_extend_keys_match(r, vs.drop_first());
    }
}

/// In targets kept in strict key order, each kept target is what its key finds: no target is
/// hidden behind another under the same key.
pub proof fn lemma_keyed_values_are_lookups(m: Keyed)
    requires
        sorted_keys(m),
    ensures
        forall|i: int| 0 <= i < m.len() ==> keyed_lookup(m, (#[trigger] m[i]).0) == Some(m[i].1),
    decreases m.len(),
{
    if m.len() > 0 {
        let tail = m.drop_first();
        assert(sorted_keys(tail)) by {
            assert forall|i: int, j: int| 0 <= i < j < tail.len() implies key_lt(#[trigger] tail[i].0, #[trigger] tail[j].0) by {
                assert(tail[i] == m[i + 1]);
                assert(tail[j] == m[j + 1]);
            }
        }
        lemma_keyed_values_are_lookups(tail);
        assert forall|i: int| 0 <= i < m.len() implies keyed_lookup(m, (#[trigger] m[i]).0) == Some(m[i].1) by {
            if i > 0 {
                assert(key_lt(m[0].0, m[i].0));
                lemma_key_lt_irreflexive(m[0].0);
                assert(m[0].0 != m[i].0);
                assert(tail[i - 1] == m[i]);
            }
        }
    }
}


/// A declared target compiles to a target of its own kind: a shape keeps its name and its
/// value (or the unset value when none is declared), an object its name and its state (or
/// the unset state), a material its slot and asset, a material property its name and value,
/// a drive the drive it compiles to, and a tracking control one target per tracking target
/// in order. A target that needs a mesh uses its own mesh, else the default one, and fails
/// only when it has neither (or, for a material, when its asset is not a known material).
pub proof fn lemma_target_keeps_its_kind(
    fp: FirstPassData,
    default_mesh: Option<Seq<char>>,
    unset: UnsetValue,
    d: DeclGroupOptionTarget,
)
    ensures
        target_spec(fp, default_mesh, unset, d) is Err <==> match d {
            DeclGroupOptionTarget::Shape(st) => st.mesh is None && default_mesh is None,
            DeclGroupOptionTarget::Object(_) => false,
            DeclGroupOptionTarget::Material(mt) => (mt.mesh is None && default_mesh is None)
                || asset_outcome(fp.assets_view(), mt.value@, AssetType::Material) is Err,
            DeclGroupOptionTarget::MaterialProperty(mp) => mp.mesh is None && default_mesh is None,
            DeclGroupOptionTarget::ParameterDrive(pd) => drive_spec(fp, unset, pd) is Err,
            DeclGroupOptionTarget::TrackingControl(_) => false,
        },
        target_spec(fp, default_mesh, unset, d) matches Ok(ts) ==> match d {
            DeclGroupOptionTarget::Shape(st) => ts[0] matches TargetView::Shape(
                mesh,
                shape,
                value,
            ) && ts.len() == 1 && shape == st.shape@ && (st.mesh matches Some(m) ==> mesh == m@) && (st.mesh is None
                ==> default_mesh == Some(mesh)) && (st.value matches Some(v) ==> value == v) && (
            st.value is None ==> value == (if unset == UnsetValue::Active {
                ONE_BITS
            } else {
                0
            })),
            DeclGroupOptionTarget::Object(ot) => ts[0] matches TargetView::Object(
                object,
                value,
            ) && ts.len() == 1 && object == ot.object@ && (ot.value matches Some(v) ==> value == v) && (ot.value is None
                ==> value == (unset == UnsetValue::Active)),
            DeclGroupOptionTarget::Material(mt) => ts[0] matches TargetView::Material(
                mesh,
                index,
                asset,
            ) && ts.len() == 1 && index == mt.index && asset == mt.value@ && (mt.mesh matches Some(m) ==> mesh == m@)
                && (mt.mesh is None ==> default_mesh == Some(mesh)),
            DeclGroupOptionTarget::MaterialProperty(mp) => ts[0] matches TargetView::MaterialProperty(
                mesh,
                property,
                value,
            ) && ts.len() == 1 && property == mp.property@ && (mp.mesh matches Some(m) ==> mesh == m@) && (mp.mesh is None
                ==> default_mesh == Some(mesh)) && match mp.value {
                DeclMaterialValue::Float(f) => value == MaterialValue::Float(f),
                DeclMaterialValue::Color(c) => value == MaterialValue::VectorRgba(c),
                DeclMaterialValue::ColorHdr(c) => value == MaterialValue::VectorXyzw(c),
                DeclMaterialValue::Vector(c) => value == MaterialValue::VectorXyzw(c),
            },
            DeclGroupOptionTarget::ParameterDrive(pd) => drive_spec(fp, unset, pd) matches Ok(v)
                && ts.len() == 1 && ts[0] == TargetView::Drive(v),
            DeclGroupOptionTarget::TrackingControl(tc) => ts.len() == tc.targets@.len() && forall|i: int|
                0 <= i < ts.len() ==> #[trigger] ts[i] == TargetView::Tracking(
                    tc.animation_desired,
                    seq![tc.targets@[i]],
                ),
        },
{
}

/// Whether `o` is the option declared at position `i` of `ds`: a selection with a name, whose
/// value is its explicit one or else its position counted from one.
pub open spec fn option_declared_at(o: GroupOptionView, ds: Seq<DeclGroupOption>, i: int) -> bool {
    &&& 0 <= i < ds.len()
    &&& ds[i].kind matches DeclGroupOptionKind::Selection(Some(n), v)
    &&& o.0 == n@
    &&& o.1 == match v {
        Some(x) => x,
        None => (i + 1) as usize,
    }
}

/// Whether `idx` gives, in increasing order, the position in `ds` at which each of `opts` is
/// declared (see `option_declared_at`).
pub open spec fn options_declared_at(opts: Seq<GroupOptionView>, ds: Seq<DeclGroupOption>, idx: Seq<int>) -> bool {
    &&& idx.len() == opts.len()
    &&& forall|k: int| 0 <= k < opts.len() ==> #[trigger] option_declared_at(opts[k], ds, idx[k])
    &&& forall|k1: int, k2: int| 0 <= k1 < k2 < idx.len() ==> #[trigger] idx[k1] < #[trigger] idx[k2]
}

proof fn lemma_group_options_fold_declared(
    fp: FirstPassData,
    default_mesh: Option<Seq<char>>,
    contexts: Seq<Seq<char>>,
    opts: Seq<GroupOptionView>,
    logs: Seq<LogView>,
    all: Seq<DeclGroupOption>,
    index: int,
    idx: Seq<int>,
) -> (r: Seq<int>)
    requires
        0 <= index <= all.len(),
        options_declared_at(opts, all, idx),
        forall|k: int| 0 <= k < idx.len() ==> #[trigger] idx[k] < index,
    ensures
        options_declared_at(
            group_options_fold(fp, default_mesh, contexts, (opts, logs), all.subrange(index, all.len() as int), index).0,
            all,
            r,
        ),
    decreases all.len() - index,
{
    let ds = all.subrange(index, all.len() as int);
    if index < all.len() {
        assert(ds[0] == all[index]);
        assert(ds.drop_first() =~= all.subrange(index + 1, all.len() as int));
        let (o, l) = group_option_spec(fp, ds[0], default_mesh, UnsetValue::Active, logs, contexts);
        let (options, next_idx) = match o {
            Some((Some(name), explicit, av)) => (
                opts.push(
                    (
                        name,
                        match explicit {
                            Some(v) => v,
                            None => (index + 1) as usize,
                        },
                        av,
                    ),
                ),
                idx.push(index),
            ),
            _ => (opts, idx),
        };
        assert forall|k: int| 0 <= k < options.len() implies #[trigger] option_declared_at(options[k], all, next_idx[k]) by {
            if k < opts.len() {
                assert(options[k] == opts[k]);
                assert(next_idx[k] == idx[k]);
            }
        }
        assert forall|k1: int, k2: int| 0 <= k1 < k2 < next_idx.len() implies #[trigger] next_idx[k1] < #[trigger] next_idx[k2] by {
            if k2 < idx.len() {
                assert(next_idx[k1] == idx[k1]);
                assert(next_idx[k2] == idx[k2]);
            } else {
                assert(next_idx[k1] == idx[k1]);
            }
        }
        assert forall|k: int| 0 <= k < next_idx.len() implies #[trigger] next_idx[k] < index + 1 by {
            if k < idx.len() {
                assert(next_idx[k] == idx[k]);
            }
        }
        assert(group_options_fold(fp, default_mesh, contexts, (opts, logs), ds, index) == group_options_fold(
            fp,
            default_mesh,
            contexts,
            (options, l),
            ds.drop_first(),
            index + 1,
        ));
        lemma_group_options_fold_declared(fp, default_mesh, contexts, options, l, all, index + 1, next_idx)
    } else {
        idx
    }
}

proof fn lemma_copied_keep_names_and_values(default_targets: Seq<TargetView>, opts: Seq<GroupOptionView>)
    ensures
        copied_to_options(default_targets, opts) matches Some(c) ==> c.len() == opts.len() && forall|k: int|
            0 <= k < c.len() ==> (#[trigger] c[k]).0 == opts[k].0 && c[k].1 == opts[k].1,
    decreases opts.len(),
{
    if opts.len() > 0 {
        lemma_copied_keep_names_and_values(default_targets, opts.drop_first());
        if let Some(c) = copied_to_options(default_targets, opts) {
            let rest = copied_to_options(default_targets, opts.drop_first())->Some_0;
            assert forall|k: int| 0 <= k < c.len() implies (#[trigger] c[k]).0 == opts[k].0 && c[k].1 == opts[k].1 by {
                if k > 0 {
                    assert(c[k] == rest[k - 1]);
                }
            }
        }
    }
}

/// A compiled group layer keeps its name, is driven by the int parameter it declares, has a
/// default option of value zero, and its options are named options it declares, in the order
/// declared, each carrying its explicit value or else its position counted from one.
pub proof fn lemma_group_options_keep_their_values(
    fp: FirstPassData,
    g: DeclGroupLayer,
    logs: Seq<LogView>,
    contexts: Seq<Seq<char>>,
)
    ensures
        group_layer_spec(fp, g, logs, contexts).0 matches Some((name, parameter, default, options)) ==> {
            &&& name == g.name@
            &&& query_outcome(
                fp.parameters_view(),
                query_view(reference_query(g.driven_by)),
                ParameterType::Int(0),
                false,
            ) matches Ok(q) && parameter == q.0
            &&& default.0 == "<default>"@ && default.1 == 0
            &&& exists|idx: Seq<int>| #[trigger] options_declared_at(options, g.options@, idx)
        },
{
    let inner = contexts.push("group layer '"@ + g.name@ + "'"@);
    let dm = opt_string(g.default_mesh);
    if let Ok(q) = query_outcome(
        fp.parameters_view(),
        query_view(reference_query(g.driven_by)),
        ParameterType::Int(0),
        false,
    ) {
        let l1 = match g.default {
            None => logs,
            Some(d) => group_option_spec(fp, d, dm, UnsetValue::Inactive, logs, inner).1,
        };
        assert(g.options@.subrange(0, g.options@.len() as int) =~= g.options@);
        let idx = lemma_group_options_fold_declared(fp, dm, inner, Seq::empty(), l1, g.options@, 0, Seq::empty());
        let opts = group_options_fold(fp, dm, inner, (Seq::empty(), l1), g.options@, 0).0;
        if let Some((_, _, _, options)) = group_layer_spec(fp, g, logs, contexts).0 {
            if let Some(DeclGroupCopyMode::ToOption) = g.copy_mode {
                let dts = match g.default {
                    None => Seq::empty(),
                    Some(d) => match group_option_spec(fp, d, dm, UnsetValue::Inactive, logs, inner).0 {
                        Some((None, None, AnimationView::Inline(ts))) => ts,
                        _ => Seq::empty(),
                    },
                };
                lemma_copied_keep_names_and_values(dts, opts);
                assert forall|k: int| 0 <= k < options.len() implies #[trigger] option_declared_at(options[k], g.options@, idx[k]) by {
                    assert(option_declared_at(opts[k], g.options@, idx[k]));
                }
            }
            assert(options_declared_at(options, g.options@, idx));
        }
    }
}

} // verus!

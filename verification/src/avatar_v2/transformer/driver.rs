//! Compiles parameter drives: what a menu item or a layer writes to parameters.
use vstd::prelude::*;

use crate::avatar_v2::data::driver::{ParameterDrive, TrackingControl, TrackingTarget};
use crate::avatar_v2::data::parameter::{Parameter, ParameterQuery, ParameterType};
use crate::avatar_v2::logger::{Log, Logger};
use crate::avatar_v2::transformer::{
    declares, failure, group_outcome, lemma_written_parameters_are_declared, options_view,
    puppet_outcome, query_outcome, query_view, success, switch_outcome, QueryView,
    unset_bits, unset_bool, Compiled, FirstPassData, UnsetValue,
};
use crate::decl_v2::data::{
    reference_query, DeclDriveGroup, DeclDrivePuppet, DeclDriveSwitch, DeclParameterDrive, DeclParameterReference, DeclTrackingControl,
};
use crate::lookup::{first_match, lemma_first_match_absent, lemma_first_match_found, lemma_first_match_properties};

verus! {

/// A drive with its parameter names as sequences.
pub enum DriveView {
    SetInt(Seq<char>, u8),
    SetFloat(Seq<char>, u64),
    SetBool(Seq<char>, bool),
    AddInt(Seq<char>, u8),
    AddFloat(Seq<char>, u64),
    RandomInt(Seq<char>, (u8, u8)),
    RandomFloat(Seq<char>, (u64, u64)),
    RandomBool(Seq<char>, u64),
    Copy(Seq<char>, Seq<char>),
    RangedCopy(Seq<char>, Seq<char>, (u64, u64), (u64, u64)),
}

pub open spec fn drive_view(d: ParameterDrive) -> DriveView {
    match d {
        ParameterDrive::SetInt(p, v) => DriveView::SetInt(p@, v),
        ParameterDrive::SetFloat(p, v) => DriveView::SetFloat(p@, v),
        ParameterDrive::SetBool(p, v) => DriveView::SetBool(p@, v),
        ParameterDrive::AddInt(p, v) => DriveView::AddInt(p@, v),
        ParameterDrive::AddFloat(p, v) => DriveView::AddFloat(p@, v),
        ParameterDrive::RandomInt(p, r) => DriveView::RandomInt(p@, r),
        ParameterDrive::RandomFloat(p, r) => DriveView::RandomFloat(p@, r),
        ParameterDrive::RandomBool(p, v) => DriveView::RandomBool(p@, v),
        ParameterDrive::Copy(f, t) => DriveView::Copy(f@, t@),
        ParameterDrive::RangedCopy(f, t, a, b) => DriveView::RangedCopy(f@, t@, a, b),
    }
}

pub type DriveOutcome = Result<DriveView, Seq<char>>;

/// A writable parameter found by `query` with a type of `ty`'s kind, made into a drive by `f`.
pub open spec fn with_writable(
    fp: FirstPassData,
    query: QueryView,
    ty: ParameterType,
    f: spec_fn(Seq<char>) -> DriveView,
) -> DriveOutcome {
    match query_outcome(fp.parameters_view(), query, ty, true) {
        Err(t) => Err(t),
        Ok(q) => Ok(f(q.0)),
    }
}

pub open spec fn option_named(name: Seq<char>) -> spec_fn((Seq<char>, usize)) -> bool {
    |o: (Seq<char>, usize)| o.0 == name
}

/// How a drive compiles: a layer's option, switch or puppet drives the layer's parameter;
/// the other drives name their parameter. Every parameter must be writable and of the
/// drive's kind; an unset value takes `unset`.
#[verifier::opaque]
pub open spec fn drive_spec(fp: FirstPassData, unset: UnsetValue, d: DeclParameterDrive) -> DriveOutcome {
    match d {
        DeclParameterDrive::Group(dg) => match group_outcome(fp.layers_view(), dg.group@) {
            Err(t) => Err(t),
            Ok((parameter, options)) => match query_outcome(
                fp.parameters_view(),
                QueryView::Declared(parameter),
                ParameterType::Int(0),
                true,
            ) {
                Err(t) => Err(t),
                Ok(q) => match first_match(options, option_named(dg.option@)) {
                    None => Err("option '"@ + dg.option@ + "' not found"@),
                    Some(i) => Ok(DriveView::SetInt(q.0, options[i].1 as u8)),
                },
            },
        },
        DeclParameterDrive::Switch(ds) => match switch_outcome(fp.layers_view(), ds.switch@) {
            Err(t) => Err(t),
            Ok(parameter) => with_writable(
                fp,
                QueryView::Declared(parameter),
                ParameterType::Bool(false),
                |n: Seq<char>|
                    DriveView::SetBool(
                        n,
                        match ds.value {
                            Some(v) => v,
                            None => unset_bool(unset),
                        },
                    ),
            ),
        },
        DeclParameterDrive::Puppet(dp) => match puppet_outcome(fp.layers_view(), dp.puppet@) {
            Err(t) => Err(t),
            Ok(parameter) => with_writable(
                fp,
                QueryView::Declared(parameter),
                ParameterType::Float(0),
                |n: Seq<char>|
                    DriveView::SetFloat(
                        n,
                        match dp.value {
                            Some(v) => v,
                            None => unset_bits(unset),
                        },
                    ),
            ),
        },
        DeclParameterDrive::SetInt { parameter, value } => with_writable(
            fp,
            query_view(reference_query(parameter)),
            ParameterType::Int(0),
            |n: Seq<char>| DriveView::SetInt(n, value),
        ),
        DeclParameterDrive::SetBool { parameter, value } => with_writable(
            fp,
            query_view(reference_query(parameter)),
            ParameterType::Bool(false),
            |n: Seq<char>|
                DriveView::SetBool(
                    n,
                    match value {
                        Some(v) => v,
                        None => unset_bool(unset),
                    },
                ),
        ),
        DeclParameterDrive::SetFloat { parameter, value } => with_writable(
            fp,
            query_view(reference_query(parameter)),
            ParameterType::Float(0),
            |n: Seq<char>|
                DriveView::SetFloat(
                    n,
                    match value {
                        Some(v) => v,
                        None => unset_bits(unset),
                    },
                ),
        ),
        DeclParameterDrive::AddInt { parameter, value } => with_writable(
            fp,
            query_view(reference_query(parameter)),
            ParameterType::Int(0),
            |n: Seq<char>| DriveView::AddInt(n, value),
        ),
        DeclParameterDrive::AddFloat { parameter, value } => with_writable(
            fp,
            query_view(reference_query(parameter)),
            ParameterType::Float(0),
            |n: Seq<char>| DriveView::AddFloat(n, value),
        ),
        DeclParameterDrive::RandomInt { parameter, range } => with_writable(
            fp,
            query_view(reference_query(parameter)),
            ParameterType::Int(0),
            |n: Seq<char>| DriveView::RandomInt(n, range),
        ),
        DeclParameterDrive::RandomBool { parameter, value } => with_writable(
            fp,
            query_view(reference_query(parameter)),
            ParameterType::Bool(false),
            |n: Seq<char>| DriveView::RandomBool(n, value),
        ),
        DeclParameterDrive::RandomFloat { parameter, range } => with_writable(
            fp,
            query_view(reference_query(parameter)),
            ParameterType::Float(0),
            |n: Seq<char>| DriveView::RandomFloat(n, range),
        ),
        DeclParameterDrive::Copy { from, to, range } => match query_outcome(
            fp.parameters_view(),
            query_view(reference_query(from)),
            ParameterType::Float(0),
            true,
        ) {
            Err(t) => Err(t),
            Ok(qf) => match query_outcome(
                fp.parameters_view(),
                query_view(reference_query(to)),
                ParameterType::Float(0),
                true,
            ) {
                Err(t) => Err(t),
                Ok(qt) => match range {
                    Some((a, b)) => Ok(DriveView::RangedCopy(qf.0, qt.0, a, b)),
                    None => Ok(DriveView::Copy(qf.0, qt.0)),
                },
            },
        },
    }
}

pub fn find_option_value(options: &Vec<(String, usize)>, name: &str) -> (r: Option<usize>)
    ensures
        match first_match(options_view(options@), option_named(name@)) {
            Some(i) => r == Some(options_view(options@)[i].1),
            None => r is None,
        },
{
    let ghost views = options_view(options@);
    let ghost pred = option_named(name@);
    proof {
        lemma_first_match_properties(views, pred);
    }
    let mut i: usize = 0;
    while i < options.len()
        invariant
            i <= options@.len(),
            views == options_view(options@),
            pred == option_named(name@),
            forall|j: int| 0 <= j < i ==> !pred(#[trigger] views[j]),
        decreases options@.len() - i,
    {
        proof {
            assert(views[i as int] == (options@[i as int].0@, options@[i as int].1));
        }
        if crate::avatar::transformer::dependencies::str_equal(options[i].0.as_str(), name) {
            proof {
                lemma_first_match_found(views, pred, i as int);
            }
            return Some(options[i].1);
        }
        i = i + 1;
    }
    proof {
        lemma_first_match_absent(views, pred);
    }
    None
}

/// The full name of the writable parameter that `reference` names, of `ty`'s kind; a failure
/// logs one error.
fn find_writable_name(
    logger: &mut Logger,
    first_pass: &FirstPassData,
    reference: DeclParameterReference,
    ty: ParameterType,
) -> (r: Compiled<String>)
    requires
        old(logger).wf(),
    ensures
        final(logger).wf(),
        final(logger).open_contexts() == old(logger).open_contexts(),
        ({
            let o = query_outcome(
                first_pass.parameters_view(),
                query_view(reference_query(reference)),
                ty,
                true,
            );
            &&& final(logger).log_view() == old(logger).logs_after(o)
            &&& match o {
                Ok(q) => r matches Some(n) && n@ == q.0,
                Err(_) => r is None,
            }
        }),
{
    let query = reference.into_query();
    match first_pass.find_writable_parameter(logger, &query, ty) {
        Some(q) => success(q.name),
        None => failure(),
    }
}

/// The full name of the writable parameter named `parameter`, of `ty`'s kind.
fn find_writable_declared(
    logger: &mut Logger,
    first_pass: &FirstPassData,
    parameter: &String,
    ty: ParameterType,
) -> (r: Compiled<String>)
    requires
        old(logger).wf(),
    ensures
        final(logger).wf(),
        final(logger).open_contexts() == old(logger).open_contexts(),
        ({
            let o = query_outcome(
                first_pass.parameters_view(),
                QueryView::Declared(parameter@),
                ty,
                true,
            );
            &&& final(logger).log_view() == old(logger).logs_after(o)
            &&& match o {
                Ok(q) => r matches Some(n) && n@ == q.0,
                Err(_) => r is None,
            }
        }),
{
    let query = ParameterQuery::Declared(parameter.clone());
    match first_pass.find_writable_parameter(logger, &query, ty) {
        Some(q) => success(q.name),
        None => failure(),
    }
}

fn compile_group_drive(logger: &mut Logger, first_pass: &FirstPassData, dg: DeclDriveGroup) -> (r:
    Compiled<ParameterDrive>)
    requires
        old(logger).wf(),
    ensures
        final(logger).wf(),
        final(logger).open_contexts() == old(logger).open_contexts(),
        ({
            let o = drive_spec(*first_pass, UnsetValue::Active, DeclParameterDrive::Group(dg));
            &&& final(logger).log_view() == old(logger).logs_after(o)
            &&& match o {
                Ok(v) => r matches Some(d) && drive_view(d) == v,
                Err(_) => r is None,
            }
        }),
{
    proof {
        reveal(drive_spec);
    }
    let (parameter, options) = match first_pass.find_group(logger, dg.group.as_str()) {
        Some(g) => g,
        None => {
            return failure();
        },
    };
    let name = match find_writable_declared(logger, first_pass, parameter, ParameterType::int_type()) {
        Some(n) => n,
        None => {
            return failure();
        },
    };
    let value = match find_option_value(options, dg.option.as_str()) {
        Some(v) => v,
        None => {
            logger.log(Log::LayerOptionNotFound(dg.option));
            return failure();
        },
    };
    success(ParameterDrive::SetInt(name, value as u8))
}

/// Compiles a drive (see `drive_spec`); a failure logs one error.
#[verifier::rlimit(40)]
pub fn compile_parameter_drive(
    logger: &mut Logger,
    first_pass: &FirstPassData,
    unset_value: UnsetValue,
    decl_parameter_drive: DeclParameterDrive,
) -> (r: Compiled<ParameterDrive>)
    requires
        old(logger).wf(),
    ensures
        final(logger).wf(),
        final(logger).open_contexts() == old(logger).open_contexts(),
        final(logger).log_view() == old(logger).logs_after(
            drive_spec(*first_pass, unset_value, decl_parameter_drive),
        ),
        match drive_spec(*first_pass, unset_value, decl_parameter_drive) {
            Ok(v) => r matches Some(d) && drive_view(d) == v,
            Err(_) => r is None,
        },
{
    proof {
        reveal(drive_spec);
    }
    let parameter_drive = match decl_parameter_drive {
        DeclParameterDrive::Group(dg) => {
            return compile_group_drive(logger, first_pass, dg);
        },
        DeclParameterDrive::Switch(ds) => {
            let parameter = match first_pass.find_switch(logger, ds.switch.as_str()) {
                Some(p) => p,
                None => {
                    return failure();
                },
            };
            match find_writable_declared(logger, first_pass, parameter, ParameterType::bool_type()) {
                Some(n) => ParameterDrive::SetBool(n, unset_value.replace_bool(ds.value)),
                None => {
                    return failure();
                },
            }
        },
        DeclParameterDrive::Puppet(dp) => {
            let parameter = match first_pass.find_puppet(logger, dp.puppet.as_str()) {
                Some(p) => p,
                None => {
                    return failure();
                },
            };
            match find_writable_declared(logger, first_pass, parameter, ParameterType::float_type()) {
                Some(n) => ParameterDrive::SetFloat(n, unset_value.replace_f64(dp.value)),
                None => {
                    return failure();
                },
            }
        },
        DeclParameterDrive::SetInt { parameter, value } => {
            match find_writable_name(logger, first_pass, parameter, ParameterType::int_type()) {
                Some(n) => ParameterDrive::SetInt(n, value),
                None => {
                    return failure();
                },
            }
        },
        DeclParameterDrive::SetBool { parameter, value } => {
            match find_writable_name(logger, first_pass, parameter, ParameterType::bool_type()) {
                Some(n) => ParameterDrive::SetBool(n, unset_value.replace_bool(value)),
                None => {
                    return failure();
                },
            }
        },
        DeclParameterDrive::SetFloat { parameter, value } => {
            match find_writable_name(logger, first_pass, parameter, ParameterType::float_type()) {
                Some(n) => ParameterDrive::SetFloat(n, unset_value.replace_f64(value)),
                None => {
                    return failure();
                },
            }
        },
        DeclParameterDrive::AddInt { parameter, value } => {
            match find_writable_name(logger, first_pass, parameter, ParameterType::int_type()) {
                Some(n) => ParameterDrive::AddInt(n, value),
                None => {
                    return failure();
                },
            }
        },
        DeclParameterDrive::AddFloat { parameter, value } => {
            match find_writable_name(logger, first_pass, parameter, ParameterType::float_type()) {
                Some(n) => ParameterDrive::AddFloat(n, value),
                None => {
                    return failure();
                },
            }
        },
        DeclParameterDrive::RandomInt { parameter, range } => {
            match find_writable_name(logger, first_pass, parameter, ParameterType::int_type()) {
                Some(n) => ParameterDrive::RandomInt(n, range),
                None => {
                    return failure();
                },
            }
        },
        DeclParameterDrive::RandomBool { parameter, value } => {
            match find_writable_name(logger, first_pass, parameter, ParameterType::bool_type()) {
                Some(n) => ParameterDrive::RandomBool(n, value),
                None => {
                    return failure();
                },
            }
        },
        DeclParameterDrive::RandomFloat { parameter, range } => {
            match find_writable_name(logger, first_pass, parameter, ParameterType::float_type()) {
                Some(n) => ParameterDrive::RandomFloat(n, range),
                None => {
                    return failure();
                },
            }
        },
        DeclParameterDrive::Copy { from, to, range } => {
            let from_name = match find_writable_name(
                logger,
                first_pass,
                from,
                ParameterType::float_type(),
            ) {
                Some(n) => n,
                None => {
                    return failure();
                },
            };
            let to_name = match find_writable_name(logger, first_pass, to, ParameterType::float_type()) {
                Some(n) => n,
                None => {
                    return failure();
                },
            };
            match range {
                Some((a, b)) => ParameterDrive::RangedCopy(from_name, to_name, a, b),
                None => ParameterDrive::Copy(from_name, to_name),
            }
        },
    };
    success(parameter_drive)
}

/// The tracking controls of a declaration: one for each of its targets, in order, each with
/// the declaration's wish for animation.
pub fn compile_tracking_control(
    _logger: &Logger,
    _first_pass: &FirstPassData,
    decl_tracking_control: DeclTrackingControl,
) -> (r: Compiled<Vec<TrackingControl>>)
    ensures
        r matches Some(v) && v@.len() == decl_tracking_control.targets@.len() && forall|i: int|
            0 <= i < v@.len() ==> (#[trigger] v@[i]).animation_desired
                == decl_tracking_control.animation_desired && v@[i].targets@ == seq![
                decl_tracking_control.targets@[i],
            ],
{
    let animation_desired = decl_tracking_control.animation_desired;
    let targets = decl_tracking_control.targets;
    let mut r: Vec<TrackingControl> = Vec::new();
    let mut i: usize = 0;
    while i < targets.len()
        invariant
            i <= targets@.len(),
            r@.len() == i,
            forall|j: int|
                0 <= j < i ==> (#[trigger] r@[j]).animation_desired == animation_desired && r@[j].targets@
                    == seq![targets@[j]],
        decreases targets@.len() - i,
    {
        let mut single: Vec<TrackingTarget> = Vec::new();
        single.push(targets[i]);
        proof {
            assert(single@ =~= seq![targets@[i as int]]);
        }
        r.push(TrackingControl { animation_desired, targets: single });
        i = i + 1;
    }
    success(r)
}

/// Whether `ps` declares every parameter that a drive names, each of the kind of value the
/// drive carries.
pub open spec fn drives_declared(ps: Seq<Parameter>, d: DriveView) -> bool {
    match d {
        DriveView::SetInt(p, _) => declares(ps, p, ParameterType::Int(0)),
        DriveView::AddInt(p, _) => declares(ps, p, ParameterType::Int(0)),
        DriveView::RandomInt(p, _) => declares(ps, p, ParameterType::Int(0)),
        DriveView::SetBool(p, _) => declares(ps, p, ParameterType::Bool(false)),
        DriveView::RandomBool(p, _) => declares(ps, p, ParameterType::Bool(false)),
        DriveView::SetFloat(p, _) => declares(ps, p, ParameterType::Float(0)),
        DriveView::AddFloat(p, _) => declares(ps, p, ParameterType::Float(0)),
        DriveView::RandomFloat(p, _) => declares(ps, p, ParameterType::Float(0)),
        DriveView::Copy(f, t) => declares(ps, f, ParameterType::Float(0)) && declares(ps, t, ParameterType::Float(0)),
        DriveView::RangedCopy(f, t, _, _) => declares(ps, f, ParameterType::Float(0)) && declares(
            ps,
            t,
            ParameterType::Float(0),
        ),
    }
}

proof fn lemma_group_drive_declared(fp: FirstPassData, unset: UnsetValue, dg: DeclDriveGroup)
    ensures
        drive_spec(fp, unset, DeclParameterDrive::Group(dg)) matches Ok(v) ==> drives_declared(fp.parameters_view(), v),
{
    if let Ok((parameter, options)) = group_outcome(fp.layers_view(), dg.group@) {
        lemma_written_parameters_are_declared(fp.parameters_view(), QueryView::Declared(parameter), ParameterType::Int(0));
    }
    reveal(drive_spec);
}

/// A copy between two parameters found for writing, ranged or not.
pub open spec fn copy_of(
    from: Result<(Seq<char>, ParameterType, bool), Seq<char>>,
    to: Result<(Seq<char>, ParameterType, bool), Seq<char>>,
    range: Option<((u64, u64), (u64, u64))>,
) -> DriveOutcome {
    match from {
        Err(t) => Err(t),
        Ok(qf) => match to {
            Err(t) => Err(t),
            Ok(qt) => match range {
                Some((a, b)) => Ok(DriveView::RangedCopy(qf.0, qt.0, a, b)),
                None => Ok(DriveView::Copy(qf.0, qt.0)),
            },
        },
    }
}

proof fn lemma_copy_of_declared(
    ps: Seq<Parameter>,
    from: Result<(Seq<char>, ParameterType, bool), Seq<char>>,
    to: Result<(Seq<char>, ParameterType, bool), Seq<char>>,
    range: Option<((u64, u64), (u64, u64))>,
)
    requires
        from matches Ok(q) ==> declares(ps, q.0, ParameterType::Float(0)),
        to matches Ok(q) ==> declares(ps, q.0, ParameterType::Float(0)),
    ensures
        copy_of(from, to, range) matches Ok(v) ==> drives_declared(ps, v),
{
}

proof fn lemma_copy_drive_declared(
    fp: FirstPassData,
    unset: UnsetValue,
    from: DeclParameterReference,
    to: DeclParameterReference,
    range: Option<((u64, u64), (u64, u64))>,
)
    ensures
        drive_spec(fp, unset, DeclParameterDrive::Copy { from, to, range }) matches Ok(v) ==> drives_declared(
            fp.parameters_view(),
            v,
        ),
{
    let ps = fp.parameters_view();
    let qa = query_view(reference_query(from));
    let qb = query_view(reference_query(to));
    let a = query_outcome(ps, qa, ParameterType::Float(0), true);
    let b = query_outcome(ps, qb, ParameterType::Float(0), true);
    assert(a matches Ok(q) ==> declares(ps, q.0, ParameterType::Float(0))) by {
        lemma_written_parameters_are_declared(ps, qa, ParameterType::Float(0));
    }
    assert(b matches Ok(q) ==> declares(ps, q.0, ParameterType::Float(0))) by {
        lemma_written_parameters_are_declared(ps, qb, ParameterType::Float(0));
    }
    lemma_copy_of_declared(ps, a, b, range);
    assert(drive_spec(fp, unset, DeclParameterDrive::Copy { from, to, range }) == copy_of(
        query_outcome(ps, qa, ParameterType::Float(0), true),
        query_outcome(ps, qb, ParameterType::Float(0), true),
        range,
    )) by {
        reveal(drive_spec);
    }
}

proof fn lemma_set_int_drive_declared(fp: FirstPassData, unset: UnsetValue, parameter: DeclParameterReference, value: u8)
    ensures
        drive_spec(fp, unset, DeclParameterDrive::SetInt { parameter, value }) matches Ok(v) ==> drives_declared(
            fp.parameters_view(),
            v,
        ),
{
    let ps = fp.parameters_view();
    let q = query_outcome(ps, query_view(reference_query(parameter)), ParameterType::Int(0), true);
    assert(q matches Ok(x) ==> declares(ps, x.0, ParameterType::Int(0))) by {
        lemma_written_parameters_are_declared(ps, query_view(reference_query(parameter)), ParameterType::Int(0));
    }
    assert(drive_spec(fp, unset, DeclParameterDrive::SetInt { parameter, value }) matches Ok(v) ==> q is Ok && v
        == DriveView::SetInt((q->Ok_0).0, value)) by {
        reveal(drive_spec);
    }
}

proof fn lemma_add_int_drive_declared(fp: FirstPassData, unset: UnsetValue, parameter: DeclParameterReference, value: u8)
    ensures
        drive_spec(fp, unset, DeclParameterDrive::AddInt { parameter, value }) matches Ok(v) ==> drives_declared(
            fp.parameters_view(),
            v,
        ),
{
    let ps = fp.parameters_view();
    let q = query_outcome(ps, query_view(reference_query(parameter)), ParameterType::Int(0), true);
    assert(q matches Ok(x) ==> declares(ps, x.0, ParameterType::Int(0))) by {
        lemma_written_parameters_are_declared(ps, query_view(reference_query(parameter)), ParameterType::Int(0));
    }
    assert(drive_spec(fp, unset, DeclParameterDrive::AddInt { parameter, value }) matches Ok(v) ==> q is Ok && v
        == DriveView::AddInt((q->Ok_0).0, value)) by {
        reveal(drive_spec);
    }
}

proof fn lemma_random_int_drive_declared(fp: FirstPassData, unset: UnsetValue, parameter: DeclParameterReference, range: (u8, u8))
    ensures
        drive_spec(fp, unset, DeclParameterDrive::RandomInt { parameter, range }) matches Ok(v) ==> drives_declared(
            fp.parameters_view(),
            v,
        ),
{
    let ps = fp.parameters_view();
    let q = query_outcome(ps, query_view(reference_query(parameter)), ParameterType::Int(0), true);
    assert(q matches Ok(x) ==> declares(ps, x.0, ParameterType::Int(0))) by {
        lemma_written_parameters_are_declared(ps, query_view(reference_query(parameter)), ParameterType::Int(0));
    }
    assert(drive_spec(fp, unset, DeclParameterDrive::RandomInt { parameter, range }) matches Ok(v) ==> q is Ok && v
        == DriveView::RandomInt((q->Ok_0).0, range)) by {
        reveal(drive_spec);
    }
}

proof fn lemma_set_bool_drive_declared(fp: FirstPassData, unset: UnsetValue, parameter: DeclParameterReference, value: Option<bool>)
    ensures
        drive_spec(fp, unset, DeclParameterDrive::SetBool { parameter, value }) matches Ok(v) ==> drives_declared(
            fp.parameters_view(),
            v,
        ),
{
    let ps = fp.parameters_view();
    let q = query_outcome(ps, query_view(reference_query(parameter)), ParameterType::Bool(false), true);
    assert(q matches Ok(x) ==> declares(ps, x.0, ParameterType::Bool(false))) by {
        lemma_written_parameters_are_declared(ps, query_view(reference_query(parameter)), ParameterType::Bool(false));
    }
    assert(drive_spec(fp, unset, DeclParameterDrive::SetBool { parameter, value }) matches Ok(v) ==> q is Ok && v
        == DriveView::SetBool((q->Ok_0).0, match value { Some(x) => x, None => unset_bool(unset) })) by {
        reveal(drive_spec);
    }
}

proof fn lemma_random_bool_drive_declared(fp: FirstPassData, unset: UnsetValue, parameter: DeclParameterReference, value: u64)
    ensures
        drive_spec(fp, unset, DeclParameterDrive::RandomBool { parameter, value }) matches Ok(v) ==> drives_declared(
            fp.parameters_view(),
            v,
        ),
{
    let ps = fp.parameters_view();
    let q = query_outcome(ps, query_view(reference_query(parameter)), ParameterType::Bool(false), true);
    assert(q matches Ok(x) ==> declares(ps, x.0, ParameterType::Bool(false))) by {
        lemma_written_parameters_are_declared(ps, query_view(reference_query(parameter)), ParameterType::Bool(false));
    }
    assert(drive_spec(fp, unset, DeclParameterDrive::RandomBool { parameter, value }) matches Ok(v) ==> q is Ok && v
        == DriveView::RandomBool((q->Ok_0).0, value)) by {
        reveal(drive_spec);
    }
}

proof fn lemma_set_float_drive_declared(fp: FirstPassData, unset: UnsetValue, parameter: DeclParameterReference, value: Option<u64>)
    ensures
        drive_spec(fp, unset, DeclParameterDrive::SetFloat { parameter, value }) matches Ok(v) ==> drives_declared(
            fp.parameters_view(),
            v,
        ),
{
    let ps = fp.parameters_view();
    let q = query_outcome(ps, query_view(reference_query(parameter)), ParameterType::Float(0), true);
    assert(q matches Ok(x) ==> declares(ps, x.0, ParameterType::Float(0))) by {
        lemma_written_parameters_are_declared(ps, query_view(reference_query(parameter)), ParameterType::Float(0));
    }
    assert(drive_spec(fp, unset, DeclParameterDrive::SetFloat { parameter, value }) matches Ok(v) ==> q is Ok && v
        == DriveView::SetFloat((q->Ok_0).0, match value { Some(x) => x, None => unset_bits(unset) })) by {
        reveal(drive_spec);
    }
}

proof fn lemma_add_float_drive_declared(fp: FirstPassData, unset: UnsetValue, parameter: DeclParameterReference, value: u64)
    ensures
        drive_spec(fp, unset, DeclParameterDrive::AddFloat { parameter, value }) matches Ok(v) ==> drives_declared(
            fp.parameters_view(),
            v,
        ),
{
    let ps = fp.parameters_view();
    let q = query_outcome(ps, query_view(reference_query(parameter)), ParameterType::Float(0), true);
    assert(q matches Ok(x) ==> declares(ps, x.0, ParameterType::Float(0))) by {
        lemma_written_parameters_are_declared(ps, query_view(reference_query(parameter)), ParameterType::Float(0));
    }
    assert(drive_spec(fp, unset, DeclParameterDrive::AddFloat { parameter, value }) matches Ok(v) ==> q is Ok && v
        == DriveView::AddFloat((q->Ok_0).0, value)) by {
        reveal(drive_spec);
    }
}

proof fn lemma_random_float_drive_declared(fp: FirstPassData, unset: UnsetValue, parameter: DeclParameterReference, range: (u64, u64))
    ensures
        drive_spec(fp, unset, DeclParameterDrive::RandomFloat { parameter, range }) matches Ok(v) ==> drives_declared(
            fp.parameters_view(),
            v,
        ),
{
    let ps = fp.parameters_view();
    let q = query_outcome(ps, query_view(reference_query(parameter)), ParameterType::Float(0), true);
    assert(q matches Ok(x) ==> declares(ps, x.0, ParameterType::Float(0))) by {
        lemma_written_parameters_are_declared(ps, query_view(reference_query(parameter)), ParameterType::Float(0));
    }
    assert(drive_spec(fp, unset, DeclParameterDrive::RandomFloat { parameter, range }) matches Ok(v) ==> q is Ok && v
        == DriveView::RandomFloat((q->Ok_0).0, range)) by {
        reveal(drive_spec);
    }
}

proof fn lemma_switch_drive_declared(fp: FirstPassData, unset: UnsetValue, ds: DeclDriveSwitch)
    ensures
        drive_spec(fp, unset, DeclParameterDrive::Switch(ds)) matches Ok(v) ==> drives_declared(fp.parameters_view(), v),
{
    let ps = fp.parameters_view();
    if let Ok(parameter) = switch_outcome(fp.layers_view(), ds.switch@) {
        lemma_written_parameters_are_declared(ps, QueryView::Declared(parameter), ParameterType::Bool(false));
    }
    reveal(drive_spec);
}

proof fn lemma_puppet_drive_declared(fp: FirstPassData, unset: UnsetValue, dp: DeclDrivePuppet)
    ensures
        drive_spec(fp, unset, DeclParameterDrive::Puppet(dp)) matches Ok(v) ==> drives_declared(fp.parameters_view(), v),
{
    let ps = fp.parameters_view();
    if let Ok(parameter) = puppet_outcome(fp.layers_view(), dp.puppet@) {
        lemma_written_parameters_are_declared(ps, QueryView::Declared(parameter), ParameterType::Float(0));
    }
    reveal(drive_spec);
}

/// A compiled drive names only parameters that the avatar declares, each of the kind of
/// value the drive carries: nothing the platform provides is ever driven.
pub proof fn lemma_drives_name_declared_parameters(fp: FirstPassData, unset: UnsetValue, d: DeclParameterDrive)
    ensures
        drive_spec(fp, unset, d) matches Ok(v) ==> drives_declared(fp.parameters_view(), v),
{
    match d {
        DeclParameterDrive::Group(dg) => lemma_group_drive_declared(fp, unset, dg),
        DeclParameterDrive::Switch(ds) => lemma_switch_drive_declared(fp, unset, ds),
        DeclParameterDrive::Puppet(dp) => lemma_puppet_drive_declared(fp, unset, dp),
        DeclParameterDrive::SetInt { parameter, value } => lemma_set_int_drive_declared(fp, unset, parameter, value),
        DeclParameterDrive::AddInt { parameter, value } => lemma_add_int_drive_declared(fp, unset, parameter, value),
        DeclParameterDrive::RandomInt { parameter, range } => lemma_random_int_drive_declared(fp, unset, parameter, range),
        DeclParameterDrive::SetBool { parameter, value } => lemma_set_bool_drive_declared(fp, unset, parameter, value),
        DeclParameterDrive::RandomBool { parameter, value } => lemma_random_bool_drive_declared(fp, unset, parameter, value),
        DeclParameterDrive::SetFloat { parameter, value } => lemma_set_float_drive_declared(fp, unset, parameter, value),
        DeclParameterDrive::AddFloat { parameter, value } => lemma_add_float_drive_declared(fp, unset, parameter, value),
        DeclParameterDrive::RandomFloat { parameter, range } => lemma_random_float_drive_declared(fp, unset, parameter, range),
        DeclParameterDrive::Copy { from, to, range } => lemma_copy_drive_declared(fp, unset, from, to, range),
    }
}


/// A drive keeps the kind it was declared with and the value it was given: an add stays an
/// add, a set a set, a random a random, a copy a copy (ranged where a range is given); a
/// layer's option, switch or puppet sets the layer's parameter; and a drive that names its
/// parameter writes the parameter that this name finds for writing.
#[verifier::rlimit(50)]
pub proof fn lemma_drive_keeps_its_kind(fp: FirstPassData, unset: UnsetValue, d: DeclParameterDrive)
    ensures
        drive_spec(fp, unset, d) matches Ok(v) ==> match d {
            DeclParameterDrive::SetInt { parameter, value } => v == DriveView::SetInt(
                (query_outcome(fp.parameters_view(), query_view(reference_query(parameter)), ParameterType::Int(0), true)->Ok_0).0,
                value,
            ),
            DeclParameterDrive::AddInt { parameter, value } => v == DriveView::AddInt(
                (query_outcome(fp.parameters_view(), query_view(reference_query(parameter)), ParameterType::Int(0), true)->Ok_0).0,
                value,
            ),
            DeclParameterDrive::RandomInt { parameter, range } => v == DriveView::RandomInt(
                (query_outcome(fp.parameters_view(), query_view(reference_query(parameter)), ParameterType::Int(0), true)->Ok_0).0,
                range,
            ),
            DeclParameterDrive::SetBool { parameter, value } => v matches DriveView::SetBool(p, b) && p == (
            query_outcome(fp.parameters_view(), query_view(reference_query(parameter)), ParameterType::Bool(false), true)->Ok_0).0
                && (value matches Some(x) ==> b == x),
            DeclParameterDrive::RandomBool { parameter, value } => v == DriveView::RandomBool(
                (query_outcome(fp.parameters_view(), query_view(reference_query(parameter)), ParameterType::Bool(false), true)->Ok_0).0,
                value,
            ),
            DeclParameterDrive::SetFloat { parameter, value } => v matches DriveView::SetFloat(p, w) && p == (
            query_outcome(fp.parameters_view(), query_view(reference_query(parameter)), ParameterType::Float(0), true)->Ok_0).0
                && (value matches Some(x) ==> w == x),
            DeclParameterDrive::AddFloat { parameter, value } => v == DriveView::AddFloat(
                (query_outcome(fp.parameters_view(), query_view(reference_query(parameter)), ParameterType::Float(0), true)->Ok_0).0,
                value,
            ),
            DeclParameterDrive::RandomFloat { parameter, range } => v == DriveView::RandomFloat(
                (query_outcome(fp.parameters_view(), query_view(reference_query(parameter)), ParameterType::Float(0), true)->Ok_0).0,
                range,
            ),
            DeclParameterDrive::Copy { from, to, range } => match range {
                Some((a, b)) => v matches DriveView::RangedCopy(_, _, x, y) && x == a && y == b,
                None => v is Copy,
            },
            DeclParameterDrive::Group(_) => v is SetInt,
            DeclParameterDrive::Switch(ds) => v matches DriveView::SetBool(_, b) && (ds.value matches Some(x) ==> b == x),
            DeclParameterDrive::Puppet(dp) => v matches DriveView::SetFloat(_, w) && (dp.value matches Some(x) ==> w == x),
        },
{
    reveal(drive_spec);
}

} // verus!

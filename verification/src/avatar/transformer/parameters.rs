//! Compiles declared parameters.
use vstd::prelude::*;

use crate::avatar::data::{Parameter, ParameterScope, ParameterType};
use crate::avatar::transformer::{
    dependencies::{error_entry, parameter_names, str_equal},
    failure, success, Compiled, Context, LogKind, LogLevel,
};
use crate::decl::data::{
    Parameter as DeclParameter, ParameterScope as DeclParameterScope,
    ParameterType as DeclParameterType, Parameters as DeclParameters,
};
use crate::lookup::{first_index_of, lemma_first_index_absent, lemma_first_index_found, lemma_first_index_properties};

verus! {

/// The declared type with its default filled in (zero, `0.0` or `false`).
pub open spec fn decl_value_type(ty: DeclParameterType) -> ParameterType {
    match ty {
        DeclParameterType::Int(dv) => ParameterType::Int(
            match dv {
                Some(v) => v,
                None => 0,
            },
        ),
        DeclParameterType::Float(dv) => ParameterType::Float(
            match dv {
                Some(v) => v,
                None => 0,
            },
        ),
        DeclParameterType::Bool(dv) => ParameterType::Bool(
            match dv {
                Some(v) => v,
                None => false,
            },
        ),
    }
}

/// The scope of a declared parameter; `None` for an internal parameter that asks to be saved.
/// Without a scope a parameter is synced; without `save` it is not saved.
pub open spec fn decl_scope(scope: Option<DeclParameterScope>, save: Option<bool>) -> Option<
    ParameterScope,
> {
    match (scope, save) {
        (Some(DeclParameterScope::Internal), Some(true)) => None,
        (Some(DeclParameterScope::Internal), _) => Some(ParameterScope::Internal),
        (Some(DeclParameterScope::Local), None) => Some(ParameterScope::Local(false)),
        (Some(DeclParameterScope::Local), Some(saved)) => Some(ParameterScope::Local(saved)),
        (_, None) => Some(ParameterScope::Synced(false)),
        (_, Some(saved)) => Some(ParameterScope::Synced(saved)),
    }
}

/// Compiling one declaration against the parameters compiled before it:
/// the parameter it adds, if any, and the error it logs, if any.
/// A name that is already declared adds nothing; it is an error only if the
/// declarations disagree in type or scope.
pub open spec fn parameter_step(declared: Seq<Parameter>, d: DeclParameter) -> (
    Option<Parameter>,
    Option<Seq<char>>,
) {
    match decl_scope(d.scope, d.save) {
        None => (None, Some("internal parameter '"@ + d.name@ + "' cannot be saved"@)),
        Some(scope) => match first_index_of(parameter_names(declared), d.name@) {
            Some(i) => (
                None,
                if declared[i].value_type != decl_value_type(d.ty) || declared[i].scope != scope {
                    Some("parameter '"@ + d.name@ + "' has incompatible declarations"@)
                } else {
                    None
                },
            ),
            None => (
                Some(Parameter { name: d.name, value_type: decl_value_type(d.ty), scope }),
                None,
            ),
        },
    }
}

/// Compiled parameters and logged errors after a run of declarations.
pub open spec fn parameters_fold(
    acc: (Seq<Parameter>, Seq<(LogLevel, Seq<char>)>),
    decls: Seq<DeclParameter>,
) -> (Seq<Parameter>, Seq<(LogLevel, Seq<char>)>)
    decreases decls.len(),
{
    if decls.len() == 0 {
        acc
    } else {
        let (p, e) = parameter_step(acc.0, decls[0]);
        let params = match p {
            Some(p) => acc.0.push(p),
            None => acc.0,
        };
        let logs = match e {
            Some(t) => acc.1.push(error_entry(t)),
            None => acc.1,
        };
        parameters_fold((params, logs), decls.drop_first())
    }
}

/// The same over blocks of declarations, in order.
pub open spec fn parameter_blocks_fold(
    acc: (Seq<Parameter>, Seq<(LogLevel, Seq<char>)>),
    blocks: Seq<DeclParameters>,
) -> (Seq<Parameter>, Seq<(LogLevel, Seq<char>)>)
    decreases blocks.len(),
{
    if blocks.len() == 0 {
        acc
    } else {
        parameter_blocks_fold(parameters_fold(acc, blocks[0].parameters@), blocks.drop_first())
    }
}

/// Compiles every block of parameter declarations in order; it always succeeds,
/// leaving out the declarations that fail.
pub fn compile_parameter_blocks(ctx: &mut Context, parameters_blocks: Vec<DeclParameters>) -> (r:
    Compiled<Vec<Parameter>>)
    requires
        old(ctx).wf(),
    ensures
        final(ctx).wf(),
        r is Some,
        ({
            let (params, logs) = parameter_blocks_fold(
                (Seq::empty(), old(ctx).logs_view()),
                parameters_blocks@,
            );
            r->0@ == params && final(ctx).logs_view() == logs
        }),
{
    let mut parameters: Vec<Parameter> = Vec::new();
    let ghost total = parameter_blocks_fold((Seq::empty(), old(ctx).logs_view()), parameters_blocks@);
    let mut bi: usize = 0;
    proof {
        assert(parameters_blocks@.subrange(0, parameters_blocks@.len() as int) =~= parameters_blocks@);
    }
    while bi < parameters_blocks.len()
        invariant
            bi <= parameters_blocks@.len(),
            ctx.wf(),
            total == parameter_blocks_fold(
                (parameters@, ctx.logs_view()),
                parameters_blocks@.subrange(bi as int, parameters_blocks@.len() as int),
            ),
        decreases parameters_blocks@.len() - bi,
    {
        let block = &parameters_blocks[bi];
        let ghost rest = parameters_blocks@.subrange(bi as int, parameters_blocks@.len() as int);
        proof {
            assert(rest[0] == *block);
            assert(rest.drop_first() =~= parameters_blocks@.subrange(
                bi + 1,
                parameters_blocks@.len() as int,
            ));
            assert(block.parameters@.subrange(0, block.parameters@.len() as int)
                =~= block.parameters@);
        }
        let mut pi: usize = 0;
        while pi < block.parameters.len()
            invariant
                pi <= block.parameters@.len(),
                bi < parameters_blocks@.len(),
                *block == parameters_blocks@[bi as int],
                ctx.wf(),
                total == parameter_blocks_fold(
                    parameters_fold(
                        (parameters@, ctx.logs_view()),
                        block.parameters@.subrange(pi as int, block.parameters@.len() as int),
                    ),
                    parameters_blocks@.subrange(bi + 1, parameters_blocks@.len() as int),
                ),
            decreases block.parameters@.len() - pi,
        {
            let ghost decls = block.parameters@.subrange(pi as int, block.parameters@.len() as int);
            proof {
                assert(decls[0] == block.parameters@[pi as int]);
                assert(decls.drop_first() =~= block.parameters@.subrange(
                    pi + 1,
                    block.parameters@.len() as int,
                ));
            }
            let compiled = compile_parameter(ctx, &block.parameters[pi], &parameters);
            match compiled {
                Some(p) => {
                    parameters.push(p);
                },
                None => {},
            }
            pi = pi + 1;
        }
        bi = bi + 1;
    }
    success(parameters)
}

/// Compiles one declaration against the parameters declared before it.
#[verifier::loop_isolation(false)]
pub fn compile_parameter(ctx: &mut Context, decl_parameter: &DeclParameter, declared: &Vec<Parameter>) -> (r:
    Compiled<Parameter>)
    requires
        old(ctx).wf(),
    ensures
        final(ctx).wf(),
        ({
            let (p, e) = parameter_step(declared@, *decl_parameter);
            &&& r == p
            &&& final(ctx).logs_view() == match e {
                Some(t) => old(ctx).logs_view().push(error_entry(t)),
                None => old(ctx).logs_view(),
            }
        }),
{
    let name = decl_parameter.name.clone();
    let value_type = match decl_parameter.ty {
        DeclParameterType::Int(dv) => ParameterType::Int(
            match dv {
                Some(v) => v,
                None => 0,
            },
        ),
        DeclParameterType::Float(dv) => ParameterType::Float(
            match dv {
                Some(v) => v,
                None => 0,
            },
        ),
        DeclParameterType::Bool(dv) => ParameterType::Bool(
            match dv {
                Some(v) => v,
                None => false,
            },
        ),
    };
    let scope = match (decl_parameter.scope, decl_parameter.save) {
        (Some(DeclParameterScope::Internal), Some(true)) => {
            ctx.log_error(LogKind::InternalMustBeTransient(decl_parameter.name.clone()));
            return failure();
        },
        (Some(DeclParameterScope::Internal), _) => ParameterScope::Internal,
        (Some(DeclParameterScope::Local), None) => ParameterScope::Local(false),
        (Some(DeclParameterScope::Local), Some(saved)) => ParameterScope::Local(saved),
        (_, None) => ParameterScope::Synced(false),
        (_, Some(saved)) => ParameterScope::Synced(saved),
    };

    let mut i: usize = 0;
    while i < declared.len()
        invariant
            i <= declared@.len(),
            forall|j: int| 0 <= j < i ==> parameter_names(declared@)[j] != decl_parameter.name@,
            *ctx == *old(ctx),
        decreases declared@.len() - i,
    {
        let defined = &declared[i];
        if str_equal(defined.name.as_str(), decl_parameter.name.as_str()) {
            proof {
                lemma_first_index_found(parameter_names(declared@), decl_parameter.name@, i as int);
            }
            if defined.value_type != value_type || defined.scope != scope {
                ctx.log_error(LogKind::IncompatibleParameterDeclaration(decl_parameter.name.clone()));
            }
            return failure();
        }
        i = i + 1;
    }
    proof {
        lemma_first_index_absent(parameter_names(declared@), decl_parameter.name@);
    }

    success(Parameter { name, value_type, scope })
}


/// Whether no two parameters share a name.
pub open spec fn names_distinct(ps: Seq<Parameter>) -> bool {
    forall|i: int, j: int| 0 <= i < j < ps.len() ==> (#[trigger] ps[i]).name@ != (#[trigger] ps[j]).name@
}

proof fn lemma_step_keeps_names_distinct(declared: Seq<Parameter>, d: DeclParameter)
    requires
        names_distinct(declared),
    ensures
        parameter_step(declared, d).0 matches Some(p) ==> names_distinct(declared.push(p)),
{
    lemma_first_index_properties(parameter_names(declared), d.name@);
    if let (Some(p), _) = parameter_step(declared, d) {
        let n = declared.push(p);
        assert forall|i: int, j: int| 0 <= i < j < n.len() implies (#[trigger] n[i]).name@ != (#[trigger] n[j]).name@ by {
            assert(n[i] == declared[i]);
            if j < declared.len() {
                assert(n[j] == declared[j]);
            } else {
                assert(parameter_names(declared)[i] == declared[i].name@);
            }
        }
    }
}

proof fn lemma_fold_keeps_names_distinct(acc: (Seq<Parameter>, Seq<(LogLevel, Seq<char>)>), decls: Seq<DeclParameter>)
    requires
        names_distinct(acc.0),
    ensures
        names_distinct(parameters_fold(acc, decls).0),
    decreases decls.len(),
{
    if decls.len() > 0 {
        let (p, e) = parameter_step(acc.0, decls[0]);
        let params = match p {
            Some(p) => acc.0.push(p),
            None => acc.0,
        };
        let logs = match e {
            Some(t) => acc.1.push(error_entry(t)),
            None => acc.1,
        };
        lemma_step_keeps_names_distinct(acc.0, decls[0]);
        lemma_fold_keeps_names_distinct((params, logs), decls.drop_first());
    }
}

/// No two compiled parameters share a name: a later declaration of a name is dropped,
/// whether or not it agrees with the first.
pub proof fn lemma_parameter_names_distinct(acc: (Seq<Parameter>, Seq<(LogLevel, Seq<char>)>), blocks: Seq<DeclParameters>)
    requires
        names_distinct(acc.0),
    ensures
        names_distinct(parameter_blocks_fold(acc, blocks).0),
    decreases blocks.len(),
{
    if blocks.len() > 0 {
        lemma_fold_keeps_names_distinct(acc, blocks[0].parameters@);
        lemma_parameter_names_distinct(parameters_fold(acc, blocks[0].parameters@), blocks.drop_first());
    }
}

/// A parameter declaration adds a parameter exactly when it is not an internal parameter asked
/// to be saved and no earlier parameter has its name. The parameter keeps the name, takes the
/// declared type with the declared default (else zero, 0.0 or false), and is internal, local or
/// (without a scope) synced as declared, saved exactly when `save` is set.
pub proof fn lemma_parameter_keeps_its_declaration(declared: Seq<Parameter>, d: DeclParameter)
    ensures
        parameter_step(declared, d).0 is Some <==> !(d.scope == Some(DeclParameterScope::Internal) && d.save
            == Some(true)) && forall|i: int| 0 <= i < declared.len() ==> (#[trigger] declared[i]).name@ != d.name@,
        parameter_step(declared, d).0 matches Some(p) ==> {
            &&& p.name@ == d.name@
            &&& match d.ty {
                DeclParameterType::Int(Some(x)) => p.value_type == ParameterType::Int(x),
                DeclParameterType::Int(None) => p.value_type == ParameterType::Int(0),
                DeclParameterType::Float(Some(x)) => p.value_type == ParameterType::Float(x),
                DeclParameterType::Float(None) => p.value_type == ParameterType::Float(0),
                DeclParameterType::Bool(Some(x)) => p.value_type == ParameterType::Bool(x),
                DeclParameterType::Bool(None) => p.value_type == ParameterType::Bool(false),
            }
            &&& match d.scope {
                Some(DeclParameterScope::Internal) => p.scope == ParameterScope::Internal,
                Some(DeclParameterScope::Local) => p.scope == ParameterScope::Local(d.save == Some(true)),
                _ => p.scope == ParameterScope::Synced(d.save == Some(true)),
            }
        },
{
    lemma_first_index_properties(parameter_names(declared), d.name@);
    assert forall|i: int| 0 <= i < declared.len() implies parameter_names(declared)[i] == (#[trigger] declared[i]).name@ by {}
}

} // verus!

//! Compiles the parameter blocks of an avatar.
use vstd::prelude::*;

use crate::avatar_v2::data::parameter::{
    parameter_basename, vrchat_parameter_name, DeclaredParameter, Parameter, ParameterScope,
    ParameterType, PhysBoneParameterKind, ProvidedParameter, VrchatParameterKind,
};
use crate::avatar_v2::logger::{Log, LogView, Logger};
use crate::avatar_v2::transformer::{failure, success, Compiled};
use crate::decl_v2::data::{
    DeclParameter, DeclParameters, DeclPrimitiveParameter, DeclPrimitiveParameterScope,
    DeclPrimitiveParameterType, DeclProvidedParameterKind,
};
use crate::text::{concat2, decimal, usize_to_decimal};

verus! {

/// A parameter with its strings as sequences.
pub enum ParameterView {
    Declared {
        name: Seq<char>,
        value_type: ParameterType,
        scope: ParameterScope,
        unique: bool,
        explicit_default: bool,
    },
    Vrchat(VrchatParameterKind),
    PhysBone(Seq<char>),
}

pub open spec fn parameter_view(p: Parameter) -> ParameterView {
    match p {
        Parameter::Declared(d) => ParameterView::Declared {
            name: d.name@,
            value_type: d.value_type,
            scope: d.scope,
            unique: d.unique,
            explicit_default: d.explicit_default,
        },
        Parameter::Provided(ProvidedParameter::Vrchat(k)) => ParameterView::Vrchat(k),
        Parameter::Provided(ProvidedParameter::PhysBone(prefix)) => ParameterView::PhysBone(prefix@),
    }
}

pub open spec fn parameters_view(ps: Seq<Parameter>) -> Seq<ParameterView> {
    ps.map_values(|p: Parameter| parameter_view(p))
}

pub open spec fn view_basename(v: ParameterView) -> Seq<char> {
    match v {
        ParameterView::Declared { name, .. } => name,
        ParameterView::Vrchat(k) => vrchat_parameter_name(k),
        ParameterView::PhysBone(prefix) => prefix,
    }
}

/// The type of a declared parameter, and whether its default was written out.
pub open spec fn declared_type(ty: DeclPrimitiveParameterType) -> (ParameterType, bool) {
    match ty {
        DeclPrimitiveParameterType::Int(dv) => match dv {
            Some(v) => (ParameterType::Int(v), true),
            None => (ParameterType::Int(0), false),
        },
        DeclPrimitiveParameterType::Float(dv) => match dv {
            Some(v) => (ParameterType::Float(v), true),
            None => (ParameterType::Float(0), false),
        },
        DeclPrimitiveParameterType::Bool(dv) => match dv {
            Some(v) => (ParameterType::Bool(v), true),
            None => (ParameterType::Bool(false), false),
        },
    }
}

/// The scope of a declared parameter: synced unless said otherwise, saved where `save` says;
/// an internal parameter cannot be saved.
pub open spec fn declared_scope(scope: Option<DeclPrimitiveParameterScope>, save: Option<bool>) -> Option<
    ParameterScope,
> {
    match (scope, save) {
        (Some(DeclPrimitiveParameterScope::Internal), Some(true)) => None,
        (Some(DeclPrimitiveParameterScope::Internal), _) => Some(ParameterScope::Internal),
        (Some(DeclPrimitiveParameterScope::Local), None) => Some(ParameterScope::Local(false)),
        (Some(DeclPrimitiveParameterScope::Local), Some(saved)) => Some(ParameterScope::Local(saved)),
        (_, None) => Some(ParameterScope::Synced(false)),
        (_, Some(saved)) => Some(ParameterScope::Synced(saved)),
    }
}

/// How a declared parameter compiles against the parameters before it.
pub open spec fn primitive_spec(d: DeclPrimitiveParameter, declared: Seq<ParameterView>) -> Result<
    ParameterView,
    Seq<char>,
> {
    match declared_scope(d.scope, d.save) {
        None => Err("internal parameter '"@ + d.name@ + "' cannot be saved"@),
        Some(scope) => if exists|i: int|
            0 <= i < declared.len() && view_basename(#[trigger] declared[i]) == d.name@ {
            Err("parameter '"@ + d.name@ + "' has incompatible declarations"@)
        } else {
            Ok(
                ParameterView::Declared {
                    name: d.name@,
                    value_type: declared_type(d.ty).0,
                    scope,
                    unique: match d.unique {
                        Some(u) => u,
                        None => false,
                    },
                    explicit_default: declared_type(d.ty).1,
                },
            )
        },
    }
}

/// Compiles one declared parameter; a saved internal parameter, or a name already taken,
/// is an error.
#[verifier::loop_isolation(false)]
pub fn compile_primitive_parameter(
    logger: &mut Logger,
    decl_parameter: DeclPrimitiveParameter,
    declared: &Vec<Parameter>,
) -> (r: Compiled<Parameter>)
    requires
        old(logger).wf(),
    ensures
        final(logger).wf(),
        final(logger).open_contexts() == old(logger).open_contexts(),
        final(logger).log_view() == old(logger).logs_after(
            primitive_spec(decl_parameter, parameters_view(declared@)),
        ),
        match primitive_spec(decl_parameter, parameters_view(declared@)) {
            Ok(v) => r matches Some(p) && parameter_view(p) == v,
            Err(_) => r is None,
        },
{
    let ghost d = decl_parameter;
    let (value_type, explicit_default) = match decl_parameter.ty {
        DeclPrimitiveParameterType::Int(dv) => match dv {
            Some(v) => (ParameterType::Int(v), true),
            None => (ParameterType::Int(0), false),
        },
        DeclPrimitiveParameterType::Float(dv) => match dv {
            Some(v) => (ParameterType::Float(v), true),
            None => (ParameterType::Float(0), false),
        },
        DeclPrimitiveParameterType::Bool(dv) => match dv {
            Some(v) => (ParameterType::Bool(v), true),
            None => (ParameterType::Bool(false), false),
        },
    };
    let scope = match (decl_parameter.scope, decl_parameter.save) {
        (Some(DeclPrimitiveParameterScope::Internal), Some(true)) => {
            logger.log(Log::InternalMustBeTransient(decl_parameter.name));
            return failure();
        },
        (Some(DeclPrimitiveParameterScope::Internal), _) => ParameterScope::Internal,
        (Some(DeclPrimitiveParameterScope::Local), None) => ParameterScope::Local(false),
        (Some(DeclPrimitiveParameterScope::Local), Some(saved)) => ParameterScope::Local(saved),
        (_, None) => ParameterScope::Synced(false),
        (_, Some(saved)) => ParameterScope::Synced(saved),
    };
    let mut i: usize = 0;
    while i < declared.len()
        invariant
            i <= declared@.len(),
            *logger == *old(logger),
            forall|j: int|
                0 <= j < i ==> view_basename(#[trigger] parameters_view(declared@)[j]) != d.name@,
        decreases declared@.len() - i,
    {
        let basename = declared[i].basename();
        proof {
            assert(parameters_view(declared@)[i as int] == parameter_view(declared@[i as int]));
            assert(view_basename(parameter_view(declared@[i as int])) == parameter_basename(
                declared@[i as int],
            ));
        }
        if crate::avatar::transformer::dependencies::str_equal(basename, decl_parameter.name.as_str()) {
            logger.log(Log::IncompatibleParameterDeclaration(decl_parameter.name));
            return failure();
        }
        i = i + 1;
    }
    let unique = match decl_parameter.unique {
        Some(u) => u,
        None => false,
    };
    success(
        Parameter::Declared(
            DeclaredParameter {
                name: decl_parameter.name,
                value_type,
                scope,
                unique,
                explicit_default,
            },
        ),
    )
}

/// The parameters that VRChat provides, one for each kind, in order.
pub fn compile_vrc_parameters(kinds: Vec<DeclProvidedParameterKind>) -> (r: Compiled<Vec<Parameter>>)
    ensures
        r matches Some(ps) && parameters_view(ps@) == kinds@.map_values(
            |k: VrchatParameterKind| ParameterView::Vrchat(k),
        ),
{
    let mut parameters: Vec<Parameter> = Vec::new();
    let mut i: usize = 0;
    while i < kinds.len()
        invariant
            i <= kinds@.len(),
            parameters_view(parameters@) == kinds@.subrange(0, i as int).map_values(
                |k: VrchatParameterKind| ParameterView::Vrchat(k),
            ),
        decreases kinds@.len() - i,
    {
        let p = Parameter::Provided(ProvidedParameter::Vrchat(kinds[i]));
        let ghost before = parameters@;
        parameters.push(p);
        proof {
            assert(parameters_view(parameters@) =~= kinds@.subrange(0, i + 1).map_values(
                |k: VrchatParameterKind| ParameterView::Vrchat(k),
            )) by {
                assert(parameters@ =~= before.push(p));
                assert(parameters_view(before.push(p)) =~= parameters_view(before).push(
                    parameter_view(p),
                ));
            }
        }
        i = i + 1;
    }
    proof {
        assert(kinds@.subrange(0, kinds@.len() as int) =~= kinds@);
    }
    success(parameters)
}

/// The parameter that a PhysBone with this prefix provides.
pub fn compile_physbone_parameters(prefix: String) -> (r: Compiled<Parameter>)
    ensures
        r matches Some(p) && parameter_view(p) == ParameterView::PhysBone(prefix@),
{
    success(Parameter::Provided(ProvidedParameter::PhysBone(prefix)))
}

pub type ParametersAcc = (Seq<ParameterView>, Seq<LogView>);

/// How the items of one block compile, in the contexts `contexts`.
pub open spec fn parameter_items_fold(
    contexts: Seq<Seq<char>>,
    acc: ParametersAcc,
    items: Seq<DeclParameter>,
) -> ParametersAcc
    decreases items.len(),
{
    if items.len() == 0 {
        acc
    } else {
        let next = match items[0] {
            DeclParameter::Primitive(d) => match primitive_spec(d, acc.0) {
                Ok(v) => (acc.0.push(v), acc.1),
                Err(t) => (acc.0, acc.1.push((t, contexts))),
            },
            DeclParameter::Provided(kinds) => (
                acc.0 + kinds@.map_values(|k: VrchatParameterKind| ParameterView::Vrchat(k)),
                acc.1,
            ),
            DeclParameter::PhysBone(pb) => (acc.0.push(ParameterView::PhysBone(pb.prefix@)), acc.1),
        };
        parameter_items_fold(contexts, next, items.drop_first())
    }
}

pub open spec fn block_context(what: Seq<char>, index: int) -> Seq<char> {
    what + decimal(index as nat)
}

/// How the blocks compile, numbered from `index`; each block's items are reported inside
/// "parameters block N".
pub open spec fn parameter_blocks_fold(
    contexts: Seq<Seq<char>>,
    acc: ParametersAcc,
    blocks: Seq<DeclParameters>,
    index: int,
) -> ParametersAcc
    decreases blocks.len(),
{
    if blocks.len() == 0 {
        acc
    } else {
        let inner = contexts.push(block_context("parameters block "@, index));
        parameter_blocks_fold(
            contexts,
            parameter_items_fold(inner, acc, blocks[0].parameters@),
            blocks.drop_first(),
            index + 1,
        )
    }
}

/// Compiles every parameter of every block in order; a declared parameter that fails is left out.
#[verifier::loop_isolation(false)]
pub fn compile_parameters_blocks(logger: &mut Logger, parameters_blocks: Vec<DeclParameters>) -> (r:
    Compiled<Vec<Parameter>>)
    requires
        old(logger).wf(),
        parameters_blocks@.len() < usize::MAX,
    ensures
        final(logger).wf(),
        final(logger).open_contexts() == old(logger).open_contexts(),
        ({
            let (ps, logs) = parameter_blocks_fold(
                old(logger).open_contexts(),
                (Seq::empty(), old(logger).log_view()),
                parameters_blocks@,
                0,
            );
            &&& r matches Some(v) && parameters_view(v@) == ps
            &&& final(logger).log_view() == logs
        }),
{
    let ghost outer = logger.open_contexts();
    let mut parameters: Vec<Parameter> = Vec::new();
    let mut blocks = parameters_blocks;
    let mut index: usize = 0;
    let ghost total = parameter_blocks_fold(
        outer,
        (Seq::empty(), logger.log_view()),
        blocks@,
        0,
    );
    proof {
        assert(parameters_view(parameters@) =~= Seq::<ParameterView>::empty());
    }
    while blocks.len() > 0
        invariant
            logger.wf(),
            logger.open_contexts() == outer,
            index + blocks@.len() == parameters_blocks@.len(),
            total == parameter_blocks_fold(
                outer,
                (parameters_view(parameters@), logger.log_view()),
                blocks@,
                index as int,
            ),
        decreases blocks@.len(),
    {
        let ghost before = blocks@;
        let mut block = blocks.remove(0);
        proof {
            assert(blocks@ =~= before.drop_first());
        }
        let context = concat2("parameters block ", usize_to_decimal(index).as_str());
        let ghost inner = outer.push(context@);
        logger.push_context(context);
        let ghost block_total = parameter_items_fold(
            inner,
            (parameters_view(parameters@), logger.log_view()),
            block.parameters@,
        );
        while block.parameters.len() > 0
            invariant
                logger.wf(),
                logger.open_contexts() == inner,
                block_total == parameter_items_fold(
                    inner,
                    (parameters_view(parameters@), logger.log_view()),
                    block.parameters@,
                ),
            decreases block.parameters@.len(),
        {
            let ghost items_before = block.parameters@;
            let ghost views_before = parameters_view(parameters@);
            let parameter = block.parameters.remove(0);
            proof {
                assert(block.parameters@ =~= items_before.drop_first());
            }
            match parameter {
                DeclParameter::Primitive(decl_primitive) => {
                    match compile_primitive_parameter(logger, decl_primitive, &parameters) {
                        Some(p) => {
                            parameters.push(p);
                            proof {
                                assert(parameters_view(parameters@) =~= views_before.push(
                                    parameter_view(p),
                                ));
                            }
                        },
                        None => {},
                    }
                },
                DeclParameter::Provided(vrc_kinds) => {
                    let ghost kinds = vrc_kinds@;
                    match compile_vrc_parameters(vrc_kinds) {
                        Some(vrc_parameters) => {
                            let ghost added = vrc_parameters@;
                            let mut vrc_parameters = vrc_parameters;
                            parameters.append(&mut vrc_parameters);
                            proof {
                                assert(parameters_view(parameters@) =~= views_before
                                    + parameters_view(added));
                            }
                        },
                        None => {},
                    }
                },
                DeclParameter::PhysBone(pb_prefix) => {
                    match compile_physbone_parameters(pb_prefix.prefix) {
                        Some(p) => {
                            parameters.push(p);
                            proof {
                                assert(parameters_view(parameters@) =~= views_before.push(
                                    parameter_view(p),
                                ));
                            }
                        },
                        None => {},
                    }
                },
            }
        }
        logger.pop_context();
        proof {
            assert(block.parameters@ =~= Seq::<DeclParameter>::empty());
            assert(context@ == block_context("parameters block "@, index as int));
        }
        index = index + 1;
    }
    success(parameters)
}


/// Whether no declared parameter takes the name of a parameter before it.
pub open spec fn declared_names_fresh(ps: Seq<ParameterView>) -> bool {
    forall|i: int, j: int|
        0 <= j < i < ps.len() && (#[trigger] ps[i]) is Declared ==> view_basename(#[trigger] ps[j])
            != view_basename(ps[i])
}

proof fn lemma_items_keep_names_fresh(contexts: Seq<Seq<char>>, acc: ParametersAcc, items: Seq<DeclParameter>)
    requires
        declared_names_fresh(acc.0),
    ensures
        declared_names_fresh(parameter_items_fold(contexts, acc, items).0),
    decreases items.len(),
{
    if items.len() > 0 {
        let next = match items[0] {
            DeclParameter::Primitive(d) => match primitive_spec(d, acc.0) {
                Ok(v) => (acc.0.push(v), acc.1),
                Err(t) => (acc.0, acc.1.push((t, contexts))),
            },
            DeclParameter::Provided(kinds) => (
                acc.0 + kinds@.map_values(|k: VrchatParameterKind| ParameterView::Vrchat(k)),
                acc.1,
            ),
            DeclParameter::PhysBone(pb) => (acc.0.push(ParameterView::PhysBone(pb.prefix@)), acc.1),
        };
        let ps = acc.0;
        let n = next.0;
        assert(declared_names_fresh(n)) by {
            assert forall|i: int, j: int| 0 <= j < i < n.len() && (#[trigger] n[i]) is Declared implies view_basename(
                #[trigger] n[j],
            ) != view_basename(n[i]) by {
                assert(n[j] == ps[j]);
                if i < ps.len() {
                    assert(n[i] == ps[i]);
                } else {
                    match items[0] {
                        DeclParameter::Primitive(d) => {
                            assert(n[i] == primitive_spec(d, ps)->Ok_0);
                            assert(view_basename(n[i]) == d.name@);
                            if view_basename(ps[j]) == d.name@ {
                                assert(exists|k: int| 0 <= k < ps.len() && view_basename(#[trigger] ps[k]) == d.name@);
                            }
                        },
                        DeclParameter::Provided(kinds) => {
                            assert(n[i] == ParameterView::Vrchat(kinds@[i - ps.len()]));
                        },
                        DeclParameter::PhysBone(pb) => {},
                    }
                }
            }
        }
        lemma_items_keep_names_fresh(contexts, next, items.drop_first());
    }
}

/// No two declared parameters share a name, and none takes the name of a parameter that
/// the platform provides before it: a name already taken is refused.
pub proof fn lemma_declared_parameter_names_fresh(
    contexts: Seq<Seq<char>>,
    acc: ParametersAcc,
    blocks: Seq<DeclParameters>,
    index: int,
)
    requires
        declared_names_fresh(acc.0),
    ensures
        declared_names_fresh(parameter_blocks_fold(contexts, acc, blocks, index).0),
    decreases blocks.len(),
{
    if blocks.len() > 0 {
        let inner = contexts.push(block_context("parameters block "@, index));
        lemma_items_keep_names_fresh(inner, acc, blocks[0].parameters@);
        lemma_declared_parameter_names_fresh(
            contexts,
            parameter_items_fold(inner, acc, blocks[0].parameters@),
            blocks.drop_first(),
            index + 1,
        );
    }
}


/// A declared parameter keeps what it was declared with: its name; its type with the default
/// written out (an int, float or bool of that value), or the zero of its type where none is,
/// and whether one was written; the scope asked for (synced where none is), saved as asked
/// (not where nothing is said); and whether it is unique (not where nothing is said). It is
/// refused exactly when it is internal and asked to be saved, or when its name is taken.
pub proof fn lemma_declared_parameter_keeps_its_declaration(d: DeclPrimitiveParameter, declared: Seq<ParameterView>)
    ensures
        primitive_spec(d, declared) is Ok <==> !(d.scope == Some(DeclPrimitiveParameterScope::Internal) && d.save
            == Some(true)) && forall|i: int| 0 <= i < declared.len() ==> view_basename(#[trigger] declared[i]) != d.name@,
        primitive_spec(d, declared) matches Ok(v) ==> v matches ParameterView::Declared {
            name,
            value_type,
            scope,
            unique,
            explicit_default,
        } && name == d.name@ && match d.ty {
            DeclPrimitiveParameterType::Int(Some(x)) => value_type == ParameterType::Int(x) && explicit_default,
            DeclPrimitiveParameterType::Int(None) => value_type == ParameterType::Int(0) && !explicit_default,
            DeclPrimitiveParameterType::Float(Some(x)) => value_type == ParameterType::Float(x) && explicit_default,
            DeclPrimitiveParameterType::Float(None) => value_type == ParameterType::Float(0) && !explicit_default,
            DeclPrimitiveParameterType::Bool(Some(x)) => value_type == ParameterType::Bool(x) && explicit_default,
            DeclPrimitiveParameterType::Bool(None) => value_type == ParameterType::Bool(false) && !explicit_default,
        } && match d.scope {
            Some(DeclPrimitiveParameterScope::Internal) => scope == ParameterScope::Internal,
            Some(DeclPrimitiveParameterScope::Local) => scope == ParameterScope::Local(d.save == Some(true)),
            _ => scope == ParameterScope::Synced(d.save == Some(true)),
        } && unique == (d.unique == Some(true)),
{
}

} // verus!

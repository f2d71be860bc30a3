//! Exports: gates that other components may open, and the parameters that guard them.
use vstd::prelude::*;

use crate::avatar_v2::data::export::ExportItem;
use crate::avatar_v2::data::parameter::{ParameterQuery, ParameterType};
use crate::avatar_v2::logger::{Log, LogView, Logger};
use crate::avatar_v2::transformer::{failure, query_outcome, success, Compiled, FirstPassData, QueryView};
use crate::decl_v2::data::{DeclExport, DeclExports};
use crate::text::{concat2, decimal, usize_to_decimal};

verus! {

/// The gates that the exports declare, in order.
pub open spec fn declared_gates(exports: Seq<DeclExport>) -> Seq<Seq<char>>
    decreases exports.len(),
{
    if exports.len() == 0 {
        Seq::empty()
    } else {
        let rest = declared_gates(exports.drop_first());
        match exports[0] {
            DeclExport::Gate(name) => seq![name@] + rest,
            DeclExport::Guard(_, _) => rest,
        }
    }
}

/// The gates that every exports block declares, block after block.
pub open spec fn blocks_declared_gates(blocks: Seq<DeclExports>) -> Seq<Seq<char>>
    decreases blocks.len(),
{
    if blocks.len() == 0 {
        Seq::empty()
    } else {
        declared_gates(blocks[0].exports@) + blocks_declared_gates(blocks.drop_first())
    }
}

/// The gates that the exports blocks declare, in order.
pub fn first_pass_exports_blocks(_logger: &Logger, exports_blocks: &Vec<DeclExports>) -> (r: Compiled<
    Vec<String>,
>)
    ensures
        r matches Some(gates) && gates@.map_values(|g: String| g@) == blocks_declared_gates(exports_blocks@),
{
    let blocks = exports_blocks;
    let ghost total = blocks_declared_gates(blocks@);
    let mut gates: Vec<String> = Vec::new();
    let mut i: usize = 0;
    proof {
        assert(blocks@.subrange(0, blocks@.len() as int) =~= blocks@);
        assert(gates@.map_values(|g: String| g@) + total =~= total);
    }
    while i < blocks.len()
        invariant
            i <= blocks@.len(),
            total == blocks_declared_gates(blocks@),
            gates@.map_values(|g: String| g@) + blocks_declared_gates(blocks@.subrange(i as int, blocks@.len() as int))
                == total,
        decreases blocks@.len() - i,
    {
        let ghost rest_blocks = blocks@.subrange(i as int, blocks@.len() as int);
        proof {
            assert(rest_blocks[0] == blocks@[i as int]);
            assert(rest_blocks.drop_first() =~= blocks@.subrange(i + 1, blocks@.len() as int));
        }
        let exports = &blocks[i].exports;
        let mut j: usize = 0;
        proof {
            assert(exports@.subrange(0, exports@.len() as int) =~= exports@);
        }
        while j < exports.len()
            invariant
                i < blocks@.len(),
                j <= exports@.len(),
                exports@ == blocks@[i as int].exports@,
                gates@.map_values(|g: String| g@) + declared_gates(exports@.subrange(j as int, exports@.len() as int))
                    + blocks_declared_gates(blocks@.subrange(i + 1, blocks@.len() as int)) == total,
            decreases exports@.len() - j,
        {
            let ghost rest = exports@.subrange(j as int, exports@.len() as int);
            let ghost before = gates@;
            proof {
                assert(rest[0] == exports@[j as int]);
                assert(rest.drop_first() =~= exports@.subrange(j + 1, exports@.len() as int));
            }
            if let DeclExport::Gate(name) = &exports[j] {
                gates.push(name.clone());
                proof {
                    assert(gates@.map_values(|g: String| g@) =~= before.map_values(|g: String| g@).push(name@));
                    assert(before.map_values(|g: String| g@).push(name@) + declared_gates(rest.drop_first())
                        =~= before.map_values(|g: String| g@) + declared_gates(rest));
                }
            }
            j = j + 1;
        }
        proof {
            assert(exports@.subrange(exports@.len() as int, exports@.len() as int) =~= Seq::<DeclExport>::empty());
            assert(gates@.map_values(|g: String| g@) + declared_gates(Seq::<DeclExport>::empty())
                =~= gates@.map_values(|g: String| g@));
        }
        i = i + 1;
    }
    proof {
        assert(blocks@.subrange(blocks@.len() as int, blocks@.len() as int) =~= Seq::<DeclExports>::empty());
        assert(gates@.map_values(|g: String| g@) + Seq::<Seq<char>>::empty() =~= gates@.map_values(|g: String| g@));
    }
    success(gates)
}

/// An export item with its strings as sequences.
pub enum ExportView {
    Gate(Seq<char>),
    Guard(Seq<char>, Seq<char>),
}

pub open spec fn export_view(e: ExportItem) -> ExportView {
    match e {
        ExportItem::Gate { name } => ExportView::Gate(name@),
        ExportItem::Guard { gate, parameter } => ExportView::Guard(gate@, parameter@),
    }
}

pub open spec fn invalid_guard_text(parameter: Seq<char>) -> Seq<char> {
    "parameter '"@ + parameter + "' is unique and cannot guard a gate"@
}

/// How an export compiles: a gate as it is; a guard needs a readable bool parameter of that
/// name that is not unique.
pub open spec fn export_spec(
    fp: FirstPassData,
    e: DeclExport,
    logs: Seq<LogView>,
    contexts: Seq<Seq<char>>,
) -> (Option<ExportView>, Seq<LogView>) {
    match e {
        DeclExport::Gate(name) => (Some(ExportView::Gate(name@)), logs),
        DeclExport::Guard(gate, parameter) => match query_outcome(
            fp.parameters_view(),
            QueryView::Declared(parameter@),
            ParameterType::Bool(false),
            false,
        ) {
            Err(t) => (None, logs.push((t, contexts))),
            Ok(q) => if q.2 {
                (None, logs.push((invalid_guard_text(parameter@), contexts)))
            } else {
                (Some(ExportView::Guard(gate@, parameter@)), logs)
            },
        },
    }
}

/// Compiles an export (see `export_spec`).
pub fn compile_export(logger: &mut Logger, first_pass: &FirstPassData, decl_export: DeclExport) -> (r:
    Compiled<ExportItem>)
    requires
        old(logger).wf(),
    ensures
        final(logger).wf(),
        final(logger).open_contexts() == old(logger).open_contexts(),
        ({
            let (v, logs) = export_spec(*first_pass, decl_export, old(logger).log_view(), old(logger).open_contexts());
            &&& final(logger).log_view() == logs
            &&& match v {
                Some(ev) => r matches Some(e) && export_view(e) == ev,
                None => r is None,
            }
        }),
{
    match decl_export {
        DeclExport::Gate(name) => success(ExportItem::Gate { name }),
        DeclExport::Guard(gate, parameter) => {
            let query = ParameterQuery::Declared(parameter.clone());
            match first_pass.find_read_parameter(logger, &query, ParameterType::bool_type()) {
                Some(q) => {
                    if q.unique {
                        logger.log(Log::GateInvalidParameter(parameter));
                        failure()
                    } else {
                        success(ExportItem::Guard { gate, parameter })
                    }
                },
                None => failure(),
            }
        },
    }
}

pub type ExportsAcc = (Seq<ExportView>, Seq<LogView>);

/// The exports of a block, one after another: those that fail are left out.
pub open spec fn exports_fold(
    fp: FirstPassData,
    contexts: Seq<Seq<char>>,
    acc: ExportsAcc,
    es: Seq<DeclExport>,
) -> ExportsAcc
    decreases es.len(),
{
    if es.len() == 0 {
        acc
    } else {
        let (v, l) = export_spec(fp, es[0], acc.1, contexts);
        let next = match v {
            Some(ev) => (acc.0.push(ev), l),
            None => (acc.0, l),
        };
        exports_fold(fp, contexts, next, es.drop_first())
    }
}

pub open spec fn exports_context(index: int) -> Seq<char> {
    "exports block "@ + decimal(index as nat)
}

/// The exports blocks, numbered from `index`, each reported inside "exports block INDEX".
pub open spec fn exports_blocks_fold(
    fp: FirstPassData,
    contexts: Seq<Seq<char>>,
    acc: ExportsAcc,
    blocks: Seq<DeclExports>,
    index: int,
) -> ExportsAcc
    decreases blocks.len(),
{
    if blocks.len() == 0 {
        acc
    } else {
        let next = exports_fold(fp, contexts.push(exports_context(index)), acc, blocks[0].exports@);
        exports_blocks_fold(fp, contexts, next, blocks.drop_first(), index + 1)
    }
}

pub open spec fn exports_view(es: Seq<ExportItem>) -> Seq<ExportView> {
    es.map_values(|e: ExportItem| export_view(e))
}

#[verifier::loop_isolation(false)]
fn compile_block_exports(
    logger: &mut Logger,
    first_pass: &FirstPassData,
    decl_exports: Vec<DeclExport>,
    items: &mut Vec<ExportItem>,
)
    requires
        old(logger).wf(),
    ensures
        final(logger).wf(),
        final(logger).open_contexts() == old(logger).open_contexts(),
        (exports_view(final(items)@), final(logger).log_view()) == exports_fold(
            *first_pass,
            old(logger).open_contexts(),
            (exports_view(old(items)@), old(logger).log_view()),
            decl_exports@,
        ),
{
    let ghost ctx = logger.open_contexts();
    let ghost total = exports_fold(*first_pass, ctx, (exports_view(items@), logger.log_view()), decl_exports@);
    let mut decl_exports = decl_exports;
    while decl_exports.len() > 0
        invariant
            logger.wf(),
            logger.open_contexts() == ctx,
            total == exports_fold(*first_pass, ctx, (exports_view(items@), logger.log_view()), decl_exports@),
        decreases decl_exports@.len(),
    {
        let ghost before = decl_exports@;
        let ghost before_items = items@;
        let e = decl_exports.remove(0);
        proof {
            assert(decl_exports@ =~= before.drop_first());
        }
        match compile_export(logger, first_pass, e) {
            Some(item) => {
                items.push(item);
                proof {
                    assert(exports_view(items@) =~= exports_view(before_items).push(export_view(item)));
                }
            },
            None => {},
        }
    }
}

/// Compiles the exports of every block (see `exports_blocks_fold`).
#[verifier::loop_isolation(false)]
pub fn compile_exports_blocks(
    logger: &mut Logger,
    first_pass: &FirstPassData,
    exports_blocks: Vec<DeclExports>,
) -> (r: Compiled<Vec<ExportItem>>)
    requires
        old(logger).wf(),
    ensures
        final(logger).wf(),
        final(logger).open_contexts() == old(logger).open_contexts(),
        ({
            let (es, logs) = exports_blocks_fold(
                *first_pass,
                old(logger).open_contexts(),
                (Seq::empty(), old(logger).log_view()),
                exports_blocks@,
                0,
            );
            &&& r matches Some(v) && exports_view(v@) == es
            &&& final(logger).log_view() == logs
        }),
{
    let ghost outer = logger.open_contexts();
    let mut items: Vec<ExportItem> = Vec::new();
    let mut blocks = exports_blocks;
    let n: usize = blocks.len();
    let mut index: usize = 0;
    let ghost total = exports_blocks_fold(*first_pass, outer, (Seq::empty(), logger.log_view()), blocks@, 0);
    proof {
        assert(exports_view(items@) =~= Seq::<ExportView>::empty());
    }
    while blocks.len() > 0
        invariant
            logger.wf(),
            logger.open_contexts() == outer,
            index + blocks@.len() == n,
            total == exports_blocks_fold(*first_pass, outer, (exports_view(items@), logger.log_view()), blocks@, index as int),
        decreases blocks@.len(),
    {
        let ghost before = blocks@;
        let block = blocks.remove(0);
        proof {
            assert(blocks@ =~= before.drop_first());
        }
        let digits = usize_to_decimal(index);
        logger.push_context(concat2("exports block ", digits.as_str()));
        compile_block_exports(logger, first_pass, block.exports, &mut items);
        logger.pop_context();
        proof {
            assert(logger.open_contexts() =~= outer);
        }
        index = index + 1;
    }
    success(items)
}

/// A gate export is kept as declared; a guard export keeps its gate and parameter and compiles
/// exactly when the parameter is a declared readable bool that is not unique.
pub proof fn lemma_export_keeps_its_declaration(
    fp: FirstPassData,
    e: DeclExport,
    logs: Seq<LogView>,
    contexts: Seq<Seq<char>>,
)
    ensures
        ({
            let (r, l) = export_spec(fp, e, logs, contexts);
            match e {
                DeclExport::Gate(name) => r == Some(ExportView::Gate(name@)) && l == logs,
                DeclExport::Guard(gate, parameter) => {
                    let q = query_outcome(
                        fp.parameters_view(),
                        QueryView::Declared(parameter@),
                        ParameterType::Bool(false),
                        false,
                    );
                    &&& (r is Some <==> q is Ok && !q->Ok_0.2)
                    &&& r is Some ==> r == Some(ExportView::Guard(gate@, parameter@)) && l == logs
                    &&& r is None ==> l.len() == logs.len() + 1
                }
            }
        }),
{
}

} // verus!

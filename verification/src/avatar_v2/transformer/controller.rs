//! The FX controller: its layers in the first pass, then compiled.
use vstd::prelude::*;

use crate::avatar_v2::data::layer::Layer;
use crate::avatar_v2::logger::{Log, LogView, Logger};
use crate::avatar_v2::transformer::first_pass::{
    declared_view, first_pass_group_layer, first_pass_puppet_layer, first_pass_raw_layer,
    first_pass_switch_layer, selection_names, state_names, DeclaredView,
};
use crate::avatar_v2::transformer::layer::{
    compile_group_layer, group_layer_spec, group_layer_well_formed, lemma_group_layer_view, layer_view,
    ContentView,
};
use crate::avatar_v2::transformer::raw::{compile_raw_layer, raw_layer_spec};
use crate::avatar_v2::transformer::switch_puppet::{
    compile_puppet_layer, compile_switch_layer, puppet_layer_spec, puppet_layer_well_formed,
    switch_layer_spec, switch_layer_well_formed,
};
use crate::avatar_v2::transformer::{success, Compiled, DeclaredLayer, FirstPassData};
use crate::decl_v2::data::{reference_name, DeclControllerLayer, DeclFxController};
use crate::text::{concat2, decimal, usize_to_decimal};

verus! {

/// What a layer declares in the first pass, if anything (see the first-pass functions).
pub open spec fn first_pass_view(l: DeclControllerLayer) -> Option<(Seq<char>, DeclaredView)> {
    match l {
        DeclControllerLayer::Group(g) => Some(
            (g.name@, DeclaredView::Group(reference_name(g.driven_by), selection_names(g.options@, 0))),
        ),
        DeclControllerLayer::Switch(s) => match (s.driven_by, s.with_gate) {
            (Some(db), None) => Some((s.name@, DeclaredView::Switch(reference_name(db)))),
            (None, Some(wg)) => Some((s.name@, DeclaredView::SwitchGate(wg@))),
            _ => None,
        },
        DeclControllerLayer::Puppet(p) => Some((p.name@, DeclaredView::Puppet(reference_name(p.driven_by)))),
        DeclControllerLayer::Raw(r) => Some((r.name@, DeclaredView::Raw(state_names(r.states@)))),
    }
}

/// What the layers declare, in order; layers that declare nothing are left out.
pub open spec fn declared_views(layers: Seq<DeclControllerLayer>) -> Seq<(Seq<char>, DeclaredView)>
    decreases layers.len(),
{
    if layers.len() == 0 {
        Seq::empty()
    } else {
        let rest = declared_views(layers.drop_first());
        match first_pass_view(layers[0]) {
            Some(v) => seq![v] + rest,
            None => rest,
        }
    }
}

/// What the layers of every block declare, block after block.
pub open spec fn blocks_declared_views(blocks: Seq<DeclFxController>) -> Seq<(Seq<char>, DeclaredView)>
    decreases blocks.len(),
{
    if blocks.len() == 0 {
        Seq::empty()
    } else {
        declared_views(blocks[0].layers@) + blocks_declared_views(blocks.drop_first())
    }
}

pub open spec fn declared_layers_view(ls: Seq<DeclaredLayer>) -> Seq<(Seq<char>, DeclaredView)> {
    ls.map_values(|l: DeclaredLayer| declared_view(l))
}

/// Group layers have fewer options than can be counted.
pub open spec fn first_pass_countable(blocks: Seq<DeclFxController>) -> bool {
    forall|i: int, j: int|
        0 <= i < blocks.len() && 0 <= j < blocks[i].layers@.len() ==> (#[trigger] blocks[i].layers@[j] matches DeclControllerLayer::Group(
            g,
        ) ==> g.options@.len() < usize::MAX)
}

fn first_pass_layer(logger: &Logger, decl_layer: &DeclControllerLayer) -> (r: Compiled<DeclaredLayer>)
    requires
        decl_layer matches DeclControllerLayer::Group(g) ==> g.options@.len() < usize::MAX,
    ensures
        match first_pass_view(*decl_layer) {
            Some(v) => r matches Some(l) && declared_view(l) == v,
            None => r is None,
        },
{
    match decl_layer {
        DeclControllerLayer::Group(g) => first_pass_group_layer(logger, g),
        DeclControllerLayer::Switch(s) => first_pass_switch_layer(logger, s),
        DeclControllerLayer::Puppet(p) => first_pass_puppet_layer(logger, p),
        DeclControllerLayer::Raw(r) => first_pass_raw_layer(logger, r),
    }
}

/// What the layers of every FX controller block declare, in order.
pub fn first_pass_fx_controller_blocks(logger: &Logger, fx_controller_blocks: &Vec<DeclFxController>) -> (r:
    Compiled<Vec<DeclaredLayer>>)
    requires
        first_pass_countable(fx_controller_blocks@),
    ensures
        r matches Some(ls) && declared_layers_view(ls@) == blocks_declared_views(fx_controller_blocks@),
{
    let blocks = fx_controller_blocks;
    let ghost total = blocks_declared_views(blocks@);
    let mut declared: Vec<DeclaredLayer> = Vec::new();
    let mut i: usize = 0;
    proof {
        assert(blocks@.subrange(0, blocks@.len() as int) =~= blocks@);
        assert(declared_layers_view(declared@) + blocks_declared_views(blocks@) =~= total);
    }
    while i < blocks.len()
        invariant
            i <= blocks@.len(),
            first_pass_countable(blocks@),
            total == blocks_declared_views(blocks@),
            declared_layers_view(declared@) + blocks_declared_views(blocks@.subrange(i as int, blocks@.len() as int))
                == total,
        decreases blocks@.len() - i,
    {
        let ghost rest_blocks = blocks@.subrange(i as int, blocks@.len() as int);
        proof {
            assert(rest_blocks[0] == blocks@[i as int]);
            assert(rest_blocks.drop_first() =~= blocks@.subrange(i + 1, blocks@.len() as int));
        }
        let layers = &blocks[i].layers;
        let mut j: usize = 0;
        proof {
            assert(layers@.subrange(0, layers@.len() as int) =~= layers@);
        }
        while j < layers.len()
            invariant
                i < blocks@.len(),
                j <= layers@.len(),
                first_pass_countable(blocks@),
                layers@ == blocks@[i as int].layers@,
                declared_layers_view(declared@) + declared_views(layers@.subrange(j as int, layers@.len() as int))
                    + blocks_declared_views(blocks@.subrange(i + 1, blocks@.len() as int)) == total,
            decreases layers@.len() - j,
        {
            let ghost rest = layers@.subrange(j as int, layers@.len() as int);
            let ghost before = declared@;
            proof {
                assert(rest[0] == layers@[j as int]);
                assert(rest.drop_first() =~= layers@.subrange(j + 1, layers@.len() as int));
                assert(blocks@[i as int].layers@[j as int] == layers@[j as int]);
            }
            match first_pass_layer(logger, &layers[j]) {
                Some(l) => {
                    declared.push(l);
                    proof {
                        assert(declared_layers_view(declared@) =~= declared_layers_view(before).push(declared_view(l)));
                        assert(declared_layers_view(before).push(declared_view(l)) + declared_views(rest.drop_first())
                            =~= declared_layers_view(before) + declared_views(rest));
                    }
                },
                None => {},
            }
            j = j + 1;
        }
        proof {
            assert(layers@.subrange(layers@.len() as int, layers@.len() as int) =~= Seq::<DeclControllerLayer>::empty());
            assert(declared_views(Seq::<DeclControllerLayer>::empty()) =~= Seq::<(Seq<char>, DeclaredView)>::empty());
            assert(declared_layers_view(declared@) + declared_views(layers@.subrange(j as int, layers@.len() as int))
                =~= declared_layers_view(declared@));
        }
        i = i + 1;
    }
    proof {
        assert(blocks@.subrange(blocks@.len() as int, blocks@.len() as int) =~= Seq::<DeclFxController>::empty());
        assert(declared_layers_view(declared@) + Seq::<(Seq<char>, DeclaredView)>::empty() =~= declared_layers_view(
            declared@,
        ));
    }
    success(declared)
}

/// How a layer compiles (see the spec of each kind of layer).
pub open spec fn compile_layer_spec(
    fp: FirstPassData,
    l: DeclControllerLayer,
    logs: Seq<LogView>,
    contexts: Seq<Seq<char>>,
) -> (Option<(Seq<char>, ContentView)>, Seq<LogView>) {
    match l {
        DeclControllerLayer::Group(g) => {
            let (v, lg) = group_layer_spec(fp, g, logs, contexts);
            (
                match v {
                    Some(gv) => Some((gv.0, ContentView::Group(gv.1, gv.2, gv.3))),
                    None => None,
                },
                lg,
            )
        },
        DeclControllerLayer::Switch(d) => switch_layer_spec(fp, d, logs, contexts),
        DeclControllerLayer::Puppet(d) => puppet_layer_spec(fp, d, logs, contexts),
        DeclControllerLayer::Raw(d) => raw_layer_spec(fp, d, logs, contexts),
    }
}

/// Every option kind is the one its layer expects.
pub open spec fn controller_layer_well_formed(l: DeclControllerLayer) -> bool {
    match l {
        DeclControllerLayer::Group(g) => group_layer_well_formed(g),
        DeclControllerLayer::Switch(d) => switch_layer_well_formed(d),
        DeclControllerLayer::Puppet(d) => puppet_layer_well_formed(d),
        DeclControllerLayer::Raw(_) => true,
    }
}

pub open spec fn controller_blocks_well_formed(blocks: Seq<DeclFxController>) -> bool {
    forall|i: int, j: int|
        0 <= i < blocks.len() && 0 <= j < blocks[i].layers@.len() ==> controller_layer_well_formed(
            #[trigger] blocks[i].layers@[j],
        )
}

/// Compiles a layer of an FX controller (see `compile_layer_spec`).
pub fn compile_controller_layer(
    logger: &mut Logger,
    first_pass: &FirstPassData,
    decl_layer: DeclControllerLayer,
) -> (r: Compiled<Layer>)
    requires
        old(logger).wf(),
        controller_layer_well_formed(decl_layer),
    ensures
        final(logger).wf(),
        final(logger).open_contexts() == old(logger).open_contexts(),
        ({
            let (v, logs) = compile_layer_spec(*first_pass, decl_layer, old(logger).log_view(), old(logger).open_contexts());
            &&& final(logger).log_view() == logs
            &&& match v {
                Some(lv) => r matches Some(l) && layer_view(l) == lv,
                None => r is None,
            }
        }),
{
    match decl_layer {
        DeclControllerLayer::Group(g) => {
            let r = compile_group_layer(logger, first_pass, g);
            proof {
                if r is Some {
                    let gv = group_layer_spec(*first_pass, g, old(logger).log_view(), old(logger).open_contexts()).0->0;
                    lemma_group_layer_view(r->0, gv);
                }
            }
            r
        },
        DeclControllerLayer::Switch(d) => compile_switch_layer(logger, first_pass, d),
        DeclControllerLayer::Puppet(d) => compile_puppet_layer(logger, first_pass, d),
        DeclControllerLayer::Raw(d) => compile_raw_layer(logger, first_pass, d),
    }
}

pub open spec fn layer_names(ls: Seq<(Seq<char>, ContentView)>) -> Seq<Seq<char>> {
    ls.map_values(|l: (Seq<char>, ContentView)| l.0)
}

pub open spec fn duplicate_text(name: Seq<char>) -> Seq<char> {
    "layer name '"@ + name + "' is duplicate"@
}

pub type LayersAcc = (Seq<(Seq<char>, ContentView)>, Seq<LogView>);

/// The layers of a block, one after another: each that compiles is kept; one whose name an
/// earlier layer already has is kept too, and logged.
pub open spec fn layers_fold(
    fp: FirstPassData,
    contexts: Seq<Seq<char>>,
    acc: LayersAcc,
    ls: Seq<DeclControllerLayer>,
) -> LayersAcc
    decreases ls.len(),
{
    if ls.len() == 0 {
        acc
    } else {
        layers_fold(fp, contexts, layer_step(fp, contexts, acc, ls[0]), ls.drop_first())
    }
}

/// One layer of a block (see `layers_fold`).
#[verifier::opaque]
pub open spec fn layer_step(
    fp: FirstPassData,
    contexts: Seq<Seq<char>>,
    acc: LayersAcc,
    d: DeclControllerLayer,
) -> LayersAcc {
    let (v, l) = compile_layer_spec(fp, d, acc.1, contexts);
    match v {
        None => (acc.0, l),
        Some(lv) => (
            acc.0.push(lv),
            if layer_names(acc.0).contains(lv.0) {
                l.push((duplicate_text(lv.0), contexts))
            } else {
                l
            },
        ),
    }
}

fn compile_layer_into(
    logger: &mut Logger,
    first_pass: &FirstPassData,
    decl_layer: DeclControllerLayer,
    layers: &mut Vec<Layer>,
)
    requires
        old(logger).wf(),
        controller_layer_well_formed(decl_layer),
    ensures
        final(logger).wf(),
        final(logger).open_contexts() == old(logger).open_contexts(),
        (layers_view(final(layers)@), final(logger).log_view()) == layer_step(
            *first_pass,
            old(logger).open_contexts(),
            (layers_view(old(layers)@), old(logger).log_view()),
            decl_layer,
        ),
{
    proof {
        reveal(layer_step);
    }
    match compile_controller_layer(logger, first_pass, decl_layer) {
        Some(layer) => {
            if name_used(layers, layer.name.as_str()) {
                logger.log(Log::DuplicateLayerName(layer.name.clone()));
            }
            layers.push(layer);
            proof {
                assert(layers_view(layers@) =~= layers_view(old(layers)@).push(layer_view(layer)));
            }
        },
        None => {},
    }
}

pub open spec fn controller_context(index: int) -> Seq<char> {
    "fx-controller "@ + decimal(index as nat)
}

/// The blocks of the FX controller, numbered from `index`, each reported inside
/// "fx-controller INDEX".
pub open spec fn controller_blocks_fold(
    fp: FirstPassData,
    contexts: Seq<Seq<char>>,
    acc: LayersAcc,
    blocks: Seq<DeclFxController>,
    index: int,
) -> LayersAcc
    decreases blocks.len(),
{
    if blocks.len() == 0 {
        acc
    } else {
        let next = layers_fold(fp, contexts.push(controller_context(index)), acc, blocks[0].layers@);
        controller_blocks_fold(fp, contexts, next, blocks.drop_first(), index + 1)
    }
}

pub open spec fn layers_view(ls: Seq<Layer>) -> Seq<(Seq<char>, ContentView)> {
    ls.map_values(|l: Layer| layer_view(l))
}

fn name_used(layers: &Vec<Layer>, name: &str) -> (r: bool)
    ensures
        r == layer_names(layers_view(layers@)).contains(name@),
{
    let ghost names = layer_names(layers_view(layers@));
    let mut i: usize = 0;
    while i < layers.len()
        invariant
            i <= layers@.len(),
            names == layer_names(layers_view(layers@)),
            forall|j: int| 0 <= j < i ==> names[j] != name@,
        decreases layers@.len() - i,
    {
        proof {
            assert(names[i as int] == layers@[i as int].name@);
        }
        if crate::avatar::transformer::dependencies::str_equal(layers[i].name.as_str(), name) {
            proof {
                assert(names.contains(name@));
            }
            return true;
        }
        i = i + 1;
    }
    false
}

#[verifier::loop_isolation(false)]
fn compile_block_layers(
    logger: &mut Logger,
    first_pass: &FirstPassData,
    decl_layers: Vec<DeclControllerLayer>,
    layers: &mut Vec<Layer>,
)
    requires
        old(logger).wf(),
        forall|j: int| 0 <= j < decl_layers@.len() ==> controller_layer_well_formed(#[trigger] decl_layers@[j]),
    ensures
        final(logger).wf(),
        final(logger).open_contexts() == old(logger).open_contexts(),
        (layers_view(final(layers)@), final(logger).log_view()) == layers_fold(
            *first_pass,
            old(logger).open_contexts(),
            (layers_view(old(layers)@), old(logger).log_view()),
            decl_layers@,
        ),
{
    let ghost ctx = logger.open_contexts();
    let ghost total = layers_fold(*first_pass, ctx, (layers_view(layers@), logger.log_view()), decl_layers@);
    let mut decl_layers = decl_layers;
    while decl_layers.len() > 0
        invariant
            logger.wf(),
            logger.open_contexts() == ctx,
            forall|j: int| 0 <= j < decl_layers@.len() ==> controller_layer_well_formed(#[trigger] decl_layers@[j]),
            total == layers_fold(*first_pass, ctx, (layers_view(layers@), logger.log_view()), decl_layers@),
        decreases decl_layers@.len(),
    {
        let ghost before = decl_layers@;
        let decl_layer = decl_layers.remove(0);
        proof {
            assert(decl_layers@ =~= before.drop_first());
            assert(controller_layer_well_formed(before[0]));
            assert forall|j: int| 0 <= j < decl_layers@.len() implies controller_layer_well_formed(
                #[trigger] decl_layers@[j],
            ) by {
                assert(decl_layers@[j] == before[j + 1]);
            }
        }
        compile_layer_into(logger, first_pass, decl_layer, layers);
    }
}

/// Compiles the layers of every FX controller block (see `controller_blocks_fold`).
#[verifier::loop_isolation(false)]
pub fn compile_fx_controller_blocks(
    logger: &mut Logger,
    first_pass: &FirstPassData,
    fx_controller_blocks: Vec<DeclFxController>,
) -> (r: Compiled<Vec<Layer>>)
    requires
        old(logger).wf(),
        controller_blocks_well_formed(fx_controller_blocks@),
    ensures
        final(logger).wf(),
        final(logger).open_contexts() == old(logger).open_contexts(),
        ({
            let (ls, logs) = controller_blocks_fold(
                *first_pass,
                old(logger).open_contexts(),
                (Seq::empty(), old(logger).log_view()),
                fx_controller_blocks@,
                0,
            );
            &&& r matches Some(v) && layers_view(v@) == ls
            &&& final(logger).log_view() == logs
        }),
{
    let ghost outer = logger.open_contexts();
    let mut layers: Vec<Layer> = Vec::new();
    let mut blocks = fx_controller_blocks;
    let n: usize = blocks.len();
    let mut index: usize = 0;
    let ghost total = controller_blocks_fold(*first_pass, outer, (Seq::empty(), logger.log_view()), blocks@, 0);
    proof {
        assert(layers_view(layers@) =~= Seq::<(Seq<char>, ContentView)>::empty());
    }
    while blocks.len() > 0
        invariant
            logger.wf(),
            logger.open_contexts() == outer,
            index + blocks@.len() == n,
            controller_blocks_well_formed(blocks@),
            total == controller_blocks_fold(
                *first_pass,
                outer,
                (layers_view(layers@), logger.log_view()),
                blocks@,
                index as int,
            ),
        decreases blocks@.len(),
    {
        let ghost before = blocks@;
        let block = blocks.remove(0);
        proof {
            assert(blocks@ =~= before.drop_first());
            assert(block == before[0]);
            assert forall|j: int| 0 <= j < block.layers@.len() implies controller_layer_well_formed(
                #[trigger] block.layers@[j],
            ) by {
                assert(before[0].layers@[j] == block.layers@[j]);
            }
            assert forall|i: int, j: int|
                0 <= i < blocks@.len() && 0 <= j < blocks@[i].layers@.len() implies controller_layer_well_formed(
                #[trigger] blocks@[i].layers@[j],
            ) by {
                assert(blocks@[i] == before[i + 1]);
            }
        }
        let digits = usize_to_decimal(index);
        logger.push_context(concat2("fx-controller ", digits.as_str()));
        compile_block_layers(logger, first_pass, block.layers, &mut layers);
        logger.pop_context();
        proof {
            assert(logger.open_contexts() =~= outer);
        }
        index = index + 1;
    }
    success(layers)
}

} // verus!

//! The first pass over the FX controller: what each layer declares for others to refer to.
use vstd::prelude::*;

use crate::avatar_v2::logger::Logger;
use crate::avatar_v2::transformer::{failure, success, Compiled, DeclaredLayer, DeclaredLayerType};
use crate::decl_v2::data::{
    reference_name, DeclGroupLayer, DeclGroupOption, DeclGroupOptionKind, DeclPuppetLayer, DeclRawLayer,
    DeclRawLayerState, DeclSwitchLayer,
};

verus! {

/// A declared layer with its strings as sequences.
pub enum DeclaredView {
    Group(Seq<char>, Seq<(Seq<char>, usize)>),
    Switch(Seq<char>),
    Puppet(Seq<char>),
    SwitchGate(Seq<char>),
    Raw(Seq<Seq<char>>),
}

pub open spec fn declared_view(l: DeclaredLayer) -> (Seq<char>, DeclaredView) {
    (
        l.name@,
        match l.layer_type {
            DeclaredLayerType::Group(p, os) => DeclaredView::Group(
                p@,
                os@.map_values(|o: (String, usize)| (o.0@, o.1)),
            ),
            DeclaredLayerType::Switch(p) => DeclaredView::Switch(p@),
            DeclaredLayerType::Puppet(p) => DeclaredView::Puppet(p@),
            DeclaredLayerType::SwitchGate(g) => DeclaredView::SwitchGate(g@),
            DeclaredLayerType::Raw(states) => DeclaredView::Raw(states@.map_values(|s: String| s@)),
        },
    )
}

/// The named options of a group, numbered from `position`: each keeps its explicit value or
/// takes its position counted from one; unnamed options are left out but still counted.
pub open spec fn selection_names(ds: Seq<DeclGroupOption>, position: nat) -> Seq<(Seq<char>, usize)>
    decreases ds.len(),
{
    if ds.len() == 0 {
        Seq::empty()
    } else {
        let rest = selection_names(ds.drop_first(), position + 1);
        match ds[0].kind {
            DeclGroupOptionKind::Selection(Some(n), v) => seq![
                (
                    n@,
                    match v {
                        Some(x) => x,
                        None => (position + 1) as usize,
                    },
                ),
            ] + rest,
            _ => rest,
        }
    }
}

/// What a group layer declares: its parameter and its named options with their values.
pub fn first_pass_group_layer(_logger: &Logger, decl_group_layer: &DeclGroupLayer) -> (r: Compiled<
    DeclaredLayer,
>)
    requires
        decl_group_layer.options@.len() < usize::MAX,
    ensures
        r matches Some(l) && declared_view(l) == (
            decl_group_layer.name@,
            DeclaredView::Group(
                reference_name(decl_group_layer.driven_by),
                selection_names(decl_group_layer.options@, 0),
            ),
        ),
{
    let ds = &decl_group_layer.options;
    let mut names: Vec<(String, usize)> = Vec::new();
    let mut i: usize = 0;
    proof {
        assert(ds@.subrange(0, ds@.len() as int) =~= ds@);
        assert(names@.map_values(|o: (String, usize)| (o.0@, o.1)) + selection_names(ds@, 0) =~= selection_names(
            ds@,
            0,
        ));
    }
    while i < ds.len()
        invariant
            i <= ds@.len(),
            ds@.len() < usize::MAX,
            names@.map_values(|o: (String, usize)| (o.0@, o.1)) + selection_names(
                ds@.subrange(i as int, ds@.len() as int),
                i as nat,
            ) == selection_names(ds@, 0),
        decreases ds@.len() - i,
    {
        let ghost before = names@;
        let ghost rest = ds@.subrange(i as int, ds@.len() as int);
        proof {
            assert(rest.drop_first() =~= ds@.subrange(i + 1, ds@.len() as int));
            assert(rest[0] == ds@[i as int]);
        }
        if let DeclGroupOptionKind::Selection(Some(name), value) = &ds[i].kind {
            let v = match value {
                Some(x) => *x,
                None => i + 1,
            };
            names.push((name.clone(), v));
            proof {
                assert(names@.map_values(|o: (String, usize)| (o.0@, o.1)) =~= before.map_values(
                    |o: (String, usize)| (o.0@, o.1),
                ).push((name@, v)));
            }
        }
        i = i + 1;
    }
    proof {
        assert(ds@.subrange(ds@.len() as int, ds@.len() as int) =~= Seq::<DeclGroupOption>::empty());
    }
    success(
        DeclaredLayer {
            name: decl_group_layer.name.clone(),
            layer_type: DeclaredLayerType::Group(decl_group_layer.driven_by.parameter_name(), names),
        },
    )
}

/// What a switch layer declares: its parameter, or its gate; a switch with both or neither
/// declares nothing.
pub fn first_pass_switch_layer(_logger: &Logger, decl_switch_layer: &DeclSwitchLayer) -> (r: Compiled<
    DeclaredLayer,
>)
    ensures
        match (decl_switch_layer.driven_by, decl_switch_layer.with_gate) {
            (Some(db), None) => r matches Some(l) && declared_view(l) == (
                decl_switch_layer.name@,
                DeclaredView::Switch(reference_name(db)),
            ),
            (None, Some(wg)) => r matches Some(l) && declared_view(l) == (
                decl_switch_layer.name@,
                DeclaredView::SwitchGate(wg@),
            ),
            _ => r is None,
        },
{
    match (&decl_switch_layer.driven_by, &decl_switch_layer.with_gate) {
        (Some(db), None) => success(
            DeclaredLayer {
                name: decl_switch_layer.name.clone(),
                layer_type: DeclaredLayerType::Switch(db.parameter_name()),
            },
        ),
        (None, Some(wg)) => success(
            DeclaredLayer {
                name: decl_switch_layer.name.clone(),
                layer_type: DeclaredLayerType::SwitchGate(wg.clone()),
            },
        ),
        _ => failure(),
    }
}

/// What a puppet layer declares: its parameter.
pub fn first_pass_puppet_layer(_logger: &Logger, decl_puppet_layer: &DeclPuppetLayer) -> (r: Compiled<
    DeclaredLayer,
>)
    ensures
        r matches Some(l) && declared_view(l) == (
            decl_puppet_layer.name@,
            DeclaredView::Puppet(reference_name(decl_puppet_layer.driven_by)),
        ),
{
    success(
        DeclaredLayer {
            name: decl_puppet_layer.name.clone(),
            layer_type: DeclaredLayerType::Puppet(decl_puppet_layer.driven_by.parameter_name()),
        },
    )
}

pub open spec fn state_names(states: Seq<DeclRawLayerState>) -> Seq<Seq<char>> {
    states.map_values(|s: DeclRawLayerState| s.name@)
}

/// What a raw layer declares: the names of its states, in order.
pub fn first_pass_raw_layer(_logger: &Logger, decl_raw_layer: &DeclRawLayer) -> (r: Compiled<DeclaredLayer>)
    ensures
        r matches Some(l) && declared_view(l) == (
            decl_raw_layer.name@,
            DeclaredView::Raw(state_names(decl_raw_layer.states@)),
        ),
{
    let states = &decl_raw_layer.states;
    let mut names: Vec<String> = Vec::new();
    let mut i: usize = 0;
    while i < states.len()
        invariant
            i <= states@.len(),
            names@.map_values(|s: String| s@) == state_names(states@.subrange(0, i as int)),
        decreases states@.len() - i,
    {
        let ghost before = names@;
        names.push(states[i].name.clone());
        proof {
            assert(states@.subrange(0, i + 1) =~= states@.subrange(0, i as int).push(states@[i as int]));
            assert(names@.map_values(|s: String| s@) =~= before.map_values(|s: String| s@).push(
                states@[i as int].name@,
            ));
        }
        i = i + 1;
    }
    proof {
        assert(states@.subrange(0, states@.len() as int) =~= states@);
    }
    success(
        DeclaredLayer {
            name: decl_raw_layer.name.clone(),
            layer_type: DeclaredLayerType::Raw(names),
        },
    )
}

} // verus!

//! Compiles the expression menu of an avatar.
use vstd::prelude::*;

use crate::avatar_v2::data::menu::{
    BiAxis, MenuBoolean, MenuFourAxis, MenuGroup, MenuItem, MenuRadial, MenuTwoAxis, UniAxis,
};
use crate::avatar_v2::data::parameter::{same_kind, scope_suitable, Parameter, ParameterScope, ParameterType};
use crate::avatar_v2::logger::{Log, LogView, Logger};
use crate::avatar_v2::transformer::driver::{find_option_value, option_named};
use crate::avatar_v2::transformer::parameter::block_context;
use crate::avatar_v2::transformer::{
    failure, group_outcome, lemma_typed_outcome_declared, puppet_outcome, success, switch_outcome,
    typed_outcome, Compiled, FirstPassData, ONE_BITS,
};
use crate::decl_v2::data::{
    DeclBooleanControl, DeclDriveGroup, DeclDrivePuppet, DeclDriveSwitch, DeclMenuElement, DeclParameterDrive, DeclPuppetAxis, DeclPuppetControl,
    DeclPuppetTarget, DeclPuppetType, DeclSubMenu,
};
use crate::lookup::first_match;
use crate::text::{concat2, concat3, usize_to_decimal};

verus! {

/// A menu item with its strings as sequences.
pub enum MenuItemView {
    SubMenu(Seq<char>, Seq<MenuItemView>),
    Button(Seq<char>, Seq<char>, ParameterType),
    Toggle(Seq<char>, Seq<char>, ParameterType),
    Radial(Seq<char>, Seq<char>),
    /// Name, then parameter and positive and negative labels of each axis.
    TwoAxis(Seq<char>, (Seq<char>, Seq<char>, Seq<char>), (Seq<char>, Seq<char>, Seq<char>)),
    /// Name, then parameter and label of the left, right, up and down axes.
    FourAxis(
        Seq<char>,
        (Seq<char>, Seq<char>),
        (Seq<char>, Seq<char>),
        (Seq<char>, Seq<char>),
        (Seq<char>, Seq<char>),
    ),
}

pub open spec fn item_view(i: MenuItem) -> MenuItemView
    decreases i,
{
    match i {
        MenuItem::SubMenu(g) => MenuItemView::SubMenu(g.name@, items_view(g.items@)),
        MenuItem::Button(b) => MenuItemView::Button(b.name@, b.parameter@, b.value),
        MenuItem::Toggle(b) => MenuItemView::Toggle(b.name@, b.parameter@, b.value),
        MenuItem::Radial(r) => MenuItemView::Radial(r.name@, r.parameter@),
        MenuItem::TwoAxis(t) => MenuItemView::TwoAxis(
            t.name@,
            (t.horizontal_axis.parameter@, t.horizontal_axis.label_positive@, t.horizontal_axis.label_negative@),
            (t.vertical_axis.parameter@, t.vertical_axis.label_positive@, t.vertical_axis.label_negative@),
        ),
        MenuItem::FourAxis(f) => MenuItemView::FourAxis(
            f.name@,
            (f.left_axis.parameter@, f.left_axis.label@),
            (f.right_axis.parameter@, f.right_axis.label@),
            (f.up_axis.parameter@, f.up_axis.label@),
            (f.down_axis.parameter@, f.down_axis.label@),
        ),
    }
}

pub open spec fn items_view(items: Seq<MenuItem>) -> Seq<MenuItemView>
    decreases items,
{
    if items.len() == 0 {
        Seq::empty()
    } else {
        seq![item_view(items[0])] + items_view(items.drop_first())
    }
}

pub open spec fn exposed(fp: FirstPassData, parameter: Seq<char>, ty: ParameterType) -> Result<
    int,
    Seq<char>,
> {
    typed_outcome(fp.parameters_view(), parameter, ty, ParameterScope::Local(false))
}

/// What a button or toggle sets: a group's option value, a switch (off unless said), or
/// a puppet (1.0 unless said); the parameter must be exposed. Other drives are not menu drives.
pub open spec fn boolean_target_spec(fp: FirstPassData, d: DeclParameterDrive) -> Result<
    (Seq<char>, ParameterType),
    Seq<char>,
> {
    match d {
        DeclParameterDrive::Group(dg) => match group_outcome(fp.layers_view(), dg.group@) {
            Err(t) => Err(t),
            Ok((parameter, options)) => match exposed(fp, parameter, ParameterType::Int(0)) {
                Err(t) => Err(t),
                Ok(_) => match first_match(options, option_named(dg.option@)) {
                    None => Err("option '"@ + dg.option@ + "' not found"@),
                    Some(i) => Ok((parameter, ParameterType::Int(options[i].1 as u8))),
                },
            },
        },
        DeclParameterDrive::Switch(ds) => match switch_outcome(fp.layers_view(), ds.switch@) {
            Err(t) => Err(t),
            Ok(parameter) => match exposed(fp, parameter, ParameterType::Bool(false)) {
                Err(t) => Err(t),
                Ok(_) => Ok(
                    (
                        parameter,
                        ParameterType::Bool(
                            match ds.value {
                                Some(v) => v,
                                None => false,
                            },
                        ),
                    ),
                ),
            },
        },
        DeclParameterDrive::Puppet(dp) => match puppet_outcome(fp.layers_view(), dp.puppet@) {
            Err(t) => Err(t),
            Ok(parameter) => match exposed(fp, parameter, ParameterType::Float(0)) {
                Err(t) => Err(t),
                Ok(_) => Ok(
                    (
                        parameter,
                        ParameterType::Float(
                            match dp.value {
                                Some(v) => v,
                                None => ONE_BITS,
                            },
                        ),
                    ),
                ),
            },
        },
        _ => Err("menu drive must be set or drive"@),
    }
}

/// The context a button or toggle is reported in; it carries the control's hold flag.
pub open spec fn boolean_context(hold: bool) -> Seq<char> {
    if hold {
        "toggle 'true'"@
    } else {
        "button 'false'"@
    }
}

pub open spec fn boolean_spec(fp: FirstPassData, c: DeclBooleanControl) -> Result<MenuItemView, Seq<char>> {
    match boolean_target_spec(fp, c.parameter_drive) {
        Err(t) => Err(t),
        Ok((parameter, value)) => Ok(
            if c.hold {
                MenuItemView::Toggle(c.name@, parameter, value)
            } else {
                MenuItemView::Button(c.name@, parameter, value)
            },
        ),
    }
}

pub open spec fn logs_in_context<T>(
    logs: Seq<LogView>,
    contexts: Seq<Seq<char>>,
    outcome: Result<T, Seq<char>>,
) -> Seq<LogView> {
    match outcome {
        Ok(_) => logs,
        Err(t) => logs.push((t, contexts)),
    }
}

fn find_exposed(logger: &mut Logger, first_pass: &FirstPassData, parameter: &String, ty: ParameterType) -> (r:
    bool)
    requires
        old(logger).wf(),
    ensures
        final(logger).wf(),
        final(logger).open_contexts() == old(logger).open_contexts(),
        final(logger).log_view() == old(logger).logs_after(exposed(*first_pass, parameter@, ty)),
        r == exposed(*first_pass, parameter@, ty) is Ok,
{
    first_pass.find_parameter(logger, parameter.as_str(), ty, ParameterScope::must_expose()).is_some()
}

fn compile_group_target(logger: &mut Logger, first_pass: &FirstPassData, dg: DeclDriveGroup) -> (r:
    Compiled<(String, ParameterType)>)
    requires
        old(logger).wf(),
    ensures
        final(logger).wf(),
        final(logger).open_contexts() == old(logger).open_contexts(),
        final(logger).log_view() == old(logger).logs_after(
            boolean_target_spec(*first_pass, DeclParameterDrive::Group(dg)),
        ),
        match boolean_target_spec(*first_pass, DeclParameterDrive::Group(dg)) {
            Ok((p, v)) => r matches Some((rp, rv)) && rp@ == p && rv == v,
            Err(_) => r is None,
        },
{
    let (parameter, options) = match first_pass.find_group(logger, dg.group.as_str()) {
        Some(g) => g,
        None => {
            return failure();
        },
    };
    if !find_exposed(logger, first_pass, parameter, ParameterType::int_type()) {
        return failure();
    }
    match find_option_value(options, dg.option.as_str()) {
        Some(v) => success((parameter.clone(), ParameterType::Int(v as u8))),
        None => {
            logger.log(Log::LayerOptionNotFound(dg.option));
            failure()
        },
    }
}

#[verifier::rlimit(30)]
fn compile_boolean_target(logger: &mut Logger, first_pass: &FirstPassData, drive: DeclParameterDrive) -> (r:
    Compiled<(String, ParameterType)>)
    requires
        old(logger).wf(),
    ensures
        final(logger).wf(),
        final(logger).open_contexts() == old(logger).open_contexts(),
        final(logger).log_view() == old(logger).logs_after(boolean_target_spec(*first_pass, drive)),
        match boolean_target_spec(*first_pass, drive) {
            Ok((p, v)) => r matches Some((rp, rv)) && rp@ == p && rv == v,
            Err(_) => r is None,
        },
{
    match drive {
        DeclParameterDrive::Group(dg) => compile_group_target(logger, first_pass, dg),
        DeclParameterDrive::Switch(ds) => {
            let parameter = match first_pass.find_switch(logger, ds.switch.as_str()) {
                Some(p) => p,
                None => {
                    return failure();
                },
            };
            if !find_exposed(logger, first_pass, parameter, ParameterType::bool_type()) {
                return failure();
            }
            let value = match ds.value {
                Some(v) => v,
                None => false,
            };
            success((parameter.clone(), ParameterType::Bool(value)))
        },
        DeclParameterDrive::Puppet(dp) => {
            let parameter = match first_pass.find_puppet(logger, dp.puppet.as_str()) {
                Some(p) => p,
                None => {
                    return failure();
                },
            };
            if !find_exposed(logger, first_pass, parameter, ParameterType::float_type()) {
                return failure();
            }
            let value = match dp.value {
                Some(v) => v,
                None => ONE_BITS,
            };
            success((parameter.clone(), ParameterType::Float(value)))
        },
        _ => {
            logger.log(Log::MenuInvalidDrive);
            failure()
        },
    }
}

/// Compiles a button, or a toggle where `hold` is set; problems are reported inside
/// `boolean_context`.
pub fn compile_boolean(logger: &mut Logger, first_pass: &FirstPassData, control: DeclBooleanControl) -> (r:
    Compiled<MenuItem>)
    requires
        old(logger).wf(),
    ensures
        final(logger).wf(),
        final(logger).open_contexts() == old(logger).open_contexts(),
        final(logger).log_view() == logs_in_context(
            old(logger).log_view(),
            old(logger).open_contexts().push(boolean_context(control.hold)),
            boolean_spec(*first_pass, control),
        ),
        match boolean_spec(*first_pass, control) {
            Ok(v) => r matches Some(item) && item_view(item) == v,
            Err(_) => r is None,
        },
{
    let ghost outer = logger.open_contexts();
    let context = if control.hold {
        String::from_str("toggle 'true'")
    } else {
        String::from_str("button 'false'")
    };
    proof {
        reveal_strlit("toggle 'true'");
        reveal_strlit("button 'false'");
    }
    logger.push_context(context);
    let target = compile_boolean_target(logger, first_pass, control.parameter_drive);
    logger.pop_context();
    proof {
        assert(logger.open_contexts() =~= outer);
    }
    let (parameter, value) = match target {
        Some(t) => t,
        None => {
            return failure();
        },
    };
    let menu_boolean = MenuBoolean { name: control.name, parameter, value };
    if control.hold {
        success(MenuItem::Toggle(menu_boolean))
    } else {
        success(MenuItem::Button(menu_boolean))
    }
}

#[verifier::opaque]
pub open spec fn take_puppet_spec(fp: FirstPassData, t: DeclPuppetTarget) -> Result<Seq<char>, Seq<char>> {
    match t {
        DeclPuppetTarget::Puppet(dp) => match puppet_outcome(fp.layers_view(), dp.puppet@) {
            Err(e) => Err(e),
            Ok(parameter) => match exposed(fp, parameter, ParameterType::Float(0)) {
                Err(e) => Err(e),
                Ok(_) => Ok(parameter),
            },
        },
    }
}

pub open spec fn label_or_empty(l: Option<String>) -> Seq<char> {
    match l {
        Some(s) => s@,
        None => Seq::empty(),
    }
}

/// How a puppet control compiles: each axis takes the parameter of the puppet layer it
/// names, which must be an exposed float; the first axis that fails fails the control.
/// The four axes are taken in the order up, down, left, right and land in the left, right,
/// up and down places.
pub open spec fn puppet_spec(fp: FirstPassData, c: DeclPuppetControl) -> Result<MenuItemView, Seq<char>> {
    match *c.puppet_type {
        DeclPuppetType::Radial(a) => radial_spec(fp, c.name@, a),
        DeclPuppetType::TwoAxis { horizontal, vertical } => two_axis_spec(fp, c.name@, horizontal, vertical),
        DeclPuppetType::FourAxis { up, down, left, right } => four_axis_spec(
            fp,
            c.name@,
            up,
            down,
            left,
            right,
        ),
    }
}

pub open spec fn radial_spec(fp: FirstPassData, name: Seq<char>, a: DeclPuppetAxis) -> Result<
    MenuItemView,
    Seq<char>,
> {
    match take_puppet_spec(fp, a.target) {
        Err(e) => Err(e),
        Ok(p) => Ok(MenuItemView::Radial(name, p)),
    }
}

pub open spec fn two_axis_spec(
    fp: FirstPassData,
    name: Seq<char>,
    horizontal: DeclPuppetAxis,
    vertical: DeclPuppetAxis,
) -> Result<MenuItemView, Seq<char>> {
    match take_puppet_spec(fp, horizontal.target) {
        Err(e) => Err(e),
        Ok(ph) => match take_puppet_spec(fp, vertical.target) {
            Err(e) => Err(e),
            Ok(pv) => Ok(
                MenuItemView::TwoAxis(
                    name,
                    (ph, label_or_empty(horizontal.label_positive), label_or_empty(horizontal.label_negative)),
                    (pv, label_or_empty(vertical.label_positive), label_or_empty(vertical.label_negative)),
                ),
            ),
        },
    }
}

pub open spec fn four_axis_spec(
    fp: FirstPassData,
    name: Seq<char>,
    up: DeclPuppetAxis,
    down: DeclPuppetAxis,
    left: DeclPuppetAxis,
    right: DeclPuppetAxis,
) -> Result<MenuItemView, Seq<char>> {
    match take_puppet_spec(fp, up.target) {
        Err(e) => Err(e),
        Ok(pu) => match take_puppet_spec(fp, down.target) {
            Err(e) => Err(e),
            Ok(pd) => match take_puppet_spec(fp, left.target) {
                Err(e) => Err(e),
                Ok(pl) => match take_puppet_spec(fp, right.target) {
                    Err(e) => Err(e),
                    Ok(pr) => Ok(
                        MenuItemView::FourAxis(
                            name,
                            (pu, label_or_empty(up.label_positive)),
                            (pd, label_or_empty(down.label_positive)),
                            (pl, label_or_empty(left.label_positive)),
                            (pr, label_or_empty(right.label_positive)),
                        ),
                    ),
                },
            },
        },
    }
}

/// The parameter of the puppet layer that `dpt` names, if it is an exposed float.
pub fn take_puppet_parameter(logger: &mut Logger, first_pass: &FirstPassData, dpt: DeclPuppetTarget) -> (r:
    Compiled<String>)
    requires
        old(logger).wf(),
    ensures
        final(logger).wf(),
        final(logger).open_contexts() == old(logger).open_contexts(),
        final(logger).log_view() == old(logger).logs_after(take_puppet_spec(*first_pass, dpt)),
        match take_puppet_spec(*first_pass, dpt) {
            Ok(p) => r matches Some(s) && s@ == p,
            Err(_) => r is None,
        },
{
    proof {
        reveal(take_puppet_spec);
    }
    let parameter = match dpt {
        DeclPuppetTarget::Puppet(dp) => match first_pass.find_puppet(logger, dp.puppet.as_str()) {
            Some(p) => p.clone(),
            None => {
                return failure();
            },
        },
    };
    if !find_exposed(logger, first_pass, &parameter, ParameterType::float_type()) {
        return failure();
    }
    success(parameter)
}

fn label_string(l: Option<String>) -> (r: String)
    ensures
        r@ == label_or_empty(l),
{
    match l {
        Some(s) => s,
        None => String::new(),
    }
}

fn compile_two_axis(
    logger: &mut Logger,
    first_pass: &FirstPassData,
    name: String,
    horizontal: DeclPuppetAxis,
    vertical: DeclPuppetAxis,
) -> (r: Compiled<MenuItem>)
    requires
        old(logger).wf(),
    ensures
        final(logger).wf(),
        final(logger).open_contexts() == old(logger).open_contexts(),
        ({
            let o = two_axis_spec(*first_pass, name@, horizontal, vertical);
            &&& final(logger).log_view() == old(logger).logs_after(o)
            &&& match o {
                Ok(v) => r matches Some(item) && item_view(item) == v,
                Err(_) => r is None,
            }
        }),
{
        let ph = match take_puppet_parameter(logger, first_pass, horizontal.target) {
            Some(p) => p,
            None => {
                return failure();
            },
        };
        let pv = match take_puppet_parameter(logger, first_pass, vertical.target) {
            Some(p) => p,
            None => {
                return failure();
            },
        };
        success(
            MenuItem::TwoAxis(
                MenuTwoAxis {
                    name,
                    horizontal_axis: BiAxis {
                        parameter: ph,
                        label_positive: label_string(horizontal.label_positive),
                        label_negative: label_string(horizontal.label_negative),
                    },
                    vertical_axis: BiAxis {
                        parameter: pv,
                        label_positive: label_string(vertical.label_positive),
                        label_negative: label_string(vertical.label_negative),
                    },
                },
            ),
        )
    
}

#[verifier::rlimit(30)]
fn compile_four_axis(
    logger: &mut Logger,
    first_pass: &FirstPassData,
    name: String,
    up: DeclPuppetAxis,
    down: DeclPuppetAxis,
    left: DeclPuppetAxis,
    right: DeclPuppetAxis,
) -> (r: Compiled<MenuItem>)
    requires
        old(logger).wf(),
    ensures
        final(logger).wf(),
        final(logger).open_contexts() == old(logger).open_contexts(),
        ({
            let o = four_axis_spec(*first_pass, name@, up, down, left, right);
            &&& final(logger).log_view() == old(logger).logs_after(o)
            &&& match o {
                Ok(v) => r matches Some(item) && item_view(item) == v,
                Err(_) => r is None,
            }
        }),
{
        let pu = match take_puppet_parameter(logger, first_pass, up.target) {
            Some(p) => p,
            None => {
                return failure();
            },
        };
        let pd = match take_puppet_parameter(logger, first_pass, down.target) {
            Some(p) => p,
            None => {
                return failure();
            },
        };
        let pl = match take_puppet_parameter(logger, first_pass, left.target) {
            Some(p) => p,
            None => {
                return failure();
            },
        };
        let pr = match take_puppet_parameter(logger, first_pass, right.target) {
            Some(p) => p,
            None => {
                return failure();
            },
        };
        success(
            MenuItem::FourAxis(
                MenuFourAxis {
                    name,
                    left_axis: UniAxis { parameter: pu, label: label_string(up.label_positive) },
                    right_axis: UniAxis { parameter: pd, label: label_string(down.label_positive) },
                    up_axis: UniAxis { parameter: pl, label: label_string(left.label_positive) },
                    down_axis: UniAxis { parameter: pr, label: label_string(right.label_positive) },
                },
            ),
        )
    
}

fn compile_puppet_type(
    logger: &mut Logger,
    first_pass: &FirstPassData,
    name: String,
    puppet_type: DeclPuppetType,
) -> (r: Compiled<MenuItem>)
    requires
        old(logger).wf(),
    ensures
        final(logger).wf(),
        final(logger).open_contexts() == old(logger).open_contexts(),
        ({
            let o = match puppet_type {
                DeclPuppetType::Radial(a) => radial_spec(*first_pass, name@, a),
                DeclPuppetType::TwoAxis { horizontal, vertical } => two_axis_spec(
                    *first_pass,
                    name@,
                    horizontal,
                    vertical,
                ),
                DeclPuppetType::FourAxis { up, down, left, right } => four_axis_spec(
                    *first_pass,
                    name@,
                    up,
                    down,
                    left,
                    right,
                ),
            };
            &&& final(logger).log_view() == old(logger).logs_after(o)
            &&& match o {
                Ok(v) => r matches Some(item) && item_view(item) == v,
                Err(_) => r is None,
            }
        }),
{
    match puppet_type {
        DeclPuppetType::Radial(pt) => {
            let parameter = match take_puppet_parameter(logger, first_pass, pt.target) {
                Some(p) => p,
                None => {
                    return failure();
                },
            };
            success(MenuItem::Radial(MenuRadial { name, parameter }))
        },
        DeclPuppetType::TwoAxis { horizontal, vertical } => compile_two_axis(
            logger,
            first_pass,
            name,
            horizontal,
            vertical,
        ),
        DeclPuppetType::FourAxis { up, down, left, right } => compile_four_axis(
            logger,
            first_pass,
            name,
            up,
            down,
            left,
            right,
        ),
    }
}

/// Compiles a puppet control; problems are reported inside "puppet 'NAME'".
pub fn compile_puppet(logger: &mut Logger, first_pass: &FirstPassData, control: DeclPuppetControl) -> (r:
    Compiled<MenuItem>)
    requires
        old(logger).wf(),
    ensures
        final(logger).wf(),
        final(logger).open_contexts() == old(logger).open_contexts(),
        final(logger).log_view() == logs_in_context(
            old(logger).log_view(),
            old(logger).open_contexts().push("puppet '"@ + control.name@ + "'"@),
            puppet_spec(*first_pass, control),
        ),
        match puppet_spec(*first_pass, control) {
            Ok(v) => r matches Some(item) && item_view(item) == v,
            Err(_) => r is None,
        },
{
    let ghost outer = logger.open_contexts();
    let ghost c = control;
    logger.push_context(concat3("puppet '", control.name.as_str(), "'"));
    let puppet_type = *control.puppet_type;
    let r = compile_puppet_type(logger, first_pass, control.name, puppet_type);
    logger.pop_context();
    proof {
        assert(logger.open_contexts() =~= outer);
    }
    r
}

/// How a button, toggle or puppet element compiles.
#[verifier::opaque]
pub open spec fn leaf_element_spec(
    fp: FirstPassData,
    e: DeclMenuElement,
    logs: Seq<LogView>,
    contexts: Seq<Seq<char>>,
) -> (Option<MenuItemView>, Seq<LogView>) {
    match e {
        DeclMenuElement::Boolean(bc) => {
            let o = boolean_spec(fp, bc);
            (
                match o {
                    Ok(v) => Some(v),
                    Err(_) => None,
                },
                logs_in_context(logs, contexts.push(boolean_context(bc.hold)), o),
            )
        },
        DeclMenuElement::Puppet(pc) => {
            let o = puppet_spec(fp, pc);
            (
                match o {
                    Ok(v) => Some(v),
                    Err(_) => None,
                },
                logs_in_context(logs, contexts.push("puppet '"@ + pc.name@ + "'"@), o),
            )
        },
        _ => (None, logs),
    }
}

/// A menu group as its name and items.
pub type GroupView = (Seq<char>, Seq<MenuItemView>);

pub open spec fn group_context(contexts: Seq<Seq<char>>, name: Seq<char>) -> Seq<Seq<char>> {
    if name.len() == 0 {
        contexts
    } else {
        contexts.push("menu group '"@ + name + "'"@)
    }
}

/// How a menu group compiles: its elements in order, inside "menu group 'NAME'" where it has
/// a name; elements that fail are left out.
pub open spec fn menu_group_spec(
    fp: FirstPassData,
    sm: DeclSubMenu,
    logs: Seq<LogView>,
    contexts: Seq<Seq<char>>,
) -> (GroupView, Seq<LogView>)
    decreases sm,
{
    let (items, l) = elements_spec(fp, sm.elements@, logs, group_context(contexts, sm.name@));
    ((sm.name@, items), l)
}

pub open spec fn elements_spec(
    fp: FirstPassData,
    es: Seq<DeclMenuElement>,
    logs: Seq<LogView>,
    contexts: Seq<Seq<char>>,
) -> (Seq<MenuItemView>, Seq<LogView>)
    decreases es,
{
    if es.len() == 0 {
        (Seq::empty(), logs)
    } else {
        let (item, l): (Option<MenuItemView>, Seq<LogView>) = match es[0] {
            DeclMenuElement::SubMenu(sub) => {
                let (g, l) = menu_group_spec(fp, sub, logs, contexts);
                (Some(MenuItemView::SubMenu(g.0, g.1)), l)
            },
            _ => leaf_element_spec(fp, es[0], logs, contexts),
        };
        let (rest, l2) = elements_spec(fp, es.drop_first(), l, contexts);
        (
            match item {
                Some(v) => seq![v] + rest,
                None => rest,
            },
            l2,
        )
    }
}

/// Whether every control among `es` compiles.
pub open spec fn controls_compile(fp: FirstPassData, es: Seq<DeclMenuElement>) -> bool {
    forall|i: int|
        0 <= i < es.len() ==> match #[trigger] es[i] {
            DeclMenuElement::Boolean(bc) => boolean_spec(fp, bc) is Ok,
            DeclMenuElement::Puppet(pc) => puppet_spec(fp, pc) is Ok,
            DeclMenuElement::SubMenu(_) => true,
        }
}

/// A menu group never has more items than elements, and where each of its controls compiles,
/// it has one item for each element, in order: a submenu of the same name, or the compiled
/// button, toggle or puppet.
pub proof fn lemma_menu_items_follow_elements(
    fp: FirstPassData,
    es: Seq<DeclMenuElement>,
    logs: Seq<LogView>,
    contexts: Seq<Seq<char>>,
)
    ensures
        elements_spec(fp, es, logs, contexts).0.len() <= es.len(),
        controls_compile(fp, es) ==> {
            let items = elements_spec(fp, es, logs, contexts).0;
            &&& items.len() == es.len()
            &&& forall|i: int|
                0 <= i < es.len() ==> match #[trigger] es[i] {
                    DeclMenuElement::SubMenu(sm) => items[i] matches MenuItemView::SubMenu(n, _) && n == sm.name@,
                    DeclMenuElement::Boolean(bc) => boolean_spec(fp, bc) == Ok::<MenuItemView, Seq<char>>(items[i]),
                    DeclMenuElement::Puppet(pc) => puppet_spec(fp, pc) == Ok::<MenuItemView, Seq<char>>(items[i]),
                }
        },
    decreases es.len(),
{
    reveal(leaf_element_spec);
    if es.len() > 0 {
        let (item, l): (Option<MenuItemView>, Seq<LogView>) = match es[0] {
            DeclMenuElement::SubMenu(sub) => {
                let (g, l) = menu_group_spec(fp, sub, logs, contexts);
                (Some(MenuItemView::SubMenu(g.0, g.1)), l)
            },
            _ => leaf_element_spec(fp, es[0], logs, contexts),
        };
        lemma_menu_items_follow_elements(fp, es.drop_first(), l, contexts);
        if controls_compile(fp, es) {
            assert forall|i: int| 0 <= i < es.drop_first().len() implies match #[trigger] es.drop_first()[i] {
                DeclMenuElement::Boolean(bc) => boolean_spec(fp, bc) is Ok,
                DeclMenuElement::Puppet(pc) => puppet_spec(fp, pc) is Ok,
                DeclMenuElement::SubMenu(_) => true,
            } by {
                assert(es.drop_first()[i] == es[i + 1]);
            }
            let rest = elements_spec(fp, es.drop_first(), l, contexts).0;
            let items = elements_spec(fp, es, logs, contexts).0;
            assert(match es[0] {
                DeclMenuElement::Boolean(bc) => boolean_spec(fp, bc) is Ok,
                DeclMenuElement::Puppet(pc) => puppet_spec(fp, pc) is Ok,
                DeclMenuElement::SubMenu(_) => true,
            });
            assert(items == seq![item->Some_0] + rest);
            assert forall|i: int| 0 <= i < es.len() implies match #[trigger] es[i] {
                DeclMenuElement::SubMenu(sm) => items[i] matches MenuItemView::SubMenu(n, _) && n == sm.name@,
                DeclMenuElement::Boolean(bc) => boolean_spec(fp, bc) == Ok::<MenuItemView, Seq<char>>(items[i]),
                DeclMenuElement::Puppet(pc) => puppet_spec(fp, pc) == Ok::<MenuItemView, Seq<char>>(items[i]),
            } by {
                if i > 0 {
                    assert(es[i] == es.drop_first()[i - 1]);
                    assert(items[i] == rest[i - 1]);
                }
            }
        }
    }
}

proof fn lemma_items_view_prepend(i: MenuItem, rest: Seq<MenuItem>)
    ensures
        items_view(seq![i] + rest) == seq![item_view(i)] + items_view(rest),
{
    assert((seq![i] + rest).drop_first() =~= rest);
    assert((seq![i] + rest)[0] == i);
}

fn prepend_item(i: MenuItem, rest: Vec<MenuItem>) -> (r: Vec<MenuItem>)
    ensures
        items_view(r@) == seq![item_view(i)] + items_view(rest@),
{
    let ghost rest_view = rest@;
    let mut r: Vec<MenuItem> = Vec::new();
    r.push(i);
    let mut rest = rest;
    r.append(&mut rest);
    proof {
        assert(r@ =~= seq![i] + rest_view);
        lemma_items_view_prepend(i, rest_view);
    }
    r
}

/// Compiles the elements of a menu group in order, leaving out those that fail.
pub fn compile_menu_elements(
    logger: &mut Logger,
    first_pass: &FirstPassData,
    elements: Vec<DeclMenuElement>,
) -> (r: Vec<MenuItem>)
    requires
        old(logger).wf(),
    ensures
        final(logger).wf(),
        final(logger).open_contexts() == old(logger).open_contexts(),
        ({
            let (vs, logs) = elements_spec(
                *first_pass,
                elements@,
                old(logger).log_view(),
                old(logger).open_contexts(),
            );
            items_view(r@) == vs && final(logger).log_view() == logs
        }),
    decreases elements@,
{
    if elements.len() == 0 {
        return Vec::new();
    }
    let ghost all = elements@;
    let mut elements = elements;
    let first = elements.remove(0);
    proof {
        assert(elements@ =~= all.drop_first());
        assert(first == all[0]);
    }
    proof {
        reveal(leaf_element_spec);
    }
    let item = match first {
        DeclMenuElement::SubMenu(sm) => match compile_menu_group(logger, first_pass, sm) {
            Some(g) => Some(MenuItem::SubMenu(g)),
            None => None,
        },
        DeclMenuElement::Boolean(bc) => compile_boolean(logger, first_pass, bc),
        DeclMenuElement::Puppet(pc) => compile_puppet(logger, first_pass, pc),
    };
    let rest = compile_menu_elements(logger, first_pass, elements);
    match item {
        Some(i) => prepend_item(i, rest),
        None => rest,
    }
}

/// Compiles a menu group (see `menu_group_spec`); it always yields a group.
pub fn compile_menu_group(logger: &mut Logger, first_pass: &FirstPassData, submenu: DeclSubMenu) -> (r:
    Compiled<MenuGroup>)
    requires
        old(logger).wf(),
    ensures
        final(logger).wf(),
        final(logger).open_contexts() == old(logger).open_contexts(),
        ({
            let (g, logs) = menu_group_spec(
                *first_pass,
                submenu,
                old(logger).log_view(),
                old(logger).open_contexts(),
            );
            &&& r matches Some(mg) && mg.name@ == g.0 && items_view(mg.items@) == g.1
            &&& final(logger).log_view() == logs
        }),
    decreases submenu,
{
    let ghost outer = logger.open_contexts();
    let named = !submenu.name.as_str().is_empty();
    if named {
        logger.push_context(concat3("menu group '", submenu.name.as_str(), "'"));
    }
    let items = compile_menu_elements(logger, first_pass, submenu.elements);
    if named {
        logger.pop_context();
    }
    proof {
        assert(logger.open_contexts() =~= outer);
    }
    success(MenuGroup { name: submenu.name, items })
}

pub type MenuAcc = (Seq<MenuItemView>, Seq<LogView>);

/// How the menu blocks compile, numbered from `index`: the items of every block's group, in
/// order, each block reported inside "menu block N".
pub open spec fn menu_blocks_fold(
    fp: FirstPassData,
    contexts: Seq<Seq<char>>,
    acc: MenuAcc,
    blocks: Seq<DeclSubMenu>,
    index: int,
) -> MenuAcc
    decreases blocks.len(),
{
    if blocks.len() == 0 {
        acc
    } else {
        let inner = contexts.push(block_context("menu block "@, index));
        let (g, l) = menu_group_spec(fp, blocks[0], acc.1, inner);
        menu_blocks_fold(fp, contexts, (acc.0 + g.1, l), blocks.drop_first(), index + 1)
    }
}

proof fn lemma_items_view_concat(a: Seq<MenuItem>, b: Seq<MenuItem>)
    ensures
        items_view(a + b) == items_view(a) + items_view(b),
    decreases a.len(),
{
    if a.len() == 0 {
        assert(a + b =~= b);
        assert(items_view(a) =~= Seq::<MenuItemView>::empty());
        assert(items_view(a) + items_view(b) =~= items_view(b));
    } else {
        assert((a + b).drop_first() =~= a.drop_first() + b);
        assert((a + b)[0] == a[0]);
        lemma_items_view_concat(a.drop_first(), b);
        assert(items_view(a + b) =~= items_view(a) + items_view(b));
    }
}

/// Compiles the menu: the items of every block, in order.
#[verifier::loop_isolation(false)]
pub fn compile_menu(logger: &mut Logger, first_pass: &FirstPassData, decl_menu_blocks: Vec<DeclSubMenu>) -> (r:
    Compiled<Vec<MenuItem>>)
    requires
        old(logger).wf(),
        decl_menu_blocks@.len() < usize::MAX,
    ensures
        final(logger).wf(),
        final(logger).open_contexts() == old(logger).open_contexts(),
        ({
            let (items, logs) = menu_blocks_fold(
                *first_pass,
                old(logger).open_contexts(),
                (Seq::empty(), old(logger).log_view()),
                decl_menu_blocks@,
                0,
            );
            &&& r matches Some(v) && items_view(v@) == items
            &&& final(logger).log_view() == logs
        }),
{
    let ghost outer = logger.open_contexts();
    let mut elements: Vec<MenuItem> = Vec::new();
    let mut blocks = decl_menu_blocks;
    let mut index: usize = 0;
    let ghost total = menu_blocks_fold(
        *first_pass,
        outer,
        (Seq::empty(), logger.log_view()),
        blocks@,
        0,
    );
    proof {
        assert(items_view(elements@) =~= Seq::<MenuItemView>::empty());
    }
    while blocks.len() > 0
        invariant
            logger.wf(),
            logger.open_contexts() == outer,
            index + blocks@.len() == decl_menu_blocks@.len(),
            total == menu_blocks_fold(
                *first_pass,
                outer,
                (items_view(elements@), logger.log_view()),
                blocks@,
                index as int,
            ),
        decreases blocks@.len(),
    {
        let ghost before = blocks@;
        let decl_menu = blocks.remove(0);
        proof {
            assert(blocks@ =~= before.drop_first());
        }
        let context = concat2("menu block ", usize_to_decimal(index).as_str());
        logger.push_context(context);
        let ghost elements_before = elements@;
        match compile_menu_group(logger, first_pass, decl_menu) {
            Some(menu) => {
                let mut items = menu.items;
                let ghost added = items@;
                elements.append(&mut items);
                proof {
                    lemma_items_view_concat(elements_before, added);
                    assert(elements@ =~= elements_before + added);
                }
            },
            None => {},
        }
        logger.pop_context();
        index = index + 1;
    }
    success(elements)
}


/// Whether `ps` declares `name` exposed, at least locally, of `ty`'s kind.
#[verifier::opaque]
pub open spec fn exposes(ps: Seq<Parameter>, name: Seq<char>, ty: ParameterType) -> bool {
    exists|i: int|
        0 <= i < ps.len() && ((#[trigger] ps[i]) matches Parameter::Declared(d) && d.name@ == name
            && same_kind(d.value_type, ty) && scope_suitable(d.scope, ParameterScope::Local(false)))
}

/// Whether every parameter that a menu item, and every item under it, controls is exposed
/// in `ps`, of the kind of value the item gives it.
pub open spec fn item_controls_exposed(ps: Seq<Parameter>, item: MenuItemView) -> bool
    decreases item,
{
    match item {
        MenuItemView::SubMenu(_, items) => items_control_exposed(ps, items),
        MenuItemView::Button(_, p, v) => exposes(ps, p, v),
        MenuItemView::Toggle(_, p, v) => exposes(ps, p, v),
        MenuItemView::Radial(_, p) => exposes(ps, p, ParameterType::Float(0)),
        MenuItemView::TwoAxis(_, h, v) => exposes(ps, h.0, ParameterType::Float(0)) && exposes(
            ps,
            v.0,
            ParameterType::Float(0),
        ),
        MenuItemView::FourAxis(_, l, r, u, d) => exposes(ps, l.0, ParameterType::Float(0)) && exposes(
            ps,
            r.0,
            ParameterType::Float(0),
        ) && exposes(ps, u.0, ParameterType::Float(0)) && exposes(ps, d.0, ParameterType::Float(0)),
    }
}

pub open spec fn items_control_exposed(ps: Seq<Parameter>, items: Seq<MenuItemView>) -> bool
    decreases items,
{
    if items.len() == 0 {
        true
    } else {
        item_controls_exposed(ps, items[0]) && items_control_exposed(ps, items.drop_first())
    }
}

proof fn lemma_exposed_exposes(fp: FirstPassData, name: Seq<char>, ty: ParameterType, value: ParameterType)
    requires
        same_kind(ty, value),
    ensures
        exposed(fp, name, ty) is Ok ==> exposes(fp.parameters_view(), name, value),
{
    reveal(exposes);
    lemma_typed_outcome_declared(fp.parameters_view(), name, ty, ParameterScope::Local(false));
    if let Ok(i) = exposed(fp, name, ty) {
        assert(fp.parameters_view()[i] is Declared);
    }
}

proof fn lemma_puppet_target_exposed(fp: FirstPassData, t: DeclPuppetTarget)
    ensures
        take_puppet_spec(fp, t) matches Ok(p) ==> exposes(fp.parameters_view(), p, ParameterType::Float(0)),
{
    reveal(take_puppet_spec);
    match t {
        DeclPuppetTarget::Puppet(dp) => {
            if let Ok(parameter) = puppet_outcome(fp.layers_view(), dp.puppet@) {
                lemma_exposed_exposes(fp, parameter, ParameterType::Float(0), ParameterType::Float(0));
            }
        },
    }
}

proof fn lemma_group_button_exposed(fp: FirstPassData, b: DeclBooleanControl, dg: DeclDriveGroup)
    requires
        b.parameter_drive == DeclParameterDrive::Group(dg),
    ensures
        boolean_spec(fp, b) matches Ok(item) ==> item_controls_exposed(fp.parameters_view(), item),
{
    if let Ok((parameter, options)) = group_outcome(fp.layers_view(), dg.group@) {
        if let Some(i) = first_match(options, option_named(dg.option@)) {
            lemma_exposed_exposes(fp, parameter, ParameterType::Int(0), ParameterType::Int(options[i].1 as u8));
        }
    }
}

proof fn lemma_switch_button_exposed(fp: FirstPassData, b: DeclBooleanControl, ds: DeclDriveSwitch)
    requires
        b.parameter_drive == DeclParameterDrive::Switch(ds),
    ensures
        boolean_spec(fp, b) matches Ok(item) ==> item_controls_exposed(fp.parameters_view(), item),
{
    if let Ok(parameter) = switch_outcome(fp.layers_view(), ds.switch@) {
        let v = match ds.value {
            Some(v) => v,
            None => false,
        };
        lemma_exposed_exposes(fp, parameter, ParameterType::Bool(false), ParameterType::Bool(v));
    }
}

proof fn lemma_puppet_button_exposed(fp: FirstPassData, b: DeclBooleanControl, dp: DeclDrivePuppet)
    requires
        b.parameter_drive == DeclParameterDrive::Puppet(dp),
    ensures
        boolean_spec(fp, b) matches Ok(item) ==> item_controls_exposed(fp.parameters_view(), item),
{
    if let Ok(parameter) = puppet_outcome(fp.layers_view(), dp.puppet@) {
        let v = match dp.value {
            Some(v) => v,
            None => ONE_BITS,
        };
        lemma_exposed_exposes(fp, parameter, ParameterType::Float(0), ParameterType::Float(v));
    }
}

/// A button or toggle sets only a parameter that the avatar declares exposed, to a value of
/// the parameter's kind.
pub proof fn lemma_boolean_controls_exposed(fp: FirstPassData, b: DeclBooleanControl)
    ensures
        boolean_spec(fp, b) matches Ok(item) ==> item_controls_exposed(fp.parameters_view(), item),
{
    match b.parameter_drive {
        DeclParameterDrive::Group(dg) => lemma_group_button_exposed(fp, b, dg),
        DeclParameterDrive::Switch(ds) => lemma_switch_button_exposed(fp, b, ds),
        DeclParameterDrive::Puppet(dp) => lemma_puppet_button_exposed(fp, b, dp),
        _ => {},
    }
}

/// A puppet control moves only float parameters that the avatar declares exposed.
pub proof fn lemma_puppet_controls_exposed(fp: FirstPassData, c: DeclPuppetControl)
    ensures
        puppet_spec(fp, c) matches Ok(item) ==> item_controls_exposed(fp.parameters_view(), item),
{
    match *c.puppet_type {
        DeclPuppetType::Radial(a) => {
            lemma_puppet_target_exposed(fp, a.target);
        },
        DeclPuppetType::TwoAxis { horizontal, vertical } => {
            lemma_puppet_target_exposed(fp, horizontal.target);
            lemma_puppet_target_exposed(fp, vertical.target);
        },
        DeclPuppetType::FourAxis { up, down, left, right } => {
            lemma_puppet_target_exposed(fp, up.target);
            lemma_puppet_target_exposed(fp, down.target);
            lemma_puppet_target_exposed(fp, left.target);
            lemma_puppet_target_exposed(fp, right.target);
        },
    }
}


proof fn lemma_items_control_exposed_concat(ps: Seq<Parameter>, a: Seq<MenuItemView>, b: Seq<MenuItemView>)
    requires
        items_control_exposed(ps, a),
        items_control_exposed(ps, b),
    ensures
        items_control_exposed(ps, a + b),
    decreases a.len(),
{
    if a.len() == 0 {
        assert(a + b =~= b);
    } else {
        assert((a + b).drop_first() =~= a.drop_first() + b);
        assert((a + b)[0] == a[0]);
        lemma_items_control_exposed_concat(ps, a.drop_first(), b);
    }
}

proof fn lemma_leaf_controls_exposed(fp: FirstPassData, e: DeclMenuElement, logs: Seq<LogView>, contexts: Seq<Seq<char>>)
    ensures
        leaf_element_spec(fp, e, logs, contexts).0 matches Some(v) ==> item_controls_exposed(fp.parameters_view(), v),
{
    reveal(leaf_element_spec);
    match e {
        DeclMenuElement::Boolean(bc) => {
            lemma_boolean_controls_exposed(fp, bc);
        },
        DeclMenuElement::Puppet(pc) => {
            lemma_puppet_controls_exposed(fp, pc);
        },
        _ => {},
    }
}

#[verifier::spinoff_prover]
#[verifier::rlimit(60)]
proof fn lemma_group_controls_exposed(fp: FirstPassData, sm: DeclSubMenu, logs: Seq<LogView>, contexts: Seq<Seq<char>>)
    ensures
        items_control_exposed(fp.parameters_view(), menu_group_spec(fp, sm, logs, contexts).0.1),
    decreases sm,
{
    lemma_elements_control_exposed(fp, sm.elements@, logs, group_context(contexts, sm.name@));
}

#[verifier::spinoff_prover]
#[verifier::rlimit(60)]
proof fn lemma_elements_control_exposed(
    fp: FirstPassData,
    es: Seq<DeclMenuElement>,
    logs: Seq<LogView>,
    contexts: Seq<Seq<char>>,
)
    ensures
        items_control_exposed(fp.parameters_view(), elements_spec(fp, es, logs, contexts).0),
    decreases es,
{
    let ps = fp.parameters_view();
    if es.len() > 0 {
        let (item, l): (Option<MenuItemView>, Seq<LogView>) = match es[0] {
            DeclMenuElement::SubMenu(sub) => {
                let (g, l) = menu_group_spec(fp, sub, logs, contexts);
                (Some(MenuItemView::SubMenu(g.0, g.1)), l)
            },
            _ => leaf_element_spec(fp, es[0], logs, contexts),
        };
        match es[0] {
            DeclMenuElement::SubMenu(sub) => {
                lemma_group_controls_exposed(fp, sub, logs, contexts);
            },
            _ => {
                lemma_leaf_controls_exposed(fp, es[0], logs, contexts);
            },
        }
        lemma_elements_control_exposed(fp, es.drop_first(), l, contexts);
        let rest = elements_spec(fp, es.drop_first(), l, contexts).0;
        if let Some(v) = item {
            assert(item_controls_exposed(ps, v));
            assert(items_control_exposed(ps, seq![v])) by {
                assert(seq![v][0] == v);
                assert(seq![v].drop_first() =~= Seq::<MenuItemView>::empty());
                assert(items_control_exposed(ps, Seq::<MenuItemView>::empty()));
            }
            lemma_items_control_exposed_concat(ps, seq![v], rest);
        }
    }
}

/// Every button, toggle and puppet control of the menu, at any depth, controls only
/// parameters that the avatar declares exposed, each with a value of its kind.
pub proof fn lemma_menu_controls_exposed(
    fp: FirstPassData,
    contexts: Seq<Seq<char>>,
    acc: MenuAcc,
    blocks: Seq<DeclSubMenu>,
    index: int,
)
    requires
        items_control_exposed(fp.parameters_view(), acc.0),
    ensures
        items_control_exposed(fp.parameters_view(), menu_blocks_fold(fp, contexts, acc, blocks, index).0),
    decreases blocks.len(),
{
    if blocks.len() > 0 {
        let inner = contexts.push(block_context("menu block "@, index));
        let (g, l) = menu_group_spec(fp, blocks[0], acc.1, inner);
        lemma_group_controls_exposed(fp, blocks[0], acc.1, inner);
        lemma_items_control_exposed_concat(fp.parameters_view(), acc.0, g.1);
        lemma_menu_controls_exposed(fp, contexts, (acc.0 + g.1, l), blocks.drop_first(), index + 1);
    }
}


/// A puppet control's axes each move the parameter of the puppet layer that the declared axis
/// names, with that axis's labels: a radial control its one axis; a two-axis control its
/// horizontal axis as horizontal and its vertical axis as vertical; a four-axis control puts
/// the declared up, down, left and right axes in its left, right, up and down places.
pub proof fn lemma_puppet_axes_keep_their_puppets(fp: FirstPassData, c: DeclPuppetControl)
    ensures
        puppet_spec(fp, c) matches Ok(item) ==> match *c.puppet_type {
            DeclPuppetType::Radial(a) => take_puppet_spec(fp, a.target) matches Ok(p) && item
                == MenuItemView::Radial(c.name@, p),
            DeclPuppetType::TwoAxis { horizontal, vertical } => item matches MenuItemView::TwoAxis(n, h, v)
                && n == c.name@
                && take_puppet_spec(fp, horizontal.target) == Ok::<Seq<char>, Seq<char>>(h.0)
                && h.1 == label_or_empty(horizontal.label_positive) && h.2 == label_or_empty(horizontal.label_negative)
                && take_puppet_spec(fp, vertical.target) == Ok::<Seq<char>, Seq<char>>(v.0)
                && v.1 == label_or_empty(vertical.label_positive) && v.2 == label_or_empty(vertical.label_negative),
            DeclPuppetType::FourAxis { up, down, left, right } => item matches MenuItemView::FourAxis(n, l, r, u, d)
                && n == c.name@
                && take_puppet_spec(fp, up.target) == Ok::<Seq<char>, Seq<char>>(l.0) && l.1 == label_or_empty(up.label_positive)
                && take_puppet_spec(fp, down.target) == Ok::<Seq<char>, Seq<char>>(r.0) && r.1 == label_or_empty(down.label_positive)
                && take_puppet_spec(fp, left.target) == Ok::<Seq<char>, Seq<char>>(u.0) && u.1 == label_or_empty(left.label_positive)
                && take_puppet_spec(fp, right.target) == Ok::<Seq<char>, Seq<char>>(d.0) && d.1 == label_or_empty(right.label_positive),
        },
{
}


/// A button or toggle keeps what it was declared as: held it is a toggle, else a button; it
/// keeps its name; a group drive sets the group layer's parameter to the value of the named
/// option, a switch drive sets the switch's parameter to the declared value (off where none
/// is given), and a puppet drive sets the puppet's parameter to the declared value (1.0
/// where none is given).
pub proof fn lemma_boolean_control_keeps_its_declaration(fp: FirstPassData, c: DeclBooleanControl)
    ensures
        boolean_spec(fp, c) matches Ok(item) ==> {
            let (parameter, value) = match item {
                MenuItemView::Toggle(n, p, v) => (p, v),
                MenuItemView::Button(n, p, v) => (p, v),
                _ => (Seq::empty(), ParameterType::Int(0)),
            };
            &&& if c.hold {
                item matches MenuItemView::Toggle(n, _, _) && n == c.name@
            } else {
                item matches MenuItemView::Button(n, _, _) && n == c.name@
            }
            &&& match c.parameter_drive {
                DeclParameterDrive::Group(dg) => group_outcome(fp.layers_view(), dg.group@) matches Ok(g)
                    && (parameter == g.0 && (first_match(g.1, option_named(dg.option@)) matches Some(i)
                    && value == ParameterType::Int(g.1[i].1 as u8))),
                DeclParameterDrive::Switch(ds) => switch_outcome(fp.layers_view(), ds.switch@) == Ok::<Seq<char>, Seq<char>>(parameter)
                    && value == ParameterType::Bool(ds.value == Some(true)),
                DeclParameterDrive::Puppet(dp) => puppet_outcome(fp.layers_view(), dp.puppet@) == Ok::<Seq<char>, Seq<char>>(parameter)
                    && value == ParameterType::Float(
                    match dp.value {
                        Some(x) => x,
                        None => ONE_BITS,
                    },
                ),
                _ => false,
            }
        },
{
}

} // verus!

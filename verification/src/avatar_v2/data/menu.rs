//! The expression menu of an avatar.
use crate::avatar_v2::data::parameter::ParameterType;
use vstd::prelude::*;

verus! {

#[derive(Debug)]
pub enum MenuItem {
    SubMenu(MenuGroup),
    Button(MenuBoolean),
    Toggle(MenuBoolean),
    Radial(MenuRadial),
    TwoAxis(MenuTwoAxis),
    FourAxis(MenuFourAxis),
}

#[derive(Debug)]
pub struct MenuGroup {
    pub name: String,
    pub items: Vec<MenuItem>,
}

#[derive(Debug, Clone)]
pub struct MenuBoolean {
    pub name: String,
    pub parameter: String,
    pub value: ParameterType,
}

#[derive(Debug, Clone)]
pub struct MenuRadial {
    pub name: String,
    pub parameter: String,
}

#[derive(Debug, Clone)]
pub struct MenuTwoAxis {
    pub name: String,
    pub horizontal_axis: BiAxis,
    pub vertical_axis: BiAxis,
}

#[derive(Debug, Clone)]
pub struct MenuFourAxis {
    pub name: String,
    pub left_axis: UniAxis,
    pub right_axis: UniAxis,
    pub up_axis: UniAxis,
    pub down_axis: UniAxis,
}

#[derive(Debug, Clone)]
pub struct BiAxis {
    pub parameter: String,
    pub label_positive: String,
    pub label_negative: String,
}

#[derive(Debug, Clone)]
pub struct UniAxis {
    pub parameter: String,
    pub label: String,
}

} // verus!

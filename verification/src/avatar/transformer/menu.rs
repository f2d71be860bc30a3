//! Compiles the menu of an avatar.
use vstd::prelude::*;

use crate::avatar::data::MenuGroup;
use crate::avatar::transformer::{failure, Compiled, Context};
use crate::decl::data::Menu as DeclMenu;

verus! {

/// Menus are not compiled by this version: there is never a menu, and nothing is logged.
pub fn compile_menu(ctx: &mut Context, decl_menu_blocks: Vec<DeclMenu>) -> (r: Compiled<MenuGroup>)
    ensures
        r is None,
        *final(ctx) == *old(ctx),
{
    failure()
}

} // verus!

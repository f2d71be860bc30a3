//! Compiles a whole avatar, step by step.
use vstd::prelude::*;

use crate::avatar::data::{Avatar, AnimationGroup};
use crate::avatar::transformer::{
    animations::{
        blocks_well_formed, compile_animations_blocks, elements_fold, flatten_elements,
        is_group_view, GroupView,
    },
    assets::{asset_blocks_fold, compile_assets_blocks},
    dependencies::{error_entry, CompiledAnimations, CompiledSources},
    drivers::{compile_drivers_blocks, driver_blocks_fold, flatten_driver_groups},
    failure,
    menu::compile_menu,
    parameters::{compile_parameter_blocks, parameter_blocks_fold},
    success, Compiled, Context, LogKind, LogLevel,
};
use crate::decl::data::Avatar as DeclAvatar;

verus! {

/// Whether a character has the Unicode property `White_Space`.
pub open spec fn is_white_space(c: char) -> bool {
    let n = c as u32;
    ||| 0x09 <= n <= 0x0D
    ||| n == 0x20
    ||| n == 0x85
    ||| n == 0xA0
    ||| n == 0x1680
    ||| 0x2000 <= n <= 0x200A
    ||| n == 0x2028
    ||| n == 0x2029
    ||| n == 0x202F
    ||| n == 0x205F
    ||| n == 0x3000
}

/// The text without its leading white space.
pub open spec fn trim_start(s: Seq<char>) -> Seq<char>
    decreases s.len(),
{
    if s.len() > 0 && is_white_space(s[0]) {
        trim_start(s.drop_first())
    } else {
        s
    }
}

/// The text without its trailing white space.
pub open spec fn trim_end(s: Seq<char>) -> Seq<char>
    decreases s.len(),
{
    if s.len() > 0 && is_white_space(s.last()) {
        trim_end(s.drop_last())
    } else {
        s
    }
}

/// The text without leading and trailing white space.
pub open spec fn trimmed(s: Seq<char>) -> Seq<char> {
    trim_end(trim_start(s))
}

/// Calls `str::trim`, which its documentation says removes the leading and trailing
/// characters that have the Unicode property `White_Space`.
#[verifier::external_body]
pub(crate) fn trim_str(s: &str) -> (r: String)
    ensures
        r@ == trimmed(s@),
{
    s.trim().to_string()
}

pub type Logs = Seq<(LogLevel, Seq<char>)>;

/// The groups that the animation blocks compile to, after parameters and assets.
pub open spec fn avatar_group_views(a: DeclAvatar, logs: Logs) -> (Seq<GroupView>, Logs) {
    let (ps, l1) = parameter_blocks_fold((Seq::empty(), logs), a.parameters_blocks@);
    let (assets, l2) = asset_blocks_fold((Seq::empty(), l1), a.assets_blocks@);
    elements_fold((ps, assets), (Seq::empty(), l2), flatten_elements(a.animations_blocks@))
}

/// Whether `gs` are groups with these views, one for one.
pub open spec fn groups_match(gs: Seq<AnimationGroup>, views: Seq<GroupView>) -> bool {
    &&& gs.len() == views.len()
    &&& forall|j: int| 0 <= j < views.len() ==> is_group_view(#[trigger] gs[j], views[j])
}

pub open spec fn invalid_name_text(name: Seq<char>) -> Seq<char> {
    "invalid avatar name '"@ + name + "'"@
}

/// The logs of compiling an avatar with a name, given the groups its animations compiled to:
/// parameters, assets, animations and drivers are compiled in turn.
pub open spec fn avatar_logs(a: DeclAvatar, logs: Logs, gs: Seq<AnimationGroup>) -> Logs {
    let (ps, l1) = parameter_blocks_fold((Seq::empty(), logs), a.parameters_blocks@);
    let (assets, l2) = asset_blocks_fold((Seq::empty(), l1), a.assets_blocks@);
    let l3 = avatar_group_views(a, logs).1;
    driver_blocks_fold((ps, assets, gs), (Seq::empty(), l3), flatten_driver_groups(a.drivers_blocks@)).1
}

/// Compiles an avatar whose name has been trimmed to `name`. An empty name is an error. The menu
/// is not compiled by this version, so no avatar comes out; the logs are those of every step
/// before the menu.
pub fn compile_avatar_named(ctx: &mut Context, name: String, avatar: DeclAvatar) -> (r: Compiled<Avatar>)
    requires
        old(ctx).wf(),
        blocks_well_formed(avatar.animations_blocks@),
    ensures
        final(ctx).wf(),
        r is None,
        name@.len() == 0 ==> final(ctx).logs_view() == old(ctx).logs_view().push(
            error_entry(invalid_name_text(name@)),
        ),
        name@.len() > 0 ==> exists|gs: Seq<AnimationGroup>|
            groups_match(gs, avatar_group_views(avatar, old(ctx).logs_view()).0)
                && final(ctx).logs_view() == avatar_logs(avatar, old(ctx).logs_view(), gs),
{
    let ghost a = avatar;
    let ghost logs0 = ctx.logs_view();
    if name.as_str().is_empty() {
        ctx.log_error(LogKind::InvalidAvatarName(name));
        return failure();
    }
    let parameters = match compile_parameter_blocks(ctx, avatar.parameters_blocks) {
        Some(p) => p,
        None => {
            return failure();
        },
    };
    let assets = match compile_assets_blocks(ctx, avatar.assets_blocks) {
        Some(a) => a,
        None => {
            return failure();
        },
    };
    let compiled_sources = CompiledSources::new(parameters, assets);
    let animation_groups = match compile_animations_blocks(
        ctx,
        &compiled_sources,
        avatar.animations_blocks,
    ) {
        Some(g) => g,
        None => {
            return failure();
        },
    };
    let ghost gs = animation_groups@;
    let compiled_animations = CompiledAnimations::new(compiled_sources, animation_groups);
    let driver_groups = match compile_drivers_blocks(ctx, &compiled_animations, avatar.drivers_blocks) {
        Some(d) => d,
        None => {
            return failure();
        },
    };
    let top_menu_group = match compile_menu(ctx, avatar.menu_blocks) {
        Some(m) => m,
        None => {
            proof {
                assert(groups_match(gs, avatar_group_views(a, logs0).0));
                assert(ctx.logs_view() == avatar_logs(a, logs0, gs));
            }
            return failure();
        },
    };
    let (parameters, assets, animation_groups) = compiled_animations.deconstruct();
    success(
        Avatar {
            name,
            parameters,
            assets,
            animation_groups,
            driver_groups,
            top_menu_group,
        },
    )
}

/// Compiles an avatar: its name is trimmed first.
pub fn compile_avatar(ctx: &mut Context, avatar: DeclAvatar) -> (r: Compiled<Avatar>)
    requires
        old(ctx).wf(),
        blocks_well_formed(avatar.animations_blocks@),
    ensures
        final(ctx).wf(),
        r is None,
        trimmed(avatar.name@).len() == 0 ==> final(ctx).logs_view() == old(ctx).logs_view().push(
            error_entry(invalid_name_text(trimmed(avatar.name@))),
        ),
        trimmed(avatar.name@).len() > 0 ==> exists|gs: Seq<AnimationGroup>|
            groups_match(gs, avatar_group_views(avatar, old(ctx).logs_view()).0)
                && final(ctx).logs_view() == avatar_logs(avatar, old(ctx).logs_view(), gs),
{
    let name = trim_str(avatar.name.as_str());
    compile_avatar_named(ctx, name, avatar)
}

} // verus!

//! The first avatar format: its compiled form, its errors, and the transformer that compiles it.
pub mod data;
pub mod error;
pub mod transformer;

use vstd::prelude::*;

use crate::avatar::data::{AnimationGroup, Avatar};
use crate::avatar::transformer::animations::blocks_well_formed;
use crate::avatar::transformer::avatar::{
    avatar_group_views, avatar_logs, compile_avatar, groups_match, invalid_name_text, trimmed,
};
use crate::avatar::transformer::dependencies::error_entry;
use crate::avatar::transformer::{Context, LogLevel};
use crate::decl::data::Avatar as DeclAvatar;

verus! {

/// The outcome of compiling an avatar: the avatar, if one came out, and every diagnostic
/// with its level and text.
pub struct TransformResult {
    pub avatar: Option<Avatar>,
    pub logs: Vec<(LogLevel, String)>,
}

/// Whether `logs` are these diagnostics, in order.
pub open spec fn logs_are(logs: Seq<(LogLevel, String)>, view: Seq<(LogLevel, Seq<char>)>) -> bool {
    &&& logs.len() == view.len()
    &&& forall|i: int|
        0 <= i < logs.len() ==> (#[trigger] logs[i]).0 == view[i].0 && logs[i].1@ == view[i].1
}

/// Compiles an avatar from scratch and hands back what came out with the diagnostics.
pub fn transform_avatar(avatar: DeclAvatar) -> (r: TransformResult)
    requires
        blocks_well_formed(avatar.animations_blocks@),
    ensures
        r.avatar is None,
        trimmed(avatar.name@).len() == 0 ==> logs_are(
            r.logs@,
            seq![error_entry(invalid_name_text(trimmed(avatar.name@)))],
        ),
        trimmed(avatar.name@).len() > 0 ==> exists|gs: Seq<AnimationGroup>|
            groups_match(gs, avatar_group_views(avatar, Seq::empty()).0) && logs_are(
                r.logs@,
                avatar_logs(avatar, Seq::empty(), gs),
            ),
{
    let ghost decl = avatar;
    let mut ctx = Context::new();
    let avatar = compile_avatar(&mut ctx, avatar);
    let ghost view = ctx.logs_view();
    let logs = ctx.into_logs();
    proof {
        assert(Seq::<(LogLevel, Seq<char>)>::empty().push(
            error_entry(invalid_name_text(trimmed(decl.name@))),
        ) =~= seq![error_entry(invalid_name_text(trimmed(decl.name@)))]);
    }
    TransformResult { avatar, logs }
}

} // verus!

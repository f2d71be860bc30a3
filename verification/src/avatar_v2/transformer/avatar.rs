//! Compiles a whole avatar: the first pass, then the FX controller and the menu.
use vstd::prelude::*;
use vstd::string::*;

use crate::avatar::transformer::avatar::{trim_str, trimmed};
use crate::avatar_v2::data::avatar::Avatar;
use crate::avatar_v2::logger::{Log, LogView, Logger};
use crate::arbittach::schema::Attachment as AttachmentSchema;
use crate::avatar_v2::data::attachment::AttachmentGroup;
use crate::avatar_v2::transformer::asset::{asset_blocks_fold, assets_view, compile_assets_blocks, AssetView};
use crate::avatar_v2::transformer::attachment::{attachment_blocks_fold, compile_attachment_blocks, group_view};
use crate::avatar_v2::transformer::controller::{
    blocks_declared_views, compile_fx_controller_blocks, controller_blocks_fold, controller_blocks_well_formed,
    declared_layers_view, first_pass_countable, first_pass_fx_controller_blocks, layers_view,
};
use crate::avatar_v2::transformer::export::{blocks_declared_gates, first_pass_exports_blocks};
use crate::avatar_v2::transformer::first_pass::DeclaredView;
use crate::avatar_v2::transformer::menu::{compile_menu, items_view, menu_blocks_fold};
use crate::avatar_v2::transformer::parameter::{
    compile_parameters_blocks, parameter_blocks_fold, parameters_view, ParameterView,
};
use crate::avatar_v2::transformer::{failure, success, Compiled, FirstPassData};
use crate::decl_v2::data::DeclAvatar;

verus! {

/// Whether `fp` holds these parameters, assets, declared layers and declared gates.
pub open spec fn first_pass_built(
    fp: FirstPassData,
    ps: Seq<ParameterView>,
    assets: Seq<AssetView>,
    layers: Seq<(Seq<char>, DeclaredView)>,
    gates: Seq<Seq<char>>,
) -> bool {
    &&& parameters_view(fp.parameters_view()) == ps
    &&& assets_view(fp.assets_view()) == assets
    &&& declared_layers_view(fp.layers_view()) == layers
    &&& fp.gates_view() == gates
}

pub open spec fn invalid_avatar_name_text(name: Seq<char>) -> Seq<char> {
    "invalid avatar name '"@ + name + "'"@
}

/// What the declaration may hold: blocks that can be counted, and options of the kinds their
/// layers expect.
pub open spec fn avatar_well_formed(d: DeclAvatar) -> bool {
    &&& d.parameters_blocks@.len() < usize::MAX
    &&& d.assets_blocks@.len() < usize::MAX
    &&& d.menu_blocks@.len() < usize::MAX
    &&& d.attachments_blocks@.len() < usize::MAX
    &&& first_pass_countable(d.fx_controllers@)
    &&& controller_blocks_well_formed(d.fx_controllers@)
}

/// How the second pass goes over a first pass `fp`, inside `contexts`, after `logs`: the FX
/// controller, the menu, then the attachments against `schemas`; an avatar comes out only if
/// no log was ever recorded.
pub open spec fn second_pass_outcome(
    fp: FirstPassData,
    schemas: Seq<AttachmentSchema>,
    d: DeclAvatar,
    name: Seq<char>,
    ps: Seq<ParameterView>,
    assets: Seq<AssetView>,
    logs: Seq<LogView>,
    contexts: Seq<Seq<char>>,
    final_logs: Seq<LogView>,
    r: Compiled<Avatar>,
) -> bool {
    let (ls, l3) = controller_blocks_fold(fp, contexts, (Seq::empty(), logs), d.fx_controllers@, 0);
    let (items, l4) = menu_blocks_fold(fp, contexts, (Seq::empty(), l3), d.menu_blocks@, 0);
    let (groups, l5) = attachment_blocks_fold(schemas, contexts, (Seq::empty(), l4), d.attachments_blocks@, 0);
    &&& final_logs == l5
    &&& if l5.len() > 0 {
        r is None
    } else {
        r matches Some(av) && av.name@ == name && parameters_view(av.parameters@) == ps && assets_view(
            av.assets@,
        ) == assets && layers_view(av.fx_controller@) == ls && items_view(av.menu_items@) == items
            && av.attachments@.map_values(|g: AttachmentGroup| group_view(g)) == groups
    }
}

/// How compiling `d` with `schemas` inside `contexts`, after `logs`, ends: with `final_logs`
/// recorded and `r` returned (see `compile_avatar`).
pub open spec fn avatar_outcome(
    d: DeclAvatar,
    schemas: Seq<AttachmentSchema>,
    logs: Seq<LogView>,
    contexts: Seq<Seq<char>>,
    final_logs: Seq<LogView>,
    r: Compiled<Avatar>,
) -> bool {
    let inner = contexts.push("avatar"@);
    let name = trimmed(d.name@);
    if name.len() == 0 {
        &&& final_logs == logs.push((invalid_avatar_name_text(name), inner))
        &&& r is None
    } else {
        let (ps, l1) = parameter_blocks_fold(inner, (Seq::empty(), logs), d.parameters_blocks@, 0);
        let (assets, l2) = asset_blocks_fold(inner, (Seq::empty(), l1), d.assets_blocks@, 0);
        exists|fp: FirstPassData|
            first_pass_built(
                fp,
                ps,
                assets,
                blocks_declared_views(d.fx_controllers@),
                blocks_declared_gates(d.exports_blocks@),
            ) && #[trigger] second_pass_outcome(fp, schemas, d, name, ps, assets, l2, inner, final_logs, r)
    }
}

/// Compiles an avatar, reported inside "avatar": its trimmed name must not be empty; the first
/// pass compiles parameters and assets and collects the layers and gates that are declared;
/// the second pass compiles the FX controller and the menu against it, then the attachments
/// against the schemas. No avatar comes out once anything has been logged.
pub fn compile_avatar(logger: &mut Logger, avatar: DeclAvatar, schemas: &Vec<AttachmentSchema>) -> (r: Compiled<Avatar>)
    requires
        old(logger).wf(),
        avatar_well_formed(avatar),
    ensures
        final(logger).wf(),
        final(logger).open_contexts() == old(logger).open_contexts(),
        avatar_outcome(
            avatar,
            schemas@,
            old(logger).log_view(),
            old(logger).open_contexts(),
            final(logger).log_view(),
            r,
        ),
{
    let ghost outer = logger.open_contexts();
    let ghost d = avatar;
    let context = String::from_str("avatar");
    proof {
        reveal_strlit("avatar");
    }
    logger.push_context(context);
    let name = trim_str(avatar.name.as_str());
    if name.unicode_len() == 0 {
        logger.log(Log::InvalidAvatarName(name));
        logger.pop_context();
        proof {
            assert(logger.open_contexts() =~= outer);
        }
        return failure();
    }
    let DeclAvatar {
        name: _,
        parameters_blocks,
        assets_blocks,
        fx_controllers,
        menu_blocks,
        exports_blocks,
        attachments_blocks,
    } = avatar;
    let parameters = match compile_parameters_blocks(logger, parameters_blocks) {
        Some(p) => p,
        None => {
            proof {
                assert(false);
            }
            return failure();
        },
    };
    let assets = match compile_assets_blocks(logger, assets_blocks) {
        Some(a) => a,
        None => {
            proof {
                assert(false);
            }
            return failure();
        },
    };
    let declared_layers = match first_pass_fx_controller_blocks(logger, &fx_controllers) {
        Some(l) => l,
        None => {
            proof {
                assert(false);
            }
            return failure();
        },
    };
    let gates = match first_pass_exports_blocks(logger, &exports_blocks) {
        Some(g) => g,
        None => {
            proof {
                assert(false);
            }
            return failure();
        },
    };
    let first_pass = FirstPassData::new(parameters, assets, declared_layers, gates);
    let ghost l2 = logger.log_view();
    let fx_controller = match compile_fx_controller_blocks(logger, &first_pass, fx_controllers) {
        Some(f) => f,
        None => {
            proof {
                assert(false);
            }
            return failure();
        },
    };
    let menu_items = match compile_menu(logger, &first_pass, menu_blocks) {
        Some(m) => m,
        None => {
            proof {
                assert(false);
            }
            return failure();
        },
    };
    let attachments = match compile_attachment_blocks(logger, schemas, attachments_blocks) {
        Some(a) => a,
        None => {
            proof {
                assert(false);
            }
            return failure();
        },
    };
    let erroneous = logger.erroneous();
    logger.pop_context();
    proof {
        assert(logger.open_contexts() =~= outer);
    }
    if erroneous {
        proof {
            assert(second_pass_outcome(
                first_pass,
                schemas@,
                d,
                name@,
                parameters_view(first_pass.parameters_view()),
                assets_view(first_pass.assets_view()),
                l2,
                outer.push("avatar"@),
                logger.log_view(),
                None,
            ));
        }
        return failure();
    }
    let (parameters, assets) = first_pass.take_back();
    let r = Avatar { name, parameters, assets, fx_controller, menu_items, attachments };
    proof {
        assert(second_pass_outcome(
            first_pass,
            schemas@,
            d,
            name@,
            parameters_view(first_pass.parameters_view()),
            assets_view(first_pass.assets_view()),
            l2,
            outer.push("avatar"@),
            logger.log_view(),
            Some(r),
        ));
    }
    success(r)
}

} // verus!

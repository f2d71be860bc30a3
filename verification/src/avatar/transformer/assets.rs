//! Compiles declared assets.
use vstd::prelude::*;

use crate::avatar::data::{Asset, AssetType};
use crate::avatar::transformer::{
    dependencies::{asset_keys, error_entry, str_equal},
    failure, success, Compiled, Context, LogKind, LogLevel,
};
use crate::decl::data::{AssetKey as DeclAssetKey, AssetType as DeclAssetType, Assets as DeclAssets};
use crate::lookup::{first_index_of, lemma_first_index_absent, lemma_first_index_found};

verus! {

/// Compiling one asset declaration against the assets compiled before it: the asset it adds,
/// if any, and the error it logs, if any. An asset of undetermined type is an error;
/// a key already declared adds nothing and is an error only if the types disagree.
pub open spec fn asset_step(declared: Seq<Asset>, d: DeclAssetKey) -> (Option<Asset>, Option<Seq<char>>) {
    match d.ty {
        DeclAssetType::Indeterminate => (None, Some("indeterminate asset '"@ + d.key@ + "'"@)),
        _ => {
            let ty = if d.ty == DeclAssetType::Material {
                AssetType::Material
            } else {
                AssetType::Animation
            };
            match first_index_of(asset_keys(declared), d.key@) {
                Some(i) => (
                    None,
                    if declared[i].asset_type != ty {
                        Some("asset '"@ + d.key@ + "' has incompatible declaration"@)
                    } else {
                        None
                    },
                ),
                None => (Some(Asset { asset_type: ty, key: d.key }), None),
            }
        },
    }
}

pub open spec fn assets_fold(acc: (Seq<Asset>, Seq<(LogLevel, Seq<char>)>), decls: Seq<DeclAssetKey>) -> (
    Seq<Asset>,
    Seq<(LogLevel, Seq<char>)>,
)
    decreases decls.len(),
{
    if decls.len() == 0 {
        acc
    } else {
        let (a, e) = asset_step(acc.0, decls[0]);
        let assets = match a {
            Some(a) => acc.0.push(a),
            None => acc.0,
        };
        let logs = match e {
            Some(t) => acc.1.push(error_entry(t)),
            None => acc.1,
        };
        assets_fold((assets, logs), decls.drop_first())
    }
}

pub open spec fn asset_blocks_fold(
    acc: (Seq<Asset>, Seq<(LogLevel, Seq<char>)>),
    blocks: Seq<DeclAssets>,
) -> (Seq<Asset>, Seq<(LogLevel, Seq<char>)>)
    decreases blocks.len(),
{
    if blocks.len() == 0 {
        acc
    } else {
        asset_blocks_fold(assets_fold(acc, blocks[0].assets@), blocks.drop_first())
    }
}

/// Compiles every block of asset declarations in order; it always succeeds,
/// leaving out the declarations that fail.
pub fn compile_assets_blocks(ctx: &mut Context, assets_blocks: Vec<DeclAssets>) -> (r: Compiled<
    Vec<Asset>,
>)
    requires
        old(ctx).wf(),
    ensures
        final(ctx).wf(),
        r is Some,
        ({
            let (assets, logs) = asset_blocks_fold(
                (Seq::empty(), old(ctx).logs_view()),
                assets_blocks@,
            );
            r->0@ == assets && final(ctx).logs_view() == logs
        }),
{
    let mut assets: Vec<Asset> = Vec::new();
    let ghost total = asset_blocks_fold((Seq::empty(), old(ctx).logs_view()), assets_blocks@);
    let mut bi: usize = 0;
    proof {
        assert(assets_blocks@.subrange(0, assets_blocks@.len() as int) =~= assets_blocks@);
    }
    while bi < assets_blocks.len()
        invariant
            bi <= assets_blocks@.len(),
            ctx.wf(),
            total == asset_blocks_fold(
                (assets@, ctx.logs_view()),
                assets_blocks@.subrange(bi as int, assets_blocks@.len() as int),
            ),
        decreases assets_blocks@.len() - bi,
    {
        let block = &assets_blocks[bi];
        let ghost rest = assets_blocks@.subrange(bi as int, assets_blocks@.len() as int);
        proof {
            assert(rest[0] == *block);
            assert(rest.drop_first() =~= assets_blocks@.subrange(bi + 1, assets_blocks@.len() as int));
            assert(block.assets@.subrange(0, block.assets@.len() as int) =~= block.assets@);
        }
        let mut ai: usize = 0;
        while ai < block.assets.len()
            invariant
                ai <= block.assets@.len(),
                bi < assets_blocks@.len(),
                *block == assets_blocks@[bi as int],
                ctx.wf(),
                total == asset_blocks_fold(
                    assets_fold(
                        (assets@, ctx.logs_view()),
                        block.assets@.subrange(ai as int, block.assets@.len() as int),
                    ),
                    assets_blocks@.subrange(bi + 1, assets_blocks@.len() as int),
                ),
            decreases block.assets@.len() - ai,
        {
            let ghost decls = block.assets@.subrange(ai as int, block.assets@.len() as int);
            proof {
                assert(decls[0] == block.assets@[ai as int]);
                assert(decls.drop_first() =~= block.assets@.subrange(
                    ai + 1,
                    block.assets@.len() as int,
                ));
            }
            match compile_asset(ctx, &block.assets[ai], &assets) {
                Some(a) => {
                    assets.push(a);
                },
                None => {},
            }
            ai = ai + 1;
        }
        bi = bi + 1;
    }
    success(assets)
}

/// Compiles one asset declaration against the assets declared before it.
#[verifier::loop_isolation(false)]
pub fn compile_asset(ctx: &mut Context, decl_asset: &DeclAssetKey, declared: &Vec<Asset>) -> (r:
    Compiled<Asset>)
    requires
        old(ctx).wf(),
    ensures
        final(ctx).wf(),
        ({
            let (a, e) = asset_step(declared@, *decl_asset);
            &&& r == a
            &&& final(ctx).logs_view() == match e {
                Some(t) => old(ctx).logs_view().push(error_entry(t)),
                None => old(ctx).logs_view(),
            }
        }),
{
    let asset_type = match decl_asset.ty {
        DeclAssetType::Material => AssetType::Material,
        DeclAssetType::Animation => AssetType::Animation,
        DeclAssetType::Indeterminate => {
            ctx.log_error(LogKind::IndeterminateAsset(decl_asset.key.clone()));
            return failure();
        },
    };

    let mut i: usize = 0;
    while i < declared.len()
        invariant
            i <= declared@.len(),
            forall|j: int| 0 <= j < i ==> asset_keys(declared@)[j] != decl_asset.key@,
            *ctx == *old(ctx),
            ctx.wf(),
        decreases declared@.len() - i,
    {
        let defined = &declared[i];
        if str_equal(defined.key.as_str(), decl_asset.key.as_str()) {
            proof {
                lemma_first_index_found(asset_keys(declared@), decl_asset.key@, i as int);
            }
            if defined.asset_type != asset_type {
                ctx.log_error(LogKind::IncompatibleAssetDeclaration(decl_asset.key.clone()));
            }
            return failure();
        }
        i = i + 1;
    }
    proof {
        lemma_first_index_absent(asset_keys(declared@), decl_asset.key@);
    }
    success(Asset { asset_type, key: decl_asset.key.clone() })
}

} // verus!

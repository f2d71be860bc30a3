//! Compiles the asset blocks of an avatar.
use vstd::prelude::*;

use crate::avatar_v2::data::asset::{Asset, AssetType};
use crate::avatar_v2::logger::{Log, LogView, Logger};
use crate::avatar_v2::transformer::parameter::block_context;
use crate::avatar_v2::transformer::{failure, success, Compiled};
use crate::decl_v2::data::{DeclAsset, DeclAssets};
use crate::text::{concat2, usize_to_decimal};

verus! {

pub type AssetView = (AssetType, Seq<char>);

pub open spec fn asset_view(a: Asset) -> AssetView {
    (a.asset_type, a.key@)
}

pub open spec fn assets_view(assets: Seq<Asset>) -> Seq<AssetView> {
    assets.map_values(|a: Asset| asset_view(a))
}

pub open spec fn decl_asset_view(d: DeclAsset) -> AssetView {
    match d {
        DeclAsset::Material(key) => (AssetType::Material, key@),
        DeclAsset::Animation(key) => (AssetType::Animation, key@),
    }
}

/// How an asset declaration compiles against the assets before it: a key that is already
/// declared is left out, with an error where the two types differ.
pub open spec fn asset_spec(d: DeclAsset, declared: Seq<AssetView>) -> (Option<AssetView>, Option<
    Seq<char>,
>) {
    let (ty, key) = decl_asset_view(d);
    if exists|i: int| 0 <= i < declared.len() && (#[trigger] declared[i]).1 == key {
        let i = choose|i: int|
            0 <= i < declared.len() && declared[i].1 == key && forall|j: int|
                0 <= j < i ==> (#[trigger] declared[j]).1 != key;
        if declared[i].0 != ty {
            (None, Some("asset '"@ + key + "' has incompatible declaration"@))
        } else {
            (None, None)
        }
    } else {
        (Some((ty, key)), None)
    }
}

pub open spec fn logs_with(logs: Seq<LogView>, contexts: Seq<Seq<char>>, error: Option<Seq<char>>) -> Seq<
    LogView,
> {
    match error {
        Some(t) => logs.push((t, contexts)),
        None => logs,
    }
}

/// Compiles one asset declaration.
#[verifier::loop_isolation(false)]
pub fn compile_asset(logger: &mut Logger, decl_asset: DeclAsset, declared: &Vec<Asset>) -> (r: Compiled<
    Asset,
>)
    requires
        old(logger).wf(),
    ensures
        final(logger).wf(),
        final(logger).open_contexts() == old(logger).open_contexts(),
        ({
            let (v, e) = asset_spec(decl_asset, assets_view(declared@));
            &&& final(logger).log_view() == logs_with(
                old(logger).log_view(),
                old(logger).open_contexts(),
                e,
            )
            &&& match v {
                Some(av) => r matches Some(a) && asset_view(a) == av,
                None => r is None,
            }
        }),
{
    let ghost d = decl_asset;
    let (asset_type, key) = match decl_asset {
        DeclAsset::Material(key) => (AssetType::Material, key),
        DeclAsset::Animation(key) => (AssetType::Animation, key),
    };
    let ghost dv = assets_view(declared@);
    let mut i: usize = 0;
    while i < declared.len()
        invariant
            i <= declared@.len(),
            *logger == *old(logger),
            dv == assets_view(declared@),
            forall|j: int| 0 <= j < i ==> (#[trigger] dv[j]).1 != key@,
        decreases declared@.len() - i,
    {
        proof {
            assert(dv[i as int] == asset_view(declared@[i as int]));
        }
        if crate::avatar::transformer::dependencies::str_equal(declared[i].key.as_str(), key.as_str()) {
            proof {
                let k = choose|k: int|
                    0 <= k < dv.len() && dv[k].1 == key@ && forall|j: int|
                        0 <= j < k ==> (#[trigger] dv[j]).1 != key@;
                assert(0 <= k < dv.len() && dv[k].1 == key@ && forall|j: int|
                    0 <= j < k ==> (#[trigger] dv[j]).1 != key@) by {
                    assert(0 <= i < dv.len() && dv[i as int].1 == key@ && forall|j: int|
                        0 <= j < i ==> (#[trigger] dv[j]).1 != key@);
                }
                if k < i {
                    assert(dv[k].1 != key@);
                }
                if k > i {
                    assert(dv[i as int].1 != key@);
                }
            }
            if declared[i].asset_type != asset_type {
                logger.log(Log::IncompatibleAssetDeclaration(key));
            }
            return failure();
        }
        i = i + 1;
    }
    success(Asset { asset_type, key })
}

pub type AssetsAcc = (Seq<AssetView>, Seq<LogView>);

pub open spec fn asset_items_fold(contexts: Seq<Seq<char>>, acc: AssetsAcc, items: Seq<DeclAsset>) -> AssetsAcc
    decreases items.len(),
{
    if items.len() == 0 {
        acc
    } else {
        let (v, e) = asset_spec(items[0], acc.0);
        let assets = match v {
            Some(av) => acc.0.push(av),
            None => acc.0,
        };
        asset_items_fold(contexts, (assets, logs_with(acc.1, contexts, e)), items.drop_first())
    }
}

/// How the blocks compile, numbered from `index`; each block's assets are reported inside
/// "assets block N".
pub open spec fn asset_blocks_fold(
    contexts: Seq<Seq<char>>,
    acc: AssetsAcc,
    blocks: Seq<DeclAssets>,
    index: int,
) -> AssetsAcc
    decreases blocks.len(),
{
    if blocks.len() == 0 {
        acc
    } else {
        let inner = contexts.push(block_context("assets block "@, index));
        asset_blocks_fold(
            contexts,
            asset_items_fold(inner, acc, blocks[0].assets@),
            blocks.drop_first(),
            index + 1,
        )
    }
}

/// Compiles every asset of every block in order; a repeated key is left out.
#[verifier::loop_isolation(false)]
pub fn compile_assets_blocks(logger: &mut Logger, assets_blocks: Vec<DeclAssets>) -> (r: Compiled<
    Vec<Asset>,
>)
    requires
        old(logger).wf(),
        assets_blocks@.len() < usize::MAX,
    ensures
        final(logger).wf(),
        final(logger).open_contexts() == old(logger).open_contexts(),
        ({
            let (assets, logs) = asset_blocks_fold(
                old(logger).open_contexts(),
                (Seq::empty(), old(logger).log_view()),
                assets_blocks@,
                0,
            );
            &&& r matches Some(v) && assets_view(v@) == assets
            &&& final(logger).log_view() == logs
        }),
{
    let ghost outer = logger.open_contexts();
    let mut assets: Vec<Asset> = Vec::new();
    let mut blocks = assets_blocks;
    let mut index: usize = 0;
    let ghost total = asset_blocks_fold(outer, (Seq::empty(), logger.log_view()), blocks@, 0);
    proof {
        assert(assets_view(assets@) =~= Seq::<AssetView>::empty());
    }
    while blocks.len() > 0
        invariant
            logger.wf(),
            logger.open_contexts() == outer,
            index + blocks@.len() == assets_blocks@.len(),
            total == asset_blocks_fold(
                outer,
                (assets_view(assets@), logger.log_view()),
                blocks@,
                index as int,
            ),
        decreases blocks@.len(),
    {
        let ghost before = blocks@;
        let mut block = blocks.remove(0);
        proof {
            assert(blocks@ =~= before.drop_first());
        }
        let context = concat2("assets block ", usize_to_decimal(index).as_str());
        let ghost inner = outer.push(context@);
        logger.push_context(context);
        let ghost block_total = asset_items_fold(
            inner,
            (assets_view(assets@), logger.log_view()),
            block.assets@,
        );
        while block.assets.len() > 0
            invariant
                logger.wf(),
                logger.open_contexts() == inner,
                block_total == asset_items_fold(
                    inner,
                    (assets_view(assets@), logger.log_view()),
                    block.assets@,
                ),
            decreases block.assets@.len(),
        {
            let ghost items_before = block.assets@;
            let ghost views_before = assets_view(assets@);
            let decl_asset = block.assets.remove(0);
            proof {
                assert(block.assets@ =~= items_before.drop_first());
            }
            match compile_asset(logger, decl_asset, &assets) {
                Some(a) => {
                    assets.push(a);
                    proof {
                        assert(assets_view(assets@) =~= views_before.push(asset_view(a)));
                    }
                },
                None => {},
            }
        }
        logger.pop_context();
        proof {
            assert(block.assets@ =~= Seq::<DeclAsset>::empty());
        }
        index = index + 1;
    }
    success(assets)
}


/// Whether no two assets share a key.
pub open spec fn keys_distinct(assets: Seq<AssetView>) -> bool {
    forall|i: int, j: int| 0 <= i < j < assets.len() ==> (#[trigger] assets[i]).1 != (#[trigger] assets[j]).1
}

proof fn lemma_items_keep_keys_distinct(contexts: Seq<Seq<char>>, acc: AssetsAcc, items: Seq<DeclAsset>)
    requires
        keys_distinct(acc.0),
    ensures
        keys_distinct(asset_items_fold(contexts, acc, items).0),
    decreases items.len(),
{
    if items.len() > 0 {
        let (v, e) = asset_spec(items[0], acc.0);
        let assets = match v {
            Some(av) => acc.0.push(av),
            None => acc.0,
        };
        if let Some(av) = v {
            assert forall|i: int, j: int| 0 <= i < j < assets.len() implies (#[trigger] assets[i]).1 != (
            #[trigger] assets[j]).1 by {
                assert(assets[i] == acc.0[i]);
                if j < acc.0.len() {
                    assert(assets[j] == acc.0[j]);
                } else if acc.0[i].1 == av.1 {
                    assert(exists|k: int| 0 <= k < acc.0.len() && (#[trigger] acc.0[k]).1 == decl_asset_view(items[0]).1);
                }
            }
        }
        lemma_items_keep_keys_distinct(contexts, (assets, logs_with(acc.1, contexts, e)), items.drop_first());
    }
}

/// No two compiled assets share a key: a later declaration of a key is left out, whether or
/// not its type agrees with the first.
pub proof fn lemma_asset_keys_distinct(contexts: Seq<Seq<char>>, acc: AssetsAcc, blocks: Seq<DeclAssets>, index: int)
    requires
        keys_distinct(acc.0),
    ensures
        keys_distinct(asset_blocks_fold(contexts, acc, blocks, index).0),
    decreases blocks.len(),
{
    if blocks.len() > 0 {
        let inner = contexts.push(block_context("assets block "@, index));
        lemma_items_keep_keys_distinct(inner, acc, blocks[0].assets@);
        lemma_asset_keys_distinct(contexts, asset_items_fold(inner, acc, blocks[0].assets@), blocks.drop_first(), index + 1);
    }
}

/// An asset declaration adds an asset of the declared kind (material or animation) under the
/// declared key exactly when no earlier asset has that key; otherwise it adds nothing, and is
/// an error exactly when the first earlier asset with that key is of another kind.
pub proof fn lemma_asset_keeps_its_kind(d: DeclAsset, declared: Seq<AssetView>)
    ensures
        ({
            let (ty, key) = match d {
                DeclAsset::Material(k) => (AssetType::Material, k@),
                DeclAsset::Animation(k) => (AssetType::Animation, k@),
            };
            let (added, error) = asset_spec(d, declared);
            &&& (forall|i: int| 0 <= i < declared.len() ==> (#[trigger] declared[i]).1 != key) ==> added == Some(
                (ty, key),
            ) && error is None
            &&& forall|i: int|
                0 <= i < declared.len() && (#[trigger] declared[i]).1 == key && (forall|j: int|
                    0 <= j < i ==> declared[j].1 != key) ==> added is None && (error is Some <==> declared[i].0
                    != ty)
        }),
{
    let (ty, key) = decl_asset_view(d);
    assert forall|i: int|
        0 <= i < declared.len() && (#[trigger] declared[i]).1 == key && (forall|j: int|
            0 <= j < i ==> declared[j].1 != key) implies asset_spec(d, declared).0 is None && (asset_spec(
        d,
        declared,
    ).1 is Some <==> declared[i].0 != ty) by {
        let c = choose|c: int|
            0 <= c < declared.len() && declared[c].1 == key && forall|j: int|
                0 <= j < c ==> (#[trigger] declared[j]).1 != key;
        assert(0 <= c < declared.len() && declared[c].1 == key && forall|j: int|
            0 <= j < c ==> (#[trigger] declared[j]).1 != key);
        if c < i {
            assert(declared[c].1 != key);
        } else if i < c {
            assert(declared[i].1 != key);
        }
    }
}

} // verus!

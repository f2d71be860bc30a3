//! What later compilation steps look up: parameters, assets and animation groups.
use vstd::prelude::*;

use crate::avatar::data::{
    same_kind, scope_suitable, AnimationGroup, AnimationGroupContent, Asset, AssetType, GroupOption,
    Parameter, ParameterScope, ParameterType,
};
use crate::avatar::transformer::{
    asset_type_text, failure, parameter_scope_text, parameter_type_text, success, Compiled, Context,
    LogKind, LogLevel,
};
use crate::lookup::{
    first_index_of, lemma_first_index_absent, lemma_first_index_found, lemma_first_index_properties,
};

verus! {

pub open spec fn parameter_names(ps: Seq<Parameter>) -> Seq<Seq<char>> {
    ps.map_values(|p: Parameter| p.name@)
}

pub open spec fn asset_keys(assets: Seq<Asset>) -> Seq<Seq<char>> {
    assets.map_values(|a: Asset| a.key@)
}

pub open spec fn group_names(groups: Seq<AnimationGroup>) -> Seq<Seq<char>> {
    groups.map_values(|g: AnimationGroup| g.name@)
}

pub open spec fn error_entry(text: Seq<char>) -> (LogLevel, Seq<char>) {
    (LogLevel::Error, text)
}

/// Parameters and assets, compiled before the animations that use them.
pub struct CompiledSources {
    pub parameters: Vec<Parameter>,
    pub assets: Vec<Asset>,
}

/// The outcome of looking a parameter up by name and checking its scope:
/// the index found, or the text of the error logged.
pub open spec fn untyped_lookup(ps: Seq<Parameter>, name: Seq<char>, scope: ParameterScope) -> Result<
    int,
    Seq<char>,
> {
    match first_index_of(parameter_names(ps), name) {
        None => Err("parameter '"@ + name + "' not found"@),
        Some(i) => if scope_suitable(ps[i].scope, scope) {
            Ok(i)
        } else {
            Err("parameter '"@ + name + "' must be "@ + parameter_scope_text(scope))
        },
    }
}

/// As `untyped_lookup`, then checking the type's kind.
pub open spec fn typed_lookup(
    ps: Seq<Parameter>,
    name: Seq<char>,
    ty: ParameterType,
    scope: ParameterScope,
) -> Result<int, Seq<char>> {
    match untyped_lookup(ps, name, scope) {
        Err(e) => Err(e),
        Ok(i) => if same_kind(ps[i].value_type, ty) {
            Ok(i)
        } else {
            Err("parameter '"@ + name + "' must be "@ + parameter_type_text(ty))
        },
    }
}

/// Looking an asset up by key and checking its type.
pub open spec fn asset_lookup(assets: Seq<Asset>, key: Seq<char>, ty: AssetType) -> Result<
    int,
    Seq<char>,
> {
    match first_index_of(asset_keys(assets), key) {
        None => Err("asset '"@ + key + "' not found"@),
        Some(i) => if assets[i].asset_type == ty {
            Ok(i)
        } else {
            Err("asset '"@ + key + "' must be "@ + asset_type_text(ty))
        },
    }
}

fn find_parameter_index(ps: &Vec<Parameter>, name: &str) -> (r: Option<usize>)
    ensures
        match first_index_of(parameter_names(ps@), name@) {
            Some(i) => r is Some && r->0 as int == i && 0 <= i < parameter_names(ps@).len(),
            None => r is None,
        },
{
    proof {
        lemma_first_index_properties(parameter_names(ps@), name@);
    }
    let mut i: usize = 0;
    while i < ps.len()
        invariant
            i <= ps@.len(),
            forall|j: int| 0 <= j < i ==> parameter_names(ps@)[j] != name@,
        decreases ps@.len() - i,
    {
        if str_equal(ps[i].name.as_str(), name) {
            proof {
                lemma_first_index_found(parameter_names(ps@), name@, i as int);
            }
            return Some(i);
        }
        i = i + 1;
    }
    proof {
        lemma_first_index_absent(parameter_names(ps@), name@);
    }
    None
}

fn find_asset_index(assets: &Vec<Asset>, key: &str) -> (r: Option<usize>)
    ensures
        match first_index_of(asset_keys(assets@), key@) {
            Some(i) => r is Some && r->0 as int == i && 0 <= i < asset_keys(assets@).len(),
            None => r is None,
        },
{
    proof {
        lemma_first_index_properties(asset_keys(assets@), key@);
    }
    let mut i: usize = 0;
    while i < assets.len()
        invariant
            i <= assets@.len(),
            forall|j: int| 0 <= j < i ==> asset_keys(assets@)[j] != key@,
        decreases assets@.len() - i,
    {
        if str_equal(assets[i].key.as_str(), key) {
            proof {
                lemma_first_index_found(asset_keys(assets@), key@, i as int);
            }
            return Some(i);
        }
        i = i + 1;
    }
    proof {
        lemma_first_index_absent(asset_keys(assets@), key@);
    }
    None
}

/// Whether two strings hold the same characters.
pub fn str_equal(a: &str, b: &str) -> (r: bool)
    ensures
        r == (a@ == b@),
{
    let a = String::from_str(a);
    let b = String::from_str(b);
    a == b
}

/// Whether `s` is one of the strings in `v`.
pub fn contains_str(v: &Vec<String>, s: &str) -> (r: bool)
    ensures
        r == v@.map_values(|x: String| x@).contains(s@),
{
    let mut i: usize = 0;
    while i < v.len()
        invariant
            i <= v@.len(),
            forall|j: int| 0 <= j < i ==> v@[j]@ != s@,
        decreases v@.len() - i,
    {
        if str_equal(v[i].as_str(), s) {
            proof {
                assert(v@.map_values(|x: String| x@)[i as int] == s@);
            }
            return true;
        }
        i += 1;
    }
    proof {
        let names = v@.map_values(|x: String| x@);
        if names.contains(s@) {
            let k = choose|k: int| 0 <= k < names.len() && names[k] == s@;
            assert(v@[k]@ == s@);
        }
    }
    false
}

/// Parameters and assets, as sequences.
pub type SourcesView = (Seq<Parameter>, Seq<Asset>);

impl View for CompiledSources {
    type V = SourcesView;

    open spec fn view(&self) -> SourcesView {
        (self.parameters@, self.assets@)
    }
}

impl CompiledSources {
    pub fn new(parameters: Vec<Parameter>, assets: Vec<Asset>) -> (r: CompiledSources)
        ensures
            r.parameters@ == parameters@,
            r.assets@ == assets@,
    {
        CompiledSources { parameters, assets }
    }

    /// The first parameter with this name, if its scope meets `scope` and its type is of `ty`'s kind;
    /// otherwise one error is logged.
    pub fn find_parameter(
        &self,
        ctx: &mut Context,
        name: &str,
        ty: ParameterType,
        scope: ParameterScope,
    ) -> (r: Compiled<&Parameter>)
        requires
            old(ctx).wf(),
        ensures
            final(ctx).wf(),
            match typed_lookup(self.parameters@, name@, ty, scope) {
                Ok(i) => r == Some(&self.parameters@[i]) && final(ctx).logs_view() == old(
                    ctx,
                ).logs_view(),
                Err(text) => r is None && final(ctx).logs_view() == old(ctx).logs_view().push(
                    error_entry(text),
                ),
            },
    {
        let parameter = match self.find_parameter_untyped(ctx, name, scope) {
            Some(p) => p,
            None => {
                return failure();
            },
        };
        if !parameter.value_type.matches(ty) {
            ctx.log_error(LogKind::ParameterTypeRequirement(String::from_str(name), ty));
            return failure();
        }
        success(parameter)
    }

    /// The first parameter with this name, if its scope meets `scope`; otherwise one error is logged.
    pub fn find_parameter_untyped(&self, ctx: &mut Context, name: &str, scope: ParameterScope) -> (r:
        Compiled<&Parameter>)
        requires
            old(ctx).wf(),
        ensures
            final(ctx).wf(),
            match untyped_lookup(self.parameters@, name@, scope) {
                Ok(i) => r == Some(&self.parameters@[i]) && final(ctx).logs_view() == old(
                    ctx,
                ).logs_view(),
                Err(text) => r is None && final(ctx).logs_view() == old(ctx).logs_view().push(
                    error_entry(text),
                ),
            },
    {
        let index = match find_parameter_index(&self.parameters, name) {
            Some(i) => i,
            None => {
                ctx.log_error(LogKind::ParameterNotFound(String::from_str(name)));
                return failure();
            },
        };
        proof {
            lemma_first_index_properties(parameter_names(self.parameters@), name@);
        }
        let parameter = &self.parameters[index];
        if !parameter.scope.suitable_for(scope) {
            ctx.log_error(LogKind::ParameterScopeRequirement(String::from_str(name), scope));
            return failure();
        }
        success(parameter)
    }

    /// The first asset with this key, if it has type `ty`; otherwise one error is logged.
    pub fn find_asset(&self, ctx: &mut Context, name: &str, ty: AssetType) -> (r: Compiled<&Asset>)
        requires
            old(ctx).wf(),
        ensures
            final(ctx).wf(),
            match asset_lookup(self.assets@, name@, ty) {
                Ok(i) => r == Some(&self.assets@[i]) && final(ctx).logs_view() == old(
                    ctx,
                ).logs_view(),
                Err(text) => r is None && final(ctx).logs_view() == old(ctx).logs_view().push(
                    error_entry(text),
                ),
            },
    {
        let index = match find_asset_index(&self.assets, name) {
            Some(i) => i,
            None => {
                ctx.log_error(LogKind::AssetNotFound(String::from_str(name)));
                return failure();
            },
        };
        let asset = &self.assets[index];
        if asset.asset_type != ty {
            ctx.log_error(LogKind::AssetTypeRequirement(String::from_str(name), ty));
            return failure();
        }
        success(asset)
    }
}

/// Sources together with the animation groups compiled from them.
pub struct CompiledAnimations {
    pub sources: CompiledSources,
    pub animations: Vec<AnimationGroup>,
}

/// Parameters, assets and animation groups, as sequences.
pub type AnimationsView = (Seq<Parameter>, Seq<Asset>, Seq<AnimationGroup>);

impl View for CompiledAnimations {
    type V = AnimationsView;

    open spec fn view(&self) -> AnimationsView {
        (self.sources.parameters@, self.sources.assets@, self.animations@)
    }
}

impl CompiledAnimations {
    pub fn new(dependencies: CompiledSources, animations: Vec<AnimationGroup>) -> (r:
        CompiledAnimations)
        ensures
            r.sources == dependencies,
            r.animations@ == animations@,
    {
        CompiledAnimations { sources: dependencies, animations }
    }

    pub fn sources(&self) -> (r: &CompiledSources)
        ensures
            *r == self.sources,
    {
        &self.sources
    }

    /// The first animation group with this name; otherwise one error is logged.
    pub fn find_animation_group(&self, ctx: &mut Context, name: &str) -> (r: Compiled<
        &AnimationGroup,
    >)
        requires
            old(ctx).wf(),
        ensures
            final(ctx).wf(),
            match first_index_of(group_names(self.animations@), name@) {
                Some(i) => r == Some(&self.animations@[i]) && final(ctx).logs_view() == old(
                    ctx,
                ).logs_view(),
                None => r is None && final(ctx).logs_view() == old(ctx).logs_view().push(
                    error_entry("animation group '"@ + name@ + "' not found"@),
                ),
            },
    {
        let mut i: usize = 0;
        while i < self.animations.len()
            invariant
                i <= self.animations@.len(),
                forall|j: int| 0 <= j < i ==> group_names(self.animations@)[j] != name@,
                old(ctx).wf(),
                *ctx == *old(ctx),
            decreases self.animations@.len() - i,
        {
            if str_equal(self.animations[i].name.as_str(), name) {
                proof {
                    lemma_first_index_found(group_names(self.animations@), name@, i as int);
                }
                return success(&self.animations[i]);
            }
            i = i + 1;
        }
        proof {
            lemma_first_index_absent(group_names(self.animations@), name@);
        }
        ctx.log_error(LogKind::AnimationGroupNotFound(String::from_str(name)));
        failure()
    }

    pub fn deconstruct(self) -> (r: (Vec<Parameter>, Vec<Asset>, Vec<AnimationGroup>))
        ensures
            r.0@ == self.sources.parameters@,
            r.1@ == self.sources.assets@,
            r.2@ == self.animations@,
    {
        (self.sources.parameters, self.sources.assets, self.animations)
    }
}

/// Views of an animation group as a selection group or as a switch.
pub trait AnimationGroupFilterExt {
    fn ensure_group(&self, ctx: &mut Context) -> (r: Compiled<(&str, &[GroupOption])>)
        requires
            old(ctx).wf(),
        ensures
            final(ctx).wf(),
    ;

    fn ensure_switch(&self, ctx: &mut Context) -> (r: Compiled<&str>)
        requires
            old(ctx).wf(),
        ensures
            final(ctx).wf(),
    ;
}

impl AnimationGroupFilterExt for AnimationGroup {
    /// The parameter and options of a selection group; for any other group an error is logged.
    fn ensure_group(&self, ctx: &mut Context) -> (r: Compiled<(&str, &[GroupOption])>)
        ensures
            match self.content {
                AnimationGroupContent::Group { parameter, options, .. } => r matches Some((p, o))
                    && p@ == parameter@ && o@ == options@ && final(ctx).logs_view() == old(
                    ctx,
                ).logs_view(),
                _ => r is None && final(ctx).logs_view() == old(ctx).logs_view().push(
                    error_entry("group '"@ + self.name@ + "' must be group block"@),
                ),
            },
    {
        match &self.content {
            AnimationGroupContent::Group { parameter, options, .. } => success(
                (parameter.as_str(), options.as_slice()),
            ),
            _ => {
                ctx.log_error(LogKind::AnimationGroupMustBeGroup(self.name.clone()));
                failure()
            },
        }
    }

    /// The parameter of a switch; for any other group an error is logged.
    fn ensure_switch(&self, ctx: &mut Context) -> (r: Compiled<&str>)
        ensures
            match self.content {
                AnimationGroupContent::Switch { parameter, .. } => r is Some && r->0@ == parameter@
                    && final(ctx).logs_view() == old(ctx).logs_view(),
                _ => r is None && final(ctx).logs_view() == old(ctx).logs_view().push(
                    error_entry("group '"@ + self.name@ + "' must be switch block"@),
                ),
            },
    {
        match &self.content {
            AnimationGroupContent::Switch { parameter, .. } => success(parameter.as_str()),
            _ => {
                ctx.log_error(LogKind::AnimationGroupMustBeSwitch(self.name.clone()));
                failure()
            },
        }
    }
}

} // verus!

//! Compiles a declared avatar into its second-format form, reporting problems to a logger.
//!
//! Compilation runs in two passes: the first collects parameters, assets and the layers
//! that are declared; the second resolves every reference against them.
pub mod asset;
pub mod attachment;
pub mod avatar;
pub mod controller;
pub mod driver;
pub mod export;
pub mod first_pass;
pub mod layer;
pub mod menu;
pub mod parameter;
pub mod raw;
pub mod switch_puppet;

use vstd::prelude::*;

use crate::avatar_v2::data::asset::{asset_type_name, Asset, AssetType};
use crate::avatar_v2::data::parameter::{
    parameter_type_name, physbone_suffix, physbone_value_type, qualify, querying_name, same_kind,
    scope_name, scope_suitable, vrchat_parameter_name, vrchat_value_type, Parameter,
    ParameterQuery, ParameterScope, ParameterType, PhysBoneParameterKind, ProvidedParameter,
    QualifiedParameter, VrchatParameterKind,
};
use crate::avatar_v2::logger::{Log, Logger};
use crate::lookup::{
    first_match, lemma_first_match_absent, lemma_first_match_found, lemma_first_match_properties,
};

verus! {

/// The result of a compilation step: `None` where the step failed.
pub type Compiled<T> = Option<T>;

/// A step that produced `t`.
pub fn success<T>(t: T) -> (r: Compiled<T>)
    ensures
        r == Some(t),
{
    Some(t)
}

/// A step that failed.
pub fn failure<T>() -> (r: Compiled<T>)
    ensures
        r is None,
{
    None
}

/// A layer as the first pass sees it: its name and what later references may ask of it.
#[derive(Debug)]
pub struct DeclaredLayer {
    pub name: String,
    pub layer_type: DeclaredLayerType,
}

/// What kind of layer was declared, with what references to it need: a group's parameter
/// and its options with their values, a switch's or puppet's parameter, a switch's gate, a
/// raw layer's states.
#[derive(Debug)]
pub enum DeclaredLayerType {
    Group(String, Vec<(String, usize)>),
    Switch(String),
    Puppet(String),
    SwitchGate(String),
    Raw(Vec<String>),
}

/// The value that a target takes when the declaration leaves it out.
#[derive(Debug, Clone, Copy, PartialEq, Eq, Structural)]
pub enum UnsetValue {
    Active,
    Inactive,
}

/// 1.0 as IEEE-754 bits.
pub const ONE_BITS: u64 = 0x3FF0_0000_0000_0000;

pub open spec fn unset_bool(u: UnsetValue) -> bool {
    u == UnsetValue::Active
}

pub open spec fn unset_bits(u: UnsetValue) -> u64 {
    if u == UnsetValue::Active {
        ONE_BITS
    } else {
        0
    }
}

impl UnsetValue {
    /// `true` when active.
    pub fn as_bool(self) -> (r: bool)
        ensures
            r == unset_bool(self),
    {
        match self {
            UnsetValue::Active => true,
            UnsetValue::Inactive => false,
        }
    }

    /// 1.0 when active, 0.0 otherwise, as IEEE-754 bits.
    pub fn as_f64(self) -> (r: u64)
        ensures
            r == unset_bits(self),
    {
        match self {
            UnsetValue::Active => ONE_BITS,
            UnsetValue::Inactive => 0,
        }
    }

    /// The given value, or this one where none is given (IEEE-754 bits).
    pub fn replace_f64(self, base: Option<u64>) -> (r: u64)
        ensures
            r == match base {
                Some(v) => v,
                None => unset_bits(self),
            },
    {
        match base {
            Some(v) => v,
            None => self.as_f64(),
        }
    }

    /// The given value, or this one where none is given.
    pub fn replace_bool(self, base: Option<bool>) -> (r: bool)
        ensures
            r == match base {
                Some(v) => v,
                None => unset_bool(self),
            },
    {
        match base {
            Some(v) => v,
            None => self.as_bool(),
        }
    }
}

/// What the first pass found: parameters, assets, declared layers and declared gates.
pub struct FirstPassData {
    parameters: Vec<Parameter>,
    assets: Vec<Asset>,
    layers: Vec<DeclaredLayer>,
    gates: Vec<String>,
}

pub open spec fn declared_named(p: Parameter, name: Seq<char>) -> bool {
    p matches Parameter::Declared(d) && d.name@ == name
}

pub open spec fn asset_keyed(a: Asset, key: Seq<char>) -> bool {
    a.key@ == key
}

pub open spec fn layer_named(l: DeclaredLayer, name: Seq<char>) -> bool {
    l.name@ == name
}

pub open spec fn declared_pred(name: Seq<char>) -> spec_fn(Parameter) -> bool {
    |p: Parameter| declared_named(p, name)
}

pub open spec fn asset_pred(key: Seq<char>) -> spec_fn(Asset) -> bool {
    |a: Asset| asset_keyed(a, key)
}

pub open spec fn layer_pred(name: Seq<char>) -> spec_fn(DeclaredLayer) -> bool {
    |l: DeclaredLayer| layer_named(l, name)
}

/// Looking a declared parameter up by name and checking its scope: its index, or the text
/// of the error.
pub open spec fn untyped_outcome(ps: Seq<Parameter>, name: Seq<char>, scope: ParameterScope) -> Result<
    int,
    Seq<char>,
> {
    match first_match(ps, declared_pred(name)) {
        None => Err("parameter '"@ + name + "' not found"@),
        Some(i) => match ps[i] {
            Parameter::Declared(d) => if scope_suitable(d.scope, scope) {
                Ok(i)
            } else {
                Err("parameter '"@ + name + "' must be "@ + scope_name(scope))
            },
            _ => Err(Seq::empty()),
        },
    }
}

/// As `untyped_outcome`, and the parameter's type must be of `ty`'s kind.
pub open spec fn typed_outcome(
    ps: Seq<Parameter>,
    name: Seq<char>,
    ty: ParameterType,
    scope: ParameterScope,
) -> Result<int, Seq<char>> {
    match untyped_outcome(ps, name, scope) {
        Err(t) => Err(t),
        Ok(i) => match ps[i] {
            Parameter::Declared(d) => if same_kind(d.value_type, ty) {
                Ok(i)
            } else {
                Err("parameter '"@ + name + "' must be "@ + parameter_type_name(ty))
            },
            _ => Err(Seq::empty()),
        },
    }
}

/// A typed lookup finds only a parameter that the avatar declares under the name asked for,
/// of the kind asked for, with a scope that meets the requirement.
pub proof fn lemma_typed_outcome_declared(ps: Seq<Parameter>, name: Seq<char>, ty: ParameterType, scope: ParameterScope)
    ensures
        typed_outcome(ps, name, ty, scope) matches Ok(i) ==> 0 <= i < ps.len() && (ps[i] matches Parameter::Declared(
            d,
        ) && d.name@ == name && same_kind(d.value_type, ty) && scope_suitable(d.scope, scope)),
{
    lemma_first_match_properties(ps, declared_pred(name));
    if let Some(i) = first_match(ps, declared_pred(name)) {
        assert(declared_pred(name)(ps[i]));
    }
}

/// Looking an asset up by key and checking its type.
pub open spec fn asset_outcome(assets: Seq<Asset>, key: Seq<char>, ty: AssetType) -> Result<
    int,
    Seq<char>,
> {
    match first_match(assets, asset_pred(key)) {
        None => Err("asset '"@ + key + "' not found"@),
        Some(i) => if assets[i].asset_type == ty {
            Ok(i)
        } else {
            Err("asset '"@ + key + "' must be "@ + asset_type_name(ty))
        },
    }
}

/// Looking a layer up by name.
pub open spec fn layer_outcome(layers: Seq<DeclaredLayer>, name: Seq<char>) -> Result<int, Seq<char>> {
    match first_match(layers, layer_pred(name)) {
        None => Err("layer '"@ + name + "' not found"@),
        Some(i) => Ok(i),
    }
}

/// Finding a declared gate by its name: the name, or the text of the error.
pub open spec fn gate_outcome(gates: Seq<Seq<char>>, name: Seq<char>) -> Result<Seq<char>, Seq<char>> {
    if gates.contains(name) {
        Ok(name)
    } else {
        Err("gate '"@ + name + "' not found"@)
    }
}

/// A parameter query with its names as sequences.
pub enum QueryView {
    Declared(Seq<char>),
    PhysBone(Seq<char>, PhysBoneParameterKind),
    Vrchat(VrchatParameterKind),
}

pub open spec fn query_view(q: ParameterQuery) -> QueryView {
    match q {
        ParameterQuery::Declared(name) => QueryView::Declared(name@),
        ParameterQuery::PhysBone(prefix, kind) => QueryView::PhysBone(prefix@, kind),
        ParameterQuery::Vrchat(kind) => QueryView::Vrchat(kind),
    }
}

/// As `qualify`, on a query's view.
pub open spec fn qualify_view(query: QueryView, parameter: Parameter) -> Option<(Seq<char>, ParameterType, bool)> {
    match (query, parameter) {
        (QueryView::Declared(qn), Parameter::Declared(pn)) => if qn == pn.name@ {
            Some((pn.name@, pn.value_type, pn.unique))
        } else {
            None
        },
        (QueryView::Vrchat(qk), Parameter::Provided(ProvidedParameter::Vrchat(pk))) => if qk == pk {
            Some((vrchat_parameter_name(pk), vrchat_value_type(pk), false))
        } else {
            None
        },
        (QueryView::PhysBone(qp, kind), Parameter::Provided(ProvidedParameter::PhysBone(pp))) => if qp
            == pp@ {
            Some((pp@ + physbone_suffix(kind), physbone_value_type(kind), false))
        } else {
            None
        },
        _ => None,
    }
}

pub open spec fn query_view_name(query: QueryView) -> Seq<char> {
    match query {
        QueryView::Declared(name) => name,
        QueryView::Vrchat(kind) => vrchat_parameter_name(kind),
        QueryView::PhysBone(prefix, _) => prefix,
    }
}

pub proof fn lemma_qualify_view(query: ParameterQuery, parameter: Parameter)
    ensures
        qualify(query, parameter) == qualify_view(query_view(query), parameter),
        querying_name(query) == query_view_name(query_view(query)),
{
}

/// Whether a parameter may be read through `query`, and whether it may be written too:
/// only declared parameters are written.
pub open spec fn readable_by(query: QueryView, p: Parameter) -> bool {
    qualify_view(query, p) is Some
}

pub open spec fn writable_by(query: QueryView, p: Parameter) -> bool {
    qualify_view(query, p) is Some && p is Declared
}

pub open spec fn query_pred(query: QueryView, writable: bool) -> spec_fn(Parameter) -> bool {
    if writable {
        |p: Parameter| writable_by(query, p)
    } else {
        |p: Parameter| readable_by(query, p)
    }
}

/// Resolving a query among the parameters that `accepts` admits, and checking the type:
/// the parameter under its full name with its type and uniqueness, or the text of the error.
pub open spec fn query_outcome(
    ps: Seq<Parameter>,
    query: QueryView,
    ty: ParameterType,
    writable: bool,
) -> Result<(Seq<char>, ParameterType, bool), Seq<char>> {
    match first_match(ps, query_pred(query, writable)) {
        None => Err("parameter '"@ + query_view_name(query) + "' not found"@),
        Some(i) => {
            let q = qualify_view(query, ps[i])->0;
            if same_kind(q.1, ty) {
                Ok(q)
            } else {
                Err("parameter '"@ + q.0 + "' must be "@ + parameter_type_name(ty))
            }
        },
    }
}

/// Whether `ps` declares a parameter under `name`, of `ty`'s kind.
pub closed spec fn declares(ps: Seq<Parameter>, name: Seq<char>, ty: ParameterType) -> bool {
    exists|i: int|
        0 <= i < ps.len() && ((#[trigger] ps[i]) matches Parameter::Declared(d) && d.name@ == name
            && same_kind(d.value_type, ty))
}

/// Only declared parameters are written: a parameter found for writing is one that the
/// avatar declares, under the very name the query asks for, of the required kind.
pub proof fn lemma_written_parameters_are_declared(ps: Seq<Parameter>, query: QueryView, ty: ParameterType)
    ensures
        query_outcome(ps, query, ty, true) matches Ok(q) ==> query == QueryView::Declared(q.0) && declares(
            ps,
            q.0,
            ty,
        ),
{
    lemma_first_match_properties(ps, query_pred(query, true));
    if let Some(i) = first_match(ps, query_pred(query, true)) {
        assert(writable_by(query, ps[i]));
        if query_outcome(ps, query, ty, true) is Ok {
            assert(ps[i] is Declared);
        }
    }
}

/// Resolving a query among the readable parameters, of whatever type: the parameter under
/// its full name with its type and uniqueness, or the text of the error.
pub open spec fn untyped_query_outcome(ps: Seq<Parameter>, query: QueryView) -> Result<
    (Seq<char>, ParameterType, bool),
    Seq<char>,
> {
    match first_match(ps, query_pred(query, false)) {
        None => Err("parameter '"@ + query_view_name(query) + "' not found"@),
        Some(i) => Ok(qualify_view(query, ps[i])->0),
    }
}

/// The parameter and options of a group layer.
pub type GroupRef = (Seq<char>, Seq<(Seq<char>, usize)>);

pub open spec fn options_view(options: Seq<(String, usize)>) -> Seq<(Seq<char>, usize)> {
    options.map_values(|o: (String, usize)| (o.0@, o.1))
}

pub open spec fn group_outcome(layers: Seq<DeclaredLayer>, name: Seq<char>) -> Result<GroupRef, Seq<char>> {
    match layer_outcome(layers, name) {
        Err(t) => Err(t),
        Ok(i) => match layers[i].layer_type {
            DeclaredLayerType::Group(parameter, options) => Ok((parameter@, options_view(options@))),
            _ => Err("layer '"@ + name + "' must be group"@),
        },
    }
}

pub open spec fn switch_outcome(layers: Seq<DeclaredLayer>, name: Seq<char>) -> Result<Seq<char>, Seq<char>> {
    match layer_outcome(layers, name) {
        Err(t) => Err(t),
        Ok(i) => match layers[i].layer_type {
            DeclaredLayerType::Switch(parameter) => Ok(parameter@),
            _ => Err("layer '"@ + name + "' must be switch"@),
        },
    }
}

pub open spec fn puppet_outcome(layers: Seq<DeclaredLayer>, name: Seq<char>) -> Result<Seq<char>, Seq<char>> {
    match layer_outcome(layers, name) {
        Err(t) => Err(t),
        Ok(i) => match layers[i].layer_type {
            DeclaredLayerType::Puppet(parameter) => Ok(parameter@),
            _ => Err("layer '"@ + name + "' must be puppet"@),
        },
    }
}

pub open spec fn raw_outcome(layers: Seq<DeclaredLayer>, name: Seq<char>) -> Result<Seq<Seq<char>>, Seq<char>> {
    match layer_outcome(layers, name) {
        Err(t) => Err(t),
        Ok(i) => match layers[i].layer_type {
            DeclaredLayerType::Raw(states) => Ok(states@.map_values(|s: String| s@)),
            _ => Err("layer '"@ + name + "' must be raw"@),
        },
    }
}

fn find_declared_index(ps: &Vec<Parameter>, name: &str) -> (r: Option<usize>)
    ensures
        match first_match(ps@, declared_pred(name@)) {
            Some(i) => r matches Some(k) && k as int == i && 0 <= i < ps@.len(),
            None => r is None,
        },
{
    proof {
        lemma_first_match_properties(ps@, declared_pred(name@));
    }
    let ghost pred = declared_pred(name@);
    let mut i: usize = 0;
    while i < ps.len()
        invariant
            i <= ps@.len(),
            pred == declared_pred(name@),
            forall|j: int| 0 <= j < i ==> !pred(#[trigger] ps@[j]),
        decreases ps@.len() - i,
    {
        if let Parameter::Declared(d) = &ps[i] {
            if crate::avatar::transformer::dependencies::str_equal(d.name.as_str(), name) {
                proof {
                    lemma_first_match_found(ps@, pred, i as int);
                }
                return Some(i);
            }
        }
        i = i + 1;
    }
    proof {
        lemma_first_match_absent(ps@, pred);
    }
    None
}

fn find_asset_index(assets: &Vec<Asset>, key: &str) -> (r: Option<usize>)
    ensures
        match first_match(assets@, asset_pred(key@)) {
            Some(i) => r matches Some(k) && k as int == i && 0 <= i < assets@.len(),
            None => r is None,
        },
{
    proof {
        lemma_first_match_properties(assets@, asset_pred(key@));
    }
    let ghost pred = asset_pred(key@);
    let mut i: usize = 0;
    while i < assets.len()
        invariant
            i <= assets@.len(),
            pred == asset_pred(key@),
            forall|j: int| 0 <= j < i ==> !pred(#[trigger] assets@[j]),
        decreases assets@.len() - i,
    {
        if crate::avatar::transformer::dependencies::str_equal(assets[i].key.as_str(), key) {
            proof {
                lemma_first_match_found(assets@, pred, i as int);
            }
            return Some(i);
        }
        i = i + 1;
    }
    proof {
        lemma_first_match_absent(assets@, pred);
    }
    None
}

fn find_layer_index(layers: &Vec<DeclaredLayer>, name: &str) -> (r: Option<usize>)
    ensures
        match first_match(layers@, layer_pred(name@)) {
            Some(i) => r matches Some(k) && k as int == i && 0 <= i < layers@.len(),
            None => r is None,
        },
{
    proof {
        lemma_first_match_properties(layers@, layer_pred(name@));
    }
    let ghost pred = layer_pred(name@);
    let mut i: usize = 0;
    while i < layers.len()
        invariant
            i <= layers@.len(),
            pred == layer_pred(name@),
            forall|j: int| 0 <= j < i ==> !pred(#[trigger] layers@[j]),
        decreases layers@.len() - i,
    {
        if crate::avatar::transformer::dependencies::str_equal(layers[i].name.as_str(), name) {
            proof {
                lemma_first_match_found(layers@, pred, i as int);
            }
            return Some(i);
        }
        i = i + 1;
    }
    proof {
        lemma_first_match_absent(layers@, pred);
    }
    None
}

fn find_query_index(ps: &Vec<Parameter>, query: &ParameterQuery, writable: bool) -> (r: Option<
    (usize, QualifiedParameter),
>)
    ensures
        ({
            match first_match(ps@, query_pred(query_view(*query), writable)) {
                Some(i) => r matches Some((k, found)) && k == i && 0 <= i < ps@.len() && ({
                    let q = qualify_view(query_view(*query), ps@[i])->0;
                    found.name@ == q.0 && found.value_type == q.1 && found.unique == q.2
                }),
                None => r is None,
            }
        }),
{
    let ghost pred = query_pred(query_view(*query), writable);
    proof {
        lemma_first_match_properties(ps@, pred);
    }
    let mut i: usize = 0;
    while i < ps.len()
        invariant
            i <= ps@.len(),
            pred == query_pred(query_view(*query), writable),
            forall|j: int| 0 <= j < i ==> !pred(#[trigger] ps@[j]),
        decreases ps@.len() - i,
    {
        let admitted = !writable || match &ps[i] {
            Parameter::Declared(_) => true,
            _ => false,
        };
        proof {
            lemma_qualify_view(*query, ps@[i as int]);
        }
        if admitted {
            if let Some(q) = query.qualify_match(&ps[i]) {
                proof {
                    lemma_first_match_found(ps@, pred, i as int);
                }
                return Some((i, q));
            }
        }
        i = i + 1;
    }
    proof {
        lemma_first_match_absent(ps@, pred);
    }
    None
}

impl FirstPassData {
    pub closed spec fn parameters_view(&self) -> Seq<Parameter> {
        self.parameters@
    }

    pub closed spec fn assets_view(&self) -> Seq<Asset> {
        self.assets@
    }

    pub closed spec fn layers_view(&self) -> Seq<DeclaredLayer> {
        self.layers@
    }

    pub closed spec fn gates_view(&self) -> Seq<Seq<char>> {
        self.gates@.map_values(|g: String| g@)
    }

    pub fn new(
        parameters: Vec<Parameter>,
        assets: Vec<Asset>,
        layers: Vec<DeclaredLayer>,
        gates: Vec<String>,
    ) -> (r: FirstPassData)
        ensures
            r.parameters_view() == parameters@,
            r.assets_view() == assets@,
            r.layers_view() == layers@,
            r.gates_view() == gates@.map_values(|g: String| g@),
    {
        FirstPassData { parameters, assets, layers, gates }
    }

    /// The declared gate with this name; otherwise one error is logged.
    #[verifier::loop_isolation(false)]
    pub fn find_gate(&self, logger: &mut Logger, name: &str) -> (r: Compiled<&String>)
        requires
            old(logger).wf(),
        ensures
            final(logger).wf(),
            final(logger).open_contexts() == old(logger).open_contexts(),
            final(logger).log_view() == old(logger).logs_after(gate_outcome(self.gates_view(), name@)),
            match gate_outcome(self.gates_view(), name@) {
                Ok(g) => r matches Some(found) && found@ == g,
                Err(_) => r is None,
            },
    {
        let mut i: usize = 0;
        while i < self.gates.len()
            invariant
                i <= self.gates@.len(),
                *logger == *old(logger),
                forall|j: int| 0 <= j < i ==> self.gates_view()[j] != name@,
            decreases self.gates@.len() - i,
        {
            if crate::avatar::transformer::dependencies::str_equal(self.gates[i].as_str(), name) {
                proof {
                    assert(self.gates_view()[i as int] == name@);
                    assert(self.gates_view().contains(name@));
                }
                return success(&self.gates[i]);
            }
            i = i + 1;
        }
        logger.log(Log::GateNotFound(name.to_owned()));
        failure()
    }

    /// Gives the parameters and assets back.
    pub fn take_back(self) -> (r: (Vec<Parameter>, Vec<Asset>))
        ensures
            r.0@ == self.parameters_view(),
            r.1@ == self.assets_view(),
    {
        (self.parameters, self.assets)
    }

    /// The first declared parameter with this name, if its scope meets `scope` and its type
    /// is of `ty`'s kind; otherwise one error is logged.
    pub fn find_parameter(
        &self,
        logger: &mut Logger,
        name: &str,
        ty: ParameterType,
        scope: ParameterScope,
    ) -> (r: Compiled<&Parameter>)
        requires
            old(logger).wf(),
        ensures
            final(logger).wf(),
            final(logger).open_contexts() == old(logger).open_contexts(),
            final(logger).log_view() == old(logger).logs_after(
                typed_outcome(self.parameters_view(), name@, ty, scope),
            ),
            match typed_outcome(self.parameters_view(), name@, ty, scope) {
                Ok(i) => r == Some(&self.parameters_view()[i]),
                Err(_) => r is None,
            },
    {
        let parameter = match self.find_parameter_untyped(logger, name, scope) {
            Some(p) => p,
            None => {
                return failure();
            },
        };
        let value_type = match parameter {
            Parameter::Declared(d) => d.value_type,
            Parameter::Provided(_) => {
                proof {
                    assert(false);
                }
                return failure();
            },
        };
        if !value_type.matches(ty) {
            logger.log(Log::ParameterTypeRequirement(name.to_owned(), ty.kind_name().to_owned()));
            return failure();
        }
        success(parameter)
    }

    /// The first declared parameter with this name, if its scope meets `scope`; otherwise
    /// one error is logged.
    pub fn find_parameter_untyped(&self, logger: &mut Logger, name: &str, scope: ParameterScope) -> (r:
        Compiled<&Parameter>)
        requires
            old(logger).wf(),
        ensures
            final(logger).wf(),
            final(logger).open_contexts() == old(logger).open_contexts(),
            final(logger).log_view() == old(logger).logs_after(
                untyped_outcome(self.parameters_view(), name@, scope),
            ),
            match untyped_outcome(self.parameters_view(), name@, scope) {
                Ok(i) => r == Some(&self.parameters_view()[i]),
                Err(_) => r is None,
            },
    {
        let index = match find_declared_index(&self.parameters, name) {
            Some(i) => i,
            None => {
                logger.log(Log::ParameterNotFound(name.to_owned()));
                return failure();
            },
        };
        let parameter = &self.parameters[index];
        proof {
            lemma_first_match_properties(self.parameters@, declared_pred(name@));
            assert(declared_pred(name@)(self.parameters@[index as int]));
        }
        let declared_scope = match parameter {
            Parameter::Declared(d) => d.scope,
            Parameter::Provided(_) => {
                proof {
                    assert(false);
                }
                return failure();
            },
        };
        if !declared_scope.suitable_for(scope) {
            logger.log(Log::ParameterScopeRequirement(name.to_owned(), scope.name().to_owned()));
            return failure();
        }
        success(parameter)
    }

    /// The first parameter that `query` reads, with its type of `ty`'s kind; otherwise one
    /// error is logged.
    pub fn find_read_parameter(&self, logger: &mut Logger, query: &ParameterQuery, ty: ParameterType) -> (r:
        Compiled<QualifiedParameter>)
        requires
            old(logger).wf(),
        ensures
            final(logger).wf(),
            final(logger).open_contexts() == old(logger).open_contexts(),
            final(logger).log_view() == old(logger).logs_after(
                query_outcome(self.parameters_view(), query_view(*query), ty, false),
            ),
            match query_outcome(self.parameters_view(), query_view(*query), ty, false) {
                Ok(q) => r is Some && r->0.name@ == q.0 && r->0.value_type == q.1 && r->0.unique
                    == q.2,
                Err(_) => r is None,
            },
    {
        self.find_queried(logger, query, ty, false)
    }

    /// The first declared parameter that `query` names, with its type of `ty`'s kind;
    /// otherwise one error is logged. Parameters that the platform provides are not written.
    pub fn find_writable_parameter(
        &self,
        logger: &mut Logger,
        query: &ParameterQuery,
        ty: ParameterType,
    ) -> (r: Compiled<QualifiedParameter>)
        requires
            old(logger).wf(),
        ensures
            final(logger).wf(),
            final(logger).open_contexts() == old(logger).open_contexts(),
            final(logger).log_view() == old(logger).logs_after(
                query_outcome(self.parameters_view(), query_view(*query), ty, true),
            ),
            match query_outcome(self.parameters_view(), query_view(*query), ty, true) {
                Ok(q) => r is Some && r->0.name@ == q.0 && r->0.value_type == q.1 && r->0.unique
                    == q.2,
                Err(_) => r is None,
            },
    {
        self.find_queried(logger, query, ty, true)
    }

    /// The first parameter that `query` reads, of whatever type; otherwise one error is logged.
    pub fn find_untyped_parameter(&self, logger: &mut Logger, query: &ParameterQuery) -> (r: Compiled<
        QualifiedParameter,
    >)
        requires
            old(logger).wf(),
        ensures
            final(logger).wf(),
            final(logger).open_contexts() == old(logger).open_contexts(),
            final(logger).log_view() == old(logger).logs_after(
                untyped_query_outcome(self.parameters_view(), query_view(*query)),
            ),
            match untyped_query_outcome(self.parameters_view(), query_view(*query)) {
                Ok(q) => r is Some && r->0.name@ == q.0 && r->0.value_type == q.1 && r->0.unique
                    == q.2,
                Err(_) => r is None,
            },
    {
        match find_query_index(&self.parameters, query, false) {
            Some((_, q)) => success(q),
            None => {
                proof {
                    lemma_qualify_view(*query, self.parameters@[0]);
                }
                logger.log(Log::ParameterNotFound(query.querying_name().to_owned()));
                failure()
            },
        }
    }

    fn find_queried(
        &self,
        logger: &mut Logger,
        query: &ParameterQuery,
        ty: ParameterType,
        writable: bool,
    ) -> (r: Compiled<QualifiedParameter>)
        requires
            old(logger).wf(),
        ensures
            final(logger).wf(),
            final(logger).open_contexts() == old(logger).open_contexts(),
            final(logger).log_view() == old(logger).logs_after(
                query_outcome(self.parameters_view(), query_view(*query), ty, writable),
            ),
            match query_outcome(self.parameters_view(), query_view(*query), ty, writable) {
                Ok(q) => r is Some && r->0.name@ == q.0 && r->0.value_type == q.1 && r->0.unique
                    == q.2,
                Err(_) => r is None,
            },
    {
        let qualified = match find_query_index(&self.parameters, query, writable) {
            Some((_, q)) => q,
            None => {
                proof {
                    lemma_qualify_view(*query, self.parameters@[0]);
                }
                logger.log(Log::ParameterNotFound(query.querying_name().to_owned()));
                return failure();
            },
        };
        if !qualified.value_type.matches(ty) {
            logger.log(
                Log::ParameterTypeRequirement(qualified.name.clone(), ty.kind_name().to_owned()),
            );
            return failure();
        }
        success(qualified)
    }

    /// The first asset with this key, if its type is `ty`; otherwise one error is logged.
    pub fn find_asset(&self, logger: &mut Logger, name: &str, ty: AssetType) -> (r: Compiled<&Asset>)
        requires
            old(logger).wf(),
        ensures
            final(logger).wf(),
            final(logger).open_contexts() == old(logger).open_contexts(),
            final(logger).log_view() == old(logger).logs_after(
                asset_outcome(self.assets_view(), name@, ty),
            ),
            match asset_outcome(self.assets_view(), name@, ty) {
                Ok(i) => r == Some(&self.assets_view()[i]),
                Err(_) => r is None,
            },
    {
        let index = match find_asset_index(&self.assets, name) {
            Some(i) => i,
            None => {
                logger.log(Log::AssetNotFound(name.to_owned()));
                return failure();
            },
        };
        let asset = &self.assets[index];
        if asset.asset_type != ty {
            logger.log(Log::AssetTypeRequirement(name.to_owned(), ty.kind_name().to_owned()));
            return failure();
        }
        success(asset)
    }

    /// The group layer with this name, as its parameter and options; otherwise one error is logged.
    pub fn find_group(&self, logger: &mut Logger, name: &str) -> (r: Compiled<(&String, &Vec<(String, usize)>)>)
        requires
            old(logger).wf(),
        ensures
            final(logger).wf(),
            final(logger).open_contexts() == old(logger).open_contexts(),
            final(logger).log_view() == old(logger).logs_after(
                group_outcome(self.layers_view(), name@),
            ),
            match group_outcome(self.layers_view(), name@) {
                Ok(g) => r matches Some((parameter, options)) && parameter@ == g.0 && options_view(
                    options@,
                ) == g.1,
                Err(_) => r is None,
            },
    {
        let layer = match self.find_layer(logger, name) {
            Some(l) => l,
            None => {
                return failure();
            },
        };
        match layer {
            DeclaredLayerType::Group(parameter, options) => success((parameter, options)),
            _ => {
                logger.log(Log::LayerMustBeGroup(name.to_owned()));
                failure()
            },
        }
    }

    /// The parameter of the switch layer with this name; otherwise one error is logged.
    pub fn find_switch(&self, logger: &mut Logger, name: &str) -> (r: Compiled<&String>)
        requires
            old(logger).wf(),
        ensures
            final(logger).wf(),
            final(logger).open_contexts() == old(logger).open_contexts(),
            final(logger).log_view() == old(logger).logs_after(
                switch_outcome(self.layers_view(), name@),
            ),
            match switch_outcome(self.layers_view(), name@) {
                Ok(p) => r is Some && r->0@ == p,
                Err(_) => r is None,
            },
    {
        let layer = match self.find_layer(logger, name) {
            Some(l) => l,
            None => {
                return failure();
            },
        };
        match layer {
            DeclaredLayerType::Switch(parameter) => success(parameter),
            _ => {
                logger.log(Log::LayerMustBeSwitch(name.to_owned()));
                failure()
            },
        }
    }

    /// The parameter of the puppet layer with this name; otherwise one error is logged.
    pub fn find_puppet(&self, logger: &mut Logger, name: &str) -> (r: Compiled<&String>)
        requires
            old(logger).wf(),
        ensures
            final(logger).wf(),
            final(logger).open_contexts() == old(logger).open_contexts(),
            final(logger).log_view() == old(logger).logs_after(
                puppet_outcome(self.layers_view(), name@),
            ),
            match puppet_outcome(self.layers_view(), name@) {
                Ok(p) => r is Some && r->0@ == p,
                Err(_) => r is None,
            },
    {
        let layer = match self.find_layer(logger, name) {
            Some(l) => l,
            None => {
                return failure();
            },
        };
        match layer {
            DeclaredLayerType::Puppet(parameter) => success(parameter),
            _ => {
                logger.log(Log::LayerMustBePuppet(name.to_owned()));
                failure()
            },
        }
    }

    /// The state names of the raw layer with this name; otherwise one error is logged.
    pub fn find_raw(&self, logger: &mut Logger, name: &str) -> (r: Compiled<&Vec<String>>)
        requires
            old(logger).wf(),
        ensures
            final(logger).wf(),
            final(logger).open_contexts() == old(logger).open_contexts(),
            final(logger).log_view() == old(logger).logs_after(
                raw_outcome(self.layers_view(), name@),
            ),
            match raw_outcome(self.layers_view(), name@) {
                Ok(states) => r is Some && r->0@.map_values(|s: String| s@) == states,
                Err(_) => r is None,
            },
    {
        let layer = match self.find_layer(logger, name) {
            Some(l) => l,
            None => {
                return failure();
            },
        };
        match layer {
            DeclaredLayerType::Raw(states) => success(states),
            _ => {
                logger.log(Log::LayerMustBeRaw(name.to_owned()));
                failure()
            },
        }
    }

    fn find_layer(&self, logger: &mut Logger, name: &str) -> (r: Compiled<&DeclaredLayerType>)
        requires
            old(logger).wf(),
        ensures
            final(logger).wf(),
            final(logger).open_contexts() == old(logger).open_contexts(),
            final(logger).log_view() == old(logger).logs_after(
                layer_outcome(self.layers_view(), name@),
            ),
            match layer_outcome(self.layers_view(), name@) {
                Ok(i) => r == Some(&self.layers_view()[i].layer_type),
                Err(_) => r is None,
            },
    {
        match find_layer_index(&self.layers, name) {
            Some(i) => {
                proof {
                    assert(first_match(self.layers@, layer_pred(name@)) == Some(i as int));
                    assert(layer_outcome(self.layers_view(), name@) == Ok::<int, Seq<char>>(i as int));
                }
                success(&self.layers[i].layer_type)
            },
            None => {
                logger.log(Log::LayerNotFound(name.to_owned()));
                failure()
            },
        }
    }
}

} // verus!

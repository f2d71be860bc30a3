//! Parameters of an avatar: declared ones and those that the platform provides.
//!
//! A floating-point default value is carried as its IEEE-754 bit pattern (`u64`);
//! nothing here computes with it.
use vstd::prelude::*;

verus! {

/// The type of a parameter, with its default value.
#[derive(Debug, Clone, Copy, PartialEq, Eq, Structural)]
pub enum ParameterType {
    Int(u8),
    /// Default value as IEEE-754 bits.
    Float(u64),
    Bool(bool),
}

/// The kind of a parameter type, without its default.
pub open spec fn same_kind(a: ParameterType, b: ParameterType) -> bool {
    match (a, b) {
        (ParameterType::Int(_), ParameterType::Int(_)) => true,
        (ParameterType::Float(_), ParameterType::Float(_)) => true,
        (ParameterType::Bool(_), ParameterType::Bool(_)) => true,
        _ => false,
    }
}

pub open spec fn parameter_type_name(t: ParameterType) -> Seq<char> {
    match t {
        ParameterType::Int(_) => "int"@,
        ParameterType::Float(_) => "float"@,
        ParameterType::Bool(_) => "bool"@,
    }
}

impl ParameterType {
    /// The int type with its zero default.
    pub fn int_type() -> (r: ParameterType)
        ensures
            r == ParameterType::Int(0),
    {
        ParameterType::Int(0)
    }

    /// The float type with its zero default (all bits clear).
    pub fn float_type() -> (r: ParameterType)
        ensures
            r == ParameterType::Float(0),
    {
        ParameterType::Float(0)
    }

    /// The bool type with its `false` default.
    pub fn bool_type() -> (r: ParameterType)
        ensures
            r == ParameterType::Bool(false),
    {
        ParameterType::Bool(false)
    }

    /// Whether two types are of the same kind; the defaults are not compared.
    pub fn matches(self, requirement: ParameterType) -> (r: bool)
        ensures
            r == same_kind(self, requirement),
    {
        match (self, requirement) {
            (ParameterType::Int(_), ParameterType::Int(_)) => true,
            (ParameterType::Float(_), ParameterType::Float(_)) => true,
            (ParameterType::Bool(_), ParameterType::Bool(_)) => true,
            _ => false,
        }
    }

    pub fn kind_name(self) -> (r: &'static str)
        ensures
            r@ == parameter_type_name(self),
    {
        match self {
            ParameterType::Int(_) => "int",
            ParameterType::Float(_) => "float",
            ParameterType::Bool(_) => "bool",
        }
    }
}

/// Who can see a parameter, and whether it is saved.
#[derive(Debug, Clone, Copy, PartialEq, Eq, Structural)]
pub enum ParameterScope {
    Internal,
    Local(bool),
    Synced(bool),
}

/// How widely a scope exposes a parameter: internal < local < synced.
pub open spec fn scope_rank(s: ParameterScope) -> int {
    match s {
        ParameterScope::Internal => 0,
        ParameterScope::Local(_) => 1,
        ParameterScope::Synced(_) => 2,
    }
}

pub open spec fn scope_suitable(scope: ParameterScope, requirement: ParameterScope) -> bool {
    match (requirement, scope) {
        (ParameterScope::Internal, _) => true,
        (ParameterScope::Local(_), ParameterScope::Local(_)) => true,
        (ParameterScope::Local(_), ParameterScope::Synced(_)) => true,
        (ParameterScope::Synced(_), ParameterScope::Synced(_)) => true,
        _ => false,
    }
}

pub open spec fn scope_name(s: ParameterScope) -> Seq<char> {
    match s {
        ParameterScope::Internal => "internal"@,
        ParameterScope::Local(_) => "local"@,
        ParameterScope::Synced(_) => "synced"@,
    }
}

impl ParameterScope {
    pub const MAYBE_INTERNAL: ParameterScope = ParameterScope::Internal;

    /// The weakest requirement that asks for an exposed parameter.
    pub fn must_expose() -> (r: ParameterScope)
        ensures
            r == ParameterScope::Local(false),
    {
        ParameterScope::Local(false)
    }

    /// The weakest requirement that asks for a synced parameter.
    pub fn must_sync() -> (r: ParameterScope)
        ensures
            r == ParameterScope::Synced(false),
    {
        ParameterScope::Synced(false)
    }

    /// Whether a parameter of this scope may be used where `requirement` is asked for.
    pub fn suitable_for(self, requirement: ParameterScope) -> (r: bool)
        ensures
            r == scope_suitable(self, requirement),
    {
        match (requirement, self) {
            (ParameterScope::Internal, _) => true,
            (ParameterScope::Local(_), ParameterScope::Local(_)) => true,
            (ParameterScope::Local(_), ParameterScope::Synced(_)) => true,
            (ParameterScope::Synced(_), ParameterScope::Synced(_)) => true,
            _ => false,
        }
    }

    pub fn name(self) -> (r: &'static str)
        ensures
            r@ == scope_name(self),
    {
        match self {
            ParameterScope::Internal => "internal",
            ParameterScope::Local(_) => "local",
            ParameterScope::Synced(_) => "synced",
        }
    }
}

/// A scope is suitable for a requirement exactly when it exposes at least as widely;
/// so suitability is reflexive and transitive, and ignores the saved flags.
pub proof fn lemma_scope_suitability_is_rank_order(scope: ParameterScope, requirement: ParameterScope)
    ensures
        scope_suitable(scope, requirement) <==> scope_rank(requirement) <= scope_rank(scope),
{
}

/// Suitability is transitive: a scope suitable for a scope that meets a requirement meets it too.
pub proof fn lemma_scope_suitability_transitive(a: ParameterScope, b: ParameterScope, c: ParameterScope)
    requires
        scope_suitable(a, b),
        scope_suitable(b, c),
    ensures
        scope_suitable(a, c),
{
}

/// Every scope is suitable for itself.
pub proof fn lemma_scope_suitability_reflexive(a: ParameterScope)
    ensures
        scope_suitable(a, a),
{
}

/// Type matching is an equivalence: reflexive, symmetric and transitive.
pub proof fn lemma_matches_is_equivalence(a: ParameterType, b: ParameterType, c: ParameterType)
    ensures
        same_kind(a, a),
        same_kind(a, b) == same_kind(b, a),
        same_kind(a, b) && same_kind(b, c) ==> same_kind(a, c),
{
}

/// A parameter declared in the avatar definition.
#[derive(Debug, Clone)]
pub struct DeclaredParameter {
    pub name: String,
    pub value_type: ParameterType,
    pub scope: ParameterScope,
    pub unique: bool,
    pub explicit_default: bool,
}

/// A parameter that the platform provides.
#[derive(Debug, Clone)]
pub enum ProvidedParameter {
    PhysBone(String),
    Vrchat(VrchatParameterKind),
}

/// The built-in parameters of VRChat.
#[derive(Debug, Clone, Copy, PartialEq, Eq, Structural)]
pub enum VrchatParameterKind {
    IsLocal,
    Viseme,
    Voice,
    GestureLeft,
    GestureRight,
    GestureLeftWeight,
    GestureRightWeight,
    AngularY,
    VelocityX,
    VelocityY,
    VelocityZ,
    VelocityMagnitude,
    Upright,
    Grounded,
    Seated,
    Afk,
    TrackingType,
    VrMode,
    MuteSelf,
    InStation,
    Earmuffs,
    IsOnFriendsList,
    AvatarVersion,
    ScaleModified,
    ScaleFactor,
    ScaleFactorInverse,
    EyeHeightAsMeters,
    EyeHeightAsPercent,
}

pub open spec fn vrchat_value_type(k: VrchatParameterKind) -> ParameterType {
    match k {
        VrchatParameterKind::IsLocal => ParameterType::Bool(false),
        VrchatParameterKind::Viseme => ParameterType::Int(0),
        VrchatParameterKind::Voice => ParameterType::Float(0),
        VrchatParameterKind::GestureLeft => ParameterType::Int(0),
        VrchatParameterKind::GestureRight => ParameterType::Int(0),
        VrchatParameterKind::GestureLeftWeight => ParameterType::Float(0),
        VrchatParameterKind::GestureRightWeight => ParameterType::Float(0),
        VrchatParameterKind::AngularY => ParameterType::Float(0),
        VrchatParameterKind::VelocityX => ParameterType::Float(0),
        VrchatParameterKind::VelocityY => ParameterType::Float(0),
        VrchatParameterKind::VelocityZ => ParameterType::Float(0),
        VrchatParameterKind::VelocityMagnitude => ParameterType::Float(0),
        VrchatParameterKind::Upright => ParameterType::Float(0),
        VrchatParameterKind::Grounded => ParameterType::Bool(false),
        VrchatParameterKind::Seated => ParameterType::Bool(false),
        VrchatParameterKind::Afk => ParameterType::Bool(false),
        VrchatParameterKind::TrackingType => ParameterType::Int(0),
        VrchatParameterKind::VrMode => ParameterType::Int(0),
        VrchatParameterKind::MuteSelf => ParameterType::Bool(false),
        VrchatParameterKind::InStation => ParameterType::Bool(false),
        VrchatParameterKind::Earmuffs => ParameterType::Bool(false),
        VrchatParameterKind::IsOnFriendsList => ParameterType::Bool(false),
        VrchatParameterKind::AvatarVersion => ParameterType::Int(0),
        VrchatParameterKind::ScaleModified => ParameterType::Bool(false),
        VrchatParameterKind::ScaleFactor => ParameterType::Float(0),
        VrchatParameterKind::ScaleFactorInverse => ParameterType::Float(0),
        VrchatParameterKind::EyeHeightAsMeters => ParameterType::Float(0),
        VrchatParameterKind::EyeHeightAsPercent => ParameterType::Float(0),
    }
}

pub open spec fn vrchat_parameter_name(k: VrchatParameterKind) -> Seq<char> {
    match k {
        VrchatParameterKind::IsLocal => "IsLocal"@,
        VrchatParameterKind::Viseme => "Viseme"@,
        VrchatParameterKind::Voice => "Voice"@,
        VrchatParameterKind::GestureLeft => "GestureLeft"@,
        VrchatParameterKind::GestureRight => "GestureRight"@,
        VrchatParameterKind::GestureLeftWeight => "GestureLeftWeight"@,
        VrchatParameterKind::GestureRightWeight => "GestureRightWeight"@,
        VrchatParameterKind::AngularY => "AngularY"@,
        VrchatParameterKind::VelocityX => "VelocityX"@,
        VrchatParameterKind::VelocityY => "VelocityY"@,
        VrchatParameterKind::VelocityZ => "VelocityZ"@,
        VrchatParameterKind::VelocityMagnitude => "VelocityMagnitude"@,
        VrchatParameterKind::Upright => "Upright"@,
        VrchatParameterKind::Grounded => "Grounded"@,
        VrchatParameterKind::Seated => "Seated"@,
        VrchatParameterKind::Afk => "AFK"@,
        VrchatParameterKind::TrackingType => "TrackingType"@,
        VrchatParameterKind::VrMode => "VRMode"@,
        VrchatParameterKind::MuteSelf => "MuteSelf"@,
        VrchatParameterKind::InStation => "InStation"@,
        VrchatParameterKind::Earmuffs => "Earmuffs"@,
        VrchatParameterKind::IsOnFriendsList => "IsOnFriendsList"@,
        VrchatParameterKind::AvatarVersion => "AvatarVersion"@,
        VrchatParameterKind::ScaleModified => "ScaleModified"@,
        VrchatParameterKind::ScaleFactor => "ScaleFactor"@,
        VrchatParameterKind::ScaleFactorInverse => "ScaleFactorInverse"@,
        VrchatParameterKind::EyeHeightAsMeters => "EyeHeightAsMeters"@,
        VrchatParameterKind::EyeHeightAsPercent => "EyeHeightAsPercent"@,
    }
}

impl VrchatParameterKind {
    pub fn value_type(&self) -> (r: ParameterType)
        ensures
            r == vrchat_value_type(*self),
    {
        match self {
            VrchatParameterKind::IsLocal => ParameterType::bool_type(),
            VrchatParameterKind::Viseme => ParameterType::int_type(),
            VrchatParameterKind::Voice => ParameterType::float_type(),
            VrchatParameterKind::GestureLeft => ParameterType::int_type(),
            VrchatParameterKind::GestureRight => ParameterType::int_type(),
            VrchatParameterKind::GestureLeftWeight => ParameterType::float_type(),
            VrchatParameterKind::GestureRightWeight => ParameterType::float_type(),
            VrchatParameterKind::AngularY => ParameterType::float_type(),
            VrchatParameterKind::VelocityX => ParameterType::float_type(),
            VrchatParameterKind::VelocityY => ParameterType::float_type(),
            VrchatParameterKind::VelocityZ => ParameterType::float_type(),
            VrchatParameterKind::VelocityMagnitude => ParameterType::float_type(),
            VrchatParameterKind::Upright => ParameterType::float_type(),
            VrchatParameterKind::Grounded => ParameterType::bool_type(),
            VrchatParameterKind::Seated => ParameterType::bool_type(),
            VrchatParameterKind::Afk => ParameterType::bool_type(),
            VrchatParameterKind::TrackingType => ParameterType::int_type(),
            VrchatParameterKind::VrMode => ParameterType::int_type(),
            VrchatParameterKind::MuteSelf => ParameterType::bool_type(),
            VrchatParameterKind::InStation => ParameterType::bool_type(),
            VrchatParameterKind::Earmuffs => ParameterType::bool_type(),
            VrchatParameterKind::IsOnFriendsList => ParameterType::bool_type(),
            VrchatParameterKind::AvatarVersion => ParameterType::int_type(),
            VrchatParameterKind::ScaleModified => ParameterType::bool_type(),
            VrchatParameterKind::ScaleFactor => ParameterType::float_type(),
            VrchatParameterKind::ScaleFactorInverse => ParameterType::float_type(),
            VrchatParameterKind::EyeHeightAsMeters => ParameterType::float_type(),
            VrchatParameterKind::EyeHeightAsPercent => ParameterType::float_type(),
        }
    }

    pub fn parameter_name(&self) -> (r: &'static str)
        ensures
            r@ == vrchat_parameter_name(*self),
    {
        match self {
            VrchatParameterKind::IsLocal => "IsLocal",
            VrchatParameterKind::Viseme => "Viseme",
            VrchatParameterKind::Voice => "Voice",
            VrchatParameterKind::GestureLeft => "GestureLeft",
            VrchatParameterKind::GestureRight => "GestureRight",
            VrchatParameterKind::GestureLeftWeight => "GestureLeftWeight",
            VrchatParameterKind::GestureRightWeight => "GestureRightWeight",
            VrchatParameterKind::AngularY => "AngularY",
            VrchatParameterKind::VelocityX => "VelocityX",
            VrchatParameterKind::VelocityY => "VelocityY",
            VrchatParameterKind::VelocityZ => "VelocityZ",
            VrchatParameterKind::VelocityMagnitude => "VelocityMagnitude",
            VrchatParameterKind::Upright => "Upright",
            VrchatParameterKind::Grounded => "Grounded",
            VrchatParameterKind::Seated => "Seated",
            VrchatParameterKind::Afk => "AFK",
            VrchatParameterKind::TrackingType => "TrackingType",
            VrchatParameterKind::VrMode => "VRMode",
            VrchatParameterKind::MuteSelf => "MuteSelf",
            VrchatParameterKind::InStation => "InStation",
            VrchatParameterKind::Earmuffs => "Earmuffs",
            VrchatParameterKind::IsOnFriendsList => "IsOnFriendsList",
            VrchatParameterKind::AvatarVersion => "AvatarVersion",
            VrchatParameterKind::ScaleModified => "ScaleModified",
            VrchatParameterKind::ScaleFactor => "ScaleFactor",
            VrchatParameterKind::ScaleFactorInverse => "ScaleFactorInverse",
            VrchatParameterKind::EyeHeightAsMeters => "EyeHeightAsMeters",
            VrchatParameterKind::EyeHeightAsPercent => "EyeHeightAsPercent",
        }
    }
}

/// The parameters that a PhysBone component provides under its prefix.
#[derive(Debug, Clone, Copy, PartialEq, Eq, Structural)]
pub enum PhysBoneParameterKind {
    IsGrabbed,
    IsPosed,
    Angle,
    Stretch,
    Squish,
}

pub open spec fn physbone_value_type(k: PhysBoneParameterKind) -> ParameterType {
    match k {
        PhysBoneParameterKind::IsGrabbed => ParameterType::Bool(false),
        PhysBoneParameterKind::IsPosed => ParameterType::Bool(false),
        PhysBoneParameterKind::Angle => ParameterType::Float(0),
        PhysBoneParameterKind::Stretch => ParameterType::Float(0),
        PhysBoneParameterKind::Squish => ParameterType::Float(0),
    }
}

pub open spec fn physbone_suffix(k: PhysBoneParameterKind) -> Seq<char> {
    match k {
        PhysBoneParameterKind::IsGrabbed => "_IsGrabbed"@,
        PhysBoneParameterKind::IsPosed => "_IsPosed"@,
        PhysBoneParameterKind::Angle => "_Angle"@,
        PhysBoneParameterKind::Stretch => "_Stretch"@,
        PhysBoneParameterKind::Squish => "_Squish"@,
    }
}

impl PhysBoneParameterKind {
    pub fn value_type(&self) -> (r: ParameterType)
        ensures
            r == physbone_value_type(*self),
    {
        match self {
            PhysBoneParameterKind::IsGrabbed => ParameterType::bool_type(),
            PhysBoneParameterKind::IsPosed => ParameterType::bool_type(),
            PhysBoneParameterKind::Angle => ParameterType::float_type(),
            PhysBoneParameterKind::Stretch => ParameterType::float_type(),
            PhysBoneParameterKind::Squish => ParameterType::float_type(),
        }
    }

    pub fn parameter_suffix(&self) -> (r: &'static str)
        ensures
            r@ == physbone_suffix(*self),
    {
        match self {
            PhysBoneParameterKind::IsGrabbed => "_IsGrabbed",
            PhysBoneParameterKind::IsPosed => "_IsPosed",
            PhysBoneParameterKind::Angle => "_Angle",
            PhysBoneParameterKind::Stretch => "_Stretch",
            PhysBoneParameterKind::Squish => "_Squish",
        }
    }
}

/// A parameter known to an avatar.
#[derive(Debug, Clone)]
pub enum Parameter {
    Declared(DeclaredParameter),
    Provided(ProvidedParameter),
}

/// The name under which a parameter is known: its declared name, the VRChat name, or the PhysBone prefix.
pub open spec fn parameter_basename(p: Parameter) -> Seq<char> {
    match p {
        Parameter::Declared(d) => d.name@,
        Parameter::Provided(ProvidedParameter::Vrchat(k)) => vrchat_parameter_name(k),
        Parameter::Provided(ProvidedParameter::PhysBone(prefix)) => prefix@,
    }
}

impl Parameter {
    pub fn basename(&self) -> (r: &str)
        ensures
            r@ == parameter_basename(*self),
    {
        match self {
            Parameter::Declared(declared) => declared.name.as_str(),
            Parameter::Provided(ProvidedParameter::Vrchat(vrc_param)) => vrc_param.parameter_name(),
            Parameter::Provided(ProvidedParameter::PhysBone(prefix)) => prefix.as_str(),
        }
    }
}

/// A parameter found by a query, under its full name.
#[derive(Debug, Clone)]
pub struct QualifiedParameter {
    pub name: String,
    pub value_type: ParameterType,
    pub unique: bool,
}

/// A reference to a parameter, as written in a declaration.
#[derive(Debug, Clone)]
pub enum ParameterQuery {
    Declared(String),
    PhysBone(String, PhysBoneParameterKind),
    Vrchat(VrchatParameterKind),
}

/// The parameter, under its full name, that a query finds in `parameter`, if it finds it there.
pub open spec fn qualify(query: ParameterQuery, parameter: Parameter) -> Option<(Seq<char>, ParameterType, bool)> {
    match (query, parameter) {
        (ParameterQuery::Declared(qn), Parameter::Declared(pn)) => if qn@ == pn.name@ {
            Some((pn.name@, pn.value_type, pn.unique))
        } else {
            None
        },
        (ParameterQuery::Vrchat(qk), Parameter::Provided(ProvidedParameter::Vrchat(pk))) => if qk
            == pk {
            Some((vrchat_parameter_name(pk), vrchat_value_type(pk), false))
        } else {
            None
        },
        (
            ParameterQuery::PhysBone(qp, kind),
            Parameter::Provided(ProvidedParameter::PhysBone(pp)),
        ) => if qp@ == pp@ {
            Some((pp@ + physbone_suffix(kind), physbone_value_type(kind), false))
        } else {
            None
        },
        _ => None,
    }
}

pub open spec fn querying_name(query: ParameterQuery) -> Seq<char> {
    match query {
        ParameterQuery::Declared(name) => name@,
        ParameterQuery::Vrchat(kind) => vrchat_parameter_name(kind),
        ParameterQuery::PhysBone(prefix, _) => prefix@,
    }
}

impl ParameterQuery {
    pub fn qualify_match(&self, parameter: &Parameter) -> (r: Option<QualifiedParameter>)
        ensures
            match qualify(*self, *parameter) {
                Some((name, value_type, unique)) => r is Some && r->0.name@ == name
                    && r->0.value_type == value_type && r->0.unique == unique,
                None => r is None,
            },
    {
        match (self, parameter) {
            (ParameterQuery::Declared(qn), Parameter::Declared(pn)) => {
                if *qn == pn.name {
                    Some(
                        QualifiedParameter {
                            name: pn.name.clone(),
                            value_type: pn.value_type,
                            unique: pn.unique,
                        },
                    )
                } else {
                    None
                }
            },
            (ParameterQuery::Vrchat(qk), Parameter::Provided(ProvidedParameter::Vrchat(pk))) => {
                if *qk == *pk {
                    Some(
                        QualifiedParameter {
                            name: pk.parameter_name().to_owned(),
                            value_type: pk.value_type(),
                            unique: false,
                        },
                    )
                } else {
                    None
                }
            },
            (
                ParameterQuery::PhysBone(qp, kind),
                Parameter::Provided(ProvidedParameter::PhysBone(pp)),
            ) => {
                if *qp == *pp {
                    let mut name = pp.clone();
                    name.append(kind.parameter_suffix());
                    Some(QualifiedParameter { name, value_type: kind.value_type(), unique: false })
                } else {
                    None
                }
            },
            _ => None,
        }
    }

    pub fn querying_name(&self) -> (r: &str)
        ensures
            r@ == querying_name(*self),
    {
        match self {
            ParameterQuery::Declared(name) => name.as_str(),
            ParameterQuery::Vrchat(kind) => kind.parameter_name(),
            ParameterQuery::PhysBone(prefix, _) => prefix.as_str(),
        }
    }
}

/// A query finds a parameter only under the name that the query asks for,
/// extended by the PhysBone suffix where the query names one.
pub proof fn lemma_qualified_name_starts_with_querying_name(query: ParameterQuery, parameter: Parameter)
    requires
        qualify(query, parameter) is Some,
    ensures
        match qualify(query, parameter) {
            Some((name, _, _)) => name.subrange(0, querying_name(query).len() as int) == querying_name(
                query,
            ),
            None => false,
        },
        querying_name(query) == parameter_basename(parameter),
{
    match (query, parameter) {
        (
            ParameterQuery::PhysBone(qp, kind),
            Parameter::Provided(ProvidedParameter::PhysBone(pp)),
        ) => {
            assert((pp@ + physbone_suffix(kind)).subrange(0, pp@.len() as int) =~= pp@);
        },
        _ => {
            let name = qualify(query, parameter)->0;
            assert(name.0.subrange(0, querying_name(query).len() as int) =~= querying_name(query));
        },
    }
}

} // verus!

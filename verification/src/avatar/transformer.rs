//! Turns a declared avatar into a compiled one, collecting diagnostics in a context.
pub mod animations;
pub mod assets;
pub mod avatar;
pub mod dependencies;
pub mod drivers;
pub mod menu;
pub mod parameters;

use vstd::prelude::*;

use crate::avatar::data::{AssetType, ParameterScope, ParameterType};
use crate::text::{concat2, concat3, concat4, concat5, decimal, usize_to_decimal};

verus! {

/// How serious a diagnostic is.
#[derive(Debug, Clone, Copy, PartialEq, Eq, Hash, Structural)]
pub enum LogLevel {
    Information,
    Warning,
    Error,
}

/// The result of a compilation step: `None` where the step failed.
pub type Compiled<T> = Option<T>;

/// A step that produced `t`.
pub fn success<T>(t: T) -> (r: Compiled<T>)
    ensures
        r == Some(t),
{
    Some(t)
}

/// A step that failed.
pub fn failure<T>() -> (r: Compiled<T>)
    ensures
        r is None,
{
    None
}

/// What went wrong, or what is worth noting, while compiling an avatar.
#[derive(Debug)]
pub enum LogKind {
    InvalidAvatarName(String),
    InternalMustBeTransient(String),
    IncompatibleParameterDeclaration(String),
    IndeterminateAsset(String),
    IncompatibleAssetDeclaration(String),
    DuplicateGroupName(String),
    ParameterNotFound(String),
    ParameterTypeRequirement(String, ParameterType),
    ParameterScopeRequirement(String, ParameterScope),
    AssetNotFound(String),
    AssetTypeRequirement(String, AssetType),
    AnimationGroupNotFound(String),
    AnimationGroupMustBeGroup(String),
    AnimationGroupMustBeSwitch(String),
    AnimationGroupMustBePuppet(String),
    AnimationGroupOptionNotFound(String, String),
    AnimationGroupDisabledTargetFailure(String, String),
    AnimationGroupMaterialFailure(usize),
    AnimationGroupIndeterminateShapeChange(String, String),
    AnimationGroupIndeterminateMaterialChange(String, usize),
    AnimationGroupIndeterminateOption(String, String),
    DriverOptionNotSpecified(String),
    DriverInvalidAddTarget(String),
    DriverInvalidRandomSpecification(String),
    DriverInvalidCopyTarget(String),
    DriverCopyMismatch(String, (String, String)),
    LayerStateNotFound(String, String),
    LayerBlendTreeParameterNotFound(String, String),
}

/// How a parameter type is shown in a message (a float default is shown only when it is zero).
pub open spec fn parameter_type_text(t: ParameterType) -> Seq<char> {
    match t {
        ParameterType::Int(v) => "Int("@ + decimal(v as nat) + ")"@,
        ParameterType::Float(bits) => if bits == 0 {
            "Float(0.0)"@
        } else {
            "Float"@
        },
        ParameterType::Bool(b) => if b {
            "Bool(true)"@
        } else {
            "Bool(false)"@
        },
    }
}

pub open spec fn parameter_scope_text(s: ParameterScope) -> Seq<char> {
    match s {
        ParameterScope::Internal => "Internal"@,
        ParameterScope::Local(b) => if b {
            "Local(true)"@
        } else {
            "Local(false)"@
        },
        ParameterScope::Synced(b) => if b {
            "Synced(true)"@
        } else {
            "Synced(false)"@
        },
    }
}

pub open spec fn asset_type_text(t: AssetType) -> Seq<char> {
    match t {
        AssetType::Material => "Material"@,
        AssetType::Animation => "Animation"@,
    }
}

fn parameter_type_to_text(t: ParameterType) -> (r: String)
    ensures
        r@ == parameter_type_text(t),
{
    match t {
        ParameterType::Int(v) => {
            let d = usize_to_decimal(v as usize);
            concat3("Int(", d.as_str(), ")")
        },
        ParameterType::Float(bits) => if bits == 0 {
            String::from_str("Float(0.0)")
        } else {
            String::from_str("Float")
        },
        ParameterType::Bool(b) => if b {
            String::from_str("Bool(true)")
        } else {
            String::from_str("Bool(false)")
        },
    }
}

fn parameter_scope_to_text(s: ParameterScope) -> (r: &'static str)
    ensures
        r@ == parameter_scope_text(s),
{
    match s {
        ParameterScope::Internal => "Internal",
        ParameterScope::Local(b) => if b {
            "Local(true)"
        } else {
            "Local(false)"
        },
        ParameterScope::Synced(b) => if b {
            "Synced(true)"
        } else {
            "Synced(false)"
        },
    }
}

fn asset_type_to_text(t: AssetType) -> (r: &'static str)
    ensures
        r@ == asset_type_text(t),
{
    match t {
        AssetType::Material => "Material",
        AssetType::Animation => "Animation",
    }
}

pub open spec fn log_kind_text(log: LogKind) -> Seq<char> {
    match log {
        LogKind::InvalidAvatarName(name) => "invalid avatar name '"@ + name@ + "'"@,
        LogKind::InternalMustBeTransient(p) => "internal parameter '"@ + p@ + "' cannot be saved"@,
        LogKind::IncompatibleParameterDeclaration(p) => "parameter '"@ + p@
            + "' has incompatible declarations"@,
        LogKind::IndeterminateAsset(a) => "indeterminate asset '"@ + a@ + "'"@,
        LogKind::IncompatibleAssetDeclaration(a) => "asset '"@ + a@
            + "' has incompatible declaration"@,
        LogKind::DuplicateGroupName(g) => "group name '"@ + g@ + "' is duplicate"@,
        LogKind::ParameterNotFound(p) => "parameter '"@ + p@ + "' not found"@,
        LogKind::ParameterTypeRequirement(p, ty) => "parameter '"@ + p@ + "' must be "@
            + parameter_type_text(ty),
        LogKind::ParameterScopeRequirement(p, scope) => "parameter '"@ + p@ + "' must be "@
            + parameter_scope_text(scope),
        LogKind::AssetNotFound(a) => "asset '"@ + a@ + "' not found"@,
        LogKind::AssetTypeRequirement(a, ty) => "asset '"@ + a@ + "' must be "@ + asset_type_text(
            ty,
        ),
        LogKind::AnimationGroupNotFound(g) => "animation group '"@ + g@ + "' not found"@,
        LogKind::AnimationGroupMustBeGroup(g) => "group '"@ + g@ + "' must be group block"@,
        LogKind::AnimationGroupMustBeSwitch(g) => "group '"@ + g@ + "' must be switch block"@,
        LogKind::AnimationGroupMustBePuppet(g) => "group '"@ + g@ + "' must be puppet block"@,
        LogKind::AnimationGroupOptionNotFound(g, o) => "group '"@ + g@ + "', option '"@ + o@
            + "' not found"@,
        LogKind::AnimationGroupDisabledTargetFailure(g, t) => "group name '"@ + g@ + "', target '"@
            + t@ + "' has no auto-generated disabled target"@,
        LogKind::AnimationGroupMaterialFailure(slot) => "group name '"@ + decimal(slot as nat)
            + "', material target failure"@,
        LogKind::AnimationGroupIndeterminateShapeChange(g, s) => "group name '"@ + g@ + "', '"@
            + s@ + "' does not have mesh target"@,
        LogKind::AnimationGroupIndeterminateMaterialChange(g, slot) => "group name '"@ + g@
            + "', '"@ + decimal(slot as nat) + "' does not have mesh target"@,
        LogKind::AnimationGroupIndeterminateOption(g, o) => "group name '"@ + g@ + "', option '"@
            + o@ + "' not found"@,
        LogKind::DriverOptionNotSpecified(d) => "driver option '"@ + d@ + "' not specified"@,
        LogKind::DriverInvalidAddTarget(d) => "driver '"@ + d@ + "' has invalid add target"@,
        LogKind::DriverInvalidRandomSpecification(d) => "driver '"@ + d@
            + "' has invalid random target specification"@,
        LogKind::DriverInvalidCopyTarget(d) => "driver option '"@ + d@
            + "' has invalid copy target"@,
        LogKind::DriverCopyMismatch(d, (from, to)) => "driver option '"@ + d@
            + "' has copy target; parameters '"@ + from@ + "' and '"@ + to@
            + "' have different type"@,
        LogKind::LayerStateNotFound(l, s) => "layer '"@ + l@ + "', state '"@ + s@ + "' not found"@,
        LogKind::LayerBlendTreeParameterNotFound(l, s) => "layer '"@ + l@ + "', state '"@ + s@
            + "' does not sufficient parameters"@,
    }
}

impl LogKind {
    /// The text of this diagnostic.
    pub fn message(&self) -> (r: String)
        ensures
            r@ == log_kind_text(*self),
    {
        match self {
            LogKind::InvalidAvatarName(name) => concat3("invalid avatar name '", name.as_str(), "'"),
            LogKind::InternalMustBeTransient(p) => concat3(
                "internal parameter '",
                p.as_str(),
                "' cannot be saved",
            ),
            LogKind::IncompatibleParameterDeclaration(p) => concat3(
                "parameter '",
                p.as_str(),
                "' has incompatible declarations",
            ),
            LogKind::IndeterminateAsset(a) => concat3("indeterminate asset '", a.as_str(), "'"),
            LogKind::IncompatibleAssetDeclaration(a) => concat3(
                "asset '",
                a.as_str(),
                "' has incompatible declaration",
            ),
            LogKind::DuplicateGroupName(g) => concat3("group name '", g.as_str(), "' is duplicate"),
            LogKind::ParameterNotFound(p) => concat3("parameter '", p.as_str(), "' not found"),
            LogKind::ParameterTypeRequirement(p, ty) => {
                let t = parameter_type_to_text(*ty);
                concat4("parameter '", p.as_str(), "' must be ", t.as_str())
            },
            LogKind::ParameterScopeRequirement(p, scope) => concat4(
                "parameter '",
                p.as_str(),
                "' must be ",
                parameter_scope_to_text(*scope),
            ),
            LogKind::AssetNotFound(a) => concat3("asset '", a.as_str(), "' not found"),
            LogKind::AssetTypeRequirement(a, ty) => concat4(
                "asset '",
                a.as_str(),
                "' must be ",
                asset_type_to_text(*ty),
            ),
            LogKind::AnimationGroupNotFound(g) => concat3(
                "animation group '",
                g.as_str(),
                "' not found",
            ),
            LogKind::AnimationGroupMustBeGroup(g) => concat3(
                "group '",
                g.as_str(),
                "' must be group block",
            ),
            LogKind::AnimationGroupMustBeSwitch(g) => concat3(
                "group '",
                g.as_str(),
                "' must be switch block",
            ),
            LogKind::AnimationGroupMustBePuppet(g) => concat3(
                "group '",
                g.as_str(),
                "' must be puppet block",
            ),
            LogKind::AnimationGroupOptionNotFound(g, o) => concat5(
                "group '",
                g.as_str(),
                "', option '",
                o.as_str(),
                "' not found",
            ),
            LogKind::AnimationGroupDisabledTargetFailure(g, t) => concat5(
                "group name '",
                g.as_str(),
                "', target '",
                t.as_str(),
                "' has no auto-generated disabled target",
            ),
            LogKind::AnimationGroupMaterialFailure(slot) => {
                let s = usize_to_decimal(*slot);
                concat3("group name '", s.as_str(), "', material target failure")
            },
            LogKind::AnimationGroupIndeterminateShapeChange(g, s) => concat5(
                "group name '",
                g.as_str(),
                "', '",
                s.as_str(),
                "' does not have mesh target",
            ),
            LogKind::AnimationGroupIndeterminateMaterialChange(g, slot) => {
                let s = usize_to_decimal(*slot);
                concat5("group name '", g.as_str(), "', '", s.as_str(), "' does not have mesh target")
            },
            LogKind::AnimationGroupIndeterminateOption(g, o) => concat5(
                "group name '",
                g.as_str(),
                "', option '",
                o.as_str(),
                "' not found",
            ),
            LogKind::DriverOptionNotSpecified(d) => concat3(
                "driver option '",
                d.as_str(),
                "' not specified",
            ),
            LogKind::DriverInvalidAddTarget(d) => concat3(
                "driver '",
                d.as_str(),
                "' has invalid add target",
            ),
            LogKind::DriverInvalidRandomSpecification(d) => concat3(
                "driver '",
                d.as_str(),
                "' has invalid random target specification",
            ),
            LogKind::DriverInvalidCopyTarget(d) => concat3(
                "driver option '",
                d.as_str(),
                "' has invalid copy target",
            ),
            LogKind::DriverCopyMismatch(d, (from, to)) => {
                let head = concat4(
                    "driver option '",
                    d.as_str(),
                    "' has copy target; parameters '",
                    from.as_str(),
                );
                concat4(head.as_str(), "' and '", to.as_str(), "' have different type")
            },
            LogKind::LayerStateNotFound(l, s) => concat5(
                "layer '",
                l.as_str(),
                "', state '",
                s.as_str(),
                "' not found",
            ),
            LogKind::LayerBlendTreeParameterNotFound(l, s) => concat5(
                "layer '",
                l.as_str(),
                "', state '",
                s.as_str(),
                "' does not sufficient parameters",
            ),
        }
    }
}

/// A diagnostic as its level and text.
pub open spec fn entry_view(e: (LogLevel, LogKind)) -> (LogLevel, Seq<char>) {
    (e.0, log_kind_text(e.1))
}

/// Whether any diagnostic is an error.
pub open spec fn has_error_level(logs: Seq<(LogLevel, Seq<char>)>) -> bool {
    exists|i: int| 0 <= i < logs.len() && (#[trigger] logs[i]).0 == LogLevel::Error
}

/// Collects diagnostics; it is errornous exactly when one of them is an error.
#[derive(Debug)]
pub struct Context {
    logs: Vec<(LogLevel, LogKind)>,
    errornous: bool,
}

impl Context {
    /// The diagnostics so far, as levels and texts.
    pub closed spec fn logs_view(&self) -> Seq<(LogLevel, Seq<char>)> {
        self.logs@.map_values(|e: (LogLevel, LogKind)| entry_view(e))
    }

    pub closed spec fn wf(&self) -> bool {
        self.errornous == has_error_level(self.logs_view())
    }

    pub fn new() -> (ctx: Context)
        ensures
            ctx.wf(),
            ctx.logs_view() == Seq::<(LogLevel, Seq<char>)>::empty(),
    {
        let ctx = Context { logs: Vec::new(), errornous: false };
        proof {
            assert(ctx.logs_view() =~= Seq::<(LogLevel, Seq<char>)>::empty());
        }
        ctx
    }

    fn push_log(&mut self, level: LogLevel, log: LogKind)
        requires
            old(self).wf(),
        ensures
            final(self).wf(),
            final(self).logs_view() == old(self).logs_view().push((level, log_kind_text(log))),
    {
        let ghost text = log_kind_text(log);
        if let LogLevel::Error = level {
            self.errornous = true;
        }
        self.logs.push((level, log));
        proof {
            let v = self.logs_view();
            assert(v =~= old(self).logs_view().push((level, text)));
            if has_error_level(v) {
                let i = choose|i: int| 0 <= i < v.len() && (#[trigger] v[i]).0 == LogLevel::Error;
                if i < v.len() - 1 {
                    assert(old(self).logs_view()[i] == v[i]);
                }
            }
            if has_error_level(old(self).logs_view()) {
                let i = choose|i: int|
                    0 <= i < old(self).logs_view().len() && (#[trigger] old(
                        self,
                    ).logs_view()[i]).0 == LogLevel::Error;
                assert(v[i] == old(self).logs_view()[i]);
            }
            if level == LogLevel::Error {
                assert(v[v.len() - 1].0 == LogLevel::Error);
            }
        }
    }

    pub fn log_info(&mut self, log: LogKind)
        requires
            old(self).wf(),
        ensures
            final(self).wf(),
            final(self).logs_view() == old(self).logs_view().push(
                (LogLevel::Information, log_kind_text(log)),
            ),
    {
        self.push_log(LogLevel::Information, log);
    }

    pub fn log_warn(&mut self, log: LogKind)
        requires
            old(self).wf(),
        ensures
            final(self).wf(),
            final(self).logs_view() == old(self).logs_view().push(
                (LogLevel::Warning, log_kind_text(log)),
            ),
    {
        self.push_log(LogLevel::Warning, log);
    }

    pub fn log_error(&mut self, log: LogKind)
        requires
            old(self).wf(),
        ensures
            final(self).wf(),
            final(self).logs_view() == old(self).logs_view().push(
                (LogLevel::Error, log_kind_text(log)),
            ),
    {
        self.push_log(LogLevel::Error, log);
    }

    /// Whether an error has been logged.
    pub fn errornous(&self) -> (r: bool)
        requires
            self.wf(),
        ensures
            r == has_error_level(self.logs_view()),
    {
        self.errornous
    }

    /// The diagnostics, in order, with their texts.
    pub fn into_logs(self) -> (r: Vec<(LogLevel, String)>)
        ensures
            r@.len() == self.logs_view().len(),
            forall|i: int|
                0 <= i < r@.len() ==> (#[trigger] r@[i]).0 == self.logs_view()[i].0 && r@[i].1@
                    == self.logs_view()[i].1,
    {
        let mut r: Vec<(LogLevel, String)> = Vec::new();
        let mut i: usize = 0;
        while i < self.logs.len()
            invariant
                i <= self.logs@.len(),
                r@.len() == i,
                forall|j: int|
                    0 <= j < i ==> (#[trigger] r@[j]).0 == self.logs@[j].0 && r@[j].1@
                        == log_kind_text(self.logs@[j].1),
            decreases self.logs@.len() - i,
        {
            let (level, kind) = &self.logs[i];
            r.push((*level, kind.message()));
            i = i + 1;
        }
        r
    }
}

} // verus!

//! Diagnostics collected while an avatar is compiled.
//!
//! Every log entry remembers the stack of contexts (outermost first) that was open
//! when it was reported; its message is rendered as `outer > ... > inner > text`.
use vstd::prelude::*;

use crate::text::{concat2, concat3, concat4, decimal, usize_to_decimal};
use vstd::string::*;

verus! {

/// Something that can wrap a message in the description of where it was reported.
pub trait LoggerContext {
    fn write_context(&self, inner: String) -> String;
}

/// The separator between a context and what it encloses.
pub open spec fn context_separator() -> Seq<char> {
    " > "@
}

impl LoggerContext for String {
    fn write_context(&self, inner: String) -> (r: String)
        ensures
            r@ == self@ + context_separator() + inner@,
    {
        concat3(self.as_str(), " > ", inner.as_str())
    }
}

#[derive(Debug, Clone, Copy, PartialEq, Eq, Hash, Structural)]
pub enum Severity {
    Information,
    Warning,
    Error,
}

/// What went wrong while compiling an avatar.
#[derive(Debug)]
pub enum Log {
    InvalidAvatarName(String),
    InternalMustBeTransient(String),
    IncompatibleParameterDeclaration(String),
    IndeterminateAsset(String),
    IncompatibleAssetDeclaration(String),
    DuplicateLayerName(String),
    ParameterNotFound(String),
    ParameterTypeRequirement(String, String),
    ParameterScopeRequirement(String, String),
    AssetNotFound(String),
    AssetTypeRequirement(String, String),
    GateNotFound(String),
    GateInvalidParameter(String),
    LayerNotFound(String),
    LayerMustBeGroup(String),
    LayerMustBeSwitch(String),
    LayerMustBePuppet(String),
    LayerMustBeRaw(String),
    LayerOptionNotFound(String),
    LayerOptionMustBeExclusive,
    LayerGroupInvalidCopy,
    LayerSwitchIndeterminateSource,
    LayerDisabledTargetFailure(String),
    LayerMaterialFailure(String),
    LayerIndeterminateShapeChange(String),
    LayerIndeterminateMaterialChange(String),
    LayerPuppetCannotDrive,
    LayerPuppetOptionMustBeInlined,
    /// The out-of-range keyframe value, as IEEE-754 bits.
    LayerKeyframeOutOfRange(u64),
    LayerStateNotFound(String),
    LayerBlendTreeParameterNotFound(String),
    LayerInvalidCondition,
    MenuInvalidDrive,
    DriverOptionNotSpecified(String),
    DriverInvalidAddTarget(String),
    DriverInvalidRandomSpecification(String),
    DriverInvalidCopyTarget(String),
    DriverCopyMismatch(String, (String, String)),
    Arbittach(ArbittachError),
}

/// What went wrong while an attachment was checked against its schema.
#[derive(Debug)]
pub enum ArbittachError {
    UnknownAttachment,
    UnknownProperty(String),
    Insufficient { unmet_properties: Vec<String> },
    LengthMismatch { expected: usize, found: usize },
    TypeMismatch { expected: String, found: String },
}

/// Names separated by commas.
pub open spec fn joined(names: Seq<Seq<char>>) -> Seq<char>
    decreases names.len(),
{
    if names.len() == 0 {
        Seq::empty()
    } else if names.len() == 1 {
        names[0]
    } else {
        joined(names.drop_last()) + ", "@ + names.last()
    }
}

pub open spec fn length_mismatch_text(expected: nat, found: nat) -> Seq<char> {
    "length mismatch; "@ + decimal(expected) + " expected, "@ + decimal(found) + " found"@
}

pub open spec fn type_mismatch_text(expected: Seq<char>, found: Seq<char>) -> Seq<char> {
    "type mismatch; "@ + expected + " expected, "@ + found + " found"@
}

pub open spec fn arbittach_text(e: ArbittachError) -> Seq<char> {
    match e {
        ArbittachError::UnknownAttachment => "unknown attachment"@,
        ArbittachError::UnknownProperty(p) => "unknown property '"@ + p@ + "'"@,
        ArbittachError::Insufficient { unmet_properties } => "insufficient properties; "@ + joined(
            unmet_properties@.map_values(|n: String| n@),
        ) + " required"@,
        ArbittachError::LengthMismatch { expected, found } => length_mismatch_text(
            expected as nat,
            found as nat,
        ),
        ArbittachError::TypeMismatch { expected, found } => type_mismatch_text(expected@, found@),
    }
}

/// The names separated by commas.
pub fn join_names(names: &Vec<String>) -> (r: String)
    ensures
        r@ == joined(names@.map_values(|n: String| n@)),
{
    let ghost views = names@.map_values(|n: String| n@);
    let mut r = String::new();
    let mut i: usize = 0;
    proof {
        assert(views.subrange(0, 0) =~= Seq::<Seq<char>>::empty());
    }
    while i < names.len()
        invariant
            i <= names@.len(),
            views == names@.map_values(|n: String| n@),
            r@ == joined(views.subrange(0, i as int)),
        decreases names@.len() - i,
    {
        let ghost before = r@;
        if i > 0 {
            r.append(", ");
        }
        r.append(names[i].as_str());
        proof {
            let pre = views.subrange(0, i + 1);
            assert(pre.drop_last() =~= views.subrange(0, i as int));
            assert(pre.last() == names@[i as int]@);
            if i == 0 {
                assert(before =~= Seq::<char>::empty());
                assert(r@ =~= names@[0]@);
            } else {
                assert(r@ =~= before + ", "@ + names@[i as int]@);
            }
        }
        i = i + 1;
    }
    proof {
        assert(views.subrange(0, names@.len() as int) =~= views);
    }
    r
}

impl ArbittachError {
    /// The text of this error.
    pub fn message(&self) -> (r: String)
        ensures
            r@ == arbittach_text(*self),
    {
        match self {
            ArbittachError::UnknownAttachment => String::from_str("unknown attachment"),
            ArbittachError::UnknownProperty(p) => concat3("unknown property '", p.as_str(), "'"),
            ArbittachError::Insufficient { unmet_properties } => {
                let names = join_names(unmet_properties);
                concat3("insufficient properties; ", names.as_str(), " required")
            },
            ArbittachError::LengthMismatch { expected, found } => {
                let e = usize_to_decimal(*expected);
                let f = usize_to_decimal(*found);
                let head = concat4("length mismatch; ", e.as_str(), " expected, ", f.as_str());
                concat2(head.as_str(), " found")
            },
            ArbittachError::TypeMismatch { expected, found } => {
                let head = concat4("type mismatch; ", expected.as_str(), " expected, ", found.as_str());
                concat2(head.as_str(), " found")
            },
        }
    }
}

/// The message of a log, before any context is written around it; where the message ends
/// with a float (see `message_value`), this is the text before it.
pub open spec fn message_text(log: Log) -> Seq<char> {
    match log {
        Log::InvalidAvatarName(name) => "invalid avatar name '"@ + name@ + "'"@,
        Log::InternalMustBeTransient(param) => "internal parameter '"@ + param@ + "' cannot be saved"@,
        Log::IncompatibleParameterDeclaration(param) => "parameter '"@ + param@
            + "' has incompatible declarations"@,
        Log::IndeterminateAsset(asset) => "indeterminate asset '"@ + asset@ + "'"@,
        Log::IncompatibleAssetDeclaration(asset) => "asset '"@ + asset@
            + "' has incompatible declaration"@,
        Log::DuplicateLayerName(group) => "layer name '"@ + group@ + "' is duplicate"@,
        Log::ParameterNotFound(param) => "parameter '"@ + param@ + "' not found"@,
        Log::ParameterTypeRequirement(param, ty) => "parameter '"@ + param@ + "' must be "@ + ty@,
        Log::ParameterScopeRequirement(param, scope) => "parameter '"@ + param@ + "' must be "@
            + scope@,
        Log::AssetNotFound(asset) => "asset '"@ + asset@ + "' not found"@,
        Log::AssetTypeRequirement(asset, ty) => "asset '"@ + asset@ + "' must be "@ + ty@,
        Log::GateNotFound(gate) => "gate '"@ + gate@ + "' not found"@,
        Log::GateInvalidParameter(param) => "parameter '"@ + param@ + "' is unique and cannot guard a gate"@,
        Log::LayerNotFound(group) => "layer '"@ + group@ + "' not found"@,
        Log::LayerMustBeGroup(group) => "layer '"@ + group@ + "' must be group"@,
        Log::LayerMustBeSwitch(group) => "layer '"@ + group@ + "' must be switch"@,
        Log::LayerMustBePuppet(group) => "layer '"@ + group@ + "' must be puppet"@,
        Log::LayerMustBeRaw(group) => "layer '"@ + group@ + "' must be raw"@,
        Log::LayerOptionNotFound(option) => "option '"@ + option@ + "' not found"@,
        Log::LayerOptionMustBeExclusive => "external animation asset cannot be combined with targets"@,
        Log::LayerGroupInvalidCopy => "group copy mode is invalid"@,
        Log::LayerSwitchIndeterminateSource => "switch layer must be driven by either a parameter or a gate"@,
        Log::LayerDisabledTargetFailure(target) => "target '"@ + target@
            + "' has no auto-generated disabled target"@,
        Log::LayerMaterialFailure(group) => "group name '"@ + group@ + "', material target failure"@,
        Log::LayerIndeterminateShapeChange(shape) => "'"@ + shape@ + "' does not have mesh target"@,
        Log::LayerIndeterminateMaterialChange(material) => "'"@ + material@
            + "' does not have mesh target"@,
        Log::LayerPuppetCannotDrive => "puppet layer cannot drive parameters"@,
        Log::LayerPuppetOptionMustBeInlined => "puppet option cannot be external animation"@,
        Log::LayerKeyframeOutOfRange(_) => "puppet layer value out of range: "@,
        Log::LayerStateNotFound(state) => "state '"@ + state@ + "' not found"@,
        Log::LayerBlendTreeParameterNotFound(state) => "state '"@ + state@
            + "' does not sufficient parameters"@,
        Log::LayerInvalidCondition => "transition condition is invalid"@,
        Log::MenuInvalidDrive => "menu drive must be set or drive"@,
        Log::DriverOptionNotSpecified(driver) => "driver option '"@ + driver@ + "' not specified"@,
        Log::DriverInvalidAddTarget(driver) => "driver '"@ + driver@ + "' has invalid add target"@,
        Log::DriverInvalidRandomSpecification(driver) => "driver '"@ + driver@
            + "' has invalid random target specification"@,
        Log::DriverInvalidCopyTarget(driver) => "driver option '"@ + driver@
            + "' has invalid copy target"@,
        Log::DriverCopyMismatch(driver, (from, to)) => "driver option '"@ + driver@
            + "' has copy target; parameters '"@ + from@ + "' and '"@ + to@
            + "' have different type"@,
        Log::Arbittach(e) => arbittach_text(e),
    }
}

/// The float that ends a log's message, as IEEE-754 bits, where it ends with one: only the
/// out-of-range keyframe value.
pub open spec fn message_value(log: Log) -> Option<u64> {
    match log {
        Log::LayerKeyframeOutOfRange(bits) => Some(bits),
        _ => None,
    }
}

/// The text under which a log is recorded: its message, with a float that ends it written
/// as "IEEE-754 bits" and the decimal of its bits.
pub open spec fn recorded_text(log: Log) -> Seq<char> {
    match message_value(log) {
        Some(bits) => message_text(log) + "IEEE-754 bits "@ + decimal(bits as nat),
        None => message_text(log),
    }
}

impl Log {
    /// Every log of this compiler is an error.
    pub fn severity(&self) -> (r: Severity)
        ensures
            r == Severity::Error,
    {
        Severity::Error
    }

    /// The message of this log, and the float that ends it where it ends with one. A float
    /// is not written here: its IEEE-754 bits come second, and the caller writes the float
    /// (as `{}` writes an `f64`) after the text.
    pub fn message(&self) -> (r: (String, Option<u64>))
        ensures
            r.0@ == message_text(*self),
            r.1 == message_value(*self),
    {
        (self.message_text(), self.message_value())
    }

    fn message_value(&self) -> (r: Option<u64>)
        ensures
            r == message_value(*self),
    {
        match self {
            Log::LayerKeyframeOutOfRange(bits) => Some(*bits),
            _ => None,
        }
    }

    fn message_text(&self) -> (r: String)
        ensures
            r@ == message_text(*self),
    {
        match self {
            Log::InvalidAvatarName(name) => concat3("invalid avatar name '", name.as_str(), "'"),
            Log::InternalMustBeTransient(param) => concat3(
                "internal parameter '",
                param.as_str(),
                "' cannot be saved",
            ),
            Log::IncompatibleParameterDeclaration(param) => concat3(
                "parameter '",
                param.as_str(),
                "' has incompatible declarations",
            ),
            Log::IndeterminateAsset(asset) => concat3("indeterminate asset '", asset.as_str(), "'"),
            Log::IncompatibleAssetDeclaration(asset) => concat3(
                "asset '",
                asset.as_str(),
                "' has incompatible declaration",
            ),
            Log::DuplicateLayerName(group) => concat3("layer name '", group.as_str(), "' is duplicate"),
            Log::ParameterNotFound(param) => concat3("parameter '", param.as_str(), "' not found"),
            Log::ParameterTypeRequirement(param, ty) => concat4(
                "parameter '",
                param.as_str(),
                "' must be ",
                ty.as_str(),
            ),
            Log::ParameterScopeRequirement(param, scope) => concat4(
                "parameter '",
                param.as_str(),
                "' must be ",
                scope.as_str(),
            ),
            Log::AssetNotFound(asset) => concat3("asset '", asset.as_str(), "' not found"),
            Log::AssetTypeRequirement(asset, ty) => concat4(
                "asset '",
                asset.as_str(),
                "' must be ",
                ty.as_str(),
            ),
            Log::GateNotFound(gate) => concat3("gate '", gate.as_str(), "' not found"),
            Log::GateInvalidParameter(param) => concat3(
                "parameter '",
                param.as_str(),
                "' is unique and cannot guard a gate",
            ),
            Log::LayerNotFound(group) => concat3("layer '", group.as_str(), "' not found"),
            Log::LayerMustBeGroup(group) => concat3("layer '", group.as_str(), "' must be group"),
            Log::LayerMustBeSwitch(group) => concat3("layer '", group.as_str(), "' must be switch"),
            Log::LayerMustBePuppet(group) => concat3("layer '", group.as_str(), "' must be puppet"),
            Log::LayerMustBeRaw(group) => concat3("layer '", group.as_str(), "' must be raw"),
            Log::LayerOptionNotFound(option) => concat3("option '", option.as_str(), "' not found"),
            Log::LayerOptionMustBeExclusive => String::from_str("external animation asset cannot be combined with targets"),
            Log::LayerGroupInvalidCopy => String::from_str("group copy mode is invalid"),
            Log::LayerSwitchIndeterminateSource => String::from_str(
                "switch layer must be driven by either a parameter or a gate",
            ),
            Log::LayerDisabledTargetFailure(target) => concat3(
                "target '",
                target.as_str(),
                "' has no auto-generated disabled target",
            ),
            Log::LayerMaterialFailure(group) => concat3(
                "group name '",
                group.as_str(),
                "', material target failure",
            ),
            Log::LayerIndeterminateShapeChange(shape) => concat3(
                "'",
                shape.as_str(),
                "' does not have mesh target",
            ),
            Log::LayerIndeterminateMaterialChange(material) => concat3(
                "'",
                material.as_str(),
                "' does not have mesh target",
            ),
            Log::LayerPuppetCannotDrive => String::from_str("puppet layer cannot drive parameters"),
            Log::LayerPuppetOptionMustBeInlined => String::from_str("puppet option cannot be external animation"),
            Log::LayerKeyframeOutOfRange(_) => String::from_str("puppet layer value out of range: "),
            Log::LayerStateNotFound(state) => concat3("state '", state.as_str(), "' not found"),
            Log::LayerBlendTreeParameterNotFound(state) => concat3(
                "state '",
                state.as_str(),
                "' does not sufficient parameters",
            ),
            Log::LayerInvalidCondition => String::from_str("transition condition is invalid"),
            Log::MenuInvalidDrive => String::from_str("menu drive must be set or drive"),
            Log::DriverOptionNotSpecified(driver) => concat3(
                "driver option '",
                driver.as_str(),
                "' not specified",
            ),
            Log::DriverInvalidAddTarget(driver) => concat3(
                "driver '",
                driver.as_str(),
                "' has invalid add target",
            ),
            Log::DriverInvalidRandomSpecification(driver) => concat3(
                "driver '",
                driver.as_str(),
                "' has invalid random target specification",
            ),
            Log::DriverInvalidCopyTarget(driver) => concat3(
                "driver option '",
                driver.as_str(),
                "' has invalid copy target",
            ),
            Log::DriverCopyMismatch(driver, (from, to)) => {
                let head = concat4(
                    "driver option '",
                    driver.as_str(),
                    "' has copy target; parameters '",
                    from.as_str(),
                );
                concat4(head.as_str(), "' and '", to.as_str(), "' have different type")
            },
            Log::Arbittach(e) => e.message(),
        }
    }
}

/// A message written inside the contexts of `contexts`, outermost first:
/// the innermost context is written around the message first.
pub open spec fn render(message: Seq<char>, contexts: Seq<Seq<char>>) -> Seq<char>
    decreases contexts.len(),
{
    if contexts.len() == 0 {
        message
    } else {
        render(contexts.last() + context_separator() + message, contexts.drop_last())
    }
}

/// The open contexts once the innermost is closed; with none open, none.
pub open spec fn without_innermost(contexts: Seq<Seq<char>>) -> Seq<Seq<char>> {
    if contexts.len() == 0 {
        contexts
    } else {
        contexts.drop_last()
    }
}

/// Closing a context just opened leaves the open contexts as they were before it was opened.
pub proof fn lemma_pop_undoes_push(contexts: Seq<Seq<char>>, context: Seq<char>)
    ensures
        without_innermost(contexts.push(context)) == contexts,
{
    assert(contexts.push(context).drop_last() =~= contexts);
}

/// A message logged inside one more context is written as that context, the separator and
/// the message, inside the contexts around it.
pub proof fn lemma_render_innermost(message: Seq<char>, contexts: Seq<Seq<char>>, context: Seq<char>)
    ensures
        render(message, contexts.push(context)) == render(context + context_separator() + message, contexts),
{
    assert(contexts.push(context).drop_last() =~= contexts);
}

/// The open contexts, innermost on top, in a persistent `rpds::Stack`: a copy shares the
/// nodes of the stack it was made from.
#[verifier::external_body]
pub struct ContextStack {
    stack: rpds::Stack<String>,
}

/// The contexts that a stack holds, from its top down: innermost first.
pub uninterp spec fn stack_items(s: ContextStack) -> Seq<Seq<char>>;

/// The contexts that a stack holds, outermost first.
pub open spec fn stack_contexts(s: ContextStack) -> Seq<Seq<char>> {
    let items = stack_items(s);
    Seq::new(items.len(), |i: int| items[items.len() - 1 - i])
}

/// Calls `rpds::Stack::new`, which makes a stack without items.
#[verifier::external_body]
fn new_context_stack() -> (r: ContextStack)
    ensures
        stack_items(r) == Seq::<Seq<char>>::empty(),
{
    ContextStack { stack: rpds::Stack::new() }
}

/// Calls `rpds::Stack::push`, which gives a stack with `context` on top of the items of `s`
/// and leaves `s` as it was.
#[verifier::external_body]
fn push_context_stack(s: &ContextStack, context: String) -> (r: ContextStack)
    ensures
        stack_items(r) == seq![context@] + stack_items(*s),
{
    ContextStack { stack: s.stack.push(context) }
}

/// Calls `rpds::Stack::pop`, which gives the stack without its top item, or nothing where
/// the stack has no item, and leaves `s` as it was.
#[verifier::external_body]
fn pop_context_stack(s: &ContextStack) -> (r: Option<ContextStack>)
    ensures
        match r {
            Some(p) => stack_items(*s).len() > 0 && stack_items(p) == stack_items(*s).drop_first(),
            None => stack_items(*s).len() == 0,
        },
{
    match s.stack.pop() {
        Some(stack) => Some(ContextStack { stack }),
        None => None,
    }
}

/// Calls `Clone::clone` on an `rpds::Stack`, which gives a stack sharing the nodes of `s`,
/// so with the same items.
#[verifier::external_body]
fn clone_context_stack(s: &ContextStack) -> (r: ContextStack)
    ensures
        stack_items(r) == stack_items(*s),
{
    ContextStack { stack: s.stack.clone() }
}

/// Calls `rpds::Stack::iter`, which yields the items from the top down, and copies each.
#[verifier::external_body]
fn context_stack_items(s: &ContextStack) -> (r: Vec<String>)
    ensures
        r@.map_values(|c: String| c@) == stack_items(*s),
{
    s.stack.iter().cloned().collect()
}

/// One recorded log with the contexts that were open.
pub struct LogEntry {
    pub log: Log,
    pub contexts: ContextStack,
}

pub open spec fn contexts_view(contexts: Seq<String>) -> Seq<Seq<char>> {
    contexts.map_values(|c: String| c@)
}

/// A recorded log as its text and the contexts that were open, outermost first.
pub type LogView = (Seq<char>, Seq<Seq<char>>);

pub open spec fn entry_view(e: LogEntry) -> LogView {
    (recorded_text(e.log), stack_contexts(e.contexts))
}

/// A written log: its severity, its message inside its contexts, and the float that ends it.
pub type MessageView = (Severity, Seq<char>, Option<u64>);

pub open spec fn message_view(m: (Severity, String, Option<u64>)) -> MessageView {
    (m.0, m.1@, m.2)
}

/// How a recorded log is written: as an error, its message inside its contexts (outermost
/// first), and the float that ends the message where it ends with one.
pub open spec fn entry_message(e: LogEntry) -> MessageView {
    (Severity::Error, render(message_text(e.log), stack_contexts(e.contexts)), message_value(e.log))
}

pub open spec fn entries_view(entries: Seq<LogEntry>) -> Seq<LogView> {
    entries.map_values(|e: LogEntry| entry_view(e))
}

/// Collects logs; every log is an error, so the logger is erroneous exactly when it holds a log.
pub struct Logger {
    logs: Vec<LogEntry>,
    erroneous: bool,
    context: ContextStack,
}

impl Logger {
    /// The logs recorded so far, in order.
    pub closed spec fn entries(&self) -> Seq<LogEntry> {
        self.logs@
    }

    /// The contexts that are open now, outermost first.
    pub closed spec fn open_contexts(&self) -> Seq<Seq<char>> {
        stack_contexts(self.context)
    }

    /// The logs recorded so far as texts with their contexts.
    pub open spec fn log_view(&self) -> Seq<LogView> {
        entries_view(self.entries())
    }

    /// The logs after an outcome: unchanged on success, one error more, in the contexts open
    /// now, on failure.
    pub open spec fn logs_after<T>(&self, outcome: Result<T, Seq<char>>) -> Seq<LogView> {
        match outcome {
            Ok(_) => self.log_view(),
            Err(text) => self.log_view().push((text, self.open_contexts())),
        }
    }

    /// The flag agrees with the recorded logs.
    pub closed spec fn wf(&self) -> bool {
        self.erroneous == (self.logs@.len() > 0)
    }

    pub fn new() -> (logger: Logger)
        ensures
            logger.wf(),
            logger.entries().len() == 0,
            logger.open_contexts().len() == 0,
    {
        Logger { logs: Vec::new(), erroneous: false, context: new_context_stack() }
    }

    /// Whether any log has been recorded.
    pub fn erroneous(&self) -> (r: bool)
        requires
            self.wf(),
        ensures
            r == (self.entries().len() > 0),
    {
        self.erroneous
    }

    /// Records a log inside the contexts that are open now.
    pub fn log(&mut self, log: Log)
        requires
            old(self).wf(),
        ensures
            final(self).wf(),
            final(self).entries().len() == old(self).entries().len() + 1,
            final(self).entries().drop_last() == old(self).entries(),
            final(self).entries().last().log == log,
            stack_contexts(final(self).entries().last().contexts) == old(self).open_contexts(),
            final(self).open_contexts() == old(self).open_contexts(),
            final(self).log_view() == old(self).log_view().push((recorded_text(log), old(self).open_contexts())),
    {
        let contexts = clone_context_stack(&self.context);
        let entry = LogEntry { log, contexts };
        self.logs.push(entry);
        self.erroneous = true;
        proof {
            assert(stack_contexts(entry.contexts) =~= stack_contexts(self.context));
            assert(self.logs@.drop_last() =~= old(self).logs@);
            assert(self.log_view() =~= old(self).log_view().push(entry_view(entry)));
        }
    }

    /// Opens a context; logs recorded until it is closed are written inside it.
    pub fn push_context(&mut self, context: String)
        requires
            old(self).wf(),
        ensures
            final(self).wf(),
            final(self).entries() == old(self).entries(),
            final(self).open_contexts() == old(self).open_contexts().push(context@),
    {
        let ghost c = context@;
        self.context = push_context_stack(&self.context, context);
        proof {
            assert(stack_contexts(self.context) =~= stack_contexts(old(self).context).push(c));
        }
    }

    /// Closes the innermost open context, if any.
    pub fn pop_context(&mut self)
        requires
            old(self).wf(),
        ensures
            final(self).wf(),
            final(self).entries() == old(self).entries(),
            final(self).open_contexts() == without_innermost(old(self).open_contexts()),
    {
        if let Some(popped) = pop_context_stack(&self.context) {
            self.context = popped;
        }
        proof {
            if stack_items(old(self).context).len() > 0 {
                assert(stack_contexts(self.context) =~= stack_contexts(old(self).context).drop_last());
            } else {
                assert(stack_contexts(old(self).context).len() == 0);
            }
        }
    }

    /// Every recorded log with its severity, its message written inside its contexts, and the
    /// float that ends the message where it ends with one (as IEEE-754 bits; the caller writes
    /// the float after the text).
    pub fn logs(&self) -> (r: Vec<(Severity, String, Option<u64>)>)
        ensures
            r@.len() == self.entries().len(),
            forall|i: int| 0 <= i < r@.len() ==> message_view(#[trigger] r@[i]) == entry_message(self.entries()[i]),
    {
        let mut r: Vec<(Severity, String, Option<u64>)> = Vec::new();
        let mut i: usize = 0;
        while i < self.logs.len()
            invariant
                i <= self.logs@.len(),
                r@.len() == i,
                forall|j: int| 0 <= j < i ==> message_view(#[trigger] r@[j]) == entry_message(self.logs@[j]),
            decreases self.logs@.len() - i,
        {
            let entry = &self.logs[i];
            let innermost_first = context_stack_items(&entry.contexts);
            let (text, value) = entry.log.message();
            let message = write_contexts(text, &innermost_first);
            proof {
                let v = contexts_view(innermost_first@);
                assert(v == stack_items(entry.contexts));
                assert(stack_contexts(entry.contexts) =~= Seq::new(v.len(), |k: int| v[v.len() - 1 - k]));
            }
            r.push((entry.log.severity(), message, value));
            i = i + 1;
        }
        r
    }
}

/// Writes the contexts around a message, taking them innermost first.
fn write_contexts(message: String, innermost_first: &Vec<String>) -> (r: String)
    ensures
        ({
            let v = contexts_view(innermost_first@);
            r@ == render(message@, Seq::new(v.len(), |k: int| v[v.len() - 1 - k]))
        }),
{
    let ghost v = contexts_view(innermost_first@);
    let ghost outermost_first = Seq::new(v.len(), |k: int| v[v.len() - 1 - k]);
    let mut inner = message;
    let mut i: usize = 0;
    proof {
        assert(outermost_first.subrange(0, v.len() as int) =~= outermost_first);
    }
    while i < innermost_first.len()
        invariant
            i <= innermost_first@.len(),
            v == contexts_view(innermost_first@),
            outermost_first == Seq::new(v.len(), |k: int| v[v.len() - 1 - k]),
            render(message@, outermost_first) == render(
                inner@,
                outermost_first.subrange(0, v.len() - i),
            ),
        decreases innermost_first@.len() - i,
    {
        let ghost before = outermost_first.subrange(0, v.len() - i);
        proof {
            assert(before.last() == innermost_first@[i as int]@);
            assert(before.drop_last() =~= outermost_first.subrange(0, v.len() - (i + 1)));
        }
        inner = innermost_first[i].write_context(inner);
        i = i + 1;
    }
    proof {
        assert(outermost_first.subrange(0, 0) =~= Seq::<Seq<char>>::empty());
    }
    inner
}

} // verus!

use declavatar::avatar::data::{AssetType, ParameterScope, ParameterType};
use declavatar::avatar::transformer::LogKind;
use declavatar::avatar_v2::logger::{ArbittachError, Log};

fn s(text: &str) -> String {
    text.to_string()
}

#[test]
fn every_log_has_its_message() {
    let cases: Vec<(Log, &str)> = vec![
        (Log::InvalidAvatarName(s("a")), "invalid avatar name 'a'"),
        (Log::InternalMustBeTransient(s("p")), "internal parameter 'p' cannot be saved"),
        (Log::IncompatibleParameterDeclaration(s("p")), "parameter 'p' has incompatible declarations"),
        (Log::IndeterminateAsset(s("x")), "indeterminate asset 'x'"),
        (Log::IncompatibleAssetDeclaration(s("x")), "asset 'x' has incompatible declaration"),
        (Log::DuplicateLayerName(s("l")), "layer name 'l' is duplicate"),
        (Log::ParameterNotFound(s("p")), "parameter 'p' not found"),
        (Log::ParameterTypeRequirement(s("p"), s("bool")), "parameter 'p' must be bool"),
        (Log::ParameterScopeRequirement(s("p"), s("local")), "parameter 'p' must be local"),
        (Log::AssetNotFound(s("x")), "asset 'x' not found"),
        (Log::AssetTypeRequirement(s("x"), s("material")), "asset 'x' must be material"),
        (Log::GateNotFound(s("g")), "gate 'g' not found"),
        (Log::GateInvalidParameter(s("p")), "parameter 'p' is unique and cannot guard a gate"),
        (Log::LayerNotFound(s("l")), "layer 'l' not found"),
        (Log::LayerMustBeGroup(s("l")), "layer 'l' must be group"),
        (Log::LayerMustBeSwitch(s("l")), "layer 'l' must be switch"),
        (Log::LayerMustBePuppet(s("l")), "layer 'l' must be puppet"),
        (Log::LayerMustBeRaw(s("l")), "layer 'l' must be raw"),
        (Log::LayerOptionNotFound(s("o")), "option 'o' not found"),
        (Log::LayerOptionMustBeExclusive, "external animation asset cannot be combined with targets"),
        (Log::LayerGroupInvalidCopy, "group copy mode is invalid"),
        (Log::LayerSwitchIndeterminateSource, "switch layer must be driven by either a parameter or a gate"),
        (Log::LayerDisabledTargetFailure(s("t")), "target 't' has no auto-generated disabled target"),
        (Log::LayerMaterialFailure(s("g")), "group name 'g', material target failure"),
        (Log::LayerIndeterminateShapeChange(s("smile")), "'smile' does not have mesh target"),
        (Log::LayerIndeterminateMaterialChange(s("2")), "'2' does not have mesh target"),
        (Log::LayerPuppetCannotDrive, "puppet layer cannot drive parameters"),
        (Log::LayerPuppetOptionMustBeInlined, "puppet option cannot be external animation"),
        (Log::LayerStateNotFound(s("idle")), "state 'idle' not found"),
        (Log::LayerBlendTreeParameterNotFound(s("idle")), "state 'idle' does not sufficient parameters"),
        (Log::LayerInvalidCondition, "transition condition is invalid"),
        (Log::MenuInvalidDrive, "menu drive must be set or drive"),
        (Log::DriverOptionNotSpecified(s("d")), "driver option 'd' not specified"),
        (Log::DriverInvalidAddTarget(s("d")), "driver 'd' has invalid add target"),
        (Log::DriverInvalidRandomSpecification(s("d")), "driver 'd' has invalid random target specification"),
        (Log::DriverInvalidCopyTarget(s("d")), "driver option 'd' has invalid copy target"),
        (Log::Arbittach(ArbittachError::UnknownProperty(s("range"))), "unknown property 'range'"),
        (
            Log::Arbittach(ArbittachError::TypeMismatch { expected: s("integer"), found: s("string") }),
            "type mismatch; integer expected, string found",
        ),
        (Log::Arbittach(ArbittachError::Insufficient { unmet_properties: vec![s("a")] }), "insufficient properties; a required"),
    ];
    for (log, text) in cases {
        assert_eq!(log.message(), (text.to_string(), None));
    }
}

#[test]
fn keyframe_message_ends_with_the_value() {
    let log = Log::LayerKeyframeOutOfRange(1.5f64.to_bits());
    let (text, value) = log.message();
    assert_eq!(text, "puppet layer value out of range: ");
    assert_eq!(value, Some(0x3FF8_0000_0000_0000));
    assert_eq!(format!("{text}{}", f64::from_bits(value.unwrap())), "puppet layer value out of range: 1.5");
}

#[test]
fn every_first_format_log_has_its_message() {
    let cases: Vec<(LogKind, &str)> = vec![
        (LogKind::InvalidAvatarName(s("a")), "invalid avatar name 'a'"),
        (LogKind::InternalMustBeTransient(s("p")), "internal parameter 'p' cannot be saved"),
        (LogKind::IncompatibleParameterDeclaration(s("p")), "parameter 'p' has incompatible declarations"),
        (LogKind::IndeterminateAsset(s("x")), "indeterminate asset 'x'"),
        (LogKind::IncompatibleAssetDeclaration(s("x")), "asset 'x' has incompatible declaration"),
        (LogKind::DuplicateGroupName(s("g")), "group name 'g' is duplicate"),
        (LogKind::ParameterNotFound(s("p")), "parameter 'p' not found"),
        (LogKind::ParameterTypeRequirement(s("p"), ParameterType::Int(3)), "parameter 'p' must be Int(3)"),
        (LogKind::ParameterTypeRequirement(s("p"), ParameterType::Float(0)), "parameter 'p' must be Float(0.0)"),
        (LogKind::ParameterTypeRequirement(s("p"), ParameterType::Bool(false)), "parameter 'p' must be Bool(false)"),
        (LogKind::ParameterScopeRequirement(s("p"), ParameterScope::Local(true)), "parameter 'p' must be Local(true)"),
        (LogKind::ParameterScopeRequirement(s("p"), ParameterScope::Internal), "parameter 'p' must be Internal"),
        (LogKind::AssetNotFound(s("x")), "asset 'x' not found"),
        (LogKind::AssetTypeRequirement(s("x"), AssetType::Animation), "asset 'x' must be Animation"),
        (LogKind::AnimationGroupNotFound(s("g")), "animation group 'g' not found"),
        (LogKind::AnimationGroupMustBeGroup(s("g")), "group 'g' must be group block"),
        (LogKind::AnimationGroupMustBeSwitch(s("g")), "group 'g' must be switch block"),
        (LogKind::AnimationGroupMustBePuppet(s("g")), "group 'g' must be puppet block"),
        (LogKind::AnimationGroupOptionNotFound(s("g"), s("o")), "group 'g', option 'o' not found"),
        (
            LogKind::AnimationGroupDisabledTargetFailure(s("g"), s("m-Body-0")),
            "group name 'g', target 'm-Body-0' has no auto-generated disabled target",
        ),
        (LogKind::AnimationGroupMaterialFailure(4), "group name '4', material target failure"),
        (LogKind::AnimationGroupIndeterminateShapeChange(s("g"), s("smile")), "group name 'g', 'smile' does not have mesh target"),
        (LogKind::AnimationGroupIndeterminateMaterialChange(s("g"), 1), "group name 'g', '1' does not have mesh target"),
        (LogKind::AnimationGroupIndeterminateOption(s("g"), s("o")), "group name 'g', option 'o' not found"),
        (LogKind::DriverOptionNotSpecified(s("d")), "driver option 'd' not specified"),
        (LogKind::DriverInvalidAddTarget(s("d")), "driver 'd' has invalid add target"),
        (LogKind::DriverInvalidRandomSpecification(s("d")), "driver 'd' has invalid random target specification"),
        (LogKind::DriverInvalidCopyTarget(s("d")), "driver option 'd' has invalid copy target"),
        (
            LogKind::DriverCopyMismatch(s("d"), (s("a"), s("b"))),
            "driver option 'd' has copy target; parameters 'a' and 'b' have different type",
        ),
        (LogKind::LayerStateNotFound(s("l"), s("idle")), "layer 'l', state 'idle' not found"),
        (LogKind::LayerBlendTreeParameterNotFound(s("l"), s("idle")), "layer 'l', state 'idle' does not sufficient parameters"),
    ];
    for (log, text) in cases {
        assert_eq!(log.message(), text);
    }
}

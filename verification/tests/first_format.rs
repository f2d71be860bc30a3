use declavatar::avatar::data::{
    AnimationGroupContent, Parameter, ParameterScope, ParameterType, Target,
};
use declavatar::avatar::transformer::animations::compile_animations_blocks;
use declavatar::avatar::transformer::dependencies::CompiledSources;
use declavatar::avatar::transformer::parameters::compile_parameter_blocks;
use declavatar::avatar::transformer::Context;
use declavatar::decl::data::{
    AnimationElement, AnimationGroup, AnimationSwitch, Animations, GroupBlock, Parameter as DeclParameter,
    ParameterScope as DeclParameterScope, ParameterType as DeclParameterType, Parameters, Preventions,
    Target as DeclTarget,
};

const ONE: u64 = 0x3FF0_0000_0000_0000;

fn sources() -> CompiledSources {
    CompiledSources::new(
        vec![Parameter { name: "outfit".to_string(), value_type: ParameterType::Int(0), scope: ParameterScope::Synced(false) }],
        vec![],
    )
}

fn block(name: Option<&str>, targets: Vec<DeclTarget>) -> GroupBlock {
    GroupBlock { name: name.map(|n| n.to_string()), declared_order: 0, indeterminate: false, cancel_default: None, targets }
}

fn shape(name: &str, value: u64) -> DeclTarget {
    DeclTarget::Shape { shape: name.to_string(), mesh: None, value: Some(value), cancel_to: None }
}

fn object(name: &str, value: bool) -> DeclTarget {
    DeclTarget::Object { object: name.to_string(), value: Some(value), cancel_to: None }
}

#[test]
fn group_defaults_rest_every_target_an_option_sets() {
    let mut ctx = Context::new();
    let group = AnimationGroup {
        name: "Outfit".to_string(),
        parameter: "outfit".to_string(),
        default_mesh: Some("Body".to_string()),
        preventions: Preventions { mouth: None, eyelids: None },
        default_block: Some(block(None, vec![object("Hat", true)])),
        options: vec![block(Some("smile"), vec![shape("smile", ONE), object("Scarf", true)])],
    };
    let blocks = vec![Animations { elements: vec![AnimationElement::Group(group)] }];
    let groups = compile_animations_blocks(&mut ctx, &sources(), blocks).unwrap();
    assert!(!ctx.errornous());
    assert_eq!(groups.len(), 1);
    match &groups[0].content {
        AnimationGroupContent::Group { parameter, default_targets, options, .. } => {
            assert_eq!(parameter, "outfit");
            assert_eq!(default_targets.len(), 3);
            assert!(matches!(&default_targets[0], Target::Object(o) if o.name == "Hat" && o.enabled));
            assert!(matches!(&default_targets[1], Target::Shape(s) if s.mesh == "Body" && s.name == "smile" && s.value == 0));
            assert!(matches!(&default_targets[2], Target::Object(o) if o.name == "Scarf" && !o.enabled));
            assert_eq!(options.len(), 1);
            assert_eq!(options[0].name, "smile");
            assert_eq!(options[0].targets.len(), 2);
        }
        _ => panic!("group expected"),
    }
}

#[test]
fn group_parameter_must_be_an_int() {
    let mut ctx = Context::new();
    let group = AnimationGroup {
        name: "Outfit".to_string(),
        parameter: "missing".to_string(),
        default_mesh: None,
        preventions: Preventions { mouth: None, eyelids: None },
        default_block: None,
        options: vec![],
    };
    let blocks = vec![Animations { elements: vec![AnimationElement::Group(group)] }];
    let groups = compile_animations_blocks(&mut ctx, &sources(), blocks).unwrap();
    assert!(groups.is_empty());
    assert!(ctx.errornous());
    let logs = ctx.into_logs();
    assert_eq!(logs.len(), 1);
    assert_eq!(logs[0].1, "parameter 'missing' not found");
}

#[test]
fn switches_are_not_compiled_by_this_version() {
    let mut ctx = Context::new();
    let blocks = vec![Animations {
        elements: vec![AnimationElement::Switch(AnimationSwitch { name: "s".to_string(), parameter: "outfit".to_string() })],
    }];
    let groups = compile_animations_blocks(&mut ctx, &sources(), blocks).unwrap();
    assert!(groups.is_empty());
}

fn decl_parameter(name: &str, ty: DeclParameterType, scope: Option<DeclParameterScope>) -> DeclParameter {
    DeclParameter { name: name.to_string(), ty, scope, save: None }
}

#[test]
fn parameters_keep_the_first_declaration_of_a_name() {
    let mut ctx = Context::new();
    let blocks = vec![
        Parameters {
            parameters: vec![
                decl_parameter("mood", DeclParameterType::Int(Some(2)), None),
                decl_parameter("mood", DeclParameterType::Int(Some(2)), Some(DeclParameterScope::Synced)),
            ],
        },
        Parameters {
            parameters: vec![
                decl_parameter("mood", DeclParameterType::Bool(None), None),
                decl_parameter("hat", DeclParameterType::Bool(None), Some(DeclParameterScope::Local)),
            ],
        },
    ];
    let parameters = compile_parameter_blocks(&mut ctx, blocks).unwrap();
    let names: Vec<&str> = parameters.iter().map(|p| p.name.as_str()).collect();
    assert_eq!(names, vec!["mood", "hat"]);
    assert_eq!(parameters[0].value_type, ParameterType::Int(2));
    assert_eq!(parameters[1].scope, ParameterScope::Local(false));
    let logs = ctx.into_logs();
    assert_eq!(logs.len(), 1);
    assert_eq!(logs[0].1, "parameter 'mood' has incompatible declarations");
}

use declavatar::avatar_v2::data::asset::{Asset, AssetType};
use declavatar::avatar_v2::data::export::ExportItem;
use declavatar::avatar_v2::data::layer::{
    LayerAnimation, LayerContent, LayerRawAnimationKind, LayerRawCondition, Target,
};
use declavatar::avatar_v2::data::parameter::{DeclaredParameter, Parameter, ParameterScope, ParameterType};
use declavatar::avatar_v2::logger::Logger;
use declavatar::avatar_v2::transformer::controller::compile_fx_controller_blocks;
use declavatar::avatar_v2::transformer::export::{compile_export, first_pass_exports_blocks};
use declavatar::avatar_v2::transformer::first_pass::{first_pass_group_layer, first_pass_switch_layer};
use declavatar::avatar_v2::transformer::raw::compile_raw_layer;
use declavatar::avatar_v2::transformer::switch_puppet::{compile_puppet_layer, compile_switch_layer, total_before};
use declavatar::avatar_v2::transformer::{DeclaredLayer, DeclaredLayerType, FirstPassData};
use declavatar::decl_v2::data::{
    DeclControllerLayer, DeclExport, DeclExports, DeclFxController, DeclGroupLayer, DeclGroupOption,
    DeclGroupOptionKind, DeclGroupOptionTarget, DeclInlineTargets, DeclObjectTarget, DeclParameterDrive,
    DeclParameterReference, DeclPuppetLayer, DeclRawLayer, DeclRawLayerAnimation, DeclRawLayerAnimationKind,
    DeclRawLayerState, DeclRawLayerTransition, DeclRawLayerTransitionCondition, DeclRawLayerTransitionOrdering,
    DeclShapeTarget, DeclSwitchLayer,
};

const ONE: u64 = 0x3FF0_0000_0000_0000;
const HALF: u64 = 0x3FE0_0000_0000_0000;
const TWO: u64 = 0x4000_0000_0000_0000;
const NEGATIVE_ZERO: u64 = 0x8000_0000_0000_0000;

fn declared(name: &str, value_type: ParameterType, unique: bool) -> Parameter {
    Parameter::Declared(DeclaredParameter {
        name: name.to_string(),
        value_type,
        scope: ParameterScope::Internal,
        unique,
        explicit_default: false,
    })
}

fn first_pass(layers: Vec<DeclaredLayer>, gates: Vec<&str>) -> FirstPassData {
    let parameters = vec![
        declared("enabled", ParameterType::Bool(false), false),
        declared("blend", ParameterType::Float(0), false),
        declared("mode", ParameterType::Int(0), false),
        declared("token", ParameterType::Bool(false), true),
    ];
    let assets = vec![
        Asset { asset_type: AssetType::Animation, key: "runAnim".to_string() },
        Asset { asset_type: AssetType::Material, key: "red".to_string() },
    ];
    FirstPassData::new(parameters, assets, layers, gates.into_iter().map(|g| g.to_string()).collect())
}

fn primitive(name: &str) -> DeclParameterReference {
    DeclParameterReference::Primitive(name.to_string())
}

fn shape(name: &str, value: Option<u64>) -> DeclGroupOptionTarget {
    DeclGroupOptionTarget::Shape(DeclShapeTarget { shape: name.to_string(), mesh: None, value })
}

fn object(name: &str, value: Option<bool>) -> DeclGroupOptionTarget {
    DeclGroupOptionTarget::Object(DeclObjectTarget { object: name.to_string(), value })
}

fn option(kind: DeclGroupOptionKind, targets: Vec<DeclGroupOptionTarget>) -> DeclGroupOption {
    DeclGroupOption { kind, animation_asset: None, targets }
}

fn switch(name: &str, driven_by: Option<&str>, with_gate: Option<&str>) -> DeclSwitchLayer {
    DeclSwitchLayer {
        name: name.to_string(),
        driven_by: driven_by.map(primitive),
        with_gate: with_gate.map(|g| g.to_string()),
        default_mesh: Some("Body".to_string()),
        disabled: option(DeclGroupOptionKind::Boolean(false), vec![shape("smile", None)]),
        enabled: option(DeclGroupOptionKind::Boolean(true), vec![object("Hat", None)]),
    }
}

fn messages(logger: &Logger) -> Vec<String> {
    logger.logs().into_iter().map(|(_, m, _)| m).collect()
}

#[test]
fn switch_layer_fills_unset_values_by_option() {
    let fp = first_pass(vec![], vec![]);
    let mut logger = Logger::new();
    let layer = compile_switch_layer(&mut logger, &fp, switch("toggle", Some("enabled"), None)).unwrap();
    assert!(!logger.erroneous());
    assert_eq!(layer.name, "toggle");
    match layer.content {
        LayerContent::Switch { parameter, disabled, enabled } => {
            assert_eq!(parameter, "enabled");
            match disabled {
                LayerAnimation::Inline(ts) => {
                    assert_eq!(ts.len(), 1);
                    assert!(matches!(&ts[0], Target::Shape { mesh, shape, value } if mesh == "Body" && shape == "smile" && *value == 0));
                }
                _ => panic!("disabled option should be inline"),
            }
            match enabled {
                LayerAnimation::Inline(ts) => {
                    assert_eq!(ts.len(), 1);
                    assert!(matches!(&ts[0], Target::Object { object, value } if object == "Hat" && *value));
                }
                _ => panic!("enabled option should be inline"),
            }
        }
        _ => panic!("switch layer expected"),
    }
}

#[test]
fn switch_layer_opened_by_gate() {
    let fp = first_pass(vec![], vec!["door"]);
    let mut logger = Logger::new();
    let layer = compile_switch_layer(&mut logger, &fp, switch("gated", None, Some("door"))).unwrap();
    assert!(matches!(layer.content, LayerContent::SwitchGate { ref gate, .. } if gate == "door"));
}

#[test]
fn switch_layer_with_unknown_gate_fails() {
    let fp = first_pass(vec![], vec!["door"]);
    let mut logger = Logger::new();
    assert!(compile_switch_layer(&mut logger, &fp, switch("gated", None, Some("window"))).is_none());
    assert_eq!(messages(&logger), vec!["switch layer 'gated' > gate 'window' not found".to_string()]);
}

#[test]
fn switch_layer_needs_exactly_one_source() {
    let fp = first_pass(vec![], vec!["door"]);
    let mut logger = Logger::new();
    assert!(compile_switch_layer(&mut logger, &fp, switch("both", Some("enabled"), Some("door"))).is_none());
    assert_eq!(
        messages(&logger),
        vec!["switch layer 'both' > switch layer must be driven by either a parameter or a gate".to_string()]
    );
}

#[test]
fn switch_layer_parameter_must_be_bool() {
    let fp = first_pass(vec![], vec![]);
    let mut logger = Logger::new();
    assert!(compile_switch_layer(&mut logger, &fp, switch("wrong", Some("blend"), None)).is_none());
    assert_eq!(messages(&logger), vec!["switch layer 'wrong' > parameter 'blend' must be bool".to_string()]);
}

fn keyframe(position: u64, targets: Vec<DeclGroupOptionTarget>) -> DeclGroupOption {
    option(DeclGroupOptionKind::Keyframe(position), targets)
}

fn puppet(keyframes: Vec<DeclGroupOption>) -> DeclPuppetLayer {
    DeclPuppetLayer {
        name: "face".to_string(),
        driven_by: primitive("blend"),
        default_mesh: Some("Body".to_string()),
        animation_asset: None,
        keyframes,
    }
}

#[test]
fn puppet_layer_orders_keyframes_and_drops_those_out_of_range() {
    let fp = first_pass(vec![], vec![]);
    let mut logger = Logger::new();
    let layer = compile_puppet_layer(
        &mut logger,
        &fp,
        puppet(vec![
            keyframe(ONE, vec![shape("a", Some(ONE))]),
            keyframe(TWO, vec![shape("b", Some(ONE))]),
            keyframe(0, vec![shape("c", Some(ONE))]),
            keyframe(HALF, vec![shape("d", Some(ONE))]),
            keyframe(NEGATIVE_ZERO, vec![shape("e", Some(ONE))]),
        ]),
    )
    .unwrap();
    match layer.content {
        LayerContent::Puppet { parameter, animation: LayerAnimation::KeyedInline(keys) } => {
            assert_eq!(parameter, "blend");
            let positions: Vec<u64> = keys.iter().map(|k| k.value).collect();
            assert_eq!(positions, vec![NEGATIVE_ZERO, 0, HALF, ONE]);
        }
        _ => panic!("puppet layer with keyframes expected"),
    }
    let logs = logger.logs();
    assert_eq!(logs.len(), 1);
    assert_eq!(logs[0].1, "puppet layer 'face' > puppet layer value out of range: ");
    assert_eq!(logs[0].2, Some(TWO));
    assert_eq!(
        format!("{}{}", logs[0].1, f64::from_bits(logs[0].2.unwrap())),
        "puppet layer 'face' > puppet layer value out of range: 2"
    );
}

#[test]
fn puppet_keyframe_cannot_drive_parameters() {
    let fp = first_pass(vec![], vec![]);
    let mut logger = Logger::new();
    let drive = DeclGroupOptionTarget::ParameterDrive(DeclParameterDrive::SetBool {
        parameter: primitive("enabled"),
        value: Some(true),
    });
    let layer = compile_puppet_layer(&mut logger, &fp, puppet(vec![keyframe(HALF, vec![drive, shape("a", Some(0))])])).unwrap();
    match layer.content {
        LayerContent::Puppet { animation: LayerAnimation::KeyedInline(keys), .. } => {
            assert_eq!(keys.len(), 1);
            assert_eq!(keys[0].targets.len(), 1);
        }
        _ => panic!("puppet layer with keyframes expected"),
    }
    assert_eq!(
        messages(&logger),
        vec!["puppet layer 'face' > keyframe IEEE-754 bits 4602678819172646912 > puppet layer cannot drive parameters".to_string()]
    );
}

#[test]
fn puppet_layer_asset_excludes_keyframes() {
    let fp = first_pass(vec![], vec![]);
    let mut logger = Logger::new();
    let mut layer = puppet(vec![keyframe(HALF, vec![])]);
    layer.animation_asset = Some("runAnim".to_string());
    assert!(compile_puppet_layer(&mut logger, &fp, layer).is_none());
    assert_eq!(
        messages(&logger),
        vec!["puppet layer 'face' > external animation asset cannot be combined with targets".to_string()]
    );
}

#[test]
fn total_order_puts_negative_zero_first() {
    assert!(total_before(NEGATIVE_ZERO, 0));
    assert!(!total_before(0, NEGATIVE_ZERO));
    assert!(total_before(HALF, ONE));
    assert!(!total_before(ONE, ONE));
}

fn raw_state(name: &str, kind: DeclRawLayerAnimationKind, transitions: Vec<DeclRawLayerTransition>) -> DeclRawLayerState {
    DeclRawLayerState { name: name.to_string(), kind, transitions }
}

fn clip(animation: DeclRawLayerAnimation) -> DeclRawLayerAnimationKind {
    DeclRawLayerAnimationKind::Clip { animation, speed: (None, None), time: None }
}

fn transition(target: &str, conditions: Vec<DeclRawLayerTransitionCondition>) -> DeclRawLayerTransition {
    DeclRawLayerTransition { target: target.to_string(), duration: None, conditions }
}

fn raw_first_pass() -> FirstPassData {
    first_pass(
        vec![DeclaredLayer {
            name: "motion".to_string(),
            layer_type: DeclaredLayerType::Raw(vec!["idle".to_string(), "run".to_string()]),
        }],
        vec![],
    )
}

#[test]
fn raw_layer_compiles_states_and_transitions() {
    let fp = raw_first_pass();
    let mut logger = Logger::new();
    let decl = DeclRawLayer {
        name: "motion".to_string(),
        default: Some("run".to_string()),
        states: vec![
            raw_state(
                "idle",
                clip(DeclRawLayerAnimation::Inline(DeclInlineTargets { targets: vec![object("Legs", Some(false))] })),
                vec![
                    transition(
                        "run",
                        vec![
                            DeclRawLayerTransitionCondition::Bool(primitive("enabled"), true),
                            DeclRawLayerTransitionCondition::Zero(primitive("mode"), true),
                            DeclRawLayerTransitionCondition::Float(primitive("blend"), DeclRawLayerTransitionOrdering::Equal, HALF),
                        ],
                    ),
                    transition("nowhere", vec![]),
                ],
            ),
            raw_state("run", clip(DeclRawLayerAnimation::External("runAnim".to_string())), vec![transition("idle", vec![])]),
        ],
    };
    let layer = compile_raw_layer(&mut logger, &fp, decl).unwrap();
    match layer.content {
        LayerContent::Raw { default_index, states, transitions } => {
            assert_eq!(default_index, 1);
            assert_eq!(states.len(), 2);
            assert!(matches!(&states[1].animation, LayerRawAnimationKind::Clip { animation: LayerAnimation::External(a), .. } if a == "runAnim"));
            assert_eq!(transitions.len(), 2);
            assert_eq!((transitions[0].from_index, transitions[0].target_index, transitions[0].duration), (0, 1, 0));
            assert_eq!(transitions[0].conditions.len(), 2);
            assert!(matches!(&transitions[0].conditions[0], LayerRawCondition::Be(p) if p == "enabled"));
            assert!(matches!(&transitions[0].conditions[1], LayerRawCondition::NeqInt(p, 0) if p == "mode"));
            assert_eq!((transitions[1].from_index, transitions[1].target_index), (1, 0));
        }
        _ => panic!("raw layer expected"),
    }
    assert_eq!(messages(&logger), vec!["raw layer 'motion' > transition condition is invalid".to_string()]);
}

#[test]
fn raw_layer_default_must_be_a_compiled_state() {
    let fp = raw_first_pass();
    let mut logger = Logger::new();
    let decl = DeclRawLayer {
        name: "motion".to_string(),
        default: Some("jump".to_string()),
        states: vec![raw_state("idle", clip(DeclRawLayerAnimation::External("runAnim".to_string())), vec![])],
    };
    assert!(compile_raw_layer(&mut logger, &fp, decl).is_none());
    assert_eq!(messages(&logger), vec!["raw layer 'motion' > state 'jump' not found".to_string()]);
}

#[test]
fn raw_layer_must_be_declared_raw() {
    let fp = first_pass(vec![], vec![]);
    let mut logger = Logger::new();
    let decl = DeclRawLayer { name: "ghost".to_string(), default: None, states: vec![] };
    assert!(compile_raw_layer(&mut logger, &fp, decl).is_none());
    assert_eq!(messages(&logger), vec!["raw layer 'ghost' > layer 'ghost' not found".to_string()]);
}

#[test]
fn first_pass_group_layer_numbers_named_options() {
    let logger = Logger::new();
    let decl = DeclGroupLayer {
        name: "outfit".to_string(),
        driven_by: primitive("mode"),
        default_mesh: None,
        copy_mode: None,
        default: None,
        options: vec![
            option(DeclGroupOptionKind::Selection(Some("casual".to_string()), None), vec![]),
            option(DeclGroupOptionKind::Selection(None, None), vec![]),
            option(DeclGroupOptionKind::Selection(Some("formal".to_string()), Some(7)), vec![]),
            option(DeclGroupOptionKind::Selection(Some("sport".to_string()), None), vec![]),
        ],
    };
    let declared = first_pass_group_layer(&logger, &decl).unwrap();
    assert_eq!(declared.name, "outfit");
    match declared.layer_type {
        DeclaredLayerType::Group(parameter, options) => {
            assert_eq!(parameter, "mode");
            assert_eq!(
                options,
                vec![("casual".to_string(), 1), ("formal".to_string(), 7), ("sport".to_string(), 4)]
            );
        }
        _ => panic!("group expected"),
    }
}

#[test]
fn first_pass_switch_layer_needs_one_source() {
    let logger = Logger::new();
    assert!(first_pass_switch_layer(&logger, &switch("none", None, None)).is_none());
    let declared = first_pass_switch_layer(&logger, &switch("gated", None, Some("door"))).unwrap();
    assert!(matches!(declared.layer_type, DeclaredLayerType::SwitchGate(ref g) if g == "door"));
}

#[test]
fn exports_declare_gates_and_guards_need_shared_bools() {
    let logger = Logger::new();
    let blocks = vec![
        DeclExports { exports: vec![DeclExport::Gate("a".to_string()), DeclExport::Guard("a".to_string(), "enabled".to_string())] },
        DeclExports { exports: vec![DeclExport::Gate("b".to_string())] },
    ];
    assert_eq!(first_pass_exports_blocks(&logger, &blocks).unwrap(), vec!["a".to_string(), "b".to_string()]);

    let fp = first_pass(vec![], vec!["a"]);
    let mut logger = Logger::new();
    let guard = compile_export(&mut logger, &fp, DeclExport::Guard("a".to_string(), "enabled".to_string())).unwrap();
    assert_eq!(guard, ExportItem::Guard { gate: "a".to_string(), parameter: "enabled".to_string() });
    assert!(compile_export(&mut logger, &fp, DeclExport::Guard("a".to_string(), "token".to_string())).is_none());
    assert_eq!(messages(&logger), vec!["parameter 'token' is unique and cannot guard a gate".to_string()]);
}

#[test]
fn controller_keeps_duplicate_layers_and_logs_them() {
    let fp = first_pass(vec![], vec![]);
    let mut logger = Logger::new();
    let blocks = vec![DeclFxController {
        layers: vec![
            DeclControllerLayer::Switch(switch("same", Some("enabled"), None)),
            DeclControllerLayer::Switch(switch("same", Some("enabled"), None)),
        ],
    }];
    let layers = compile_fx_controller_blocks(&mut logger, &fp, blocks).unwrap();
    assert_eq!(layers.len(), 2);
    assert_eq!(messages(&logger), vec!["fx-controller 0 > layer name 'same' is duplicate".to_string()]);
}

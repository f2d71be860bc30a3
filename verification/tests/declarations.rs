use declavatar::arbittach::data::Value;
use declavatar::arbittach::schema::{
    Attachment as AttachmentSchema, Parameter as ParameterSchema, Property as PropertySchema, ValueType,
};
use declavatar::avatar_v2::data::asset::{Asset, AssetType};
use declavatar::avatar_v2::data::layer::{LayerAnimation, LayerContent, Target};
use declavatar::avatar_v2::data::menu::MenuItem;
use declavatar::avatar_v2::data::parameter::{
    DeclaredParameter, Parameter, ParameterScope, ParameterType, ProvidedParameter, VrchatParameterKind,
};
use declavatar::avatar_v2::logger::Logger;
use declavatar::avatar_v2::transformer::asset::compile_assets_blocks;
use declavatar::avatar_v2::transformer::attachment::compile_attachment_blocks;
use declavatar::avatar_v2::transformer::layer::compile_group_layer;
use declavatar::avatar_v2::transformer::menu::compile_menu;
use declavatar::avatar_v2::transformer::parameter::compile_parameters_blocks;
use declavatar::avatar_v2::transformer::{DeclaredLayer, DeclaredLayerType, FirstPassData};
use declavatar::decl_v2::data::{
    DeclAsset, DeclAssets, DeclAttachment, DeclAttachmentGroup, DeclAttachmentProperty, DeclAttachmentValue,
    DeclAttachments, DeclBooleanControl, DeclDriveGroup, DeclGroupCopyMode, DeclGroupLayer, DeclGroupOption,
    DeclGroupOptionKind, DeclGroupOptionTarget, DeclMenuElement, DeclObjectTarget, DeclParameter,
    DeclParameterDrive, DeclParameterReference, DeclParameters, DeclPrimitiveParameter,
    DeclPrimitiveParameterScope, DeclPrimitiveParameterType, DeclShapeTarget, DeclSubMenu,
};

const ONE: u64 = 0x3FF0_0000_0000_0000;

fn messages(logger: &Logger) -> Vec<String> {
    logger.logs().into_iter().map(|(_, m, _)| m).collect()
}

fn primitive(name: &str, ty: DeclPrimitiveParameterType, scope: Option<DeclPrimitiveParameterScope>, save: Option<bool>) -> DeclParameter {
    DeclParameter::Primitive(DeclPrimitiveParameter { name: name.to_string(), ty, scope, save, unique: None })
}

#[test]
fn parameters_compile_in_order_and_refuse_conflicts() {
    let mut logger = Logger::new();
    let blocks = vec![DeclParameters {
        parameters: vec![
            primitive("hat", DeclPrimitiveParameterType::Bool(Some(true)), Some(DeclPrimitiveParameterScope::Local), None),
            primitive("secret", DeclPrimitiveParameterType::Int(None), Some(DeclPrimitiveParameterScope::Internal), Some(true)),
            primitive("hat", DeclPrimitiveParameterType::Int(None), None, None),
            DeclParameter::Provided(vec![VrchatParameterKind::Voice]),
            primitive("mood", DeclPrimitiveParameterType::Int(Some(2)), None, Some(true)),
        ],
    }];
    let parameters = compile_parameters_blocks(&mut logger, blocks).unwrap();
    assert_eq!(parameters.len(), 3);
    match &parameters[0] {
        Parameter::Declared(d) => {
            assert_eq!(d.name, "hat");
            assert_eq!(d.value_type, ParameterType::Bool(true));
            assert_eq!(d.scope, ParameterScope::Local(false));
            assert!(d.explicit_default);
        }
        _ => panic!("declared parameter expected"),
    }
    assert!(matches!(parameters[1], Parameter::Provided(ProvidedParameter::Vrchat(VrchatParameterKind::Voice))));
    match &parameters[2] {
        Parameter::Declared(d) => assert_eq!(d.scope, ParameterScope::Synced(true)),
        _ => panic!("declared parameter expected"),
    }
    assert_eq!(
        messages(&logger),
        vec![
            "parameters block 0 > internal parameter 'secret' cannot be saved".to_string(),
            "parameters block 0 > parameter 'hat' has incompatible declarations".to_string(),
        ]
    );
}

#[test]
fn assets_keep_first_declaration() {
    let mut logger = Logger::new();
    let blocks = vec![
        DeclAssets { assets: vec![DeclAsset::Material("red".to_string()), DeclAsset::Material("red".to_string())] },
        DeclAssets { assets: vec![DeclAsset::Animation("red".to_string()), DeclAsset::Animation("walk".to_string())] },
    ];
    let assets = compile_assets_blocks(&mut logger, blocks).unwrap();
    let keys: Vec<(AssetType, String)> = assets.into_iter().map(|a| (a.asset_type, a.key)).collect();
    assert_eq!(keys, vec![(AssetType::Material, "red".to_string()), (AssetType::Animation, "walk".to_string())]);
    assert_eq!(messages(&logger), vec!["assets block 1 > asset 'red' has incompatible declaration".to_string()]);
}

fn declared(name: &str, value_type: ParameterType, scope: ParameterScope) -> Parameter {
    Parameter::Declared(DeclaredParameter { name: name.to_string(), value_type, scope, unique: false, explicit_default: false })
}

fn group_first_pass() -> FirstPassData {
    FirstPassData::new(
        vec![declared("outfit", ParameterType::Int(0), ParameterScope::Synced(false))],
        vec![Asset { asset_type: AssetType::Material, key: "red".to_string() }],
        vec![DeclaredLayer {
            name: "Outfit".to_string(),
            layer_type: DeclaredLayerType::Group("outfit".to_string(), vec![("casual".to_string(), 1), ("formal".to_string(), 5)]),
        }],
        vec![],
    )
}

fn object(name: &str) -> DeclGroupOptionTarget {
    DeclGroupOptionTarget::Object(DeclObjectTarget { object: name.to_string(), value: None })
}

fn shape(name: &str, value: Option<u64>) -> DeclGroupOptionTarget {
    DeclGroupOptionTarget::Shape(DeclShapeTarget { shape: name.to_string(), mesh: None, value })
}

fn selection(name: &str, targets: Vec<DeclGroupOptionTarget>) -> DeclGroupOption {
    DeclGroupOption { kind: DeclGroupOptionKind::Selection(Some(name.to_string()), None), animation_asset: None, targets }
}

fn target_keys(targets: &[Target]) -> Vec<String> {
    targets.iter().map(|t| t.driving_key()).collect()
}

#[test]
fn group_option_targets_come_in_key_order() {
    let fp = group_first_pass();
    let mut logger = Logger::new();
    let decl = DeclGroupLayer {
        name: "Outfit".to_string(),
        driven_by: DeclParameterReference::Primitive("outfit".to_string()),
        default_mesh: Some("Body".to_string()),
        copy_mode: None,
        default: None,
        options: vec![selection("casual", vec![object("b"), shape("a", Some(ONE)), object("a"), object("b")])],
    };
    let layer = compile_group_layer(&mut logger, &fp, decl).unwrap();
    assert!(!logger.erroneous());
    match layer.content {
        LayerContent::Group { parameter, default, options } => {
            assert_eq!(parameter, "outfit");
            assert_eq!(default.name, "<default>");
            assert_eq!(default.value, 0);
            assert_eq!(options.len(), 1);
            assert_eq!(options[0].value, 1);
            match &options[0].animation {
                LayerAnimation::Inline(ts) => assert_eq!(
                    target_keys(ts),
                    vec!["object://a".to_string(), "object://b".to_string(), "shape://Body/a".to_string()]
                ),
                _ => panic!("inline targets expected"),
            }
        }
        _ => panic!("group layer expected"),
    }
}

#[test]
fn group_copy_to_default_zeroes_option_targets() {
    let fp = group_first_pass();
    let mut logger = Logger::new();
    let decl = DeclGroupLayer {
        name: "Outfit".to_string(),
        driven_by: DeclParameterReference::Primitive("outfit".to_string()),
        default_mesh: Some("Body".to_string()),
        copy_mode: Some(DeclGroupCopyMode::ToDefaultZeroed),
        default: Some(DeclGroupOption {
            kind: DeclGroupOptionKind::Selection(None, None),
            animation_asset: None,
            targets: vec![object("hat")],
        }),
        options: vec![selection("casual", vec![shape("smile", Some(ONE)), object("hat")])],
    };
    let layer = compile_group_layer(&mut logger, &fp, decl).unwrap();
    match layer.content {
        LayerContent::Group { default, .. } => match default.animation {
            LayerAnimation::Inline(ts) => {
                assert_eq!(target_keys(&ts), vec!["object://hat".to_string(), "shape://Body/smile".to_string()]);
                assert!(matches!(&ts[0], Target::Object { value, .. } if !*value));
                assert!(matches!(&ts[1], Target::Shape { value, .. } if *value == 0));
            }
            _ => panic!("inline default expected"),
        },
        _ => panic!("group layer expected"),
    }
}

#[test]
fn group_copy_to_option_lays_default_under_each_option() {
    let fp = group_first_pass();
    let mut logger = Logger::new();
    let decl = DeclGroupLayer {
        name: "Outfit".to_string(),
        driven_by: DeclParameterReference::Primitive("outfit".to_string()),
        default_mesh: Some("Body".to_string()),
        copy_mode: Some(DeclGroupCopyMode::ToOption),
        default: Some(DeclGroupOption {
            kind: DeclGroupOptionKind::Selection(None, None),
            animation_asset: None,
            targets: vec![object("hat"), shape("blush", Some(ONE))],
        }),
        options: vec![selection("casual", vec![object("hat"), shape("smile", Some(ONE))])],
    };
    let layer = compile_group_layer(&mut logger, &fp, decl).unwrap();
    assert!(!logger.erroneous());
    match layer.content {
        LayerContent::Group { default, options, .. } => {
            match default.animation {
                LayerAnimation::Inline(ts) => {
                    assert_eq!(target_keys(&ts), vec!["object://hat".to_string(), "shape://Body/blush".to_string()])
                }
                _ => panic!("inline default expected"),
            }
            assert_eq!(options.len(), 1);
            assert_eq!(options[0].name, "casual");
            match &options[0].animation {
                LayerAnimation::Inline(ts) => {
                    assert_eq!(
                        target_keys(ts),
                        vec![
                            "object://hat".to_string(),
                            "shape://Body/blush".to_string(),
                            "shape://Body/smile".to_string()
                        ]
                    );
                    assert!(matches!(&ts[0], Target::Object { value, .. } if *value));
                    assert!(matches!(&ts[1], Target::Shape { value, .. } if *value == ONE));
                }
                _ => panic!("inline option expected"),
            }
        }
        _ => panic!("group layer expected"),
    }
}

#[test]
fn group_layer_refuses_mutual_copy() {
    let fp = group_first_pass();
    let mut logger = Logger::new();
    let decl = DeclGroupLayer {
        name: "Outfit".to_string(),
        driven_by: DeclParameterReference::Primitive("outfit".to_string()),
        default_mesh: None,
        copy_mode: Some(DeclGroupCopyMode::MutualZeroed),
        default: None,
        options: vec![],
    };
    assert!(compile_group_layer(&mut logger, &fp, decl).is_none());
    assert_eq!(messages(&logger), vec!["group layer 'Outfit' > group copy mode is invalid".to_string()]);
}

fn toggle(name: &str, option: &str) -> DeclMenuElement {
    DeclMenuElement::Boolean(DeclBooleanControl {
        name: name.to_string(),
        hold: true,
        parameter_drive: DeclParameterDrive::Group(DeclDriveGroup { group: "Outfit".to_string(), option: option.to_string() }),
    })
}

#[test]
fn menu_toggle_sets_group_option_value() {
    let fp = group_first_pass();
    let mut logger = Logger::new();
    let menu = vec![DeclSubMenu { name: "Main".to_string(), elements: vec![toggle("Formal", "formal"), toggle("Party", "party")] }];
    let items = compile_menu(&mut logger, &fp, menu).unwrap();
    assert_eq!(items.len(), 1);
    match &items[0] {
        MenuItem::Toggle(t) => {
            assert_eq!(t.name, "Formal");
            assert_eq!(t.parameter, "outfit");
            assert_eq!(t.value, ParameterType::Int(5));
        }
        _ => panic!("toggle expected"),
    }
    assert_eq!(messages(&logger).len(), 1);
    assert!(messages(&logger)[0].ends_with("option 'party' not found"));
}

#[test]
fn menu_controls_only_exposed_parameters() {
    let fp = FirstPassData::new(
        vec![declared("outfit", ParameterType::Int(0), ParameterScope::Internal)],
        vec![],
        vec![DeclaredLayer {
            name: "Outfit".to_string(),
            layer_type: DeclaredLayerType::Group("outfit".to_string(), vec![("casual".to_string(), 1)]),
        }],
        vec![],
    );
    let mut logger = Logger::new();
    let menu = vec![DeclSubMenu { name: String::new(), elements: vec![toggle("Casual", "casual")] }];
    let items = compile_menu(&mut logger, &fp, menu).unwrap();
    assert!(items.is_empty());
    assert_eq!(
        messages(&logger),
        vec!["menu block 0 > toggle 'true' > parameter 'outfit' must be local".to_string()]
    );
}

fn light_schema() -> AttachmentSchema {
    AttachmentSchema {
        name: "light".to_string(),
        properties: vec![PropertySchema {
            name: "range".to_string(),
            required: true,
            parameters: vec![ParameterSchema { name: "meters".to_string(), value_type: ValueType::Integer }],
            keywords: vec![],
        }],
    }
}

fn attachment(name: &str, properties: Vec<DeclAttachmentProperty>) -> DeclAttachment {
    DeclAttachment { name: name.to_string(), properties }
}

#[test]
fn attachments_are_checked_against_their_schema() {
    let mut logger = Logger::new();
    let blocks = vec![DeclAttachments {
        targets: vec![DeclAttachmentGroup {
            target: "Head".to_string(),
            attachments: vec![
                attachment(
                    "light",
                    vec![DeclAttachmentProperty { name: "range".to_string(), parameters: vec![DeclAttachmentValue::Integer(3)] }],
                ),
                attachment("light", vec![]),
                attachment("sound", vec![]),
            ],
        }],
    }];
    let groups = compile_attachment_blocks(&mut logger, &vec![light_schema()], blocks).unwrap();
    assert_eq!(groups.len(), 1);
    assert_eq!(groups[0].target, "Head");
    assert_eq!(groups[0].attachments.len(), 1);
    let compiled = &groups[0].attachments[0];
    assert_eq!(compiled.name, "light");
    assert_eq!(compiled.properties.len(), 1);
    assert_eq!(compiled.properties[0].name, "range");
    assert!(matches!(compiled.properties[0].parameters.as_slice(), [Value::Integer(3)]));
    assert_eq!(
        messages(&logger),
        vec![
            "attachments block 0 > target Head > attachment light > insufficient properties; range required".to_string(),
            "attachments block 0 > target Head > attachment sound > unknown attachment".to_string(),
        ]
    );
}

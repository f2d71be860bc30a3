use declavatar::avatar_v2::data::driver::ParameterDrive;
use declavatar::avatar_v2::logger::Logger;
use declavatar::avatar_v2::transformer::driver::compile_parameter_drive;
use declavatar::avatar_v2::transformer::{FirstPassData, UnsetValue};
use declavatar::decl_v2::data::{DeclParameterDrive, DeclParameterReference};
use declavatar::avatar_v2::data::parameter::{
    DeclaredParameter, Parameter, ParameterQuery, ParameterScope, ParameterType, PhysBoneParameterKind,
    ProvidedParameter, VrchatParameterKind,
};

fn scopes() -> Vec<ParameterScope> {
    vec![
        ParameterScope::Internal,
        ParameterScope::Local(false),
        ParameterScope::Local(true),
        ParameterScope::Synced(false),
        ParameterScope::Synced(true),
    ]
}

fn rank(scope: ParameterScope) -> u8 {
    match scope {
        ParameterScope::Internal => 0,
        ParameterScope::Local(_) => 1,
        ParameterScope::Synced(_) => 2,
    }
}

#[test]
fn scope_suits_requirements_it_exposes_at_least_as_widely() {
    for scope in scopes() {
        assert!(scope.suitable_for(scope));
        for requirement in scopes() {
            assert_eq!(scope.suitable_for(requirement), rank(requirement) <= rank(scope));
            for weaker in scopes() {
                if scope.suitable_for(requirement) && requirement.suitable_for(weaker) {
                    assert!(scope.suitable_for(weaker));
                }
            }
        }
    }
    assert!(!ParameterScope::Local(true).suitable_for(ParameterScope::must_sync()));
    assert!(ParameterScope::Synced(false).suitable_for(ParameterScope::must_expose()));
    assert!(!ParameterScope::Internal.suitable_for(ParameterScope::must_expose()));
}

#[test]
fn types_match_by_kind_whatever_their_defaults() {
    assert!(ParameterType::Int(3).matches(ParameterType::int_type()));
    assert!(ParameterType::Bool(true).matches(ParameterType::Bool(false)));
    assert!(ParameterType::Float(0x3FF0_0000_0000_0000).matches(ParameterType::float_type()));
    assert!(!ParameterType::Int(0).matches(ParameterType::bool_type()));
    assert!(!ParameterType::Float(0).matches(ParameterType::Int(0)));
    assert_eq!(ParameterType::Int(7).kind_name(), "int");
    assert_eq!(ParameterScope::Local(true).name(), "local");
}

#[test]
fn physbone_query_extends_its_prefix_by_the_kind() {
    let query = ParameterQuery::PhysBone("Tail".to_string(), PhysBoneParameterKind::Angle);
    let parameter = Parameter::Provided(ProvidedParameter::PhysBone("Tail".to_string()));
    let found = query.qualify_match(&parameter).unwrap();
    assert_eq!(found.name, "Tail_Angle");
    assert_eq!(found.value_type, ParameterType::Float(0));
    assert!(!found.unique);
    assert!(found.name.starts_with(query.querying_name()));
    assert_eq!(query.querying_name(), parameter.basename());

    let other = Parameter::Provided(ProvidedParameter::PhysBone("Ear".to_string()));
    assert!(query.qualify_match(&other).is_none());
}

#[test]
fn declared_and_vrchat_queries_keep_the_name() {
    let declared = Parameter::Declared(DeclaredParameter {
        name: "mood".to_string(),
        value_type: ParameterType::Int(2),
        scope: ParameterScope::Synced(true),
        unique: true,
        explicit_default: true,
    });
    let found = ParameterQuery::Declared("mood".to_string()).qualify_match(&declared).unwrap();
    assert_eq!(found.name, "mood");
    assert_eq!(found.value_type, ParameterType::Int(2));
    assert!(found.unique);
    assert!(ParameterQuery::Declared("moody".to_string()).qualify_match(&declared).is_none());

    let voice = Parameter::Provided(ProvidedParameter::Vrchat(VrchatParameterKind::Voice));
    let found = ParameterQuery::Vrchat(VrchatParameterKind::Voice).qualify_match(&voice).unwrap();
    assert_eq!(found.name, VrchatParameterKind::Voice.parameter_name());
    assert_eq!(found.value_type, VrchatParameterKind::Voice.value_type());
    assert!(ParameterQuery::Vrchat(VrchatParameterKind::Voice).qualify_match(&declared).is_none());
}

#[test]
fn drives_write_only_declared_parameters() {
    let fp = FirstPassData::new(
        vec![
            Parameter::Declared(DeclaredParameter {
                name: "volume".to_string(),
                value_type: ParameterType::Float(0),
                scope: ParameterScope::Synced(false),
                unique: false,
                explicit_default: false,
            }),
            Parameter::Provided(ProvidedParameter::Vrchat(VrchatParameterKind::Voice)),
        ],
        vec![],
        vec![],
        vec![],
    );
    let mut logger = Logger::new();
    let refused = compile_parameter_drive(
        &mut logger,
        &fp,
        UnsetValue::Active,
        DeclParameterDrive::SetFloat {
            parameter: DeclParameterReference::Provided(VrchatParameterKind::Voice),
            value: None,
        },
    );
    assert!(refused.is_none());
    assert_eq!(logger.logs().len(), 1);
    assert_eq!(logger.logs()[0].1, "parameter 'Voice' not found");

    let mut logger = Logger::new();
    let copy = compile_parameter_drive(
        &mut logger,
        &fp,
        UnsetValue::Active,
        DeclParameterDrive::Copy {
            from: DeclParameterReference::Primitive("volume".to_string()),
            to: DeclParameterReference::Primitive("volume".to_string()),
            range: None,
        },
    )
    .unwrap();
    assert!(!logger.erroneous());
    assert!(matches!(copy, ParameterDrive::Copy(ref f, ref t) if f == "volume" && t == "volume"));
}

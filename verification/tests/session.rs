use declavatar::arbittach::data::Value;
use declavatar::arbittach::error::TypeError;
use declavatar::arbittach::schema::{Attachment as AttachmentSchema, ValueType};
use declavatar::arbittach::validator::validate_type;
use declavatar::avatar::transform_avatar;
use declavatar::avatar::transformer::LogLevel;
use declavatar::avatar_v2::logger::{ArbittachError, Log, Logger, Severity};
use declavatar::avatar_v2::transformer::avatar::compile_avatar;
use declavatar::avatar_v2::Transformer;
use declavatar::capi::interop::{Declavatar, StatusCode};
use declavatar::cli::{declaration_format, file_extension, parse_localization_pair, I18nLog};
use declavatar::decl::data::Avatar as DeclAvatarV1;
use declavatar::decl_v2::arguments::{Arguments, DeclarationFormat};
use declavatar::decl_v2::data::DeclAvatar;
use declavatar::declavac::serialization::Jsoned;
use declavatar::avatar_v2::data::avatar::Avatar;
use declavatar::declavac::state::{CompileLog, CompiledState, DeclavatarState};
use declavatar::declavac::{DeclavatarFormat, DeclavatarStatus};
use declavatar::text::{concat3, u64_to_decimal, usize_to_decimal};

#[test]
fn decimal_writes_digits() {
    assert_eq!(usize_to_decimal(0), "0");
    assert_eq!(usize_to_decimal(7), "7");
    assert_eq!(usize_to_decimal(10), "10");
    assert_eq!(usize_to_decimal(1234), "1234");
    assert_eq!(u64_to_decimal(u64::MAX), "18446744073709551615");
    assert_eq!(concat3("a", "bc", ""), "abc");
}

#[test]
fn defining_a_symbol_twice_defines_it_once() {
    let mut args = Arguments::new();
    args.define_symbol("DEBUG");
    args.define_symbol("RELEASE");
    args.define_symbol("DEBUG");
    assert_eq!(args.symbols, vec!["DEBUG".to_string(), "RELEASE".to_string()]);
}

#[test]
fn localization_reads_back_the_last_value() {
    let mut args = Arguments::new();
    args.define_localization("greeting", "hello");
    args.define_localization("farewell", "bye");
    args.define_localization("greeting", "hi");
    assert_eq!(
        args.localizations,
        vec![("greeting".to_string(), "hi".to_string()), ("farewell".to_string(), "bye".to_string())]
    );
    args.add_library_path("lib/a");
    args.add_library_path("lib/b");
    assert_eq!(args.library_paths, vec!["lib/a".to_string(), "lib/b".to_string()]);
    args.clear();
    assert!(args.library_paths.is_empty() && args.symbols.is_empty() && args.localizations.is_empty());
}

#[test]
fn localization_pair_splits_at_first_colon() {
    assert_eq!(parse_localization_pair("key:value"), Ok(("key".to_string(), "value".to_string())));
    assert_eq!(parse_localization_pair("a:b:c"), Ok(("a".to_string(), "b:c".to_string())));
    assert_eq!(parse_localization_pair(":"), Ok((String::new(), String::new())));
    assert_eq!(
        parse_localization_pair("novalue"),
        Err("invalid localization pair definition: novalue".to_string())
    );
}

#[test]
fn localize_fills_templates_by_position() {
    let log = I18nLog {
        localization: vec![("parameter.not_found".to_string(), "parameter '{0}' is missing in {1}".to_string())],
    };
    assert_eq!(
        log.localize("parameter.not_found".to_string(), vec!["hat".to_string(), "menu".to_string()]),
        "parameter 'hat' is missing in menu"
    );
    assert_eq!(log.localize("unknown.kind".to_string(), vec![]), "unknown.kind");
    assert_eq!(log.try_localize("parameter.not_found".to_string(), vec!["hat".to_string()]), None);
}

#[test]
fn logger_writes_contexts_around_messages() {
    let mut logger = Logger::new();
    assert!(!logger.erroneous());
    logger.push_context("avatar".to_string());
    logger.push_context("menu".to_string());
    logger.log(Log::ParameterNotFound("hat".to_string()));
    logger.pop_context();
    logger.log(Log::LayerNotFound("outfit".to_string()));
    logger.pop_context();
    logger.pop_context();
    logger.log(Log::MenuInvalidDrive);
    assert!(logger.erroneous());
    assert_eq!(
        logger.logs(),
        vec![
            (Severity::Error, "avatar > menu > parameter 'hat' not found".to_string(), None),
            (Severity::Error, "avatar > layer 'outfit' not found".to_string(), None),
            (Severity::Error, "menu drive must be set or drive".to_string(), None),
        ]
    );
}

#[test]
fn log_messages_name_what_went_wrong() {
    assert_eq!(Log::ParameterTypeRequirement("x".to_string(), "int".to_string()).message().0, "parameter 'x' must be int");
    assert_eq!(Log::GateNotFound("door".to_string()).message().0, "gate 'door' not found");
    assert_eq!(
        Log::LayerKeyframeOutOfRange(0x4000_0000_0000_0000).message(),
        ("puppet layer value out of range: ".to_string(), Some(0x4000_0000_0000_0000))
    );
    assert_eq!(
        Log::DriverCopyMismatch("d".to_string(), ("a".to_string(), "b".to_string())).message().0,
        "driver option 'd' has copy target; parameters 'a' and 'b' have different type"
    );
    assert_eq!(
        ArbittachError::Insufficient { unmet_properties: vec!["a".to_string(), "b".to_string(), "c".to_string()] }.message(),
        "insufficient properties; a, b, c required"
    );
    assert_eq!(ArbittachError::LengthMismatch { expected: 2, found: 3 }.message(), "length mismatch; 2 expected, 3 found");
    assert_eq!(Log::Arbittach(ArbittachError::UnknownAttachment).message().0, "unknown attachment");
}

#[test]
fn validate_type_reports_first_mismatch() {
    assert!(validate_type(&Value::Integer(3), &ValueType::Integer).is_ok());
    assert!(validate_type(&Value::Null, &ValueType::Any).is_ok());
    let tuple = Value::Tuple(vec![Value::Integer(1), Value::String("a".to_string())]);
    assert!(validate_type(&tuple, &ValueType::Tuple(vec![ValueType::Integer, ValueType::String])).is_ok());
    match validate_type(&tuple, &ValueType::Tuple(vec![ValueType::Integer])) {
        Err(TypeError::LengthMismatch { expected, found }) => assert_eq!((expected, found), (1, 2)),
        _ => panic!("length mismatch expected"),
    }
    match validate_type(&Value::Boolean(true), &ValueType::Integer) {
        Err(e) => assert_eq!(e.message(), "type mismatch; integer expected, boolean found"),
        _ => panic!("type mismatch expected"),
    }
    let list = Value::List(vec![Value::Integer(1), Value::Float(0)]);
    assert!(validate_type(&list, &ValueType::List(Box::new(ValueType::Integer))).is_err());
}

fn empty_v2_avatar(name: &str) -> DeclAvatar {
    DeclAvatar {
        name: name.to_string(),
        parameters_blocks: vec![],
        assets_blocks: vec![],
        fx_controllers: vec![],
        menu_blocks: vec![],
        exports_blocks: vec![],
        attachments_blocks: vec![],
    }
}

#[test]
fn avatar_name_is_trimmed() {
    let mut logger = Logger::new();
    let avatar = compile_avatar(&mut logger, empty_v2_avatar("  Maya \n"), &vec![]).unwrap();
    assert_eq!(avatar.name, "Maya");
    assert!(avatar.parameters.is_empty() && avatar.fx_controller.is_empty());
}

#[test]
fn blank_avatar_name_is_an_error() {
    let mut logger = Logger::new();
    assert!(compile_avatar(&mut logger, empty_v2_avatar(" \t "), &vec![]).is_none());
    assert_eq!(logger.logs(), vec![(Severity::Error, "avatar > invalid avatar name ''".to_string(), None)]);
}

#[test]
fn avatar_is_withheld_after_any_log() {
    let mut logger = Logger::new();
    logger.log(Log::MenuInvalidDrive);
    assert!(compile_avatar(&mut logger, empty_v2_avatar("Maya"), &vec![]).is_none());
}

#[test]
fn transformer_replaces_schema_of_same_name() {
    let mut transformer = Transformer::new();
    transformer.register_arbittach_schema(AttachmentSchema { name: "light".to_string(), properties: vec![] });
    transformer.register_arbittach_schema(AttachmentSchema { name: "light".to_string(), properties: vec![] });
    let result = transformer.transform_avatar(empty_v2_avatar("Maya"));
    assert_eq!(result.avatar.unwrap().name, "Maya");
    assert!(result.logs.is_empty());
}

#[test]
fn first_format_rejects_blank_name() {
    let result = transform_avatar(DeclAvatarV1 {
        name: "   ".to_string(),
        parameters_blocks: vec![],
        assets_blocks: vec![],
        animations_blocks: vec![],
        drivers_blocks: vec![],
        menu_blocks: vec![],
    });
    assert!(result.avatar.is_none());
    assert_eq!(result.logs.len(), 1);
    assert!(matches!(result.logs[0].0, LogLevel::Error));
    assert_eq!(result.logs[0].1, "invalid avatar name ''");
}

#[test]
fn status_codes_cross_the_interface() {
    assert_eq!(DeclavatarStatus::Success.code(), 0);
    assert_eq!(DeclavatarStatus::CompileError.code(), 3);
    assert_eq!(DeclavatarStatus::InvalidValue.code(), 129);
    assert_eq!(StatusCode::NotCompiled.code(), 4);
    assert_eq!(StatusCode::InvalidPointer.code(), 128);
    assert_eq!(DeclavatarFormat::from_code(1), Some(DeclavatarFormat::Sexpr));
    assert_eq!(DeclavatarFormat::from_code(2), Some(DeclavatarFormat::Lua));
    assert_eq!(DeclavatarFormat::from_code(0), None);
}

#[test]
fn session_compiles_once_until_reset() {
    let mut session = Declavatar::new();
    session.args_mut().add_library_path("lib");
    let answer = session.compile(2, |format| match format {
        DeclarationFormat::Lua(paths) => {
            assert_eq!(paths, vec!["lib".to_string()]);
            Err(vec!["{}".to_string()])
        }
        _ => panic!("lua format expected"),
    });
    assert_eq!(answer, Err(StatusCode::CompileError));
    assert_eq!(session.compile(1, |_| Ok("{}".to_string())), Err(StatusCode::AlreadyInUse));
    assert_eq!(session.avatar_json().err(), Some(StatusCode::NotCompiled));
    assert_eq!(session.log_jsons(), &["{}".to_string()]);
    session.reset();
    assert_eq!(session.compile(3, |_| Ok("{}".to_string())), Err(StatusCode::CompileError));
    session.reset();
    assert_eq!(session.compile(1, |_| Ok("{\"name\":\"a\"}".to_string())), Ok(()));
    assert_eq!(session.avatar_json(), Ok("{\"name\":\"a\"}"));
}

#[test]
fn compile_reads_once_and_keeps_the_avatar_json() {
    let mut session = Declavatar::new();
    session.args_mut().add_library_path("lib");
    let mut seen = Vec::new();
    let answer = session.compile(1, |format| {
        seen.push(format);
        Ok("{\"name\":\"a\"}".to_string())
    });
    assert_eq!(answer, Ok(()));
    assert!(matches!(&seen[..], [DeclarationFormat::Sexpr(paths)] if paths == &vec!["lib".to_string()]));
    assert_eq!(session.avatar_json(), Ok("{\"name\":\"a\"}"));
    let again = session.compile(2, |_| Err(vec!["{}".to_string()]));
    assert_eq!(again, Err(StatusCode::AlreadyInUse));
    assert_eq!(session.avatar_json(), Ok("{\"name\":\"a\"}"));
    assert!(session.log_jsons().is_empty());
    session.reset();
    assert_eq!(session.compile(7, |_| Ok("{}".to_string())), Err(StatusCode::CompileError));
    assert_eq!(session.avatar_json().err(), Some(StatusCode::NotCompiled));
    session.reset();
    assert_eq!(session.compile(2, |_| Err(vec!["{\"e\":1}".to_string()])), Err(StatusCode::CompileError));
    assert_eq!(session.log_jsons(), &["{\"e\":1}".to_string()]);
    assert_eq!(session.avatar_json().err(), Some(StatusCode::NotCompiled));
}

#[test]
fn state_keeps_last_error_and_compiles_with_schemas() {
    let mut state = DeclavatarState::new();
    assert_eq!(state.add_attachment(Err("bad json".to_string())), DeclavatarStatus::JsonError);
    assert_eq!(state.last_error(), (Some("bad json"), DeclavatarStatus::Success));
    assert_eq!(state.define_symbol("X"), DeclavatarStatus::Success);
    assert_eq!(state.last_error(), (None, DeclavatarStatus::Success));
    assert_eq!(
        state.add_attachment(Ok(AttachmentSchema { name: "light".to_string(), properties: vec![] })),
        DeclavatarStatus::Success
    );
    let avatar_json = |a: Avatar| {
        let text = format!("{{\"name\":\"{}\"}}", a.name);
        Jsoned::new(a.name, Ok::<String, String>(text)).unwrap()
    };
    let log_json = |l: CompileLog| {
        let text = match &l {
            CompileLog::Reading(m) => format!("reading: {m}"),
            CompileLog::Transform(_, m, _) => format!("log: {m}"),
        };
        Jsoned::new(text.clone(), Ok::<String, String>(text)).unwrap()
    };
    let (compiled, status) = state.compile(Err("syntax error".to_string()), avatar_json, log_json);
    assert_eq!(status, DeclavatarStatus::CompileError);
    assert_eq!(compiled.avatar_json(), None);
    assert_eq!(compiled.logs_len(), 1);
    assert_eq!(compiled.log_json(0), Some("reading: syntax error"));
    let (compiled, status) = state.compile(Ok(empty_v2_avatar("Maya")), avatar_json, log_json);
    assert_eq!(status, DeclavatarStatus::Success);
    assert_eq!(compiled.avatar_json(), Some("{\"name\":\"Maya\"}"));
    assert_eq!(compiled.logs_len(), 0);
    let (compiled, status) = state.compile(Ok(empty_v2_avatar("  ")), avatar_json, log_json);
    assert_eq!(status, DeclavatarStatus::Success);
    assert_eq!(compiled.avatar_json(), None);
    assert_eq!(compiled.logs_len(), 1);
    assert_eq!(compiled.log_json(0), Some("log: avatar > invalid avatar name ''"));
}

#[test]
fn jsoned_keeps_data_with_its_json() {
    let jsoned = Jsoned::new(5u32, Ok::<String, String>("5".to_string())).unwrap();
    assert_eq!(*jsoned.data(), 5);
    assert_eq!(jsoned.json(), Some("5"));
    assert_eq!(Jsoned::new(5u32, Err::<String, String>("no".to_string())).err(), Some("no".to_string()));
    let state: CompiledState<u32, u32> = CompiledState::new(Some(jsoned), vec![Jsoned::new(1u32, Ok::<String, String>("1".to_string())).unwrap()]);
    assert_eq!(state.avatar_json(), Some("5"));
    assert_eq!(state.logs_len(), 1);
    assert_eq!(state.log_json(0), Some("1"));
    assert_eq!(state.log_json(1), None);
}

#[test]
fn extension_follows_last_dot() {
    assert_eq!(file_extension("avatar.declisp"), Some("declisp".to_string()));
    assert_eq!(file_extension("archive.tar.lua"), Some("lua".to_string()));
    assert_eq!(file_extension("name."), Some(String::new()));
    assert_eq!(file_extension(".hidden"), None);
    assert_eq!(file_extension("plain"), None);
}

#[test]
fn format_is_chosen_by_extension() {
    let paths = vec!["lib".to_string()];
    match declaration_format("a.scm", paths.clone()) {
        Ok(DeclarationFormat::Sexpr(p)) => assert_eq!(p, paths),
        _ => panic!("s-expression format expected"),
    }
    match declaration_format("a.declua", paths.clone()) {
        Ok(DeclarationFormat::Lua(p)) => assert_eq!(p, paths),
        _ => panic!("lua format expected"),
    }
    assert_eq!(declaration_format("a.txt", vec![]).err(), Some("unknown file type: txt".to_string()));
    assert_eq!(declaration_format("Makefile", vec![]).err(), Some("file format cannot be determined".to_string()));
}

use grlog::builder::parse_level;
use grlog::{builder, LevelFilter, LoggerBuilder, Target};

#[test]
fn test_parse_level() {
    assert_eq!(parse_level("trace"), Some(LevelFilter::Trace));
    assert_eq!(parse_level("debug"), Some(LevelFilter::Debug));
    assert_eq!(parse_level("info"), Some(LevelFilter::Info));
    assert_eq!(parse_level("warn"), Some(LevelFilter::Warn));
    assert_eq!(parse_level("error"), Some(LevelFilter::Error));
    assert_eq!(parse_level("off"), Some(LevelFilter::Off));
    assert_eq!(parse_level("invalid"), None);
    assert_eq!(parse_level("INFO"), Some(LevelFilter::Info));
}

#[test]
fn test_builder_default() {
    let builder = LoggerBuilder::new();
    assert_eq!(builder.configured_level(), LevelFilter::Info);
    assert_eq!(builder.configured_buffer_size(), 1024);
    assert!(builder.module_levels().is_empty());
}

#[test]
fn test_builder_filter_level() {
    let mut builder = LoggerBuilder::new();
    builder.filter_level(LevelFilter::Debug);
    assert_eq!(builder.configured_level(), LevelFilter::Debug);
}

#[test]
fn test_builder_filter_module() {
    let mut builder = LoggerBuilder::new();
    builder.filter_module("my_module", LevelFilter::Debug);
    assert_eq!(builder.module_levels().get("my_module"), Some(LevelFilter::Debug));
}

#[test]
fn test_builder_parse_spec() {
    let mut builder = LoggerBuilder::new();
    builder.parse_spec("info,my_module=debug,other=warn");

    assert_eq!(builder.configured_level(), LevelFilter::Info);
    assert_eq!(builder.module_levels().get("my_module"), Some(LevelFilter::Debug));
    assert_eq!(builder.module_levels().get("other"), Some(LevelFilter::Warn));
}

#[test]
fn test_builder_from_env() {
    let builder = LoggerBuilder::from_env_value(Some("debug,my_module=trace"));
    assert_eq!(builder.configured_level(), LevelFilter::Debug);
    assert_eq!(builder.module_levels().get("my_module"), Some(LevelFilter::Trace));

    let unset = LoggerBuilder::from_env_value(None);
    assert_eq!(unset.configured_level(), LevelFilter::Info);
    assert!(unset.module_levels().is_empty());
}

#[test]
fn test_builder_chaining() {
    let mut builder = builder();
    builder
        .filter_level(LevelFilter::Debug)
        .filter_module("hyper", LevelFilter::Info)
        .filter_module("tokio", LevelFilter::Warn)
        .target(Target::Stdout)
        .buffer_size(2048);
    assert_eq!(builder.configured_level(), LevelFilter::Debug);
    assert_eq!(builder.configured_buffer_size(), 2048);
    assert_eq!(builder.module_levels().get("hyper"), Some(LevelFilter::Info));
    assert_eq!(builder.module_levels().get("tokio"), Some(LevelFilter::Warn));
    assert_eq!(builder.module_levels().get("tok"), None);
    assert!(matches!(builder.configured_target(), Target::Stdout));
}

#[test]
fn target_setter_replaces_target() {
    let mut b = LoggerBuilder::new();
    b.target(Target::Multi(vec![Target::Stderr, Target::File(String::from("/tmp/x.log"))]));
    match b.configured_target() {
        Target::Multi(list) => assert_eq!(list.len(), 2),
        _ => panic!("target was not replaced"),
    }
    b.target(Target::Stderr);
    assert!(matches!(b.configured_target(), Target::Stderr));
}

#[test]
fn later_directive_overrides_earlier() {
    let mut b = LoggerBuilder::new();
    b.parse_spec("warn,m=debug");
    b.parse_spec("error,m=trace");
    assert_eq!(b.configured_level(), LevelFilter::Error);
    assert_eq!(b.module_levels().get("m"), Some(LevelFilter::Trace));

    let mut joined = LoggerBuilder::new();
    joined.parse_spec("warn,m=debug,error,m=trace");
    assert_eq!(joined.configured_level(), LevelFilter::Error);
    assert_eq!(joined.module_levels().get("m"), Some(LevelFilter::Trace));
}

#[test]
fn parse_spec_edge_cases() {
    let mut b = LoggerBuilder::new();
    b.parse_spec(" , ,  DEBUG  ,bogus,a=nope,=warn, spaced = info ,x=y=z");
    assert_eq!(b.configured_level(), LevelFilter::Debug);
    assert_eq!(b.module_levels().get("a"), None);
    assert_eq!(b.module_levels().get(""), Some(LevelFilter::Warn));
    assert_eq!(b.module_levels().get("spaced "), None);
    assert_eq!(b.module_levels().get("x"), None);

    let mut trimmed = LoggerBuilder::new();
    trimmed.parse_spec("\tmod::path=Trace\u{3000}");
    assert_eq!(trimmed.module_levels().get("mod::path"), Some(LevelFilter::Trace));
    assert_eq!(trimmed.configured_level(), LevelFilter::Info);

    let mut empty = LoggerBuilder::new();
    empty.parse_spec("");
    assert_eq!(empty.configured_level(), LevelFilter::Info);
    assert!(empty.module_levels().is_empty());
}

#[test]
fn filter_module_replaces_earlier_setting() {
    let mut b = LoggerBuilder::default();
    b.filter_module("m", LevelFilter::Debug);
    b.filter_module("n", LevelFilter::Error);
    b.filter_module("m", LevelFilter::Off);
    assert_eq!(b.module_levels().get("m"), Some(LevelFilter::Off));
    assert_eq!(b.module_levels().get("n"), Some(LevelFilter::Error));
    let copy = b.module_levels().clone();
    assert_eq!(copy.get("m"), Some(LevelFilter::Off));
    assert!(!copy.is_empty());
}

#[test]
fn set_logger_error_message() {
    assert_eq!(
        grlog::SetLoggerError.message(),
        "attempted to set a logger after the logging system was already initialized"
    );
}

#[test]
fn default_builder_writes_to_stderr() {
    assert!(matches!(LoggerBuilder::new().configured_target(), Target::Stderr));
    assert!(matches!(LoggerBuilder::default().configured_target(), Target::Stderr));
    assert!(matches!(Target::default(), Target::Stdout));
}

#[test]
fn effective_max_level_is_most_verbose_filter() {
    let mut b = LoggerBuilder::new();
    b.filter_level(LevelFilter::Debug)
        .filter_module("hyper", LevelFilter::Info)
        .filter_module("my_crate::network", LevelFilter::Trace);
    assert_eq!(b.effective_max_level(), LevelFilter::Trace);

    let mut quiet = LoggerBuilder::new();
    quiet.filter_level(LevelFilter::Warn).filter_module("m", LevelFilter::Off);
    assert_eq!(quiet.effective_max_level(), LevelFilter::Warn);
    assert_eq!(LoggerBuilder::new().effective_max_level(), LevelFilter::Info);
}

#[test]
fn env_spec_configures_like_readme() {
    let b = LoggerBuilder::from_env_value(Some("debug,cargo=info,my_module=trace"));
    assert_eq!(b.configured_level(), LevelFilter::Debug);
    assert_eq!(b.module_levels().get("cargo"), Some(LevelFilter::Info));
    assert_eq!(b.module_levels().get("my_module"), Some(LevelFilter::Trace));
    assert_eq!(b.effective_max_level(), LevelFilter::Trace);
}

use std::sync::{Arc, Mutex};

use grlog::logger::MessageSink;
use grlog::{Level, LevelFilter, Log, LoggerBuilder, LoggerRegistry, Metadata, Record};

struct Capture {
    lines: Arc<Mutex<Vec<String>>>,
}

impl MessageSink for Capture {
    fn send(&self, msg: String) {
        self.lines.lock().unwrap().push(msg);
    }
    fn shutdown(&self) {}
}

struct Refuser;

impl Log for Refuser {
    fn enabled(&self, _metadata: &Metadata) -> bool {
        false
    }
    fn log(&self, _record: &Record) {}
    fn flush(&self) {}
}

#[test]
fn second_install_is_refused() {
    let lines = Arc::new(Mutex::new(Vec::new()));
    let mut b = LoggerBuilder::new();
    b.filter_level(LevelFilter::Warn);
    let logger: Box<dyn Log> = Box::new(b.build_logger(Arc::new(Capture { lines: lines.clone() })));

    let mut registry: LoggerRegistry<Box<dyn Log>> = LoggerRegistry::new();
    assert!(!grlog::_log(&registry, Level::Error, "app", "before install"));
    assert!(registry.install(logger, LevelFilter::Warn).is_ok());
    assert!(registry.install(Box::new(Refuser), LevelFilter::Trace).is_err());

    assert!(!registry.passes_max_level(Level::Info));
    assert!(registry.passes_max_level(Level::Warn));
    assert!(!grlog::_log(&registry, Level::Info, "app", "too low"));
    assert!(grlog::_log(&registry, Level::Error, "app", "kept"));

    let sent = lines.lock().unwrap();
    assert_eq!(sent.len(), 1);
    assert!(sent[0].ends_with(" ERROR [app] kept\n"));
}

#[test]
fn max_level_is_set_once() {
    let mut registry: LoggerRegistry<Box<dyn Log>> = LoggerRegistry::new();
    assert!(!registry.passes_max_level(Level::Error));
    registry.set_max_level(LevelFilter::Error);
    registry.set_max_level(LevelFilter::Trace);
    assert!(!registry.passes_max_level(Level::Warn));
    assert!(registry.passes_max_level(Level::Error));
    assert!(registry.logger().is_none());
    assert!(registry.set_boxed_logger(Box::new(Refuser)).is_ok());
    assert!(registry.logger().is_some());
    assert!(registry.set_boxed_logger(Box::new(Refuser)).is_err());
    assert!(!grlog::_log(&registry, Level::Error, "app", "refused by the logger"));
}

#[test]
fn module_filter_more_verbose_than_global_reaches_logger() {
    let lines = Arc::new(Mutex::new(Vec::new()));
    let mut b = LoggerBuilder::new();
    b.filter_level(LevelFilter::Debug)
        .filter_module("hyper", LevelFilter::Info)
        .filter_module("my_crate::network", LevelFilter::Trace);
    let mut registry = LoggerRegistry::new();
    assert!(b.install_logger(&mut registry, Arc::new(Capture { lines: lines.clone() })).is_ok());

    assert!(grlog::_log(&registry, Level::Trace, "my_crate::network", "x"));
    assert!(!grlog::_log(&registry, Level::Trace, "other", "x"));
    assert!(!grlog::_log(&registry, Level::Debug, "hyper", "x"));
    assert!(grlog::_log(&registry, Level::Debug, "other", "y"));

    let again = LoggerBuilder::new();
    assert!(again
        .install_logger(&mut registry, Arc::new(Capture { lines: lines.clone() }))
        .is_err());

    let sent = lines.lock().unwrap();
    assert_eq!(sent.len(), 2);
    assert!(sent[0].ends_with(" TRACE [my_crate::network] x\n"));
    assert!(sent[1].ends_with(" DEBUG [other] y\n"));
}

#[test]
fn warn_filter_drops_lower_levels() {
    let lines = Arc::new(Mutex::new(Vec::new()));
    let mut b = LoggerBuilder::new();
    b.filter_level(LevelFilter::Warn);
    let mut registry = LoggerRegistry::new();
    assert!(b.install_logger(&mut registry, Arc::new(Capture { lines: lines.clone() })).is_ok());
    for level in [Level::Trace, Level::Debug, Level::Info] {
        assert!(!grlog::_log(&registry, level, "basic", "should not appear"));
    }
    for level in [Level::Warn, Level::Error] {
        assert!(grlog::_log(&registry, level, "basic", "should appear"));
    }
    let sent = lines.lock().unwrap();
    assert_eq!(sent.len(), 2);
    assert!(sent.iter().all(|l| l.contains("should appear")));
}

#[test]
fn gate_and_record_decisions() {
    let mut registry: LoggerRegistry<Box<dyn Log>> = LoggerRegistry::new();
    assert!(grlog::gate_metadata(&registry, Level::Error, "m").is_none());
    assert!(registry.install(Box::new(Refuser), LevelFilter::Info).is_ok());
    assert!(grlog::gate_metadata(&registry, Level::Debug, "m").is_none());
    let md = grlog::gate_metadata(&registry, Level::Warn, "m").unwrap();
    assert_eq!(md.level(), Level::Warn);
    assert_eq!(md.target(), "m");
    assert!(grlog::record_if_enabled(false, md.clone(), "t").is_none());
    let record = grlog::record_if_enabled(true, md, "t").unwrap();
    assert_eq!(record.args(), "t");
    assert_eq!(record.target(), "m");
}

use std::sync::{Arc, Mutex};

use grlog::logger::{GrLogger, MessageSink};
use grlog::module_levels::ModuleLevels;
use grlog::{Level, LevelFilter, Log, LoggerBuilder, Metadata, Record};

struct MockSink {
    messages: Arc<Mutex<Vec<String>>>,
    shut_down: Arc<Mutex<bool>>,
}

impl MockSink {
    fn new() -> (Self, Arc<Mutex<Vec<String>>>, Arc<Mutex<bool>>) {
        let messages = Arc::new(Mutex::new(Vec::new()));
        let shut_down = Arc::new(Mutex::new(false));
        (
            Self {
                messages: messages.clone(),
                shut_down: shut_down.clone(),
            },
            messages,
            shut_down,
        )
    }
}

impl MessageSink for MockSink {
    fn send(&self, msg: String) {
        self.messages.lock().unwrap().push(msg);
    }
    fn shutdown(&self) {
        *self.shut_down.lock().unwrap() = true;
    }
}

#[test]
fn test_logger_enabled() {
    let (sink, _, _) = MockSink::new();
    let backend = Arc::new(sink);

    let logger = GrLogger::new(LevelFilter::Info, ModuleLevels::new(), backend);

    let info_meta = Metadata::builder().level(Level::Info).target("test").build();
    let debug_meta = Metadata::builder().level(Level::Debug).target("test").build();

    assert!(logger.enabled(&info_meta));
    assert!(!logger.enabled(&debug_meta));
}

#[test]
fn test_logger_module_level() {
    let (sink, _, _) = MockSink::new();
    let backend = Arc::new(sink);

    let mut module_levels = ModuleLevels::new();
    module_levels.insert("verbose_module".to_string(), LevelFilter::Debug);

    let logger = GrLogger::new(LevelFilter::Info, module_levels, backend);

    let verbose_debug = Metadata::builder()
        .level(Level::Debug)
        .target("verbose_module")
        .build();
    let other_debug = Metadata::builder()
        .level(Level::Debug)
        .target("other_module")
        .build();

    assert!(logger.enabled(&verbose_debug));
    assert!(!logger.enabled(&other_debug));
}

#[test]
fn module_filter_can_be_stricter_than_global() {
    let (sink, messages, shut_down) = MockSink::new();
    let mut b = LoggerBuilder::new();
    b.filter_level(LevelFilter::Trace).filter_module("quiet", LevelFilter::Off);
    let logger = b.build_logger(Arc::new(sink));

    let quiet = Metadata::builder().level(Level::Error).target("quiet").build();
    let loud = Metadata::builder().level(Level::Trace).target("loud").build();
    assert!(!logger.enabled(&quiet));
    assert!(logger.enabled(&loud));

    let record = Record::builder().metadata(quiet).args("dropped").build();
    logger.log(&record);
    let record = Record::builder().metadata(loud).args("kept").build();
    logger.log(&record);
    {
        let sent = messages.lock().unwrap();
        assert_eq!(sent.len(), 1);
        assert!(sent[0].ends_with(" TRACE [loud] kept\n"));
    }
    logger.flush();
    assert!(*shut_down.lock().unwrap());
}

#[test]
fn render_is_some_exactly_when_admitted() {
    let (sink, _, _) = MockSink::new();
    let mut modules = ModuleLevels::new();
    modules.insert("loud".to_string(), LevelFilter::Trace);
    let logger = GrLogger::new(LevelFilter::Warn, modules, Arc::new(sink));

    let kept = Record::builder()
        .metadata(Metadata::builder().level(Level::Trace).target("loud").build())
        .args("yes")
        .build();
    let dropped = Record::builder()
        .metadata(Metadata::builder().level(Level::Info).target("other").build())
        .args("no")
        .build();
    assert!(logger.render(&kept).unwrap().ends_with(" TRACE [loud] yes\n"));
    assert!(logger.render(&dropped).is_none());
}

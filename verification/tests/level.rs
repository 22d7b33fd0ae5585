use grlog::{Level, LevelFilter, Metadata, Record};

#[test]
fn test_level_display() {
    assert_eq!(Level::Trace.to_string(), "TRACE");
    assert_eq!(Level::Debug.to_string(), "DEBUG");
    assert_eq!(Level::Info.to_string(), "INFO");
    assert_eq!(Level::Warn.to_string(), "WARN");
    assert_eq!(Level::Error.to_string(), "ERROR");
}

#[test]
fn test_level_ordering() {
    assert!(Level::Trace < Level::Debug);
    assert!(Level::Debug < Level::Info);
    assert!(Level::Info < Level::Warn);
    assert!(Level::Warn < Level::Error);
}

#[test]
fn test_level_filter_from_str() {
    assert_eq!("trace".parse::<LevelFilter>(), Ok(LevelFilter::Trace));
    assert_eq!("debug".parse::<LevelFilter>(), Ok(LevelFilter::Debug));
    assert_eq!("info".parse::<LevelFilter>(), Ok(LevelFilter::Info));
    assert_eq!("warn".parse::<LevelFilter>(), Ok(LevelFilter::Warn));
    assert_eq!("error".parse::<LevelFilter>(), Ok(LevelFilter::Error));
    assert_eq!("off".parse::<LevelFilter>(), Ok(LevelFilter::Off));
    assert_eq!("invalid".parse::<LevelFilter>(), Err(()));
}

#[test]
fn test_level_filter_to_level() {
    assert_eq!(LevelFilter::Trace.to_level(), Some(Level::Trace));
    assert_eq!(LevelFilter::Debug.to_level(), Some(Level::Debug));
    assert_eq!(LevelFilter::Info.to_level(), Some(Level::Info));
    assert_eq!(LevelFilter::Warn.to_level(), Some(Level::Warn));
    assert_eq!(LevelFilter::Error.to_level(), Some(Level::Error));
    assert_eq!(LevelFilter::Off.to_level(), None);
}

#[test]
fn test_level_filter_comparison() {
    assert!(LevelFilter::Debug > LevelFilter::Trace);
    assert!(LevelFilter::Info > LevelFilter::Debug);
    assert!(LevelFilter::Debug.is_enabled(Level::Info));
    assert!(!LevelFilter::Info.is_enabled(Level::Debug));
}

#[test]
fn test_metadata_builder() {
    let metadata = Metadata::builder()
        .level(Level::Info)
        .target("test_module")
        .build();

    assert_eq!(metadata.level(), Level::Info);
    assert_eq!(metadata.target(), "test_module");
}

#[test]
fn test_record_builder() {
    let metadata = Metadata::builder()
        .level(Level::Info)
        .target("test_module")
        .build();

    let record = Record::builder()
        .metadata(metadata)
        .args("Test message")
        .build();

    assert_eq!(record.level(), Level::Info);
    assert_eq!(record.target(), "test_module");
}

#[test]
fn level_filter_round_trip_through_levels() {
    let levels = [Level::Trace, Level::Debug, Level::Info, Level::Warn, Level::Error];
    for level in levels {
        assert_eq!(LevelFilter::from_level(level).to_level(), Some(level));
        assert!(LevelFilter::from_level(level).is_enabled(level));
    }
    assert_eq!(LevelFilter::from_level(Level::Warn), LevelFilter::Warn);
}

#[test]
fn level_filter_thresholds() {
    let levels = [Level::Trace, Level::Debug, Level::Info, Level::Warn, Level::Error];
    for level in levels {
        assert!(!LevelFilter::Off.is_enabled(level));
        assert!(LevelFilter::Trace.is_enabled(level));
    }
    assert!(LevelFilter::Warn.is_enabled(Level::Warn));
    assert!(LevelFilter::Warn.is_enabled(Level::Error));
    assert!(!LevelFilter::Warn.is_enabled(Level::Info));
    assert!(!LevelFilter::Error.is_enabled(Level::Warn));
    assert!(LevelFilter::Off > LevelFilter::Error);
}

#[test]
fn level_filter_names_parse_back() {
    let filters = [
        LevelFilter::Trace,
        LevelFilter::Debug,
        LevelFilter::Info,
        LevelFilter::Warn,
        LevelFilter::Error,
        LevelFilter::Off,
    ];
    for filter in filters {
        assert_eq!(filter.to_string().parse::<LevelFilter>(), Ok(filter));
        assert_eq!(filter.as_str().parse::<LevelFilter>(), Ok(filter));
    }
    assert_eq!(LevelFilter::Off.to_string(), "OFF");
}

#[test]
fn level_filter_from_str_ignores_case_only() {
    assert_eq!("WaRn".parse::<LevelFilter>(), Ok(LevelFilter::Warn));
    assert_eq!("OFF".parse::<LevelFilter>(), Ok(LevelFilter::Off));
    assert_eq!(" info".parse::<LevelFilter>(), Err(()));
    assert_eq!("inf".parse::<LevelFilter>(), Err(()));
    assert_eq!("".parse::<LevelFilter>(), Err(()));
    assert_eq!("\u{130}nfo".parse::<LevelFilter>(), Err(()));
}

#[test]
fn level_as_str_and_rank() {
    assert_eq!(Level::Warn.as_str(), "WARN");
    assert_eq!(Level::Trace.rank_u8(), 0);
    assert_eq!(Level::Error.rank_u8(), 4);
    assert_eq!(LevelFilter::Off.rank_u8(), 5);
    assert_eq!(Level::Info.partial_cmp(&Level::Info), Some(std::cmp::Ordering::Equal));
}

#[test]
fn builders_default_and_clone() {
    let metadata = grlog::level::MetadataBuilder::default()
        .target("m")
        .level(Level::Error)
        .build();
    let copy = metadata.clone();
    assert_eq!(copy.level(), Level::Error);
    assert_eq!(copy.target(), "m");
    let record = grlog::level::RecordBuilder::default()
        .args("text")
        .metadata(copy)
        .build();
    assert_eq!(record.args(), "text");
    assert_eq!(record.metadata().target(), "m");
}

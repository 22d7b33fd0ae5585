pub mod backend;
pub mod builder;
pub mod formatter;
pub mod level;
pub mod logger;
pub mod module_levels;
pub mod registry;
pub mod target;
pub mod text;
pub mod writer;

pub use builder::{builder, LoggerBuilder, SetLoggerError};
pub use level::{Level, LevelFilter, Log, Metadata, Record};
pub use registry::LoggerRegistry;
pub use target::Target;

use vstd::prelude::*;

use crate::registry::max_level_admits;

verus! {

/// Hands a message to the installed logger: when the maximum level lets it
/// through and a logger is installed and enabled for the message's metadata,
/// the logger gets the record. Returns whether it got it.
///
/// Past the maximum level, the result is the installed logger's own answer
/// (`Log::enabled`) for the metadata of the message's level and module, and
/// when it is `true` the logger's `log` got the record of that level, module
/// and text.
pub fn _log<L: Log>(registry: &LoggerRegistry<L>, level: Level, target: &str, message: &str) -> (r: bool)
    ensures
        r ==> max_level_admits(registry.max_level_spec(), level) && registry.logger_spec() is Some,
        max_level_admits(registry.max_level_spec(), level) && registry.logger_spec() is Some
            ==> exists|metadata: Metadata|
            {
                &&& metadata.level_spec() == level
                &&& metadata.target_spec() == target@
                &&& #[trigger] call_ensures(L::enabled, (&registry.logger_spec()->0, &metadata), r)
            },
        r ==> exists|record: Record|
            {
                &&& record.metadata_spec().level_spec() == level
                &&& record.metadata_spec().target_spec() == target@
                &&& record.args_spec() == message@
                &&& #[trigger] call_ensures(L::log, (&registry.logger_spec()->0, &record), ())
            },
{
    match gate_metadata(registry, level, target) {
        None => false,
        Some(metadata) => match registry.logger() {
            None => false,
            Some(logger) => {
                let enabled = logger.enabled(&metadata);
                match record_if_enabled(enabled, metadata, message) {
                    Some(record) => {
                        logger.log(&record);
                        assert(call_ensures(L::log, (&registry.logger_spec()->0, &record), ()));
                        true
                    },
                    None => false,
                }
            },
        },
    }
}

/// The metadata of a message that passes the maximum level with a logger
/// installed; nothing otherwise.
pub fn gate_metadata<'a, L: Log>(registry: &LoggerRegistry<L>, level: Level, target: &'a str) -> (r: Option<Metadata<'a>>)
    ensures
        r is Some <==> max_level_admits(registry.max_level_spec(), level) && registry.logger_spec() is Some,
        r matches Some(metadata) ==> metadata.level_spec() == level && metadata.target_spec() == target@,
{
    if registry.passes_max_level(level) && registry.logger().is_some() {
        Some(Metadata::builder().level(level).target(target).build())
    } else {
        None
    }
}

/// The record to hand to the logger: the message's record when the logger
/// said it takes the metadata, nothing otherwise.
pub fn record_if_enabled<'a>(enabled: bool, metadata: Metadata<'a>, message: &'a str) -> (r: Option<Record<'a>>)
    ensures
        r is Some <==> enabled,
        r matches Some(record) ==> record.metadata_spec() == metadata && record.args_spec() == message@,
{
    if enabled {
        Some(Record::builder().metadata(metadata).args(message).build())
    } else {
        None
    }
}

} // verus!

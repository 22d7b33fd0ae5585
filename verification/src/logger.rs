use std::sync::Arc;
use vstd::prelude::*;

use crate::formatter::{format_log_message, is_log_line_of};
use crate::level::{Level, LevelFilter, Log, Metadata, Record};
use crate::module_levels::ModuleLevels;

verus! {

/// Where a logger hands its formatted lines: the asynchronous backend.
pub trait MessageSink: Send + Sync {
    /// Hands over one formatted line.
    fn send(&self, msg: String);

    /// Stops taking lines and lets the lines already taken be written.
    fn shutdown(&self);
}

/// The filter that judges messages from module `target`: the module's own
/// filter if it has one, else the global filter.
pub open spec fn filter_for(
    global: LevelFilter,
    modules: Map<Seq<char>, LevelFilter>,
    target: Seq<char>,
) -> LevelFilter {
    match modules.get(target) {
        Some(own) => own,
        None => global,
    }
}

/// Whether a message of `level` from module `target` passes: the filter for
/// its module lets it through.
pub open spec fn admits(
    global: LevelFilter,
    modules: Map<Seq<char>, LevelFilter>,
    target: Seq<char>,
    level: Level,
) -> bool {
    filter_for(global, modules, target).allows(level)
}

/// A module with a filter of its own is judged by that filter alone, whatever
/// the global filter; any other module by the global filter.
pub proof fn lemma_module_filter_takes_precedence(
    global: LevelFilter,
    other_global: LevelFilter,
    modules: Map<Seq<char>, LevelFilter>,
    target: Seq<char>,
    level: Level,
)
    ensures
        modules.contains_key(target) ==> admits(global, modules, target, level) == admits(
            other_global,
            modules,
            target,
            level,
        ),
        modules.contains_key(target) ==> admits(global, modules, target, level)
            == modules[target].allows(level),
        !modules.contains_key(target) ==> admits(global, modules, target, level)
            == global.allows(level),
{
}

/// A logger takes a message exactly when the filter looked up for its module
/// (the module's entry, else the global filter) lets its level through; the
/// module entry overrides the global filter whether it is looser or stricter.
pub proof fn lemma_admits_is_lookup(
    global: LevelFilter,
    modules: Map<Seq<char>, LevelFilter>,
    target: Seq<char>,
    level: Level,
)
    ensures
        admits(global, modules, target, level) == (match modules.get(target) {
            Some(own) => own,
            None => global,
        }).allows(level),
{
}

/// The logger: filters records by module and level, formats the ones it
/// takes, and hands them to its backend.
pub struct GrLogger<S: MessageSink> {
    level: LevelFilter,
    module_levels: ModuleLevels,
    backend: Arc<S>,
}

impl<S: MessageSink> GrLogger<S> {
    /// The global filter.
    pub closed spec fn global_filter(self) -> LevelFilter {
        self.level
    }

    /// The filters of single modules.
    pub closed spec fn module_filters(self) -> Map<Seq<char>, LevelFilter> {
        self.module_levels@
    }

    /// The backend.
    pub closed spec fn sink(self) -> Arc<S> {
        self.backend
    }

    pub fn new(level: LevelFilter, module_levels: ModuleLevels, backend: Arc<S>) -> (r: Self)
        ensures
            r.global_filter() == level,
            r.module_filters() == module_levels@,
            r.sink() == backend,
    {
        GrLogger { level, module_levels, backend }
    }

    fn should_log(&self, metadata: &Metadata) -> (r: bool)
        ensures
            r == admits(
                self.global_filter(),
                self.module_filters(),
                metadata.target_spec(),
                metadata.level_spec(),
            ),
            r == (match self.module_filters().get(metadata.target_spec()) {
                Some(own) => own,
                None => self.global_filter(),
            }).allows(metadata.level_spec()),
    {
        match self.module_levels.get(metadata.target()) {
            Some(module_level) => module_level.is_enabled(metadata.level()),
            None => self.level.is_enabled(metadata.level()),
        }
    }
}

impl<S: MessageSink> GrLogger<S> {
    /// The line to hand to the backend for `record`: its formatted line when
    /// the record passes the filters, else nothing.
    pub fn render(&self, record: &Record) -> (r: Option<String>)
        ensures
            r is Some <==> admits(
                self.global_filter(),
                self.module_filters(),
                record.metadata_spec().target_spec(),
                record.metadata_spec().level_spec(),
            ),
            r matches Some(line) ==> is_log_line_of(line@, *record),
    {
        if self.should_log(record.metadata()) {
            Some(format_log_message(record))
        } else {
            None
        }
    }
}

impl<S: MessageSink> Log for GrLogger<S> {
    /// The module's own filter decides if it has one, else the global filter.
    fn enabled(&self, metadata: &Metadata) -> (r: bool)
        ensures
            r == admits(
                self.global_filter(),
                self.module_filters(),
                metadata.target_spec(),
                metadata.level_spec(),
            ),
    {
        self.should_log(metadata)
    }

    /// Formats the record and hands the line to the backend, if the record passes.
    fn log(&self, record: &Record)
        ensures
            admits(
                self.global_filter(),
                self.module_filters(),
                record.metadata_spec().target_spec(),
                record.metadata_spec().level_spec(),
            ) ==> exists|line: String|
                #[trigger] call_ensures(S::send, (&*self.sink(), line), ()) && is_log_line_of(
                    line@,
                    *record,
                ),
    {
        match self.render(record) {
            Some(formatted) => {
                let ghost line = formatted;
                self.backend.send(formatted);
                assert(call_ensures(S::send, (&*self.sink(), line), ()));
            },
            None => {},
        }
    }

    /// Shuts the backend down.
    fn flush(&self)
        ensures
            call_ensures(S::shutdown, (&*self.sink(),), ()),
    {
        self.backend.shutdown();
    }
}

} // verus!

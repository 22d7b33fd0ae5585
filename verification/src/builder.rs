use std::sync::Arc;
use vstd::prelude::*;

use crate::level::{Level, LevelFilter};
use crate::logger::{admits, GrLogger, MessageSink};
use crate::registry::{max_level_admits, LoggerRegistry};
use crate::module_levels::ModuleLevels;
use crate::target::{Target, TargetView};
use crate::level::filter_name;
use crate::text::{
    equals_ignoring_ascii_case, find_char, find_char_index, is_white_space, lemma_find_char,
    lemma_leading_white_space, lemma_split_on_nonempty, lemma_trailing_white_space,
    matches_ignoring_ascii_case, split_on, trim, trim_white_space,
};

verus! {

/// The filter that a level name stands for, up to ASCII letter case.
pub open spec fn level_named(name: Seq<char>) -> Option<LevelFilter> {
    if equals_ignoring_ascii_case(name, seq!['t', 'r', 'a', 'c', 'e']) {
        Some(LevelFilter::Trace)
    } else if equals_ignoring_ascii_case(name, seq!['d', 'e', 'b', 'u', 'g']) {
        Some(LevelFilter::Debug)
    } else if equals_ignoring_ascii_case(name, seq!['i', 'n', 'f', 'o']) {
        Some(LevelFilter::Info)
    } else if equals_ignoring_ascii_case(name, seq!['w', 'a', 'r', 'n']) {
        Some(LevelFilter::Warn)
    } else if equals_ignoring_ascii_case(name, seq!['e', 'r', 'r', 'o', 'r']) {
        Some(LevelFilter::Error)
    } else if equals_ignoring_ascii_case(name, seq!['o', 'f', 'f']) {
        Some(LevelFilter::Off)
    } else {
        None
    }
}

/// Parses a level name: `trace`, `debug`, `info`, `warn`, `error` or `off`,
/// in any mix of letter cases.
///
/// The names hold only ASCII letters none of which is `k`, and no non-ASCII
/// character lower-cases to one of them, so folding ASCII letters alone
/// accepts exactly the strings whose Unicode lower case is one of the names.
pub fn parse_level(level: &str) -> (r: Option<LevelFilter>)
    ensures
        r == level_named(level@),
{
    proof {
        reveal_strlit("trace");
        reveal_strlit("debug");
        reveal_strlit("info");
        reveal_strlit("warn");
        reveal_strlit("error");
        reveal_strlit("off");
        assert("trace"@ =~= seq!['t', 'r', 'a', 'c', 'e']);
        assert("debug"@ =~= seq!['d', 'e', 'b', 'u', 'g']);
        assert("info"@ =~= seq!['i', 'n', 'f', 'o']);
        assert("warn"@ =~= seq!['w', 'a', 'r', 'n']);
        assert("error"@ =~= seq!['e', 'r', 'r', 'o', 'r']);
        assert("off"@ =~= seq!['o', 'f', 'f']);
    }
    if matches_ignoring_ascii_case(level, "trace") {
        Some(LevelFilter::Trace)
    } else if matches_ignoring_ascii_case(level, "debug") {
        Some(LevelFilter::Debug)
    } else if matches_ignoring_ascii_case(level, "info") {
        Some(LevelFilter::Info)
    } else if matches_ignoring_ascii_case(level, "warn") {
        Some(LevelFilter::Warn)
    } else if matches_ignoring_ascii_case(level, "error") {
        Some(LevelFilter::Error)
    } else if matches_ignoring_ascii_case(level, "off") {
        Some(LevelFilter::Off)
    } else {
        None
    }
}

/// The settings a `LoggerBuilder` holds.
pub struct LoggerConfig {
    pub target: TargetView,
    pub level: LevelFilter,
    pub module_levels: Map<Seq<char>, LevelFilter>,
    pub buffer_size: usize,
}

impl LoggerConfig {
    /// The same settings with global filter `level`.
    pub open spec fn with_level(self, level: LevelFilter) -> LoggerConfig {
        LoggerConfig { level, ..self }
    }

    /// The same settings with module `module` filtered by `level`.
    pub open spec fn with_module_level(self, module: Seq<char>, level: LevelFilter) -> LoggerConfig {
        LoggerConfig { module_levels: self.module_levels.insert(module, level), ..self }
    }

    /// The same settings with target `target`.
    pub open spec fn with_target(self, target: TargetView) -> LoggerConfig {
        LoggerConfig { target, ..self }
    }

    /// The same settings with backend capacity `size`.
    pub open spec fn with_buffer_size(self, size: usize) -> LoggerConfig {
        LoggerConfig { buffer_size: size, ..self }
    }
}

/// The settings of a new builder: standard error, `Info`, no module
/// filters, room for 1024 lines.
pub open spec fn default_config() -> LoggerConfig {
    LoggerConfig {
        target: TargetView::Stderr,
        level: LevelFilter::Info,
        module_levels: Map::empty(),
        buffer_size: 1024,
    }
}

/// The settings after one directive of a filter spec: `module=level` sets a
/// module's filter, a bare `level` the global filter; white space around the
/// directive is dropped, and a directive that is empty or names no level
/// changes nothing.
pub open spec fn apply_directive(config: LoggerConfig, part: Seq<char>) -> LoggerConfig {
    let directive = trim(part);
    let eq = find_char(directive, '=');
    if directive.len() == 0 {
        config
    } else if eq < directive.len() {
        match level_named(directive.skip(eq + 1int)) {
            Some(level) => config.with_module_level(directive.take(eq as int), level),
            None => config,
        }
    } else {
        match level_named(directive) {
            Some(level) => config.with_level(level),
            None => config,
        }
    }
}

/// The settings after the directives `parts`, in order.
pub open spec fn apply_directives(config: LoggerConfig, parts: Seq<Seq<char>>) -> LoggerConfig
    decreases parts.len(),
{
    if parts.len() == 0 {
        config
    } else {
        apply_directive(apply_directives(config, parts.drop_last()), parts.last())
    }
}

/// The settings after a filter spec such as `info,my_module=debug`: its
/// comma-separated directives, from left to right.
pub open spec fn apply_filter_spec(config: LoggerConfig, spec: Seq<char>) -> LoggerConfig {
    apply_directives(config, split_on(spec, ','))
}

/// The printed name of every filter parses back to that filter.
pub proof fn lemma_filter_name_parses_back(filter: LevelFilter)
    ensures
        level_named(crate::level::filter_name(filter)) == Some(filter),
{
    let name = crate::level::filter_name(filter);
    match filter {
        LevelFilter::Trace => {
            assert(equals_ignoring_ascii_case(name, seq!['t', 'r', 'a', 'c', 'e']));
        },
        LevelFilter::Debug => {
            assert(!equals_ignoring_ascii_case(name, seq!['t', 'r', 'a', 'c', 'e']));
            assert(equals_ignoring_ascii_case(name, seq!['d', 'e', 'b', 'u', 'g']));
        },
        LevelFilter::Info => {
            assert(!equals_ignoring_ascii_case(name, seq!['t', 'r', 'a', 'c', 'e']));
            assert(!equals_ignoring_ascii_case(name, seq!['d', 'e', 'b', 'u', 'g']));
            assert(equals_ignoring_ascii_case(name, seq!['i', 'n', 'f', 'o']));
        },
        LevelFilter::Warn => {
            assert(!equals_ignoring_ascii_case(name, seq!['t', 'r', 'a', 'c', 'e']));
            assert(!equals_ignoring_ascii_case(name, seq!['d', 'e', 'b', 'u', 'g']));
            assert(!equals_ignoring_ascii_case(name, seq!['i', 'n', 'f', 'o']));
            assert(equals_ignoring_ascii_case(name, seq!['w', 'a', 'r', 'n']));
        },
        LevelFilter::Error => {
            assert(!equals_ignoring_ascii_case(name, seq!['t', 'r', 'a', 'c', 'e']));
            assert(!equals_ignoring_ascii_case(name, seq!['d', 'e', 'b', 'u', 'g']));
            assert(!equals_ignoring_ascii_case(name, seq!['i', 'n', 'f', 'o']));
            assert(!equals_ignoring_ascii_case(name, seq!['w', 'a', 'r', 'n']));
            assert(equals_ignoring_ascii_case(name, seq!['e', 'r', 'r', 'o', 'r']));
        },
        LevelFilter::Off => {
            assert(!equals_ignoring_ascii_case(name, seq!['t', 'r', 'a', 'c', 'e']));
            assert(!equals_ignoring_ascii_case(name, seq!['d', 'e', 'b', 'u', 'g']));
            assert(!equals_ignoring_ascii_case(name, seq!['i', 'n', 'f', 'o']));
            assert(!equals_ignoring_ascii_case(name, seq!['w', 'a', 'r', 'n']));
            assert(!equals_ignoring_ascii_case(name, seq!['e', 'r', 'r', 'o', 'r']));
            assert(equals_ignoring_ascii_case(name, seq!['o', 'f', 'f']));
        },
    }
}

/// Splitting `a,b` on commas gives the pieces of `a` followed by those of `b`.
pub proof fn lemma_split_on_concat(a: Seq<char>, b: Seq<char>, sep: char)
    ensures
        split_on(a + seq![sep] + b, sep) == split_on(a, sep) + split_on(b, sep),
    decreases b.len(),
{
    let s = a + seq![sep] + b;
    if b.len() == 0 {
        assert(s.drop_last() =~= a);
        assert(split_on(b, sep) =~= seq![Seq::<char>::empty()]);
        assert(split_on(s, sep) =~= split_on(a, sep) + split_on(b, sep));
    } else {
        let shorter = b.drop_last();
        lemma_split_on_concat(a, shorter, sep);
        lemma_split_on_nonempty(shorter, sep);
        lemma_split_on_nonempty(a, sep);
        assert(s.drop_last() =~= a + seq![sep] + shorter);
        assert(s.last() == b.last());
        assert(split_on(s, sep) =~= split_on(a, sep) + split_on(b, sep));
    }
}

/// Applying the directives `p` and then `q` is applying `p + q`.
pub proof fn lemma_apply_directives_concat(config: LoggerConfig, p: Seq<Seq<char>>, q: Seq<Seq<char>>)
    ensures
        apply_directives(config, p + q) == apply_directives(apply_directives(config, p), q),
    decreases q.len(),
{
    if q.len() == 0 {
        assert(p + q =~= p);
    } else {
        lemma_apply_directives_concat(config, p, q.drop_last());
        assert((p + q).drop_last() =~= p + q.drop_last());
        assert((p + q).last() == q.last());
    }
}

/// A filter spec `a,b` has the effect of `a` followed by that of `b`; in
/// particular a later directive overrides an earlier one.
pub proof fn lemma_filter_spec_concat(config: LoggerConfig, a: Seq<char>, b: Seq<char>)
    ensures
        apply_filter_spec(config, a + seq![','] + b) == apply_filter_spec(
            apply_filter_spec(config, a),
            b,
        ),
{
    lemma_split_on_concat(a, b, ',');
    lemma_apply_directives_concat(config, split_on(a, ','), split_on(b, ','));
}

/// `max` is the most verbose of the global filter and every module filter:
/// the lowest rank among them, and one of them.
pub open spec fn is_most_verbose(
    max: LevelFilter,
    global: LevelFilter,
    modules: Map<Seq<char>, LevelFilter>,
) -> bool {
    &&& max.rank() <= global.rank()
    &&& forall|name: Seq<char>| #[trigger] modules.contains_key(name) ==> max.rank() <= modules[name].rank()
    &&& (max == global || exists|name: Seq<char>| #[trigger] modules.contains_key(name) && modules[name] == max)
}

/// With the most verbose filter as the maximum level, the maximum level drops
/// no message that the logger would take, whichever module it comes from.
pub proof fn lemma_most_verbose_keeps_admitted(
    max: LevelFilter,
    global: LevelFilter,
    modules: Map<Seq<char>, LevelFilter>,
    target: Seq<char>,
    level: Level,
)
    requires
        is_most_verbose(max, global, modules),
    ensures
        admits(global, modules, target, level) ==> max_level_admits(Some(max), level),
{
    if modules.contains_key(target) {
        assert(max.rank() <= modules[target].rank());
    }
}

/// A character that is neither white space nor one of the separators `,` and `=`.
pub open spec fn is_plain_char(c: char) -> bool {
    !is_white_space(c) && c != ',' && c != '='
}

/// A text without `sep` is split into itself alone.
pub proof fn lemma_split_without_separator(s: Seq<char>, sep: char)
    requires
        forall|i: int| 0 <= i < s.len() ==> #[trigger] s[i] != sep,
    ensures
        split_on(s, sep) == seq![s],
    decreases s.len(),
{
    if s.len() > 0 {
        let shorter = s.drop_last();
        lemma_split_without_separator(shorter, sep);
        assert(s[s.len() - 1] != sep);
        assert(shorter.push(s.last()) =~= s);
        assert(split_on(s, sep) =~= seq![s]);
    } else {
        assert(s =~= Seq::<char>::empty());
    }
}

/// A text without white space is its own trim.
pub proof fn lemma_trim_without_white_space(s: Seq<char>)
    requires
        forall|i: int| 0 <= i < s.len() ==> !is_white_space(#[trigger] s[i]),
    ensures
        trim(s) == s,
{
    lemma_leading_white_space(s, 0);
    let t = s.skip(0);
    assert(t =~= s);
    lemma_trailing_white_space(t, t.len() as int);
    assert(t.take(t.len() as int) =~= s);
}

/// The printed names of the filters hold only plain characters.
proof fn lemma_filter_name_is_plain(filter: LevelFilter)
    ensures
        filter_name(filter).len() > 0,
        forall|i: int| 0 <= i < filter_name(filter).len() ==> is_plain_char(#[trigger] filter_name(filter)[i]),
{
    let name = filter_name(filter);
    assert forall|i: int| 0 <= i < name.len() implies is_plain_char(#[trigger] name[i]) by {
        assert('A' <= name[i] && name[i] <= 'Z');
    }
}

/// A spec made of one bare level name sets the global filter to the filter
/// of that name, for every filter, `off` included, and changes nothing else.
pub proof fn lemma_bare_level_sets_global_filter(config: LoggerConfig, filter: LevelFilter)
    ensures
        apply_filter_spec(config, filter_name(filter)) == config.with_level(filter),
        apply_filter_spec(config, filter_name(filter)).level == filter,
{
    let name = filter_name(filter);
    lemma_filter_name_is_plain(filter);
    lemma_split_without_separator(name, ',');
    assert(seq![name].drop_last() =~= Seq::<Seq<char>>::empty());
    assert(seq![name].last() == name);
    assert(apply_directives(config, Seq::<Seq<char>>::empty()) == config);
    lemma_trim_without_white_space(name);
    lemma_find_char(name, '=', name.len() as int);
    lemma_filter_name_parses_back(filter);
    assert(apply_directives(config, seq![name]) == apply_directive(config, name));
}

/// A spec `module=name`, for a module path of plain characters, gives the
/// module the filter that `name` names, for every filter, `off` included,
/// and changes nothing else.
pub proof fn lemma_module_directive_sets_module_filter(
    config: LoggerConfig,
    module: Seq<char>,
    filter: LevelFilter,
)
    requires
        forall|i: int| 0 <= i < module.len() ==> is_plain_char(#[trigger] module[i]),
    ensures
        apply_filter_spec(config, module + seq!['='] + filter_name(filter)) == config.with_module_level(
            module,
            filter,
        ),
{
    let name = filter_name(filter);
    let d = module + seq!['='] + name;
    lemma_filter_name_is_plain(filter);
    assert forall|i: int| 0 <= i < d.len() implies #[trigger] d[i] != ',' && !is_white_space(d[i]) by {
        if i < module.len() {
            assert(d[i] == module[i]);
        } else if i > module.len() {
            assert(d[i] == name[i - module.len() - 1]);
        }
    }
    lemma_split_without_separator(d, ',');
    assert(seq![d].drop_last() =~= Seq::<Seq<char>>::empty());
    assert(seq![d].last() == d);
    lemma_trim_without_white_space(d);
    assert forall|i: int| 0 <= i < module.len() implies #[trigger] d[i] != '=' by {
        assert(d[i] == module[i]);
    }
    lemma_find_char(d, '=', module.len() as int);
    assert(d.skip(module.len() + 1int) =~= name);
    assert(d.take(module.len() as int) =~= module);
    lemma_filter_name_parses_back(filter);
    assert(apply_directives(config, Seq::<Seq<char>>::empty()) == config);
    assert(apply_directives(config, seq![d]) == apply_directive(config, d));
}

/// Configures the logger before it is installed.
pub struct LoggerBuilder {
    target: Target,
    level: LevelFilter,
    module_levels: ModuleLevels,
    buffer_size: usize,
}

impl View for LoggerBuilder {
    type V = LoggerConfig;

    closed spec fn view(&self) -> LoggerConfig {
        LoggerConfig {
            target: self.target@,
            level: self.level,
            module_levels: self.module_levels@,
            buffer_size: self.buffer_size,
        }
    }
}

impl LoggerBuilder {
    /// A builder with the default settings.
    pub fn new() -> (r: Self)
        ensures
            r@ == default_config(),
    {
        LoggerBuilder {
            target: Target::Stderr,
            level: LevelFilter::Info,
            module_levels: ModuleLevels::new(),
            buffer_size: 1024,
        }
    }

    /// A builder with the default settings and then the filter spec read from
    /// the environment, if there was one.
    pub fn from_env_value(value: Option<&str>) -> (r: Self)
        ensures
            r@ == (match value {
                Some(spec) => apply_filter_spec(default_config(), spec@),
                None => default_config(),
            }),
    {
        let mut builder = Self::new();
        if let Some(spec) = value {
            builder.parse_spec(spec);
        }
        builder
    }

    /// Sets the global filter.
    pub fn filter_level(&mut self, level: LevelFilter) -> (r: &mut Self)
        ensures
            r@ == old(self)@.with_level(level),
            *final(self) == *final(r),
    {
        self.level = level;
        self
    }

    /// Sets the filter of one module, replacing the one it had.
    pub fn filter_module(&mut self, module: &str, level: LevelFilter) -> (r: &mut Self)
        ensures
            r@ == old(self)@.with_module_level(module@, level),
            *final(self) == *final(r),
    {
        self.module_levels.insert(module.to_owned(), level);
        self
    }

    /// Sets where the lines go.
    pub fn target(&mut self, target: Target) -> (r: &mut Self)
        ensures
            r@ == old(self)@.with_target(target@),
            *final(self) == *final(r),
    {
        self.target = target;
        self
    }

    /// Sets how many lines the backend holds before it drops new ones.
    pub fn buffer_size(&mut self, size: usize) -> (r: &mut Self)
        ensures
            r@ == old(self)@.with_buffer_size(size),
            *final(self) == *final(r),
    {
        self.buffer_size = size;
        self
    }

    /// Applies one directive of a filter spec.
    fn apply_directive(&mut self, part: &str)
        ensures
            final(self)@ == apply_directive(old(self)@, part@),
    {
        let directive = trim_white_space(part);
        let n = directive.unicode_len();
        if n == 0 {
            return;
        }
        let eq = find_char_index(directive, '=');
        if eq < n {
            let module = directive.substring_char(0, eq);
            let level = directive.substring_char(eq + 1, n);
            assert(module@ =~= directive@.take(eq as int));
            assert(level@ =~= directive@.skip(eq + 1));
            if let Some(level) = parse_level(level) {
                self.filter_module(module, level);
            }
        } else if let Some(level) = parse_level(directive) {
            self.filter_level(level);
        }
    }

    /// Applies a filter spec such as `info,my_module=debug,other=warn`: each
    /// comma-separated directive in turn.
    pub fn parse_spec(&mut self, spec: &str)
        ensures
            final(self)@ == apply_filter_spec(old(self)@, spec@),
    {
        let ghost start_config = self@;
        let n = spec.unicode_len();
        let mut start: usize = 0;
        let mut i: usize = 0;
        let ghost mut done: Seq<Seq<char>> = Seq::empty();
        proof {
            assert(spec@.take(0) =~= Seq::<char>::empty());
            assert(spec@.subrange(0, 0) =~= Seq::<char>::empty());
            assert(split_on(spec@.take(0), ',') =~= done.push(spec@.subrange(0, 0)));
        }
        while i < n
            invariant
                n == spec@.len(),
                start <= i <= n,
                split_on(spec@.take(i as int), ',') == done.push(spec@.subrange(start as int, i as int)),
                self@ == apply_directives(start_config, done),
            decreases n - i,
        {
            let c = spec.get_char(i);
            let ghost prefix = spec@.take(i + 1);
            proof {
                assert(prefix.drop_last() =~= spec@.take(i as int));
                assert(prefix.last() == c);
                lemma_split_on_nonempty(spec@.take(i as int), ',');
            }
            if c == ',' {
                let part = spec.substring_char(start, i);
                self.apply_directive(part);
                proof {
                    assert(done.push(part@).drop_last() =~= done);
                    done = done.push(part@);
                    assert(spec@.subrange(i + 1, i + 1) =~= Seq::<char>::empty());
                    assert(split_on(prefix, ',') =~= done.push(spec@.subrange(i + 1, i + 1)));
                }
                start = i + 1;
            } else {
                proof {
                    assert(spec@.subrange(start as int, i + 1) =~= spec@.subrange(start as int, i as int).push(c));
                    assert(split_on(prefix, ',') =~= done.push(spec@.subrange(start as int, i + 1)));
                }
            }
            i = i + 1;
        }
        let part = spec.substring_char(start, n);
        self.apply_directive(part);
        proof {
            assert(spec@.take(n as int) =~= spec@);
            assert(done.push(part@).drop_last() =~= done);
        }
    }

    /// The global filter.
    pub fn configured_level(&self) -> (r: LevelFilter)
        ensures
            r == self@.level,
    {
        self.level
    }

    /// The capacity of the backend.
    pub fn configured_buffer_size(&self) -> (r: usize)
        ensures
            r == self@.buffer_size,
    {
        self.buffer_size
    }

    /// Where the lines go.
    pub fn configured_target(&self) -> (r: &Target)
        ensures
            r@ == self@.target,
    {
        &self.target
    }

    /// The filters of single modules.
    pub fn module_levels(&self) -> (r: &ModuleLevels)
        ensures
            r@ == self@.module_levels,
    {
        &self.module_levels
    }

    /// The logger these settings describe, handing its lines to `backend`.
    pub fn build_logger<S: MessageSink>(&self, backend: Arc<S>) -> (r: GrLogger<S>)
        ensures
            r.global_filter() == self@.level,
            r.module_filters() == self@.module_levels,
            r.sink() == backend,
    {
        GrLogger::new(self.level, self.module_levels.clone(), backend)
    }
}

impl LoggerBuilder {
    /// The maximum level to install: the most verbose of the global filter
    /// and every module filter, so that the maximum level lets through every
    /// message the logger takes.
    pub fn effective_max_level(&self) -> (r: LevelFilter)
        ensures
            is_most_verbose(r, self@.level, self@.module_levels),
    {
        self.module_levels.most_verbose(self.level)
    }

    /// Installs the logger of these settings, handing its lines to `backend`,
    /// with the effective maximum level; refused, and nothing changed, when a
    /// logger is installed already.
    pub fn install_logger<S: MessageSink>(
        &self,
        registry: &mut LoggerRegistry<GrLogger<S>>,
        backend: Arc<S>,
    ) -> (r: Result<(), SetLoggerError>)
        ensures
            r is Ok <==> old(registry).logger_spec() is None,
            r is Ok ==> (final(registry).logger_spec() matches Some(logger) && logger.global_filter()
                == self@.level && logger.module_filters() == self@.module_levels && logger.sink()
                == backend),
            r is Ok ==> (final(registry).max_level_spec() matches Some(max) && (if old(
                registry,
            ).max_level_spec() is None {
                is_most_verbose(max, self@.level, self@.module_levels)
            } else {
                old(registry).max_level_spec() == Some(max)
            })),
            r is Err ==> *final(registry) == *old(registry),
    {
        let logger = self.build_logger(backend);
        let max = self.effective_max_level();
        registry.install(logger, max)
    }
}

impl Default for LoggerBuilder {
    fn default() -> (r: Self)
        ensures
            r@ == default_config(),
    {
        Self::new()
    }
}

/// A new builder with the default settings.
pub fn builder() -> (r: LoggerBuilder)
    ensures
        r@ == default_config(),
{
    LoggerBuilder::new()
}

/// The logger was installed already: a second one is refused.
#[derive(Debug)]
pub struct SetLoggerError;

impl SetLoggerError {
    /// The text of the error.
    pub fn message(&self) -> (r: String)
        ensures
            r@ == "attempted to set a logger after the logging system was already initialized"@,
    {
        "attempted to set a logger after the logging system was already initialized".to_owned()
    }
}

} // verus!

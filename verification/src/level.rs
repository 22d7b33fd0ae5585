use std::cmp::Ordering;
use std::str::FromStr;
use vstd::prelude::*;
use vstd::std_specs::cmp::PartialOrdSpec;

verus! {

/// Severity of a log message, from the most verbose to the most severe.
#[derive(Clone, Copy, PartialEq, Eq, Structural, Ord, Debug, Hash)]
pub enum Level {
    Trace,
    Debug,
    Info,
    Warn,
    Error,
}

/// The upper-case name under which a level is printed.
pub open spec fn level_name(level: Level) -> Seq<char> {
    match level {
        Level::Trace => seq!['T', 'R', 'A', 'C', 'E'],
        Level::Debug => seq!['D', 'E', 'B', 'U', 'G'],
        Level::Info => seq!['I', 'N', 'F', 'O'],
        Level::Warn => seq!['W', 'A', 'R', 'N'],
        Level::Error => seq!['E', 'R', 'R', 'O', 'R'],
    }
}

impl Level {
    /// Position of the level in the order Trace < Debug < Info < Warn < Error.
    pub open spec fn rank(self) -> nat {
        match self {
            Level::Trace => 0,
            Level::Debug => 1,
            Level::Info => 2,
            Level::Warn => 3,
            Level::Error => 4,
        }
    }

    /// The rank of the level as a machine integer.
    pub fn rank_u8(&self) -> (r: u8)
        ensures
            r == self.rank(),
    {
        match self {
            Level::Trace => 0,
            Level::Debug => 1,
            Level::Info => 2,
            Level::Warn => 3,
            Level::Error => 4,
        }
    }

    /// The upper-case name of the level.
    pub fn as_str(&self) -> (r: &'static str)
        ensures
            r@ == level_name(*self),
    {
        match self {
            Level::Trace => {
                proof {
                    reveal_strlit("TRACE");
                }
                "TRACE"
            },
            Level::Debug => {
                proof {
                    reveal_strlit("DEBUG");
                }
                "DEBUG"
            },
            Level::Info => {
                proof {
                    reveal_strlit("INFO");
                }
                "INFO"
            },
            Level::Warn => {
                proof {
                    reveal_strlit("WARN");
                }
                "WARN"
            },
            Level::Error => {
                proof {
                    reveal_strlit("ERROR");
                }
                "ERROR"
            },
        }
    }

    /// The printed form of the level: its upper-case name.
    pub fn to_string(&self) -> (r: String)
        ensures
            r@ == level_name(*self),
    {
        self.as_str().to_owned()
    }
}

/// The levels are totally ordered, from `Trace` up to `Error`: distinct
/// levels have distinct ranks.
pub proof fn lemma_level_order_is_total(a: Level, b: Level)
    ensures
        a.rank() == b.rank() <==> a == b,
        a.rank() < 5,
{
}

impl PartialOrd for Level {
    fn partial_cmp(&self, other: &Level) -> (r: Option<Ordering>) {
        let a = self.rank_u8();
        let b = other.rank_u8();
        if a < b {
            Some(Ordering::Less)
        } else if a == b {
            Some(Ordering::Equal)
        } else {
            Some(Ordering::Greater)
        }
    }
}

impl vstd::std_specs::cmp::PartialOrdSpecImpl for Level {
    open spec fn obeys_partial_cmp_spec() -> bool {
        true
    }

    open spec fn partial_cmp_spec(&self, other: &Level) -> Option<Ordering> {
        if self.rank() < other.rank() {
            Some(Ordering::Less)
        } else if self.rank() == other.rank() {
            Some(Ordering::Equal)
        } else {
            Some(Ordering::Greater)
        }
    }
}

/// A threshold on levels; `Off` lets nothing through.
#[derive(Clone, Copy, PartialEq, Eq, Structural, Ord, Debug, Hash)]
pub enum LevelFilter {
    Trace,
    Debug,
    Info,
    Warn,
    Error,
    Off,
}

/// The upper-case name under which a filter is printed.
pub open spec fn filter_name(filter: LevelFilter) -> Seq<char> {
    match filter {
        LevelFilter::Trace => seq!['T', 'R', 'A', 'C', 'E'],
        LevelFilter::Debug => seq!['D', 'E', 'B', 'U', 'G'],
        LevelFilter::Info => seq!['I', 'N', 'F', 'O'],
        LevelFilter::Warn => seq!['W', 'A', 'R', 'N'],
        LevelFilter::Error => seq!['E', 'R', 'R', 'O', 'R'],
        LevelFilter::Off => seq!['O', 'F', 'F'],
    }
}

impl LevelFilter {
    /// Position of the filter in the order Trace < Debug < Info < Warn < Error < Off.
    pub open spec fn rank(self) -> nat {
        match self {
            LevelFilter::Trace => 0,
            LevelFilter::Debug => 1,
            LevelFilter::Info => 2,
            LevelFilter::Warn => 3,
            LevelFilter::Error => 4,
            LevelFilter::Off => 5,
        }
    }

    /// Whether the filter lets a message of `level` through: the level is at
    /// least as severe as the threshold (never for `Off`).
    pub open spec fn allows(self, level: Level) -> bool {
        self.rank() <= level.rank()
    }

    /// The level a filter stands for, `None` for `Off`.
    pub open spec fn level_of(self) -> Option<Level> {
        match self {
            LevelFilter::Trace => Some(Level::Trace),
            LevelFilter::Debug => Some(Level::Debug),
            LevelFilter::Info => Some(Level::Info),
            LevelFilter::Warn => Some(Level::Warn),
            LevelFilter::Error => Some(Level::Error),
            LevelFilter::Off => None,
        }
    }

    /// The filter whose threshold is `level`.
    pub open spec fn of_level(level: Level) -> LevelFilter {
        match level {
            Level::Trace => LevelFilter::Trace,
            Level::Debug => LevelFilter::Debug,
            Level::Info => LevelFilter::Info,
            Level::Warn => LevelFilter::Warn,
            Level::Error => LevelFilter::Error,
        }
    }

    /// The rank of the filter as a machine integer.
    pub fn rank_u8(&self) -> (r: u8)
        ensures
            r == self.rank(),
    {
        match self {
            LevelFilter::Trace => 0,
            LevelFilter::Debug => 1,
            LevelFilter::Info => 2,
            LevelFilter::Warn => 3,
            LevelFilter::Error => 4,
            LevelFilter::Off => 5,
        }
    }

    pub fn to_level(&self) -> (r: Option<Level>)
        ensures
            r == self.level_of(),
    {
        match self {
            LevelFilter::Trace => Some(Level::Trace),
            LevelFilter::Debug => Some(Level::Debug),
            LevelFilter::Info => Some(Level::Info),
            LevelFilter::Warn => Some(Level::Warn),
            LevelFilter::Error => Some(Level::Error),
            LevelFilter::Off => None,
        }
    }

    pub fn from_level(level: Level) -> (r: Self)
        ensures
            r == Self::of_level(level),
    {
        match level {
            Level::Trace => LevelFilter::Trace,
            Level::Debug => LevelFilter::Debug,
            Level::Info => LevelFilter::Info,
            Level::Warn => LevelFilter::Warn,
            Level::Error => LevelFilter::Error,
        }
    }

    pub fn is_enabled(&self, level: Level) -> (r: bool)
        ensures
            r == self.allows(level),
    {
        match self {
            LevelFilter::Off => false,
            _ => {
                let threshold = match self.to_level() {
                    Some(l) => l,
                    None => Level::Trace,
                };
                level >= threshold
            },
        }
    }

    /// The upper-case name of the filter.
    pub fn as_str(&self) -> (r: &'static str)
        ensures
            r@ == filter_name(*self),
    {
        match self {
            LevelFilter::Trace => {
                proof {
                    reveal_strlit("TRACE");
                }
                "TRACE"
            },
            LevelFilter::Debug => {
                proof {
                    reveal_strlit("DEBUG");
                }
                "DEBUG"
            },
            LevelFilter::Info => {
                proof {
                    reveal_strlit("INFO");
                }
                "INFO"
            },
            LevelFilter::Warn => {
                proof {
                    reveal_strlit("WARN");
                }
                "WARN"
            },
            LevelFilter::Error => {
                proof {
                    reveal_strlit("ERROR");
                }
                "ERROR"
            },
            LevelFilter::Off => {
                proof {
                    reveal_strlit("OFF");
                }
                "OFF"
            },
        }
    }

    /// The printed form of the filter: its upper-case name.
    pub fn to_string(&self) -> (r: String)
        ensures
            r@ == filter_name(*self),
    {
        self.as_str().to_owned()
    }
}

/// `to_level` undoes `from_level`, and `from_level` undoes `to_level` on every
/// filter but `Off`; a filter and its level have the same rank.
pub proof fn lemma_level_filter_round_trip(level: Level, filter: LevelFilter)
    ensures
        LevelFilter::of_level(level).level_of() == Some(level),
        LevelFilter::of_level(level).rank() == level.rank(),
        filter != LevelFilter::Off ==> LevelFilter::of_level(filter.level_of()->0) == filter,
        filter == LevelFilter::Off <==> filter.level_of() is None,
{
}

/// A filter lets through its own level and every more severe one, and
/// nothing less severe; `Off` lets nothing through and `Trace` everything.
pub proof fn lemma_filter_threshold(filter: LevelFilter, level: Level, other: Level)
    ensures
        LevelFilter::of_level(level).allows(level),
        filter.allows(level) && level.rank() <= other.rank() ==> filter.allows(other),
        filter.level_of() matches Some(threshold) ==> (filter.allows(level) <==> threshold.rank() <= level.rank()),
        !LevelFilter::Off.allows(level),
        LevelFilter::Trace.allows(level),
{
}

/// A stricter filter lets through no more than a looser one.
pub proof fn lemma_stricter_filter_lets_less_through(loose: LevelFilter, strict: LevelFilter, level: Level)
    requires
        loose.rank() <= strict.rank(),
        strict.allows(level),
    ensures
        loose.allows(level),
{
}

/// Filters compare by how much they let through: a filter is `Equal` to
/// itself and to no other, `Less` than a filter exactly when it lets through
/// every level that one does and some more, and the comparison is total and
/// antisymmetric.
pub proof fn lemma_filter_order(a: LevelFilter, b: LevelFilter)
    ensures
        a.partial_cmp_spec(&a) == Some(Ordering::Equal),
        a.partial_cmp_spec(&b) == Some(Ordering::Equal) <==> a == b,
        a.partial_cmp_spec(&b) == Some(Ordering::Less) <==> b.partial_cmp_spec(&a) == Some(
            Ordering::Greater,
        ),
        a.partial_cmp_spec(&b) is Some,
        a.partial_cmp_spec(&b) == Some(Ordering::Less) ==> (forall|l: Level|
            #[trigger] b.allows(l) ==> a.allows(l)) && (exists|l: Level| #[trigger] a.allows(l) && !b.allows(l)),
        (forall|l: Level| #[trigger] b.allows(l) ==> a.allows(l)) && a != b ==> a.partial_cmp_spec(&b)
            == Some(Ordering::Less),
{
    if a.partial_cmp_spec(&b) == Some(Ordering::Less) {
        let l = match a {
            LevelFilter::Trace => Level::Trace,
            LevelFilter::Debug => Level::Debug,
            LevelFilter::Info => Level::Info,
            LevelFilter::Warn => Level::Warn,
            _ => Level::Error,
        };
        assert(a.allows(l) && !b.allows(l));
    }
    if (forall|l: Level| #[trigger] b.allows(l) ==> a.allows(l)) && a != b {
        assert(b.allows(Level::Error) ==> a.allows(Level::Error));
        assert(b.allows(Level::Warn) ==> a.allows(Level::Warn));
        assert(b.allows(Level::Info) ==> a.allows(Level::Info));
        assert(b.allows(Level::Debug) ==> a.allows(Level::Debug));
        assert(b.allows(Level::Trace) ==> a.allows(Level::Trace));
    }
}

/// Levels compare by severity: `Equal` only to themselves, and totally.
pub proof fn lemma_level_cmp(a: Level, b: Level)
    ensures
        a.partial_cmp_spec(&a) == Some(Ordering::Equal),
        a.partial_cmp_spec(&b) == Some(Ordering::Equal) <==> a == b,
        a.partial_cmp_spec(&b) == Some(Ordering::Less) <==> b.partial_cmp_spec(&a) == Some(
            Ordering::Greater,
        ),
        a.partial_cmp_spec(&b) is Some,
        a.partial_cmp_spec(&b) == Some(Ordering::Less) <==> (LevelFilter::of_level(b).allows(a) == false
            && LevelFilter::of_level(a).allows(b)),
{
}

impl PartialOrd for LevelFilter {
    fn partial_cmp(&self, other: &LevelFilter) -> (r: Option<Ordering>) {
        let a = self.rank_u8();
        let b = other.rank_u8();
        if a < b {
            Some(Ordering::Less)
        } else if a == b {
            Some(Ordering::Equal)
        } else {
            Some(Ordering::Greater)
        }
    }
}

impl vstd::std_specs::cmp::PartialOrdSpecImpl for LevelFilter {
    open spec fn obeys_partial_cmp_spec() -> bool {
        true
    }

    open spec fn partial_cmp_spec(&self, other: &LevelFilter) -> Option<Ordering> {
        if self.rank() < other.rank() {
            Some(Ordering::Less)
        } else if self.rank() == other.rank() {
            Some(Ordering::Equal)
        } else {
            Some(Ordering::Greater)
        }
    }
}

impl FromStr for LevelFilter {
    type Err = ();

    /// Parses a filter name, ignoring ASCII letter case: `trace`, `debug`,
    /// `info`, `warn`, `error` or `off`; anything else is refused with `Err(())`.
    fn from_str(s: &str) -> (r: Result<Self, ()>)
        ensures
            r == (match crate::builder::level_named(s@) {
                Some(filter) => Ok(filter),
                None => Err(()),
            }),
    {
        match crate::builder::parse_level(s) {
            Some(filter) => Ok(filter),
            None => Err(()),
        }
    }
}

/// What a log message is about: its level and the module path it comes from.
#[derive(Debug)]
pub struct Metadata<'a> {
    level: Level,
    target: &'a str,
}

impl<'a> Clone for Metadata<'a> {
    fn clone(&self) -> (r: Self)
        ensures
            r == *self,
    {
        Metadata { level: self.level, target: self.target }
    }
}

impl<'a> Metadata<'a> {
    /// The level of the message.
    pub closed spec fn level_spec(self) -> Level {
        self.level
    }

    /// The module path of the message.
    pub closed spec fn target_spec(self) -> Seq<char> {
        self.target@
    }

    /// A builder with neither level nor target set.
    pub fn builder() -> (r: MetadataBuilder<'a>)
        ensures
            r.level_set() == None::<Level>,
            r.target_set() == None::<Seq<char>>,
    {
        MetadataBuilder::new()
    }

    pub fn level(&self) -> (r: Level)
        ensures
            r == self.level_spec(),
    {
        self.level
    }

    pub fn target(&self) -> (r: &'a str)
        ensures
            r@ == self.target_spec(),
    {
        self.target
    }
}

/// Collects the parts of a `Metadata`; both must be set before `build`.
pub struct MetadataBuilder<'a> {
    level: Option<Level>,
    target: Option<&'a str>,
}

impl<'a> MetadataBuilder<'a> {
    /// The level set so far.
    pub closed spec fn level_set(self) -> Option<Level> {
        self.level
    }

    /// The target set so far.
    pub closed spec fn target_set(self) -> Option<Seq<char>> {
        match self.target {
            Some(t) => Some(t@),
            None => None,
        }
    }

    pub fn new() -> (r: Self)
        ensures
            r.level_set() == None::<Level>,
            r.target_set() == None::<Seq<char>>,
    {
        MetadataBuilder { level: None, target: None }
    }

    pub fn level(self, level: Level) -> (r: Self)
        ensures
            r.level_set() == Some(level),
            r.target_set() == self.target_set(),
    {
        let mut b = self;
        b.level = Some(level);
        b
    }

    pub fn target(self, target: &'a str) -> (r: Self)
        ensures
            r.level_set() == self.level_set(),
            r.target_set() == Some(target@),
    {
        let mut b = self;
        b.target = Some(target);
        b
    }

    /// The metadata of the level and target set; both must have been set.
    pub fn build(self) -> (r: Metadata<'a>)
        requires
            self.level_set() is Some,
            self.target_set() is Some,
        ensures
            r.level_spec() == self.level_set()->0,
            r.target_spec() == self.target_set()->0,
    {
        Metadata { level: self.level.expect("level must be set"), target: self.target.expect("target must be set") }
    }
}

impl<'a> Default for MetadataBuilder<'a> {
    fn default() -> (r: Self)
        ensures
            r.level_set() == None::<Level>,
            r.target_set() == None::<Seq<char>>,
    {
        Self::new()
    }
}

/// A log message: its metadata and its text.
pub struct Record<'a> {
    metadata: Metadata<'a>,
    args: &'a str,
}

impl<'a> Record<'a> {
    /// The metadata of the record.
    pub closed spec fn metadata_spec(self) -> Metadata<'a> {
        self.metadata
    }

    /// The text of the message.
    pub closed spec fn args_spec(self) -> Seq<char> {
        self.args@
    }

    /// A builder with neither metadata nor text set.
    pub fn builder() -> (r: RecordBuilder<'a>)
        ensures
            r.metadata_set() == None::<Metadata<'a>>,
            r.args_set() == None::<Seq<char>>,
    {
        RecordBuilder::new()
    }

    pub fn metadata(&self) -> (r: &Metadata<'a>)
        ensures
            *r == self.metadata_spec(),
    {
        &self.metadata
    }

    /// The text of the message.
    pub fn args(&self) -> (r: &'a str)
        ensures
            r@ == self.args_spec(),
    {
        self.args
    }

    pub fn level(&self) -> (r: Level)
        ensures
            r == self.metadata_spec().level_spec(),
    {
        self.metadata.level()
    }

    pub fn target(&self) -> (r: &'a str)
        ensures
            r@ == self.metadata_spec().target_spec(),
    {
        self.metadata.target()
    }
}

/// Collects the parts of a `Record`; both must be set before `build`.
pub struct RecordBuilder<'a> {
    metadata: Option<Metadata<'a>>,
    args: Option<&'a str>,
}

impl<'a> RecordBuilder<'a> {
    /// The metadata set so far.
    pub closed spec fn metadata_set(self) -> Option<Metadata<'a>> {
        self.metadata
    }

    /// The text set so far.
    pub closed spec fn args_set(self) -> Option<Seq<char>> {
        match self.args {
            Some(a) => Some(a@),
            None => None,
        }
    }

    pub fn new() -> (r: Self)
        ensures
            r.metadata_set() == None::<Metadata<'a>>,
            r.args_set() == None::<Seq<char>>,
    {
        RecordBuilder { metadata: None, args: None }
    }

    pub fn metadata(self, metadata: Metadata<'a>) -> (r: Self)
        ensures
            r.metadata_set() == Some(metadata),
            r.args_set() == self.args_set(),
    {
        let mut b = self;
        b.metadata = Some(metadata);
        b
    }

    pub fn args(self, args: &'a str) -> (r: Self)
        ensures
            r.metadata_set() == self.metadata_set(),
            r.args_set() == Some(args@),
    {
        let mut b = self;
        b.args = Some(args);
        b
    }

    /// The record of the metadata and text set; both must have been set.
    pub fn build(self) -> (r: Record<'a>)
        requires
            self.metadata_set() is Some,
            self.args_set() is Some,
        ensures
            r.metadata_spec() == self.metadata_set()->0,
            r.args_spec() == self.args_set()->0,
    {
        Record { metadata: self.metadata.expect("metadata must be set"), args: self.args.expect("args must be set") }
    }
}

impl<'a> Default for RecordBuilder<'a> {
    fn default() -> (r: Self)
        ensures
            r.metadata_set() == None::<Metadata<'a>>,
            r.args_set() == None::<Seq<char>>,
    {
        Self::new()
    }
}

/// A logger: decides which records it takes, and takes them.
pub trait Log: Send + Sync {
    fn enabled(&self, metadata: &Metadata) -> bool;

    fn log(&self, record: &Record);

    fn flush(&self);
}

impl<T: Log + ?Sized> Log for Box<T> {
    /// The answer of the boxed logger.
    fn enabled(&self, metadata: &Metadata) -> (r: bool)
        ensures
            call_ensures(T::enabled, (&**self, metadata), r),
    {
        (**self).enabled(metadata)
    }

    /// Hands the record to the boxed logger.
    fn log(&self, record: &Record)
        ensures
            call_ensures(T::log, (&**self, record), ()),
    {
        (**self).log(record)
    }

    /// Flushes the boxed logger.
    fn flush(&self)
        ensures
            call_ensures(T::flush, (&**self,), ()),
    {
        (**self).flush()
    }
}

} // verus!

use vstd::prelude::*;

use crate::builder::SetLoggerError;
use crate::level::{Level, LevelFilter, Log};

verus! {

/// The process-wide logging state: the installed logger and the maximum level.
///
/// Each part is set at most once; the first setting stays.
pub struct LoggerRegistry<L> {
    logger: Option<L>,
    max_level: Option<LevelFilter>,
}

/// Whether the maximum level lets a message of `level` through; nothing
/// passes before a maximum level is set.
pub open spec fn max_level_admits(max_level: Option<LevelFilter>, level: Level) -> bool {
    match max_level {
        Some(max) => max.allows(level),
        None => false,
    }
}

impl<L: Log> LoggerRegistry<L> {
    /// The installed logger.
    pub closed spec fn logger_spec(self) -> Option<L> {
        self.logger
    }

    /// The maximum level.
    pub closed spec fn max_level_spec(self) -> Option<LevelFilter> {
        self.max_level
    }

    /// Nothing installed yet.
    pub fn new() -> (r: Self)
        ensures
            r.logger_spec() is None,
            r.max_level_spec() is None,
    {
        LoggerRegistry { logger: None, max_level: None }
    }

    /// Installs the logger, unless one is installed already.
    pub fn set_boxed_logger(&mut self, logger: L) -> (r: Result<(), SetLoggerError>)
        ensures
            r is Ok <==> old(self).logger_spec() is None,
            final(self).logger_spec() == (if old(self).logger_spec() is None {
                Some(logger)
            } else {
                old(self).logger_spec()
            }),
            final(self).max_level_spec() == old(self).max_level_spec(),
    {
        if self.logger.is_some() {
            return Err(SetLoggerError);
        }
        self.logger = Some(logger);
        Ok(())
    }

    /// Sets the maximum level, unless one is set already.
    pub fn set_max_level(&mut self, level: LevelFilter)
        ensures
            final(self).max_level_spec() == (if old(self).max_level_spec() is None {
                Some(level)
            } else {
                old(self).max_level_spec()
            }),
            final(self).logger_spec() == old(self).logger_spec(),
    {
        if self.max_level.is_none() {
            self.max_level = Some(level);
        }
    }

    /// Installs the logger and then the maximum level; once a logger is
    /// installed, a further one is refused and nothing changes.
    pub fn install(&mut self, logger: L, level: LevelFilter) -> (r: Result<(), SetLoggerError>)
        ensures
            install_outcome(*old(self), logger, level, *final(self), r),
    {
        match self.set_boxed_logger(logger) {
            Ok(()) => {
                self.set_max_level(level);
                Ok(())
            },
            Err(e) => Err(e),
        }
    }

    /// Checks a message against the maximum level.
    pub fn passes_max_level(&self, level: Level) -> (r: bool)
        ensures
            r == max_level_admits(self.max_level_spec(), level),
    {
        match self.max_level {
            Some(max) => max.is_enabled(level),
            None => false,
        }
    }

    /// The installed logger, if any.
    pub fn logger(&self) -> (r: Option<&L>)
        ensures
            r is Some <==> self.logger_spec() is Some,
            r is Some ==> *r->0 == self.logger_spec()->0,
    {
        self.logger.as_ref()
    }
}

/// A first installation succeeds, with the logger and the level given, and a
/// second one is refused and leaves the state as the first left it.
pub proof fn lemma_install_once<L: Log>(
    fresh: LoggerRegistry<L>,
    first: LoggerRegistry<L>,
    second: LoggerRegistry<L>,
    first_result: Result<(), SetLoggerError>,
    second_result: Result<(), SetLoggerError>,
    logger: L,
    level: LevelFilter,
    other: L,
    other_level: LevelFilter,
)
    requires
        fresh.logger_spec() is None,
        fresh.max_level_spec() is None,
        install_outcome(fresh, logger, level, first, first_result),
        install_outcome(first, other, other_level, second, second_result),
    ensures
        first_result is Ok,
        first.logger_spec() == Some(logger),
        first.max_level_spec() == Some(level),
        second_result is Err,
        second == first,
{
}

/// What `install` promises of a call on `before` with `logger` and `level`
/// that left `after` and returned `result`.
pub open spec fn install_outcome<L: Log>(
    before: LoggerRegistry<L>,
    logger: L,
    level: LevelFilter,
    after: LoggerRegistry<L>,
    result: Result<(), SetLoggerError>,
) -> bool {
    &&& (result is Ok <==> before.logger_spec() is None)
    &&& result is Ok ==> after.logger_spec() == Some(logger) && after.max_level_spec() == (if before.max_level_spec() is None {
        Some(level)
    } else {
        before.max_level_spec()
    })
    &&& result is Err ==> after == before
}

} // verus!

use vstd::prelude::*;

use crate::level::{level_name, Level, Record};

verus! {

/// A level name padded with spaces on the right to five characters.
pub open spec fn padded_level_name(level: Level) -> Seq<char> {
    let name = level_name(level);
    if name.len() < 5 {
        name + Seq::new((5 - name.len()) as nat, |i: int| ' ')
    } else {
        name
    }
}

/// One log line: `timestamp LEVEL [target] message`, with the level padded to
/// five characters and a final newline.
pub open spec fn log_line(
    timestamp: Seq<char>,
    level: Level,
    target: Seq<char>,
    message: Seq<char>,
) -> Seq<char> {
    timestamp + seq![' '] + padded_level_name(level) + seq![' ', '['] + target + seq![']', ' ']
        + message + seq!['\n']
}

/// Where the parts of a log line stand: the timestamp first, then after one
/// space the level name, then the target after ` [`, then the message after
/// `] `, and the newline last.
pub proof fn lemma_log_line_layout(
    timestamp: Seq<char>,
    level: Level,
    target: Seq<char>,
    message: Seq<char>,
)
    ensures
        ({
            let line = log_line(timestamp, level, target, message);
            let t = timestamp.len() as int;
            let name = level_name(level);
            let after_level = t + 1 + padded_level_name(level).len() + 2;
            let after_target = after_level + target.len() + 2;
            &&& line.len() == after_target + message.len() + 1
            &&& line.subrange(0, t) == timestamp
            &&& line.subrange(t + 1, t + 1 + name.len()) == name
            &&& line.subrange(after_level, after_level + target.len()) == target
            &&& line.subrange(after_target, after_target + message.len()) == message
            &&& line.last() == '\n'
        }),
{
    let line = log_line(timestamp, level, target, message);
    let t = timestamp.len() as int;
    let name = level_name(level);
    let after_level = t + 1 + padded_level_name(level).len() + 2;
    let after_target = after_level + target.len() + 2;
    assert(line.subrange(0, t) =~= timestamp);
    assert(line.subrange(t + 1, t + 1 + name.len()) =~= name);
    assert(line.subrange(after_level, after_level + target.len()) =~= target);
    assert(line.subrange(after_target, after_target + message.len()) =~= message);
}

/// The strftime pattern of the timestamp: date, time and milliseconds.
pub open spec fn timestamp_pattern() -> Seq<char> {
    seq![
        '%', 'Y', '-', '%', 'm', '-', '%', 'd', ' ', '%', 'H', ':', '%', 'M', ':', '%', 'S',
        '%', '.', '3', 'f',
    ]
}

/// An ASCII decimal digit.
pub open spec fn is_digit(c: char) -> bool {
    '0' <= c && c <= '9'
}

/// The year as chrono writes it for `%Y`: four digits, or, outside
/// 0..=9999, a sign followed by at least four digits.
pub open spec fn is_year_text(year: Seq<char>) -> bool {
    ||| year.len() == 4 && forall|i: int| 0 <= i < 4 ==> is_digit(#[trigger] year[i])
    ||| year.len() >= 5 && (year[0] == '+' || year[0] == '-') && forall|i: int|
        1 <= i < year.len() ==> is_digit(#[trigger] year[i])
}

/// `-MM-DD HH:MM:SS.mmm`: the rest of a timestamp after the year.
pub open spec fn is_clock_text(rest: Seq<char>) -> bool {
    &&& rest.len() == 19
    &&& rest[0] == '-' && rest[3] == '-' && rest[6] == ' '
    &&& rest[9] == ':' && rest[12] == ':' && rest[15] == '.'
    &&& forall|i: int|
        0 <= i < 19 && i != 0 && i != 3 && i != 6 && i != 9 && i != 12 && i != 15 ==> is_digit(
            #[trigger] rest[i],
        )
}

/// A timestamp as the library's pattern renders it: `YYYY-MM-DD HH:MM:SS.mmm`,
/// the year possibly signed and longer outside 0..=9999.
pub open spec fn is_timestamp_text(stamp: Seq<char>) -> bool {
    &&& stamp.len() >= 23
    &&& is_year_text(stamp.take(stamp.len() - 19))
    &&& is_clock_text(stamp.skip(stamp.len() - 19))
}

/// `line` is the log line of `record` for some timestamp of the library's shape.
pub open spec fn is_log_line_of(line: Seq<char>, record: Record) -> bool {
    exists|timestamp: Seq<char>|
        is_timestamp_text(timestamp) && line == #[trigger] log_line(
            timestamp,
            record.metadata_spec().level_spec(),
            record.metadata_spec().target_spec(),
            record.args_spec(),
        )
}

/// The current local time written with `pattern`, by
/// `chrono::Local::now().format(pattern)`.
///
/// Which time it is depends on the clock and the local time zone; what holds
/// of every outcome is its shape. chrono writes `%Y` as four zero-padded
/// digits, or with a sign and at least four digits outside 0..=9999
/// (`write_year`); `%m`, `%d`, `%H`, `%M` and `%S` as two zero-padded digits
/// (`write_two`, the seconds being at most 60); and `%.3f` as the decimal
/// point `.` and three digits. The pattern is limited to the one the library
/// uses, whose items chrono renders without error, so the conversion to a
/// string does not panic. `chrono::Local::now` itself panics only on the
/// machine's state, not on any argument: when the clock reads a time before
/// 1970 or the local time-zone data cannot be used.
#[verifier::external_body]
fn local_time_text(pattern: &str) -> (r: String)
    requires
        pattern@ == timestamp_pattern(),
    ensures
        is_timestamp_text(r@),
{
    chrono::Local::now().format(pattern).to_string()
}

/// A level name padded to five characters.
fn padded_name(level: Level) -> (r: &'static str)
    ensures
        r@ == padded_level_name(level),
{
    match level {
        Level::Trace => {
            proof {
                reveal_strlit("TRACE");
            }
            "TRACE"
        },
        Level::Debug => {
            proof {
                reveal_strlit("DEBUG");
            }
            "DEBUG"
        },
        Level::Info => {
            proof {
                reveal_strlit("INFO ");
                assert("INFO "@ =~= padded_level_name(level));
            }
            "INFO "
        },
        Level::Warn => {
            proof {
                reveal_strlit("WARN ");
                assert("WARN "@ =~= padded_level_name(level));
            }
            "WARN "
        },
        Level::Error => {
            proof {
                reveal_strlit("ERROR");
            }
            "ERROR"
        },
    }
}

/// Writes one log line from its parts.
pub fn format_log_line(timestamp: &str, level: Level, target: &str, message: &str) -> (r: String)
    ensures
        r@ == log_line(timestamp@, level, target@, message@),
{
    proof {
        reveal_strlit(" ");
        reveal_strlit(" [");
        reveal_strlit("] ");
        reveal_strlit("\n");
    }
    let mut line = String::from_str(timestamp);
    line.append(" ");
    line.append(padded_name(level));
    line.append(" [");
    line.append(target);
    line.append("] ");
    line.append(message);
    line.append("\n");
    assert(line@ =~= log_line(timestamp@, level, target@, message@));
    line
}

/// Writes the log line of a record, stamped with the current local time.
pub fn format_log_message(record: &Record) -> (r: String)
    ensures
        is_log_line_of(r@, *record),
{
    let pattern = "%Y-%m-%d %H:%M:%S%.3f";
    proof {
        reveal_strlit("%Y-%m-%d %H:%M:%S%.3f");
        assert(pattern@ =~= timestamp_pattern());
    }
    let timestamp = local_time_text(pattern);
    let line = format_log_line(timestamp.as_str(), record.level(), record.target(), record.args());
    assert(line@ == log_line(
        timestamp@,
        record.metadata_spec().level_spec(),
        record.metadata_spec().target_spec(),
        record.args_spec(),
    ));
    line
}

} // verus!

use vstd::prelude::*;
use vstd::string::StrSliceExecFns;

verus! {

/// Severity of a log message, totally ordered `Debug < Info < Warning < Error`.
#[derive(Clone, Copy, PartialEq, Eq, Structural, Debug)]
pub enum LogLevel {
    Debug,
    Info,
    Warning,
    Error,
}

impl LogLevel {
    /// Numeric rank realizing the total order on severities.
    pub open spec fn rank(self) -> int {
        match self {
            LogLevel::Debug => 0,
            LogLevel::Info => 1,
            LogLevel::Warning => 2,
            LogLevel::Error => 3,
        }
    }

    /// Executable counterpart of `rank`.
    pub fn as_rank(self) -> (r: u8)
        ensures
            r as int == self.rank(),
    {
        match self {
            LogLevel::Debug => 0u8,
            LogLevel::Info => 1u8,
            LogLevel::Warning => 2u8,
            LogLevel::Error => 3u8,
        }
    }
}

/// One position of an ASCII case-insensitive keyword match: the character
/// must be the keyword's letter, in either case.
pub open spec fn ci_char(c: char, low: char, up: char) -> bool {
    c == low || c == up
}

/// `s` spells "DEBUG", ASCII case-insensitively.
pub open spec fn is_debug_name(s: Seq<char>) -> bool {
    &&& s.len() == 5
    &&& ci_char(s[0], 'd', 'D')
    &&& ci_char(s[1], 'e', 'E')
    &&& ci_char(s[2], 'b', 'B')
    &&& ci_char(s[3], 'u', 'U')
    &&& ci_char(s[4], 'g', 'G')
}

/// `s` spells "INFO", ASCII case-insensitively.
pub open spec fn is_info_name(s: Seq<char>) -> bool {
    &&& s.len() == 4
    &&& ci_char(s[0], 'i', 'I')
    &&& ci_char(s[1], 'n', 'N')
    &&& ci_char(s[2], 'f', 'F')
    &&& ci_char(s[3], 'o', 'O')
}

/// `s` spells "WARNING", ASCII case-insensitively.
pub open spec fn is_warning_name(s: Seq<char>) -> bool {
    &&& s.len() == 7
    &&& ci_char(s[0], 'w', 'W')
    &&& ci_char(s[1], 'a', 'A')
    &&& ci_char(s[2], 'r', 'R')
    &&& ci_char(s[3], 'n', 'N')
    &&& ci_char(s[4], 'i', 'I')
    &&& ci_char(s[5], 'n', 'N')
    &&& ci_char(s[6], 'g', 'G')
}

/// `s` spells "ERROR", ASCII case-insensitively.
pub open spec fn is_error_name(s: Seq<char>) -> bool {
    &&& s.len() == 5
    &&& ci_char(s[0], 'e', 'E')
    &&& ci_char(s[1], 'r', 'R')
    &&& ci_char(s[2], 'r', 'R')
    &&& ci_char(s[3], 'o', 'O')
    &&& ci_char(s[4], 'r', 'R')
}

/// The severity a textual level denotes: one of the four names matched
/// case-insensitively; any other text falls back to `Info`.
pub open spec fn spec_level_of(s: Seq<char>) -> LogLevel {
    if is_debug_name(s) {
        LogLevel::Debug
    } else if is_info_name(s) {
        LogLevel::Info
    } else if is_warning_name(s) {
        LogLevel::Warning
    } else if is_error_name(s) {
        LogLevel::Error
    } else {
        LogLevel::Info
    }
}

impl LogLevel {
    /// Parse a textual severity; unrecognized names become `Info`.
    pub fn from_str(level: &str) -> (r: LogLevel)
        ensures
            r == spec_level_of(level@),
    {
        let n = level.unicode_len();
        if n == 5 {
            let c0 = level.get_char(0);
            let c1 = level.get_char(1);
            let c2 = level.get_char(2);
            let c3 = level.get_char(3);
            let c4 = level.get_char(4);
            if (c0 == 'd' || c0 == 'D') && (c1 == 'e' || c1 == 'E') && (c2 == 'b' || c2 == 'B')
                && (c3 == 'u' || c3 == 'U') && (c4 == 'g' || c4 == 'G') {
                LogLevel::Debug
            } else if (c0 == 'e' || c0 == 'E') && (c1 == 'r' || c1 == 'R')
                && (c2 == 'r' || c2 == 'R') && (c3 == 'o' || c3 == 'O')
                && (c4 == 'r' || c4 == 'R') {
                LogLevel::Error
            } else {
                LogLevel::Info
            }
        } else if n == 4 {
            let c0 = level.get_char(0);
            let c1 = level.get_char(1);
            let c2 = level.get_char(2);
            let c3 = level.get_char(3);
            if (c0 == 'i' || c0 == 'I') && (c1 == 'n' || c1 == 'N') && (c2 == 'f' || c2 == 'F')
                && (c3 == 'o' || c3 == 'O') {
                LogLevel::Info
            } else {
                LogLevel::Info
            }
        } else if n == 7 {
            let c0 = level.get_char(0);
            let c1 = level.get_char(1);
            let c2 = level.get_char(2);
            let c3 = level.get_char(3);
            let c4 = level.get_char(4);
            let c5 = level.get_char(5);
            let c6 = level.get_char(6);
            if (c0 == 'w' || c0 == 'W') && (c1 == 'a' || c1 == 'A') && (c2 == 'r' || c2 == 'R')
                && (c3 == 'n' || c3 == 'N') && (c4 == 'i' || c4 == 'I') && (c5 == 'n' || c5 == 'N')
                && (c6 == 'g' || c6 == 'G') {
                LogLevel::Warning
            } else {
                LogLevel::Info
            }
        } else {
            LogLevel::Info
        }
    }
}

/// The text of the fixed level name "DEBUG".
pub open spec fn spec_debug_name() -> Seq<char> {
    seq!['D', 'E', 'B', 'U', 'G']
}

/// The text of the fixed level name "INFO".
pub open spec fn spec_info_name() -> Seq<char> {
    seq!['I', 'N', 'F', 'O']
}

/// The text of the fixed level name "WARNING".
pub open spec fn spec_warning_name() -> Seq<char> {
    seq!['W', 'A', 'R', 'N', 'I', 'N', 'G']
}

/// The text of the fixed level name "ERROR".
pub open spec fn spec_error_name() -> Seq<char> {
    seq!['E', 'R', 'R', 'O', 'R']
}

/// The level filter: a message of severity `msg_level` passes a logger whose
/// minimum severity is `min_level` exactly when its rank is at least as high.
pub fn should_log(msg_level: LogLevel, min_level: LogLevel) -> (r: bool)
    ensures
        r == (msg_level.rank() >= min_level.rank()),
{
    msg_level.as_rank() >= min_level.as_rank()
}

} // verus!

use vstd::prelude::*;

verus! {

/// The upper-case folding of a string, as `str::to_uppercase` computes it.
pub uninterp spec fn upper_of(s: Seq<char>) -> Seq<char>;

/// Relies on str::to_uppercase: the result depends on the characters alone,
/// and an empty string stays empty.
#[verifier::external_body]
fn to_upper(s: &str) -> (r: String)
    ensures
        r@ == upper_of(s@),
        s@.len() == 0 ==> r@.len() == 0,
{
    s.to_uppercase()
}

/// Severity of a log event, ordered from least to most severe.
#[derive(Debug, PartialEq, Eq, Clone, Copy, Structural)]
pub enum LogLevel {
    TRACE,
    DEBUG,
    INFO,
    WARN,
    ERROR,
    FATAL,
}

impl LogLevel {
    /// Numeric rank of a level; greater means more severe.
    pub open spec fn rank(self) -> int {
        match self {
            LogLevel::TRACE => 0,
            LogLevel::DEBUG => 1,
            LogLevel::INFO => 2,
            LogLevel::WARN => 3,
            LogLevel::ERROR => 4,
            LogLevel::FATAL => 5,
        }
    }

    /// The canonical upper-case name of a level.
    pub open spec fn name(self) -> Seq<char> {
        match self {
            LogLevel::TRACE => "TRACE"@,
            LogLevel::DEBUG => "DEBUG"@,
            LogLevel::INFO => "INFO"@,
            LogLevel::WARN => "WARN"@,
            LogLevel::ERROR => "ERROR"@,
            LogLevel::FATAL => "FATAL"@,
        }
    }

    /// Parses a level name, ignoring case: the level whose canonical name is
    /// the upper-case folding of the input, if there is one.
    pub fn from_str(level: &str) -> (r: Option<LogLevel>)
        ensures
            match r {
                Some(l) => upper_of(level@) == l.name(),
                None => forall|l: LogLevel| upper_of(level@) != l.name(),
            },
    {
        let up = to_upper(level);
        let r: Option<LogLevel> = if up == String::from_str("TRACE") {
            Some(LogLevel::TRACE)
        } else if up == String::from_str("DEBUG") {
            Some(LogLevel::DEBUG)
        } else if up == String::from_str("INFO") {
            Some(LogLevel::INFO)
        } else if up == String::from_str("WARN") {
            Some(LogLevel::WARN)
        } else if up == String::from_str("ERROR") {
            Some(LogLevel::ERROR)
        } else if up == String::from_str("FATAL") {
            Some(LogLevel::FATAL)
        } else {
            None
        };
        r
    }

    /// Renders a level as its canonical name.
    pub fn as_str(&self) -> (r: &'static str)
        ensures
            r@ == self.name(),
    {
        match self {
            LogLevel::TRACE => "TRACE",
            LogLevel::DEBUG => "DEBUG",
            LogLevel::INFO => "INFO",
            LogLevel::WARN => "WARN",
            LogLevel::ERROR => "ERROR",
            LogLevel::FATAL => "FATAL",
        }
    }
}

} // verus!

use vstd::prelude::*;
use crate::text::{find_from, find_char_from};
use crate::handlers::SinkError;
use std::io::Write;

verus! {

/// The level-based visual distinction of a formatted line: when the line
/// holds a bracketed known level name, the whole line is wrapped in that
/// level's colour codes; otherwise it is unchanged.
pub open spec fn colorize_spec(s: Seq<char>) -> Seq<char> {
    match find_from(s, '[', 0) {
        None => s,
        Some(st) => match find_from(s, ']', st + 1) {
            None => s,
            Some(en) => {
                let level = s.subrange(st + 1, en);
                if level == "DEBUG"@ {
                    "\x1b[32m"@ + s + "\x1b[0m"@
                } else if level == "INFO"@ {
                    "\x1b[34m"@ + s + "\x1b[0m"@
                } else if level == "WARN"@ {
                    "\x1b[33m"@ + s + "\x1b[0m"@
                } else if level == "ERROR"@ {
                    "\x1b[31m"@ + s + "\x1b[0m"@
                } else if level == "FATAL"@ {
                    "\x1b[41;37m"@ + s + "\x1b[0m"@
                } else {
                    s
                }
            },
        },
    }
}

/// Relies on std::io::stdout, through writeln: a best-effort write to the
/// operator console; a write error is swallowed, never surfaced.
#[verifier::external_body]
fn print_line(line: &str) {
    let mut out = std::io::stdout();
    let _ = writeln!(out, "{}", line);
}

/// Writes formatted lines to the operator console, colour-coded by level.
pub struct ConsoleHandler {
}

impl ConsoleHandler {
    /// Builds a console sink.
    pub fn new() -> (r: ConsoleHandler) {
        ConsoleHandler {  }
    }

    /// Wraps a line in the colour codes its bracketed level calls for.
    pub fn colorize(formatted: &str) -> (r: String)
        ensures
            r@ == colorize_spec(formatted@),
    {
        let n = formatted.unicode_len();
        let wrap = match find_char_from(formatted, '[', 0) {
            None => None,
            Some(st) => {
                match find_char_from(formatted, ']', st + 1) {
                    None => None,
                    Some(en) => {
                        let level = formatted.substring_char(st + 1, en).to_owned();
                        if level == String::from_str("DEBUG") {
                            Some("\x1b[32m")
                        } else if level == String::from_str("INFO") {
                            Some("\x1b[34m")
                        } else if level == String::from_str("WARN") {
                            Some("\x1b[33m")
                        } else if level == String::from_str("ERROR") {
                            Some("\x1b[31m")
                        } else if level == String::from_str("FATAL") {
                            Some("\x1b[41;37m")
                        } else {
                            None
                        }
                    },
                }
            },
        };
        match wrap {
            Some(code) => {
                let mut out = String::from_str(code);
                out.append(formatted);
                out.append("\x1b[0m");
                out
            },
            None => String::from_str(formatted),
        }
    }

    /// Colours the line by its level and writes it to the console; never
    /// fails in a way that halts the pipeline.
    pub fn emit(&self, formatted: &str) -> (r: Result<(), SinkError>)
        ensures
            r is Ok,
    {
        let colored = ConsoleHandler::colorize(formatted);
        print_line(colored.as_str());
        Ok(())
    }
}

} // verus!

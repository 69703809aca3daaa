use vstd::prelude::*;
use crate::text::{replace_spec, replace_all, json_quoted, quote_json};

verus! {

/// Renders log records as a JSON object with timestamp, level, message and
/// metadata members, in that order. The metadata argument is spliced in as
/// already-rendered JSON text.
pub struct JsonFormatter;

/// The JSON rendering of one record.
pub open spec fn json_format_spec(
    timestamp: Seq<char>,
    level: Seq<char>,
    message: Seq<char>,
    metadata: Seq<char>,
) -> Seq<char> {
    "{\"timestamp\":"@ + json_quoted(timestamp) + ",\"level\":"@ + json_quoted(level)
        + ",\"message\":"@ + json_quoted(message) + ",\"metadata\":"@ + metadata + "}"@
}

impl JsonFormatter {
    /// Renders one record as JSON text.
    pub fn format(&self, level: &str, message: &str, metadata: &str, timestamp: &str) -> (r:
        String)
        ensures
            r@ == json_format_spec(timestamp@, level@, message@, metadata@),
    {
        let mut out = String::from_str("{\"timestamp\":");
        let q_ts = quote_json(timestamp);
        out.append(q_ts.as_str());
        out.append(",\"level\":");
        let q_level = quote_json(level);
        out.append(q_level.as_str());
        out.append(",\"message\":");
        let q_msg = quote_json(message);
        out.append(q_msg.as_str());
        out.append(",\"metadata\":");
        out.append(metadata);
        out.append("}");
        out
    }
}

/// Renders log records through a text template: the placeholders
/// `{timestamp}`, `{level}`, `{message}` and `{metadata}` are substituted,
/// in that order.
pub struct TextFormatter {
    pattern: String,
}

impl TextFormatter {
    /// The template used when none is configured.
    pub open spec fn default_pattern() -> Seq<char> {
        "{timestamp} [{level}] - {message} - {metadata}"@
    }

    /// The template this formatter substitutes into.
    pub closed spec fn pattern_spec(self) -> Seq<char> {
        self.pattern@
    }

    /// Builds a formatter from the given template, or from the default one.
    pub fn new(pattern: Option<String>) -> (r: TextFormatter)
        ensures
            r.pattern_spec() == match pattern {
                Some(p) => p@,
                None => TextFormatter::default_pattern(),
            },
    {
        match pattern {
            Some(p) => TextFormatter { pattern: p },
            None => TextFormatter {
                pattern: String::from_str("{timestamp} [{level}] - {message} - {metadata}"),
            },
        }
    }

    /// The text rendering of one record through a template.
    pub open spec fn format_spec(
        pattern: Seq<char>,
        timestamp: Seq<char>,
        level: Seq<char>,
        message: Seq<char>,
        metadata: Seq<char>,
    ) -> Seq<char> {
        replace_spec(
            replace_spec(
                replace_spec(replace_spec(pattern, "{timestamp}"@, timestamp), "{level}"@, level),
                "{message}"@,
                message,
            ),
            "{metadata}"@,
            metadata,
        )
    }

    /// Substitutes the placeholders of the template.
    pub fn format(&self, level: &str, message: &str, metadata: &str, timestamp: &str) -> (r:
        String)
        ensures
            r@ == TextFormatter::format_spec(
                self.pattern_spec(),
                timestamp@,
                level@,
                message@,
                metadata@,
            ),
    {
        proof {
            reveal_strlit("{timestamp}");
            reveal_strlit("{level}");
            reveal_strlit("{message}");
            reveal_strlit("{metadata}");
        }
        let a = replace_all(self.pattern.as_str(), "{timestamp}", timestamp);
        let b = replace_all(a.as_str(), "{level}", level);
        let c = replace_all(b.as_str(), "{message}", message);
        replace_all(c.as_str(), "{metadata}", metadata)
    }
}

/// The closed set of configurable formatters.
pub enum Formatter {
    Json(JsonFormatter),
    Text(TextFormatter),
}

impl Formatter {
    /// What this formatter renders one record to.
    pub open spec fn format_view(
        self,
        timestamp: Seq<char>,
        level: Seq<char>,
        message: Seq<char>,
        metadata: Seq<char>,
    ) -> Seq<char> {
        match self {
            Formatter::Json(_) => json_format_spec(timestamp, level, message, metadata),
            Formatter::Text(t) => TextFormatter::format_spec(
                t.pattern_spec(),
                timestamp,
                level,
                message,
                metadata,
            ),
        }
    }

    /// Renders one record.
    pub fn format(&self, level: &str, message: &str, metadata: &str, timestamp: &str) -> (r:
        String)
        ensures
            r@ == self.format_view(timestamp@, level@, message@, metadata@),
    {
        match self {
            Formatter::Json(f) => f.format(level, message, metadata, timestamp),
            Formatter::Text(f) => f.format(level, message, metadata, timestamp),
        }
    }
}

} // verus!

use vstd::prelude::*;
use vstd::string::StringSliceAdditionalSpecFns;
use std::collections::VecDeque;
use crate::level::LogLevel;
use crate::config::{LogConfig, HandlerConfig};
use crate::formatters::{Formatter, TextFormatter, JsonFormatter};
use crate::handlers::LogHandler;
use crate::handlers::console_handler::ConsoleHandler;
use crate::handlers::file_handler::{
    FileHandler,
    FileHandlerError,
    RotationPlan,
    suffixed_name,
    sat_add_u64,
    gzip_of,
    gzip_bytes,
};
use crate::handlers::memory_handler::{MemoryHandler, ring_push};
use crate::handlers::remote_handler::{RemoteHandler, backoff_spec};
use crate::metrics::{MetricsManager, counter_inc};
use crate::security::{
    SecurityManager,
    SecurityError,
    sanitize_spec,
    cipher_blob,
    hash_spec,
    default_pattern_spec,
    regex_compiles,
    all_compile,
    fresh_random_bytes,
};
use crate::text::{json_quoted, quote_json};

verus! {

/// Relies on chrono::Utc::now and to_rfc3339: the current time in RFC 3339
/// form; the value depends on the clock, so nothing is promised of it.
#[verifier::external_body]
fn now_rfc3339() -> String {
    chrono::Utc::now().to_rfc3339()
}

/// Relies on chrono::Utc::now and DateTime::format: the current UTC time as
/// a compact year-to-second stamp for rotated-artifact names; the value
/// depends on the clock, so nothing is promised of it.
#[verifier::external_body]
fn now_stamp() -> String {
    chrono::Utc::now().format("%Y%m%d%H%M%S").to_string()
}

/// A fresh opaque event identity, assembled from sixteen random bytes.
fn fresh_id() -> u128 {
    let b = fresh_random_bytes();
    let mut id: u128 = 0;
    let mut i: usize = 0;
    while i < b.len()
        invariant
            i <= b@.len(),
        decreases b@.len() - i,
    {
        id = (id << 8u128) | (b[i] as u128);
        i = i + 1;
    }
    id
}

/// Failures of the logging engine.
#[derive(Debug)]
pub enum LoggerError {
    HandlerError(String),
    FormatterError(String),
    SecurityError(String),
}

/// An open key-value document attached to an event.
pub struct Metadata {
    pub entries: Vec<(String, String)>,
}

/// One rendered `"key":"value"` member.
pub open spec fn meta_item_spec(e: (Seq<char>, Seq<char>)) -> Seq<char> {
    json_quoted(e.0) + ":"@ + json_quoted(e.1)
}

/// The comma-separated members of a rendered document.
pub open spec fn meta_items_spec(entries: Seq<(Seq<char>, Seq<char>)>, first: bool) -> Seq<char>
    decreases entries.len(),
{
    if entries.len() == 0 {
        Seq::empty()
    } else {
        (if first {
            Seq::<char>::empty()
        } else {
            ","@
        }) + meta_item_spec(entries[0]) + meta_items_spec(entries.drop_first(), false)
    }
}

/// A document rendered as a JSON object, members in insertion order.
pub open spec fn meta_obj_spec(entries: Seq<(Seq<char>, Seq<char>)>) -> Seq<char> {
    "{"@ + meta_items_spec(entries, true) + "}"@
}

impl Metadata {
    /// The entries as key-value pairs, in insertion order.
    pub open spec fn entries_spec(self) -> Seq<(Seq<char>, Seq<char>)> {
        Seq::new(self.entries@.len(), |i: int| (self.entries@[i].0@, self.entries@[i].1@))
    }

    /// An empty document.
    pub fn new() -> (r: Metadata)
        ensures
            r.entries_spec() == Seq::<(Seq<char>, Seq<char>)>::empty(),
    {
        let r = Metadata { entries: Vec::new() };
        proof {
            assert(r.entries_spec() =~= Seq::<(Seq<char>, Seq<char>)>::empty());
        }
        r
    }

    /// Appends one key-value pair.
    pub fn add(&mut self, key: String, value: String)
        ensures
            final(self).entries_spec() == old(self).entries_spec().push((key@, value@)),
    {
        let ghost olds = self.entries_spec();
        let ghost kv = (key@, value@);
        self.entries.push((key, value));
        proof {
            assert(self.entries_spec() =~= olds.push(kv));
        }
    }

    /// Renders the document as a JSON object.
    pub fn render(&self) -> (r: String)
        ensures
            r@ == meta_obj_spec(self.entries_spec()),
    {
        let ghost es = self.entries_spec();
        let mut out = String::from_str("{");
        let mut i: usize = 0;
        proof {
            assert(es.skip(0) =~= es);
        }
        while i < self.entries.len()
            invariant
                i <= es.len(),
                es == self.entries_spec(),
                es.len() == self.entries@.len(),
                out@ + meta_items_spec(es.skip(i as int), i == 0) == "{"@ + meta_items_spec(
                    es,
                    true,
                ),
            decreases es.len() - i,
        {
            let ghost rest = es.skip(i as int);
            let ghost pre = out@;
            if i > 0 {
                out.append(",");
            }
            let qk = quote_json(self.entries[i].0.as_str());
            out.append(qk.as_str());
            out.append(":");
            let qv = quote_json(self.entries[i].1.as_str());
            out.append(qv.as_str());
            proof {
                assert(rest[0] == es[i as int]);
                assert(rest.drop_first() =~= es.skip(i + 1));
                assert(meta_items_spec(rest, i == 0) == (if i == 0 {
                    Seq::<char>::empty()
                } else {
                    ","@
                }) + meta_item_spec(es[i as int]) + meta_items_spec(es.skip(i + 1), false));
                assert(out@ =~= pre + ((if i == 0 {
                    Seq::<char>::empty()
                } else {
                    ","@
                }) + meta_item_spec(es[i as int])));
                assert(out@ + meta_items_spec(es.skip(i + 1), false) =~= pre + meta_items_spec(
                    rest,
                    i == 0,
                ));
            }
            i = i + 1;
        }
        proof {
            assert(es.skip(es.len() as int) =~= Seq::<(Seq<char>, Seq<char>)>::empty());
        }
        out.append("}");
        out
    }
}

/// One discrete log record flowing through the pipeline; immutable from
/// creation until consumed.
pub struct LogMessage {
    pub id: u128,
    pub level: LogLevel,
    pub message: String,
    pub metadata: Metadata,
    pub timestamp: String,
}

/// The abstract state of one configured sink.
pub enum HandlerView {
    Console,
    File { path: Seq<char>, max_size: u64, current_size: u64 },
    Memory { capacity: nat, logs: Seq<Seq<char>> },
    Remote { address: Seq<char>, port: u16, retries: nat },
}

impl LogHandler {
    /// The abstract state a sink is in.
    pub open spec fn view_spec(self) -> HandlerView {
        match self {
            LogHandler::Console(_) => HandlerView::Console,
            LogHandler::File(f) => HandlerView::File {
                path: f.path_spec(),
                max_size: f.max_size_spec(),
                current_size: f.current_size_spec(),
            },
            LogHandler::Memory(m) => HandlerView::Memory {
                capacity: m.capacity_spec(),
                logs: m.logs(),
            },
            LogHandler::Remote(r) => HandlerView::Remote {
                address: r.address_spec(),
                port: r.port_spec(),
                retries: r.retries_spec(),
            },
        }
    }
}

/// The abstract states of a list of sinks.
pub open spec fn views_of(hs: Seq<LogHandler>) -> Seq<HandlerView> {
    Seq::new(hs.len(), |i: int| hs[i].view_spec())
}

/// The file path a descriptor configures, or the default.
pub open spec fn file_path_param(c: HandlerConfig) -> Seq<char> {
    match c.config {
        Some(p) => match p.file_path {
            Some(s) => s@,
            None => "logs/app.log"@,
        },
        None => "logs/app.log"@,
    }
}

/// The rotation threshold a descriptor configures, or the default.
pub open spec fn max_size_param(c: HandlerConfig) -> u64 {
    match c.config {
        Some(p) => match p.max_size {
            Some(m) => m,
            None => 10485760u64,
        },
        None => 10485760u64,
    }
}

/// The remote host a descriptor configures, or the default.
pub open spec fn address_param(c: HandlerConfig) -> Seq<char> {
    match c.config {
        Some(p) => match p.address {
            Some(s) => s@,
            None => "127.0.0.1"@,
        },
        None => "127.0.0.1"@,
    }
}

/// The remote port a descriptor configures, or the default.
pub open spec fn port_param(c: HandlerConfig) -> u16 {
    match c.config {
        Some(p) => match p.port {
            Some(n) => n,
            None => 9000,
        },
        None => 9000,
    }
}

/// The retry budget a descriptor configures, or the default of three.
pub open spec fn retries_param(c: HandlerConfig) -> nat {
    match c.config {
        Some(p) => match p.retries {
            Some(n) => (n as usize) as nat,
            None => 3nat,
        },
        None => 3nat,
    }
}

/// The ring capacity a descriptor configures, or the default.
pub open spec fn capacity_param(c: HandlerConfig) -> nat {
    match c.config {
        Some(p) => match p.capacity {
            Some(n) => (n as usize) as nat,
            None => 1000nat,
        },
        None => 1000nat,
    }
}

/// The sink a descriptor stands for, in its initial state; a descriptor of
/// unknown kind stands for none.
pub open spec fn handler_view_of(c: HandlerConfig) -> Option<HandlerView> {
    if c.type_@ == "console"@ {
        Some(HandlerView::Console)
    } else if c.type_@ == "file"@ {
        Some(
            HandlerView::File {
                path: file_path_param(c),
                max_size: max_size_param(c),
                current_size: 0,
            },
        )
    } else if c.type_@ == "remote"@ {
        Some(
            HandlerView::Remote {
                address: address_param(c),
                port: port_param(c),
                retries: retries_param(c),
            },
        )
    } else if c.type_@ == "memory"@ {
        Some(HandlerView::Memory { capacity: capacity_param(c), logs: Seq::empty() })
    } else {
        None
    }
}

/// The sinks a descriptor list stands for, in configuration order, unknown
/// kinds skipped.
pub open spec fn build_handlers_spec(cfgs: Seq<HandlerConfig>) -> Seq<HandlerView>
    decreases cfgs.len(),
{
    if cfgs.len() == 0 {
        Seq::empty()
    } else {
        (match handler_view_of(cfgs[0]) {
            Some(h) => seq![h],
            None => Seq::<HandlerView>::empty(),
        }) + build_handlers_spec(cfgs.drop_first())
    }
}

/// Whether a formatter setting asks for JSON output; anything else renders
/// text through the default template.
pub open spec fn wants_json(formatter: Option<String>) -> bool {
    match formatter {
        Some(s) => s@ == "json"@,
        None => false,
    }
}

/// The metadata document carried into the formatter: the integrity hash, the
/// event's timestamp, and the original metadata.
pub open spec fn metadoc_spec(
    h: Seq<char>,
    timestamp: Seq<char>,
    entries: Seq<(Seq<char>, Seq<char>)>,
) -> Seq<char> {
    "{\"hash\":"@ + json_quoted(h) + ",\"timestamp\":"@ + json_quoted(timestamp) + ",\"metadata\":"@
        + meta_obj_spec(entries) + "}"@
}

/// What one record renders to, for a given nonce: sanitize, then encrypt,
/// then hash, then format.
pub open spec fn rendered_spec(
    f: Formatter,
    key: Seq<u8>,
    patterns: Seq<Seq<char>>,
    m: LogMessage,
    nonce: Seq<u8>,
) -> Seq<char> {
    let sanitized = sanitize_spec(patterns, m.message@);
    let blob = cipher_blob(key, nonce, vstd::utf8::encode_utf8(sanitized));
    f.format_view(
        m.timestamp@,
        m.level.name(),
        blob,
        metadoc_spec(hash_spec(blob), m.timestamp@, m.metadata.entries_spec()),
    )
}

/// What the outside runner must do for one sink, where the sink needs
/// outside work at all.
pub enum SinkTask {
    Done { ok: bool },
    FileIo { path: String, line: String, rotate: Option<RotationPlan> },
    RemoteIo { address: String, port: u16, retries: usize, line: String },
}

/// The engine: the ingestion queue, the security transform, the formatter,
/// the sink registry and the counters. The waiting, the spawning and the
/// file and network writes happen outside; every decision is made here.
pub struct Logger {
    handlers: Vec<LogHandler>,
    formatter: Formatter,
    queue: VecDeque<LogMessage>,
    pub metrics: MetricsManager,
    security: SecurityManager,
}

impl Logger {
    /// The configured sinks, in configuration order.
    pub closed spec fn handlers_spec(self) -> Seq<LogHandler> {
        self.handlers@
    }

    /// The abstract states of the configured sinks.
    pub open spec fn handler_views(self) -> Seq<HandlerView> {
        views_of(self.handlers_spec())
    }

    /// The counters, for contracts that speak of them.
    pub closed spec fn metrics_spec(self) -> MetricsManager {
        self.metrics
    }

    /// The configured formatter.
    pub closed spec fn formatter_spec(self) -> Formatter {
        self.formatter
    }

    /// The queued records, oldest first.
    pub closed spec fn queue_spec(self) -> Seq<LogMessage> {
        self.queue@
    }

    /// The security transform in use.
    pub closed spec fn security_spec(self) -> SecurityManager {
        self.security
    }

    /// Whether the formatter and the security transform are unchanged
    /// between two engine states.
    pub open spec fn same_static(self, other: Logger) -> bool {
        self.formatter_spec() == other.formatter_spec() && self.security_spec()
            == other.security_spec()
    }

    /// Builds the engine from its configuration and the security key: the
    /// sinks in configuration order with their defaults, the chosen
    /// formatter, zeroed counters and an empty queue. Fails, with a security
    /// error, exactly when the key is shorter than thirty-two bytes (or the
    /// default redaction pattern is refused); then no engine exists and no
    /// worker can start.
    pub fn new(config: &LogConfig, security_key: &[u8]) -> (r: Result<Logger, LoggerError>)
        ensures
            r is Ok <==> security_key@.len() >= 32 && regex_compiles(default_pattern_spec()),
            r matches Ok(l) ==> {
                &&& l.handler_views() == build_handlers_spec(config.handlers@)
                &&& (wants_json(config.formatter) ==> l.formatter_spec() is Json)
                &&& (!wants_json(config.formatter) ==> (l.formatter_spec() matches Formatter::Text(
                    t,
                ) && t.pattern_spec() == TextFormatter::default_pattern()))
                &&& l.queue_spec() == Seq::<LogMessage>::empty()
                &&& l.metrics_spec().logs_processed == 0
                &&& l.metrics_spec().errors == 0
                &&& l.metrics_spec().queue_size == 0
                &&& l.security_spec().key_spec() == security_key@.take(32)
                &&& l.security_spec().patterns_spec() == seq![default_pattern_spec()]
            },
            r matches Err(e) ==> e is SecurityError && (security_key@.len() < 32
                || !regex_compiles(default_pattern_spec())),
    {
        let mut handlers: Vec<LogHandler> = Vec::new();
        let mut i: usize = 0;
        let ghost cfgs = config.handlers@;
        proof {
            assert(cfgs.skip(0) =~= cfgs);
            assert(views_of(handlers@) =~= Seq::<HandlerView>::empty());
            assert(views_of(handlers@) + build_handlers_spec(cfgs) =~= build_handlers_spec(cfgs));
        }
        while i < config.handlers.len()
            invariant
                i <= cfgs.len(),
                cfgs == config.handlers@,
                views_of(handlers@) + build_handlers_spec(cfgs.skip(i as int))
                    == build_handlers_spec(cfgs),
            decreases cfgs.len() - i,
        {
            let ghost rest = cfgs.skip(i as int);
            let ghost pre = handlers@;
            proof {
                assert(rest[0] == cfgs[i as int]);
                assert(rest.drop_first() =~= cfgs.skip(i + 1));
            }
            let c = &config.handlers[i];
            if c.type_ == String::from_str("console") {
                handlers.push(LogHandler::Console(ConsoleHandler::new()));
            } else if c.type_ == String::from_str("file") {
                let path: String = match &c.config {
                    Some(p) => match &p.file_path {
                        Some(s) => s.clone(),
                        None => String::from_str("logs/app.log"),
                    },
                    None => String::from_str("logs/app.log"),
                };
                let max_size: u64 = match &c.config {
                    Some(p) => match p.max_size {
                        Some(m) => m,
                        None => 10485760,
                    },
                    None => 10485760,
                };
                handlers.push(LogHandler::File(FileHandler::new(path, max_size)));
            } else if c.type_ == String::from_str("remote") {
                let address: String = match &c.config {
                    Some(p) => match &p.address {
                        Some(s) => s.clone(),
                        None => String::from_str("127.0.0.1"),
                    },
                    None => String::from_str("127.0.0.1"),
                };
                let port: u16 = match &c.config {
                    Some(p) => match p.port {
                        Some(n) => n,
                        None => 9000,
                    },
                    None => 9000,
                };
                let retries: Option<usize> = match &c.config {
                    Some(p) => match p.retries {
                        Some(n) => Some(#[verifier::truncate] (n as usize)),
                        None => None,
                    },
                    None => None,
                };
                handlers.push(LogHandler::Remote(RemoteHandler::new(address, port, retries)));
            } else if c.type_ == String::from_str("memory") {
                let capacity: usize = match &c.config {
                    Some(p) => match p.capacity {
                        Some(n) => #[verifier::truncate] (n as usize),
                        None => 1000,
                    },
                    None => 1000,
                };
                handlers.push(LogHandler::Memory(MemoryHandler::new(capacity)));
            }
            proof {
                if handlers@.len() > pre.len() {
                    assert(views_of(handlers@) =~= views_of(pre).push(
                        handlers@[pre.len() as int].view_spec(),
                    ));
                    assert(views_of(handlers@) =~= views_of(pre) + seq![
                        handlers@[pre.len() as int].view_spec(),
                    ]);
                    assert((views_of(pre) + seq![handlers@[pre.len() as int].view_spec()])
                        + build_handlers_spec(cfgs.skip(i + 1)) =~= views_of(pre) + (seq![
                        handlers@[pre.len() as int].view_spec(),
                    ] + build_handlers_spec(cfgs.skip(i + 1))));
                } else {
                    assert(handler_view_of(cfgs[i as int]) is None);
                    assert(Seq::<HandlerView>::empty() + build_handlers_spec(cfgs.skip(i + 1))
                        =~= build_handlers_spec(cfgs.skip(i + 1)));
                }
            }
            i = i + 1;
        }
        proof {
            assert(cfgs.skip(cfgs.len() as int) =~= Seq::<HandlerConfig>::empty());
            assert(views_of(handlers@) + Seq::<HandlerView>::empty() =~= views_of(handlers@));
        }
        let formatter: Formatter = match &config.formatter {
            Some(s) => {
                if *s == String::from_str("json") {
                    Formatter::Json(JsonFormatter)
                } else {
                    Formatter::Text(TextFormatter::new(None))
                }
            },
            None => Formatter::Text(TextFormatter::new(None)),
        };
        let security = match SecurityManager::new(security_key, None) {
            Ok(s) => s,
            Err(_) => {
                proof {
                    lemma_single_pattern_compiles();
                }
                return Err(
                    LoggerError::SecurityError(
                        String::from_str("security initialization failed"),
                    ),
                );
            },
        };
        proof {
            lemma_single_pattern_compiles();
        }
        Ok(
            Logger {
                handlers,
                formatter,
                queue: VecDeque::new(),
                metrics: MetricsManager::new(),
                security,
            },
        )
    }

    /// Enqueues one record without blocking: the queue gains, at its back,
    /// a record carrying the given level, message and metadata, freshly
    /// stamped and identified. Nothing else changes; failures are never
    /// surfaced to the caller.
    pub fn log(&mut self, level: LogLevel, message: &str, metadata: Option<Metadata>)
        ensures
            final(self).queue_spec().len() == old(self).queue_spec().len() + 1,
            final(self).queue_spec().drop_last() == old(self).queue_spec(),
            final(self).queue_spec().last().level == level,
            final(self).queue_spec().last().message@ == message@,
            final(self).queue_spec().last().metadata.entries_spec() == (match metadata {
                Some(d) => d.entries_spec(),
                None => Seq::<(Seq<char>, Seq<char>)>::empty(),
            }),
            final(self).handlers_spec() == old(self).handlers_spec(),
            final(self).metrics_spec() == old(self).metrics_spec(),
            final(self).same_static(*old(self)),
    {
        let md = match metadata {
            Some(d) => d,
            None => Metadata::new(),
        };
        let msg = LogMessage {
            id: fresh_id(),
            level,
            message: message.to_owned(),
            metadata: md,
            timestamp: now_rfc3339(),
        };
        self.queue.push_back(msg);
        proof {
            assert(self.queue@.drop_last() =~= old(self).queue@);
        }
    }

    /// Enqueues a record at the DEBUG level.
    pub fn debug(&mut self, message: &str, metadata: Option<Metadata>)
        ensures
            final(self).queue_spec().len() == old(self).queue_spec().len() + 1,
            final(self).queue_spec().drop_last() == old(self).queue_spec(),
            final(self).queue_spec().last().level == LogLevel::DEBUG,
            final(self).queue_spec().last().message@ == message@,
            final(self).queue_spec().last().metadata.entries_spec() == (match metadata {
                Some(d) => d.entries_spec(),
                None => Seq::<(Seq<char>, Seq<char>)>::empty(),
            }),
            final(self).handlers_spec() == old(self).handlers_spec(),
            final(self).metrics_spec() == old(self).metrics_spec(),
            final(self).same_static(*old(self)),
    {
        self.log(LogLevel::DEBUG, message, metadata);
    }

    /// Enqueues a record at the INFO level.
    pub fn info(&mut self, message: &str, metadata: Option<Metadata>)
        ensures
            final(self).queue_spec().len() == old(self).queue_spec().len() + 1,
            final(self).queue_spec().drop_last() == old(self).queue_spec(),
            final(self).queue_spec().last().level == LogLevel::INFO,
            final(self).queue_spec().last().message@ == message@,
            final(self).queue_spec().last().metadata.entries_spec() == (match metadata {
                Some(d) => d.entries_spec(),
                None => Seq::<(Seq<char>, Seq<char>)>::empty(),
            }),
            final(self).handlers_spec() == old(self).handlers_spec(),
            final(self).metrics_spec() == old(self).metrics_spec(),
            final(self).same_static(*old(self)),
    {
        self.log(LogLevel::INFO, message, metadata);
    }

    /// Enqueues a record at the WARN level.
    pub fn warn(&mut self, message: &str, metadata: Option<Metadata>)
        ensures
            final(self).queue_spec().len() == old(self).queue_spec().len() + 1,
            final(self).queue_spec().drop_last() == old(self).queue_spec(),
            final(self).queue_spec().last().level == LogLevel::WARN,
            final(self).queue_spec().last().message@ == message@,
            final(self).queue_spec().last().metadata.entries_spec() == (match metadata {
                Some(d) => d.entries_spec(),
                None => Seq::<(Seq<char>, Seq<char>)>::empty(),
            }),
            final(self).handlers_spec() == old(self).handlers_spec(),
            final(self).metrics_spec() == old(self).metrics_spec(),
            final(self).same_static(*old(self)),
    {
        self.log(LogLevel::WARN, message, metadata);
    }

    /// Enqueues a record at the ERROR level.
    pub fn error(&mut self, message: &str, metadata: Option<Metadata>)
        ensures
            final(self).queue_spec().len() == old(self).queue_spec().len() + 1,
            final(self).queue_spec().drop_last() == old(self).queue_spec(),
            final(self).queue_spec().last().level == LogLevel::ERROR,
            final(self).queue_spec().last().message@ == message@,
            final(self).queue_spec().last().metadata.entries_spec() == (match metadata {
                Some(d) => d.entries_spec(),
                None => Seq::<(Seq<char>, Seq<char>)>::empty(),
            }),
            final(self).handlers_spec() == old(self).handlers_spec(),
            final(self).metrics_spec() == old(self).metrics_spec(),
            final(self).same_static(*old(self)),
    {
        self.log(LogLevel::ERROR, message, metadata);
    }

    /// Enqueues a record at the FATAL level.
    pub fn fatal(&mut self, message: &str, metadata: Option<Metadata>)
        ensures
            final(self).queue_spec().len() == old(self).queue_spec().len() + 1,
            final(self).queue_spec().drop_last() == old(self).queue_spec(),
            final(self).queue_spec().last().level == LogLevel::FATAL,
            final(self).queue_spec().last().message@ == message@,
            final(self).queue_spec().last().metadata.entries_spec() == (match metadata {
                Some(d) => d.entries_spec(),
                None => Seq::<(Seq<char>, Seq<char>)>::empty(),
            }),
            final(self).handlers_spec() == old(self).handlers_spec(),
            final(self).metrics_spec() == old(self).metrics_spec(),
            final(self).same_static(*old(self)),
    {
        self.log(LogLevel::FATAL, message, metadata);
    }

    /// Pops the whole queue, oldest first, into one batch; the queue is left
    /// empty and nothing else changes.
    pub fn drain_batch(&mut self) -> (batch: Vec<LogMessage>)
        ensures
            batch@ == old(self).queue_spec(),
            final(self).queue_spec() == Seq::<LogMessage>::empty(),
            final(self).handlers_spec() == old(self).handlers_spec(),
            final(self).metrics_spec() == old(self).metrics_spec(),
            final(self).same_static(*old(self)),
    {
        let mut batch: Vec<LogMessage> = Vec::new();
        proof {
            assert(batch@ + self.queue@ =~= self.queue@);
        }
        loop
            invariant_except_break
                batch@ + self.queue@ == old(self).queue@,
                self.handlers == old(self).handlers,
                self.metrics == old(self).metrics_spec(),
                self.formatter == old(self).formatter,
                self.security == old(self).security,
            ensures
                batch@ == old(self).queue@,
                self.queue@ =~= Seq::<LogMessage>::empty(),
                self.handlers == old(self).handlers,
                self.metrics == old(self).metrics_spec(),
                self.formatter == old(self).formatter,
                self.security == old(self).security,
            decreases self.queue@.len(),
        {
            let ghost preq = self.queue@;
            let ghost preb = batch@;
            match self.queue.pop_front() {
                Some(m) => {
                    batch.push(m);
                    proof {
                        assert(preq.subrange(1, preq.len() as int) =~= preq.drop_first());
                        assert(preb.push(preq[0]) + preq.drop_first() =~= preb + preq);
                    }
                },
                None => {
                    proof {
                        assert(batch@ + self.queue@ =~= batch@);
                    }
                    break ;
                },
            }
        }
        batch
    }

    /// Renders one record: the message is sanitized, encrypted under a fresh
    /// nonce and hashed, and the formatter renders level, blob and the
    /// metadata document carrying the hash. Never fails.
    pub fn render_event(&self, msg: &LogMessage) -> (r: Result<String, SecurityError>)
        ensures
            r is Ok,
            exists|nonce: Seq<u8>|
                #[trigger] rendered_spec(
                    self.formatter_spec(),
                    self.security_spec().key_spec(),
                    self.security_spec().patterns_spec(),
                    *msg,
                    nonce,
                ) == r->Ok_0@ && nonce.len() == 8,
    {
        let sanitized = self.security.sanitize(msg.message.as_str());
        let blob = self.security.encrypt(sanitized.as_str()).unwrap();
        let h = self.security.hash(blob.as_str()).unwrap();
        let mut doc = String::from_str("{\"hash\":");
        let qh = quote_json(h.as_str());
        doc.append(qh.as_str());
        doc.append(",\"timestamp\":");
        let qt = quote_json(msg.timestamp.as_str());
        doc.append(qt.as_str());
        doc.append(",\"metadata\":");
        let mo = msg.metadata.render();
        doc.append(mo.as_str());
        doc.append("}");
        let line = self.formatter.format(
            msg.level.as_str(),
            blob.as_str(),
            doc.as_str(),
            msg.timestamp.as_str(),
        );
        proof {
            let key = self.security_spec().key_spec();
            let nonce = choose|n: Seq<u8>|
                #[trigger] cipher_blob(key, n, vstd::utf8::encode_utf8(sanitized@)) == blob@
                    && n.len() == 8;
            assert(rendered_spec(
                self.formatter_spec(),
                key,
                self.security_spec().patterns_spec(),
                *msg,
                nonce,
            ) == line@);
        }
        Ok(line)
    }

    /// How many sinks are configured.
    pub fn handler_count(&self) -> (r: usize)
        ensures
            r == self.handlers_spec().len(),
    {
        self.handlers.len()
    }

    /// Starts delivery of a rendered line to sink `i`. A console or memory
    /// sink is served on the spot — the memory ring gains the line under its
    /// eviction rule — and reports success; a file sink answers with the
    /// write to perform, rotating first exactly when its counter has reached
    /// the threshold; a remote sink answers with the send to perform.
    /// Counters and the other sinks are untouched.
    pub fn sink_begin(&mut self, i: usize, formatted: &str) -> (t: SinkTask)
        requires
            i < old(self).handlers_spec().len(),
        ensures
            final(self).queue_spec() == old(self).queue_spec(),
            final(self).metrics_spec() == old(self).metrics_spec(),
            final(self).same_static(*old(self)),
            final(self).handlers_spec().len() == old(self).handlers_spec().len(),
            forall|j: int|
                0 <= j < old(self).handlers_spec().len() && j != i ==> final(self).handlers_spec()[j] == old(self).handlers_spec()[j],
            match old(self).handlers_spec()[i as int] {
                LogHandler::Console(_) => (t matches SinkTask::Done { ok } && ok) && final(self).handlers_spec()[i as int] == old(self).handlers_spec()[i as int],
                LogHandler::Memory(m) => (t matches SinkTask::Done { ok } && ok) && (final(self).handlers_spec()[i as int] matches LogHandler::Memory(m2) && m2.capacity_spec()
                    == m.capacity_spec() && m2.logs() == ring_push(
                    m.logs(),
                    m.capacity_spec(),
                    formatted@,
                )),
                LogHandler::File(f) => final(self).handlers_spec()[i as int] == old(self).handlers_spec()[i as int] && (t matches SinkTask::FileIo { path, line, rotate }
                    && path@ == f.path_spec() && line@ == formatted@ && (rotate is Some <==> f.current_size_spec()
                    >= f.max_size_spec()) && (rotate matches Some(p) ==> exists|ts: Seq<char>|
                    p.rotated_name@ == #[trigger] suffixed_name(f.path_spec(), ts)
                        && p.compressed_name@ == suffixed_name(f.path_spec(), ts) + ".gz"@)),
                LogHandler::Remote(r) => final(self).handlers_spec()[i as int] == old(self).handlers_spec()[i as int] && (t matches SinkTask::RemoteIo {
                    address,
                    port,
                    retries,
                    line,
                } && address@ == r.address_spec() && port == r.port_spec() && retries as nat
                    == r.retries_spec() && line@ == formatted@),
            },
    {
        let ghost pre = self.handlers@;
        let h = self.handlers.remove(i);
        let (t, h2): (SinkTask, LogHandler) = match h {
            LogHandler::Console(c) => {
                let _ = c.emit(formatted);
                (SinkTask::Done { ok: true }, LogHandler::Console(c))
            },
            LogHandler::Memory(mut m) => {
                let _ = m.emit(formatted);
                (SinkTask::Done { ok: true }, LogHandler::Memory(m))
            },
            LogHandler::File(f) => {
                let rotate: Option<RotationPlan> = if f.needs_rotation() {
                    let ts = now_stamp();
                    Some(f.rotation_plan(ts.as_str()))
                } else {
                    None
                };
                let task = SinkTask::FileIo {
                    path: f.path().clone(),
                    line: formatted.to_owned(),
                    rotate,
                };
                (task, LogHandler::File(f))
            },
            LogHandler::Remote(r) => {
                let task = SinkTask::RemoteIo {
                    address: r.address().clone(),
                    port: r.port(),
                    retries: r.retries(),
                    line: formatted.to_owned(),
                };
                (task, LogHandler::Remote(r))
            },
        };
        self.handlers.insert(i, h2);
        proof {
            assert(self.handlers@ =~= pre.update(i as int, h2));
        }
        t
    }

    /// Records the outcome of an outside delivery to sink `i`: a failure
    /// adds exactly one to the error counter and is isolated to that sink; a
    /// successful file write advances that sink's byte counter — from zero
    /// if the write rotated first — and everything else stays.
    pub fn sink_finish(&mut self, i: usize, ok: bool, rotated: bool, line_bytes: usize)
        requires
            i < old(self).handlers_spec().len(),
        ensures
            final(self).queue_spec() == old(self).queue_spec(),
            final(self).same_static(*old(self)),
            final(self).metrics_spec().logs_processed == old(self).metrics_spec().logs_processed,
            final(self).metrics_spec().queue_size == old(self).metrics_spec().queue_size,
            final(self).metrics_spec().errors == (if ok {
                old(self).metrics_spec().errors
            } else {
                counter_inc(old(self).metrics_spec().errors)
            }),
            final(self).handlers_spec().len() == old(self).handlers_spec().len(),
            forall|j: int|
                0 <= j < old(self).handlers_spec().len() && j != i ==> final(self).handlers_spec()[j] == old(self).handlers_spec()[j],
            match old(self).handlers_spec()[i as int] {
                LogHandler::File(f) => (ok ==> (final(self).handlers_spec()[i as int]
                    matches LogHandler::File(f2) && f2.path_spec() == f.path_spec()
                    && f2.max_size_spec() == f.max_size_spec() && f2.current_size_spec()
                    == sat_add_u64(
                    if rotated {
                        0
                    } else {
                        f.current_size_spec()
                    },
                    line_bytes as nat + 1,
                ))) && (!ok ==> final(self).handlers_spec()[i as int] == old(self).handlers_spec()[i as int]),
                _ => final(self).handlers_spec()[i as int] == old(self).handlers_spec()[i as int],
            },
    {
        if !ok {
            self.metrics.increment_error();
        } else {
            let ghost pre = self.handlers@;
            let h = self.handlers.remove(i);
            let h2: LogHandler = match h {
                LogHandler::File(mut f) => {
                    if rotated {
                        f.note_rotated();
                    }
                    f.note_appended(line_bytes);
                    LogHandler::File(f)
                },
                other => other,
            };
            self.handlers.insert(i, h2);
            proof {
                assert(self.handlers@ =~= pre.update(i as int, h2));
            }
        }
    }

    /// Compresses the contents of a rotated file on behalf of the runner;
    /// never fails.
    pub fn compress_rotated(&self, data: &[u8]) -> (r: Result<Vec<u8>, FileHandlerError>)
        ensures
            r is Ok,
            r matches Ok(c) ==> c@ == gzip_of(data@),
            r matches Err(e) ==> e is CompressionError,
    {
        match gzip_bytes(data) {
            Ok(c) => Ok(c),
            Err(m) => Err(FileHandlerError::CompressionError(m)),
        }
    }

    /// The backoff before the next attempt of remote sink `i`, after the
    /// given number of failures.
    pub fn remote_backoff(&self, i: usize, failures: usize) -> (r: u64)
        requires
            i < self.handlers_spec().len(),
            self.handlers_spec()[i as int] is Remote,
        ensures
            r == backoff_spec(failures as nat),
    {
        match &self.handlers[i] {
            LogHandler::Remote(rh) => rh.backoff_after(failures),
            _ => {
                proof {
                    assert(false);
                }
                0
            },
        }
    }

    /// Whether remote sink `i` has spent its budget after the given number
    /// of failures.
    pub fn remote_give_up(&self, i: usize, failures: usize) -> (r: bool)
        requires
            i < self.handlers_spec().len(),
            self.handlers_spec()[i as int] is Remote,
        ensures
            self.handlers_spec()[i as int] matches LogHandler::Remote(rh) ==> r == (
            failures as nat >= rh.retries_spec()),
    {
        match &self.handlers[i] {
            LogHandler::Remote(rh) => rh.give_up_after(failures),
            _ => {
                proof {
                    assert(false);
                }
                false
            },
        }
    }

    /// A snapshot of the lines a memory sink retains, oldest first; a sink
    /// of another kind yields nothing.
    pub fn memory_logs(&self, i: usize) -> (r: Vec<String>)
        requires
            i < self.handlers_spec().len(),
        ensures
            self.handlers_spec()[i as int] matches LogHandler::Memory(m) ==> (r@.len()
                == m.logs().len() && forall|t: int| 0 <= t < r@.len() ==> r@[t]@ == m.logs()[t]),
            !(self.handlers_spec()[i as int] is Memory) ==> r@.len() == 0,
    {
        match &self.handlers[i] {
            LogHandler::Memory(m) => m.get_logs(),
            _ => Vec::new(),
        }
    }

    /// Counts one fully processed record.
    pub fn event_done(&mut self)
        ensures
            final(self).metrics_spec().logs_processed == counter_inc(old(self).metrics_spec().logs_processed),
            final(self).metrics_spec().errors == old(self).metrics_spec().errors,
            final(self).metrics_spec().queue_size == old(self).metrics_spec().queue_size,
            final(self).queue_spec() == old(self).queue_spec(),
            final(self).handlers_spec() == old(self).handlers_spec(),
            final(self).same_static(*old(self)),
    {
        self.metrics.increment_log_count();
    }

    /// Samples the queue depth into the gauge after a batch: once producers
    /// stop and a drain completed, it reads zero.
    pub fn batch_done(&mut self)
        ensures
            final(self).metrics_spec().queue_size == old(self).queue_spec().len(),
            final(self).metrics_spec().logs_processed == old(self).metrics_spec().logs_processed,
            final(self).metrics_spec().errors == old(self).metrics_spec().errors,
            final(self).queue_spec() == old(self).queue_spec(),
            final(self).handlers_spec() == old(self).handlers_spec(),
            final(self).same_static(*old(self)),
    {
        let n = self.queue.len();
        self.metrics.set_queue_size(n);
    }
}

/// The default redaction pattern list compiles exactly when its one pattern
/// does.
pub proof fn lemma_single_pattern_compiles()
    ensures
        all_compile(seq![default_pattern_spec()]) <==> regex_compiles(default_pattern_spec()),
{
    if regex_compiles(default_pattern_spec()) {
        assert forall|i: int| 0 <= i < 1 implies regex_compiles(
            #[trigger] seq![default_pattern_spec()][i],
        ) by {
            assert(seq![default_pattern_spec()][i] == default_pattern_spec());
        }
    } else {
        assert(seq![default_pattern_spec()][0] == default_pattern_spec());
    }
}

/// A file sink driven through the engine follows the rotation step: when
/// the runner rotates exactly on the engine's plan, the artifact decision
/// and the counter afterwards are those of one append against the
/// threshold.
pub proof fn lemma_file_sink_follows_step(max_size: u64, size: u64, rotated: bool, line_bytes: nat)
    requires
        rotated == (size >= max_size),
    ensures
        (rotated, sat_add_u64(
            if rotated {
                0
            } else {
                size
            },
            line_bytes + 1,
        )) == crate::handlers::file_handler::file_step(max_size, size, line_bytes),
{
}

/// How many of a row of per-sink outcomes failed.
pub open spec fn count_false(outcomes: Seq<bool>) -> nat
    decreases outcomes.len(),
{
    if outcomes.len() == 0 {
        0
    } else {
        (if !outcomes[0] {
            1nat
        } else {
            0nat
        }) + count_false(outcomes.drop_first())
    }
}

/// The error counter after recording a row of per-sink outcomes in order.
pub open spec fn errors_fold(e: usize, outcomes: Seq<bool>) -> usize
    decreases outcomes.len(),
{
    if outcomes.len() == 0 {
        e
    } else {
        errors_fold(
            if outcomes[0] {
                e
            } else {
                counter_inc(e)
            },
            outcomes.drop_first(),
        )
    }
}

/// Partial failure isolation, counted: a row of per-sink outcomes advances
/// the error counter by exactly the number of failing sinks — each failure
/// once, a success never — as long as the counter does not saturate.
pub proof fn lemma_error_isolation(e: usize, outcomes: Seq<bool>)
    requires
        e + count_false(outcomes) <= usize::MAX,
    ensures
        errors_fold(e, outcomes) == e + count_false(outcomes),
    decreases outcomes.len(),
{
    if outcomes.len() > 0 {
        if outcomes[0] {
            lemma_error_isolation(e, outcomes.drop_first());
        } else {
            lemma_error_isolation(counter_inc(e), outcomes.drop_first());
        }
    }
}

/// A row of all-successful outcomes leaves the error counter exactly where
/// it was.
pub proof fn lemma_no_failures_no_errors(e: usize, outcomes: Seq<bool>)
    requires
        forall|i: int| 0 <= i < outcomes.len() ==> outcomes[i],
    ensures
        errors_fold(e, outcomes) == e,
    decreases outcomes.len(),
{
    if outcomes.len() > 0 {
        assert(outcomes[0]);
        lemma_no_failures_no_errors(e, outcomes.drop_first());
    }
}

/// The processed counter after counting a batch of `n` records.
pub open spec fn processed_fold(p: usize, n: nat) -> usize
    decreases n,
{
    if n == 0 {
        p
    } else {
        processed_fold(counter_inc(p), (n - 1) as nat)
    }
}

/// Throughput, counted: processing a batch of `n` records with every sink
/// succeeding advances the processed counter by exactly `n`, as long as it
/// does not saturate.
pub proof fn lemma_processed_counts(p: usize, n: nat)
    requires
        p + n <= usize::MAX,
    ensures
        processed_fold(p, n) == p + n,
    decreases n,
{
    if n > 0 {
        lemma_processed_counts(counter_inc(p), (n - 1) as nat)
    }
}

/// Liveness of the gauge: once a drain has emptied the queue and the gauge
/// is sampled, it reads zero.
pub proof fn lemma_gauge_zero(drained: Logger, sampled: Logger)
    requires
        drained.queue_spec().len() == 0,
        sampled.metrics_spec().queue_size == drained.queue_spec().len(),
    ensures
        sampled.metrics_spec().queue_size == 0,
{
}

} // verus!

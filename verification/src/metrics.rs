use vstd::prelude::*;
use crate::text::{dec_of, u64_to_dec, starts_with_str};

verus! {

/// Failures of the metrics exposition endpoint.
#[derive(Debug)]
pub enum MetricsError {
    BindError(String),
    IoError(String),
}

/// Saturating increment: counters stick at the top instead of wrapping.
pub open spec fn counter_inc(n: usize) -> usize {
    if n < usize::MAX {
        (n + 1) as usize
    } else {
        n
    }
}

/// Throughput, error and backlog counters, owned by the engine: mutated by
/// the worker, read by the exposition endpoint.
pub struct MetricsManager {
    pub logs_processed: usize,
    pub errors: usize,
    pub queue_size: usize,
}

/// The newline-delimited `name value` rendering of the three counters.
pub open spec fn metrics_body_spec(m: MetricsManager) -> Seq<char> {
    "logs_processed "@ + dec_of(m.logs_processed as nat) + "\n"@ + "errors "@ + dec_of(
        m.errors as nat,
    ) + "\n"@ + "queue_size "@ + dec_of(m.queue_size as nat) + "\n"@
}

/// The full text-protocol reply: a plain-text header followed by the body.
pub open spec fn metrics_response_spec(m: MetricsManager) -> Seq<char> {
    "HTTP/1.1 200 OK\r\nContent-Type: text/plain\r\n\r\n"@ + metrics_body_spec(m)
}

impl MetricsManager {
    /// All counters start at zero and are never reset.
    pub fn new() -> (r: MetricsManager)
        ensures
            r.logs_processed == 0,
            r.errors == 0,
            r.queue_size == 0,
    {
        MetricsManager { logs_processed: 0, errors: 0, queue_size: 0 }
    }

    /// Counts one processed event.
    pub fn increment_log_count(&mut self)
        ensures
            final(self).logs_processed == counter_inc(old(self).logs_processed),
            final(self).errors == old(self).errors,
            final(self).queue_size == old(self).queue_size,
    {
        if self.logs_processed < usize::MAX {
            self.logs_processed = self.logs_processed + 1;
        }
    }

    /// Counts one per-event or per-sink failure.
    pub fn increment_error(&mut self)
        ensures
            final(self).errors == counter_inc(old(self).errors),
            final(self).logs_processed == old(self).logs_processed,
            final(self).queue_size == old(self).queue_size,
    {
        if self.errors < usize::MAX {
            self.errors = self.errors + 1;
        }
    }

    /// Samples the queue depth gauge.
    pub fn set_queue_size(&mut self, size: usize)
        ensures
            final(self).queue_size == size,
            final(self).logs_processed == old(self).logs_processed,
            final(self).errors == old(self).errors,
    {
        self.queue_size = size;
    }

    /// Renders the counters as newline-delimited `name value` pairs.
    pub fn render_metrics(&self) -> (r: String)
        ensures
            r@ == metrics_body_spec(*self),
    {
        let mut out = String::from_str("logs_processed ");
        let p = u64_to_dec(self.logs_processed as u64);
        out.append(p.as_str());
        out.append("\n");
        out.append("errors ");
        let e = u64_to_dec(self.errors as u64);
        out.append(e.as_str());
        out.append("\n");
        out.append("queue_size ");
        let q = u64_to_dec(self.queue_size as u64);
        out.append(q.as_str());
        out.append("\n");
        out
    }

    /// Answers a request line: the counters, behind a plain-text header, if
    /// and only if the line asks for the metrics path.
    pub fn handle_request(&self, request_line: &str) -> (r: Option<String>)
        ensures
            match r {
                Some(s) => "GET /metrics"@.is_prefix_of(request_line@) && s@
                    == metrics_response_spec(*self),
                None => !"GET /metrics"@.is_prefix_of(request_line@),
            },
    {
        if starts_with_str(request_line, "GET /metrics") {
            let mut out = String::from_str("HTTP/1.1 200 OK\r\nContent-Type: text/plain\r\n\r\n");
            let body = self.render_metrics();
            out.append(body.as_str());
            Some(out)
        } else {
            None
        }
    }
}

} // verus!

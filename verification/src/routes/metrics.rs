//! Request accounting and its Prometheus text exposition.
//!
//! Counters wrap around on overflow. Response times are whole milliseconds;
//! the two ratios of the exposition (average response time, success rate) are
//! floating-point figures that the caller formats and hands in as text.
use vstd::prelude::*;
use vstd::string::*;
use vstd::wrapping::u64_specs::{wrapping_add, wrapping_sub};
use crate::services::circuit_breaker::CircuitState;
use crate::text::{dec, u64_to_decimal};

verus! {

/// Gateway-wide request counters.
#[derive(Debug)]
pub struct MetricsCollector {
    pub requests_total: u64,
    pub requests_success: u64,
    pub requests_error: u64,
    pub response_time_sum: u64,
    pub active_connections: u64,
    pub peak_connections: u64,
    pub request_bytes_total: u64,
    pub response_bytes_total: u64,
    /// Responses under 100 ms.
    pub response_time_bucket_100ms: u64,
    /// Responses under 500 ms.
    pub response_time_bucket_500ms: u64,
    /// Responses under 1000 ms.
    pub response_time_bucket_1s: u64,
    /// Responses under 5000 ms.
    pub response_time_bucket_5s: u64,
    /// Responses of 5000 ms and over.
    pub response_time_bucket_inf: u64,
    pub http_4xx_errors: u64,
    pub http_5xx_errors: u64,
    pub timeout_errors: u64,
    pub connection_errors: u64,
}

impl Clone for MetricsCollector {
    fn clone(&self) -> (r: Self)
        ensures
            r == *self,
    {
        MetricsCollector { ..*self }
    }
}

impl Default for MetricsCollector {
    /// Every counter at zero.
    fn default() -> (r: Self)
        ensures
            r == MetricsCollector::zero(),
    {
        MetricsCollector {
            requests_total: 0,
            requests_success: 0,
            requests_error: 0,
            response_time_sum: 0,
            active_connections: 0,
            peak_connections: 0,
            request_bytes_total: 0,
            response_bytes_total: 0,
            response_time_bucket_100ms: 0,
            response_time_bucket_500ms: 0,
            response_time_bucket_1s: 0,
            response_time_bucket_5s: 0,
            response_time_bucket_inf: 0,
            http_4xx_errors: 0,
            http_5xx_errors: 0,
            timeout_errors: 0,
            connection_errors: 0,
        }
    }
}

/// `v` plus one, wrapping.
pub open spec fn inc(v: u64) -> u64 {
    wrapping_add(v, 1)
}

/// `v` plus one when `c` holds.
pub open spec fn inc_if(v: u64, c: bool) -> u64 {
    if c {
        inc(v)
    } else {
        v
    }
}

/// `v` plus the bytes in `b`, if any.
pub open spec fn add_opt(v: u64, b: Option<u64>) -> u64 {
    match b {
        Some(n) => wrapping_add(v, n),
        None => v,
    }
}

impl MetricsCollector {
    /// The collector with every counter at zero.
    pub open spec fn zero() -> MetricsCollector {
        MetricsCollector {
            requests_total: 0,
            requests_success: 0,
            requests_error: 0,
            response_time_sum: 0,
            active_connections: 0,
            peak_connections: 0,
            request_bytes_total: 0,
            response_bytes_total: 0,
            response_time_bucket_100ms: 0,
            response_time_bucket_500ms: 0,
            response_time_bucket_1s: 0,
            response_time_bucket_5s: 0,
            response_time_bucket_inf: 0,
            http_4xx_errors: 0,
            http_5xx_errors: 0,
            timeout_errors: 0,
            connection_errors: 0,
        }
    }

    /// The counters after one request that took `ms` milliseconds.
    pub open spec fn recorded(
        self,
        success: bool,
        ms: u64,
        status_code: u16,
        request_bytes: Option<u64>,
        response_bytes: Option<u64>,
    ) -> MetricsCollector {
        MetricsCollector {
            requests_total: inc(self.requests_total),
            response_time_sum: wrapping_add(self.response_time_sum, ms),
            request_bytes_total: add_opt(self.request_bytes_total, request_bytes),
            response_bytes_total: add_opt(self.response_bytes_total, response_bytes),
            response_time_bucket_100ms: inc_if(self.response_time_bucket_100ms, ms < 100),
            response_time_bucket_500ms: inc_if(self.response_time_bucket_500ms, ms < 500),
            response_time_bucket_1s: inc_if(self.response_time_bucket_1s, ms < 1000),
            response_time_bucket_5s: inc_if(self.response_time_bucket_5s, ms < 5000),
            response_time_bucket_inf: inc_if(self.response_time_bucket_inf, ms >= 5000),
            requests_success: inc_if(self.requests_success, success),
            requests_error: inc_if(self.requests_error, !success),
            http_4xx_errors: inc_if(
                self.http_4xx_errors,
                !success && 400 <= status_code <= 499,
            ),
            http_5xx_errors: inc_if(
                self.http_5xx_errors,
                !success && 500 <= status_code <= 599,
            ),
            ..self
        }
    }

    /// The counters after a request that timed out.
    pub open spec fn timed_out(self) -> MetricsCollector {
        MetricsCollector {
            timeout_errors: inc(self.timeout_errors),
            requests_error: inc(self.requests_error),
            requests_total: inc(self.requests_total),
            ..self
        }
    }

    /// The counters after a request that could not connect.
    pub open spec fn connection_failed(self) -> MetricsCollector {
        MetricsCollector {
            connection_errors: inc(self.connection_errors),
            requests_error: inc(self.requests_error),
            requests_total: inc(self.requests_total),
            ..self
        }
    }

    /// The counters agree with each other: every request is a success or an
    /// error, the latency buckets are cumulative, and categorised errors are
    /// errors.
    pub open spec fn consistent(self) -> bool {
        &&& self.requests_success + self.requests_error == self.requests_total
        &&& self.response_time_bucket_100ms <= self.response_time_bucket_500ms
        &&& self.response_time_bucket_500ms <= self.response_time_bucket_1s
        &&& self.response_time_bucket_1s <= self.response_time_bucket_5s
        &&& self.response_time_bucket_5s + self.response_time_bucket_inf <= self.requests_total
        &&& self.http_4xx_errors + self.http_5xx_errors + self.timeout_errors
            + self.connection_errors <= self.requests_error
    }

    /// Counts one request that took `response_time_ms` milliseconds.
    pub fn record_request(
        &mut self,
        success: bool,
        response_time_ms: u64,
        status_code: u16,
        request_bytes: Option<u64>,
        response_bytes: Option<u64>,
    )
        ensures
            *final(self) == old(self).recorded(
                success,
                response_time_ms,
                status_code,
                request_bytes,
                response_bytes,
            ),
            old(self).consistent() && old(self).requests_total < u64::MAX ==> final(self).consistent(),
    {
        self.requests_total = self.requests_total.wrapping_add(1);
        self.response_time_sum = self.response_time_sum.wrapping_add(response_time_ms);
        if let Some(bytes) = request_bytes {
            self.request_bytes_total = self.request_bytes_total.wrapping_add(bytes);
        }
        if let Some(bytes) = response_bytes {
            self.response_bytes_total = self.response_bytes_total.wrapping_add(bytes);
        }
        if response_time_ms < 100 {
            self.response_time_bucket_100ms = self.response_time_bucket_100ms.wrapping_add(1);
        }
        if response_time_ms < 500 {
            self.response_time_bucket_500ms = self.response_time_bucket_500ms.wrapping_add(1);
        }
        if response_time_ms < 1000 {
            self.response_time_bucket_1s = self.response_time_bucket_1s.wrapping_add(1);
        }
        if response_time_ms < 5000 {
            self.response_time_bucket_5s = self.response_time_bucket_5s.wrapping_add(1);
        } else {
            self.response_time_bucket_inf = self.response_time_bucket_inf.wrapping_add(1);
        }
        if success {
            self.requests_success = self.requests_success.wrapping_add(1);
        } else {
            self.requests_error = self.requests_error.wrapping_add(1);
            if 400 <= status_code && status_code <= 499 {
                self.http_4xx_errors = self.http_4xx_errors.wrapping_add(1);
            } else if 500 <= status_code && status_code <= 599 {
                self.http_5xx_errors = self.http_5xx_errors.wrapping_add(1);
            }
        }
    }

    /// Counts a request that timed out.
    pub fn record_timeout_error(&mut self)
        ensures
            *final(self) == old(self).timed_out(),
            old(self).consistent() && old(self).requests_total < u64::MAX ==> final(self).consistent(),
    {
        self.timeout_errors = self.timeout_errors.wrapping_add(1);
        self.requests_error = self.requests_error.wrapping_add(1);
        self.requests_total = self.requests_total.wrapping_add(1);
    }

    /// Counts a request that could not connect.
    pub fn record_connection_error(&mut self)
        ensures
            *final(self) == old(self).connection_failed(),
            old(self).consistent() && old(self).requests_total < u64::MAX ==> final(self).consistent(),
    {
        self.connection_errors = self.connection_errors.wrapping_add(1);
        self.requests_error = self.requests_error.wrapping_add(1);
        self.requests_total = self.requests_total.wrapping_add(1);
    }

    /// Counts an opened connection and raises the peak to it.
    pub fn increment_connections(&mut self)
        requires
            old(self).active_connections < u64::MAX,
        ensures
            final(self).active_connections == old(self).active_connections + 1,
            final(self).peak_connections == if final(self).active_connections > old(self).peak_connections {
                final(self).active_connections
            } else {
                old(self).peak_connections
            },
            *final(self) == (MetricsCollector {
                active_connections: final(self).active_connections,
                peak_connections: final(self).peak_connections,
                ..*old(self)
            }),
    {
        let current = self.active_connections + 1;
        self.active_connections = current;
        if current > self.peak_connections {
            self.peak_connections = current;
        }
    }

    /// Counts a closed connection.
    pub fn decrement_connections(&mut self)
        ensures
            *final(self) == (MetricsCollector {
                active_connections: wrapping_sub(old(self).active_connections, 1),
                ..*old(self)
            }),
    {
        self.active_connections = self.active_connections.wrapping_sub(1);
    }
}

/// One update of the request counters.
pub enum CounterEvent {
    /// `record_request(success, ms, status_code, request_bytes, response_bytes)`.
    Request(bool, u64, u16, Option<u64>, Option<u64>),
    /// `record_timeout_error()`.
    Timeout,
    /// `record_connection_error()`.
    ConnectionError,
}

/// The counters after `e`.
pub open spec fn counted(m: MetricsCollector, e: CounterEvent) -> MetricsCollector {
    match e {
        CounterEvent::Request(s, ms, c, rq, rs) => m.recorded(s, ms, c, rq, rs),
        CounterEvent::Timeout => m.timed_out(),
        CounterEvent::ConnectionError => m.connection_failed(),
    }
}

/// The counters after the updates `es`, in order.
pub open spec fn counted_all(m: MetricsCollector, es: Seq<CounterEvent>) -> MetricsCollector
    decreases es.len(),
{
    if es.len() == 0 {
        m
    } else {
        counted(counted_all(m, es.drop_last()), es.last())
    }
}

/// The number of recorded requests among `es`.
pub open spec fn request_count(es: Seq<CounterEvent>) -> nat
    decreases es.len(),
{
    if es.len() == 0 {
        0
    } else {
        request_count(es.drop_last()) + if es.last() is Request {
            1nat
        } else {
            0nat
        }
    }
}

/// From zero, after any sequence of updates (short of the word limit):
/// every request is a success or an error, categorised errors are errors,
/// the latency buckets are cumulative, and the 5 s and +Inf buckets add up to
/// the number of recorded requests; a successful request counts no 4xx or
/// 5xx error.
pub proof fn lemma_counter_events(es: Seq<CounterEvent>)
    requires
        es.len() < u64::MAX,
    ensures
        ({
            let m = counted_all(MetricsCollector::zero(), es);
            &&& m.requests_total == es.len()
            &&& m.requests_success + m.requests_error == m.requests_total
            &&& m.http_4xx_errors + m.http_5xx_errors + m.timeout_errors + m.connection_errors
                <= m.requests_error
            &&& m.response_time_bucket_100ms <= m.response_time_bucket_500ms
            &&& m.response_time_bucket_500ms <= m.response_time_bucket_1s
            &&& m.response_time_bucket_1s <= m.response_time_bucket_5s
            &&& m.response_time_bucket_5s + m.response_time_bucket_inf == request_count(es)
        }),
        forall|m: MetricsCollector, ms: u64, c: u16, rq: Option<u64>, rs: Option<u64>|
            #![trigger m.recorded(true, ms, c, rq, rs)]
            m.recorded(true, ms, c, rq, rs).http_4xx_errors == m.http_4xx_errors
                && m.recorded(true, ms, c, rq, rs).http_5xx_errors == m.http_5xx_errors,
    decreases es.len(),
{
    if es.len() > 0 {
        lemma_counter_events(es.drop_last());
        assert(request_count(es.drop_last()) <= es.len() - 1) by {
            lemma_request_count_bound(es.drop_last());
        }
    }
}

/// At most every update is a recorded request.
proof fn lemma_request_count_bound(es: Seq<CounterEvent>)
    ensures
        request_count(es) <= es.len(),
    decreases es.len(),
{
    if es.len() > 0 {
        lemma_request_count_bound(es.drop_last());
    }
}

/// The number a circuit state is exposed as.
pub open spec fn state_number(s: CircuitState) -> nat {
    match s {
        CircuitState::Closed => 0,
        CircuitState::Open => 1,
        CircuitState::HalfOpen => 2,
    }
}

/// The exposition lines of one circuit breaker.
pub open spec fn breaker_lines(b: (Seq<char>, CircuitState, u64, u64)) -> Seq<char> {
    "kairos_circuit_breaker_state{service=\""@ + b.0 + "\"} "@ + dec(state_number(b.1))
        + "\n"@ + "kairos_circuit_breaker_failures{service=\""@ + b.0 + "\"} "@ + dec(
        b.2 as nat,
    ) + "\n"@ + "kairos_circuit_breaker_successes{service=\""@ + b.0 + "\"} "@ + dec(
        b.3 as nat,
    ) + "\n"@
}

/// The lines of a sequence of circuit breakers, in order.
pub open spec fn all_breaker_lines(bs: Seq<(Seq<char>, CircuitState, u64, u64)>) -> Seq<char>
    decreases bs.len(),
{
    if bs.len() == 0 {
        Seq::empty()
    } else {
        all_breaker_lines(bs.drop_last()) + breaker_lines(bs.last())
    }
}

/// The heading of the circuit breaker section.
pub open spec fn breaker_heading() -> Seq<char> {
    "\n# HELP kairos_circuit_breaker_state Circuit breaker state (0=Closed, 1=Open, 2=HalfOpen)\n"@
        + "# TYPE kairos_circuit_breaker_state gauge\n"@
        + "\n# HELP kairos_circuit_breaker_failures Circuit breaker failure count\n"@
        + "# TYPE kairos_circuit_breaker_failures counter\n"@
        + "\n# HELP kairos_circuit_breaker_successes Circuit breaker success count\n"@
        + "# TYPE kairos_circuit_breaker_successes counter\n"@
}

/// The circuit breaker section: empty without breakers.
pub open spec fn breaker_section(bs: Seq<(Seq<char>, CircuitState, u64, u64)>) -> Seq<char> {
    if bs.len() == 0 {
        Seq::empty()
    } else {
        breaker_heading() + all_breaker_lines(bs)
    }
}

/// The views of breaker rows.
pub open spec fn breaker_rows(v: Seq<(String, CircuitState, u64, u64)>) -> Seq<
    (Seq<char>, CircuitState, u64, u64),
> {
    v.map_values(|b: (String, CircuitState, u64, u64)| (b.0@, b.1, b.2, b.3))
}

/// The first part of the exposition: request and error counters.
pub open spec fn counters_text(m: MetricsCollector) -> Seq<char> {
    "# HELP kairos_requests_total Total number of HTTP requests\n# TYPE kairos_requests_total counter\nkairos_requests_total "@
        + dec(m.requests_total as nat)
        + "\n\n# HELP kairos_requests_success_total Total number of successful HTTP requests\n# TYPE kairos_requests_success_total counter\nkairos_requests_success_total "@
        + dec(m.requests_success as nat)
        + "\n\n# HELP kairos_requests_error_total Total number of failed HTTP requests\n# TYPE kairos_requests_error_total counter\nkairos_requests_error_total "@
        + dec(m.requests_error as nat)
        + "\n\n# HELP kairos_http_4xx_errors_total Total number of 4xx client errors\n# TYPE kairos_http_4xx_errors_total counter\nkairos_http_4xx_errors_total "@
        + dec(m.http_4xx_errors as nat)
        + "\n\n# HELP kairos_http_5xx_errors_total Total number of 5xx server errors\n# TYPE kairos_http_5xx_errors_total counter\nkairos_http_5xx_errors_total "@
        + dec(m.http_5xx_errors as nat)
        + "\n\n# HELP kairos_timeout_errors_total Total number of timeout errors\n# TYPE kairos_timeout_errors_total counter\nkairos_timeout_errors_total "@
        + dec(m.timeout_errors as nat)
        + "\n\n# HELP kairos_connection_errors_total Total number of connection errors\n# TYPE kairos_connection_errors_total counter\nkairos_connection_errors_total "@
        + dec(m.connection_errors as nat)
}

/// The latency part of the exposition, after the counters.
pub open spec fn latency_text(m: MetricsCollector, avg_response_time: Seq<char>) -> Seq<char> {
    "\n\n# HELP kairos_response_time_avg Average response time in milliseconds\n# TYPE kairos_response_time_avg gauge\nkairos_response_time_avg "@
        + avg_response_time
        + "\n\n# HELP kairos_response_time_bucket Response time histogram buckets\n# TYPE kairos_response_time_bucket histogram\nkairos_response_time_bucket{le=\"100\"} "@
        + dec(m.response_time_bucket_100ms as nat) + "\nkairos_response_time_bucket{le=\"500\"} "@
        + dec(m.response_time_bucket_500ms as nat) + "\nkairos_response_time_bucket{le=\"1000\"} "@
        + dec(m.response_time_bucket_1s as nat) + "\nkairos_response_time_bucket{le=\"5000\"} "@
        + dec(m.response_time_bucket_5s as nat) + "\nkairos_response_time_bucket{le=\"+Inf\"} "@
        + dec(m.response_time_bucket_inf as nat)
}

/// The traffic and connection part of the exposition, after the latencies.
pub open spec fn traffic_text(m: MetricsCollector, success_rate: Seq<char>, uptime: u64) -> Seq<
    char,
> {
    "\n\n# HELP kairos_request_bytes_total Total bytes received in requests\n# TYPE kairos_request_bytes_total counter\nkairos_request_bytes_total "@
        + dec(m.request_bytes_total as nat)
        + "\n\n# HELP kairos_response_bytes_total Total bytes sent in responses\n# TYPE kairos_response_bytes_total counter\nkairos_response_bytes_total "@
        + dec(m.response_bytes_total as nat)
        + "\n\n# HELP kairos_success_rate Success rate percentage\n# TYPE kairos_success_rate gauge\nkairos_success_rate "@
        + success_rate
        + "\n\n# HELP kairos_active_connections Current number of active connections\n# TYPE kairos_active_connections gauge\nkairos_active_connections "@
        + dec(m.active_connections as nat)
        + "\n\n# HELP kairos_peak_connections Peak number of concurrent connections\n# TYPE kairos_peak_connections gauge\nkairos_peak_connections "@
        + dec(m.peak_connections as nat)
        + "\n\n# HELP kairos_uptime_seconds Service uptime in seconds\n# TYPE kairos_uptime_seconds counter\nkairos_uptime_seconds "@
        + dec(uptime as nat)
}

/// The whole Prometheus exposition.
pub open spec fn metrics_text(
    m: MetricsCollector,
    avg_response_time: Seq<char>,
    success_rate: Seq<char>,
    uptime: u64,
    breakers: Seq<(Seq<char>, CircuitState, u64, u64)>,
) -> Seq<char> {
    counters_text(m) + latency_text(m, avg_response_time) + traffic_text(m, success_rate, uptime)
        + breaker_section(breakers) + "\n"@
}

fn append_number(s: &mut String, n: u64)
    ensures
        final(s)@ == old(s)@ + dec(n as nat),
{
    let d = u64_to_decimal(n);
    s.append(d.as_str());
}

fn append_counters(s: &mut String, m: &MetricsCollector)
    ensures
        final(s)@ == old(s)@ + counters_text(*m),
{
    let ghost start = s@;
    s.append(
        "# HELP kairos_requests_total Total number of HTTP requests\n# TYPE kairos_requests_total counter\nkairos_requests_total ",
    );
    append_number(s, m.requests_total);
    s.append(
        "\n\n# HELP kairos_requests_success_total Total number of successful HTTP requests\n# TYPE kairos_requests_success_total counter\nkairos_requests_success_total ",
    );
    append_number(s, m.requests_success);
    s.append(
        "\n\n# HELP kairos_requests_error_total Total number of failed HTTP requests\n# TYPE kairos_requests_error_total counter\nkairos_requests_error_total ",
    );
    append_number(s, m.requests_error);
    s.append(
        "\n\n# HELP kairos_http_4xx_errors_total Total number of 4xx client errors\n# TYPE kairos_http_4xx_errors_total counter\nkairos_http_4xx_errors_total ",
    );
    append_number(s, m.http_4xx_errors);
    s.append(
        "\n\n# HELP kairos_http_5xx_errors_total Total number of 5xx server errors\n# TYPE kairos_http_5xx_errors_total counter\nkairos_http_5xx_errors_total ",
    );
    append_number(s, m.http_5xx_errors);
    s.append(
        "\n\n# HELP kairos_timeout_errors_total Total number of timeout errors\n# TYPE kairos_timeout_errors_total counter\nkairos_timeout_errors_total ",
    );
    append_number(s, m.timeout_errors);
    s.append(
        "\n\n# HELP kairos_connection_errors_total Total number of connection errors\n# TYPE kairos_connection_errors_total counter\nkairos_connection_errors_total ",
    );
    append_number(s, m.connection_errors);
    assert(s@ =~= start + counters_text(*m));
}

fn append_latency(s: &mut String, m: &MetricsCollector, avg_response_time: &str)
    ensures
        final(s)@ == old(s)@ + latency_text(*m, avg_response_time@),
{
    let ghost start = s@;
    s.append(
        "\n\n# HELP kairos_response_time_avg Average response time in milliseconds\n# TYPE kairos_response_time_avg gauge\nkairos_response_time_avg ",
    );
    s.append(avg_response_time);
    s.append(
        "\n\n# HELP kairos_response_time_bucket Response time histogram buckets\n# TYPE kairos_response_time_bucket histogram\nkairos_response_time_bucket{le=\"100\"} ",
    );
    append_number(s, m.response_time_bucket_100ms);
    s.append("\nkairos_response_time_bucket{le=\"500\"} ");
    append_number(s, m.response_time_bucket_500ms);
    s.append("\nkairos_response_time_bucket{le=\"1000\"} ");
    append_number(s, m.response_time_bucket_1s);
    s.append("\nkairos_response_time_bucket{le=\"5000\"} ");
    append_number(s, m.response_time_bucket_5s);
    s.append("\nkairos_response_time_bucket{le=\"+Inf\"} ");
    append_number(s, m.response_time_bucket_inf);
    assert(s@ =~= start + latency_text(*m, avg_response_time@));
}

fn append_traffic(s: &mut String, m: &MetricsCollector, success_rate: &str, uptime: u64)
    ensures
        final(s)@ == old(s)@ + traffic_text(*m, success_rate@, uptime),
{
    let ghost start = s@;
    s.append(
        "\n\n# HELP kairos_request_bytes_total Total bytes received in requests\n# TYPE kairos_request_bytes_total counter\nkairos_request_bytes_total ",
    );
    append_number(s, m.request_bytes_total);
    s.append(
        "\n\n# HELP kairos_response_bytes_total Total bytes sent in responses\n# TYPE kairos_response_bytes_total counter\nkairos_response_bytes_total ",
    );
    append_number(s, m.response_bytes_total);
    s.append(
        "\n\n# HELP kairos_success_rate Success rate percentage\n# TYPE kairos_success_rate gauge\nkairos_success_rate ",
    );
    s.append(success_rate);
    s.append(
        "\n\n# HELP kairos_active_connections Current number of active connections\n# TYPE kairos_active_connections gauge\nkairos_active_connections ",
    );
    append_number(s, m.active_connections);
    s.append(
        "\n\n# HELP kairos_peak_connections Peak number of concurrent connections\n# TYPE kairos_peak_connections gauge\nkairos_peak_connections ",
    );
    append_number(s, m.peak_connections);
    s.append(
        "\n\n# HELP kairos_uptime_seconds Service uptime in seconds\n# TYPE kairos_uptime_seconds counter\nkairos_uptime_seconds ",
    );
    append_number(s, uptime);
    assert(s@ =~= start + traffic_text(*m, success_rate@, uptime));
}

fn append_breaker(s: &mut String, b: &(String, CircuitState, u64, u64))
    ensures
        final(s)@ == old(s)@ + breaker_lines((b.0@, b.1, b.2, b.3)),
{
    let ghost start = s@;
    let n: u64 = match b.1 {
        CircuitState::Closed => 0,
        CircuitState::Open => 1,
        CircuitState::HalfOpen => 2,
    };
    s.append("kairos_circuit_breaker_state{service=\"");
    s.append(b.0.as_str());
    s.append("\"} ");
    append_number(s, n);
    s.append("\n");
    s.append("kairos_circuit_breaker_failures{service=\"");
    s.append(b.0.as_str());
    s.append("\"} ");
    append_number(s, b.2);
    s.append("\n");
    s.append("kairos_circuit_breaker_successes{service=\"");
    s.append(b.0.as_str());
    s.append("\"} ");
    append_number(s, b.3);
    s.append("\n");
    assert(s@ =~= start + breaker_lines((b.0@, b.1, b.2, b.3)));
}

/// The Prometheus text exposition of `metrics`, with the average response
/// time and success rate already formatted, the uptime in seconds, and one
/// row per circuit breaker (service, state, failures, successes).
pub fn render_metrics(
    metrics: &MetricsCollector,
    avg_response_time: &str,
    success_rate: &str,
    uptime_seconds: u64,
    breakers: &Vec<(String, CircuitState, u64, u64)>,
) -> (r: String)
    ensures
        r@ == metrics_text(
            *metrics,
            avg_response_time@,
            success_rate@,
            uptime_seconds,
            breaker_rows(breakers@),
        ),
{
    let mut s = String::new();
    append_counters(&mut s, metrics);
    append_latency(&mut s, metrics, avg_response_time);
    append_traffic(&mut s, metrics, success_rate, uptime_seconds);
    let ghost before = s@;
    let ghost rows = breaker_rows(breakers@);
    if breakers.len() > 0 {
        s.append(
            "\n# HELP kairos_circuit_breaker_state Circuit breaker state (0=Closed, 1=Open, 2=HalfOpen)\n",
        );
        s.append("# TYPE kairos_circuit_breaker_state gauge\n");
        s.append("\n# HELP kairos_circuit_breaker_failures Circuit breaker failure count\n");
        s.append("# TYPE kairos_circuit_breaker_failures counter\n");
        s.append("\n# HELP kairos_circuit_breaker_successes Circuit breaker success count\n");
        s.append("# TYPE kairos_circuit_breaker_successes counter\n");
        assert(s@ =~= before + breaker_heading());
        let ghost head = s@;
        let mut i: usize = 0;
        assert(rows.take(0) =~= Seq::<(Seq<char>, CircuitState, u64, u64)>::empty());
        while i < breakers.len()
            invariant
                i <= breakers.len(),
                rows == breaker_rows(breakers@),
                s@ == head + all_breaker_lines(rows.take(i as int)),
            decreases breakers.len() - i,
        {
            append_breaker(&mut s, &breakers[i]);
            assert(rows.take(i + 1).drop_last() =~= rows.take(i as int));
            assert(rows[i as int] == (breakers@[i as int].0@, breakers@[i as int].1, breakers@[
                i as int
            ].2, breakers@[i as int].3));
            assert(s@ =~= head + all_breaker_lines(rows.take(i + 1)));
            i = i + 1;
        }
        assert(rows.take(breakers.len() as int) =~= rows);
    }
    s.append("\n");
    assert(s@ =~= metrics_text(
        *metrics,
        avg_response_time@,
        success_rate@,
        uptime_seconds,
        breaker_rows(breakers@),
    ));
    s
}

/// A failed request with a 4xx status counts one more client error and no
/// server error; one with a 5xx status counts one more server error and no
/// client error; any other request (a success, or a failure with another
/// status) changes neither count. Counts wrap at `u64::MAX` as `u64`
/// counters do.
pub proof fn lemma_status_classes(
    m: MetricsCollector,
    success: bool,
    ms: u64,
    status_code: u16,
    request_bytes: Option<u64>,
    response_bytes: Option<u64>,
)
    ensures
        ({
            let n = m.recorded(success, ms, status_code, request_bytes, response_bytes);
            let up4 = if m.http_4xx_errors == u64::MAX { 0 } else { m.http_4xx_errors + 1 };
            let up5 = if m.http_5xx_errors == u64::MAX { 0 } else { m.http_5xx_errors + 1 };
            &&& !success && 400 <= status_code <= 499 ==> n.http_4xx_errors == up4
                && n.http_5xx_errors == m.http_5xx_errors
            &&& !success && 500 <= status_code <= 599 ==> n.http_5xx_errors == up5
                && n.http_4xx_errors == m.http_4xx_errors
            &&& (success || status_code < 400 || status_code > 599) ==> n.http_4xx_errors
                == m.http_4xx_errors && n.http_5xx_errors == m.http_5xx_errors
        }),
{
    let n = m.recorded(success, ms, status_code, request_bytes, response_bytes);
    assert(wrapping_add(m.http_4xx_errors, 1) == if m.http_4xx_errors == u64::MAX {
        0
    } else {
        m.http_4xx_errors + 1
    });
    assert(wrapping_add(m.http_5xx_errors, 1) == if m.http_5xx_errors == u64::MAX {
        0
    } else {
        m.http_5xx_errors + 1
    });
}

/// One more, as a `u64` counter counts: from `u64::MAX` it wraps to zero.
pub open spec fn bumped(x: u64) -> u64 {
    if x == u64::MAX {
        0
    } else {
        (x + 1) as u64
    }
}

/// Every recorded request adds one to the total and one to exactly one of
/// successes and errors; a response under 100, 500, 1000 or 5000 ms adds
/// one to that bucket and to every larger one, a response of 5000 ms or
/// more only to the +Inf bucket; the response time is added to the sum, and
/// each byte count given is added to its total.
pub proof fn lemma_request_accounting(
    m: MetricsCollector,
    success: bool,
    ms: u64,
    status_code: u16,
    request_bytes: Option<u64>,
    response_bytes: Option<u64>,
)
    ensures
        ({
            let n = m.recorded(success, ms, status_code, request_bytes, response_bytes);
            &&& n.requests_total == bumped(m.requests_total)
            &&& success ==> n.requests_success == bumped(m.requests_success) && n.requests_error
                == m.requests_error
            &&& !success ==> n.requests_error == bumped(m.requests_error) && n.requests_success
                == m.requests_success
            &&& n.response_time_bucket_100ms == if ms < 100 {
                bumped(m.response_time_bucket_100ms)
            } else {
                m.response_time_bucket_100ms
            }
            &&& n.response_time_bucket_500ms == if ms < 500 {
                bumped(m.response_time_bucket_500ms)
            } else {
                m.response_time_bucket_500ms
            }
            &&& n.response_time_bucket_1s == if ms < 1000 {
                bumped(m.response_time_bucket_1s)
            } else {
                m.response_time_bucket_1s
            }
            &&& n.response_time_bucket_5s == if ms < 5000 {
                bumped(m.response_time_bucket_5s)
            } else {
                m.response_time_bucket_5s
            }
            &&& n.response_time_bucket_inf == if ms >= 5000 {
                bumped(m.response_time_bucket_inf)
            } else {
                m.response_time_bucket_inf
            }
            &&& n.response_time_sum as int == (m.response_time_sum + ms) % 0x1_0000_0000_0000_0000
            &&& n.request_bytes_total as int == match request_bytes {
                Some(b) => (m.request_bytes_total + b) % 0x1_0000_0000_0000_0000,
                None => m.request_bytes_total as int,
            }
            &&& n.response_bytes_total as int == match response_bytes {
                Some(b) => (m.response_bytes_total + b) % 0x1_0000_0000_0000_0000,
                None => m.response_bytes_total as int,
            }
            &&& n.timeout_errors == m.timeout_errors
            &&& n.connection_errors == m.connection_errors
        }),
{
    let n = m.recorded(success, ms, status_code, request_bytes, response_bytes);
    let w: int = 0x1_0000_0000_0000_0000;
    assert forall|x: u64, y: u64| #[trigger] wrapping_add(x, y) as int == (x + y) % w by {
        if x + y >= w {
            assert((x + y) % w == x + y - w) by (nonlinear_arith)
                requires
                    w <= x + y < 2 * w,
                    w == 0x1_0000_0000_0000_0000,
            ;
        } else {
            assert((x + y) % w == x + y) by (nonlinear_arith)
                requires
                    0 <= x + y < w,
            ;
        }
    }
}

} // verus!

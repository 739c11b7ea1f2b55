//! The decisions of HTTP request forwarding.
//!
//! `RouteHandler` holds one circuit breaker per upstream service and one load
//! balancer per route with several backends. Forwarding a request is a loop
//! of attempts that the caller drives: it asks for a backend
//! (`select_backend`), asks that backend's breaker for admission (`check_breaker`),
//! sends the request itself, and reports the outcome (`complete_attempt`),
//! which says whether to answer, retry after a backoff, or fail.
use vstd::prelude::*;
use vstd::string::*;
use crate::keyed::{distinct_keys, find_key, index_of_key, insert_key, is_first_index};
use crate::models::error::GatewayError;
use crate::models::router::{
    Backend, BackendView, LoadBalancingStrategy, RetryConfig, Router, RouterView, backends_view,
    router_backends,
};
use crate::models::settings::routers_view;
use crate::routes::metrics::MetricsCollector;
use crate::services::circuit_breaker::{
    BreakerView, CircuitBreaker, CircuitBreakerConfig, CircuitState, after_check, after_failure,
    after_success, refuses,
};
use crate::services::load_balancer::{
    Balancer, LoadBalancer, LoadBalancerFactory, backend_key, balancer_noted, balancer_selected, opt_str,
};
use crate::text::{concat2, concat3, dec, owned, str_eq, u64_to_decimal};
use crate::utils::route_matcher::{RouteMatchError, RouteMatcher, route_for};

verus! {

/// The methods forwarded as they are; any other is forwarded as GET.
pub open spec fn forwarded_method(m: Seq<char>) -> Seq<char> {
    if m == "GET"@ || m == "POST"@ || m == "PUT"@ || m == "DELETE"@ || m == "HEAD"@ || m
        == "OPTIONS"@ || m == "CONNECT"@ || m == "PATCH"@ || m == "TRACE"@ {
        m
    } else {
        "GET"@
    }
}

/// The method to send upstream for a request made with `method`.
pub fn parse_method(method: &str) -> (r: String)
    ensures
        r@ == forwarded_method(method@),
{
    if str_eq(method, "GET") || str_eq(method, "POST") || str_eq(method, "PUT") || str_eq(
        method,
        "DELETE",
    ) || str_eq(method, "HEAD") || str_eq(method, "OPTIONS") || str_eq(method, "CONNECT")
        || str_eq(method, "PATCH") || str_eq(method, "TRACE") {
        owned(method)
    } else {
        owned("GET")
    }
}

/// `c` with ASCII capitals made small.
pub open spec fn ascii_lower_char(c: char) -> char {
    if 'A' <= c && c <= 'Z' {
        ((c as u32) + 32) as char
    } else {
        c
    }
}

/// `s` with ASCII capitals made small.
pub open spec fn ascii_lower(s: Seq<char>) -> Seq<char> {
    s.map_values(|c: char| ascii_lower_char(c))
}

fn lower_char(c: char) -> (r: char)
    ensures
        r == ascii_lower_char(c),
{
    if 'A' <= c && c <= 'Z' {
        let v: u8 = ((c as u32) + 32) as u8;
        v as char
    } else {
        c
    }
}

/// `s` with ASCII capitals made small (header names are ASCII).
pub fn to_ascii_lower(s: &str) -> (r: String)
    ensures
        r@ == ascii_lower(s@),
{
    let mut r = String::new();
    let n = s.unicode_len();
    let mut i: usize = 0;
    while i < n
        invariant
            i <= n,
            n == s@.len(),
            r@ == ascii_lower(s@.take(i as int)),
        decreases n - i,
    {
        let c = s.get_char(i);
        r.push(lower_char(c));
        assert(ascii_lower(s@.take(i + 1)) =~= ascii_lower(s@.take(i as int)).push(
            ascii_lower_char(c),
        ));
        i = i + 1;
    }
    assert(s@.take(n as int) =~= s@);
    r
}

/// Header names that are not passed upstream: host, connection management
/// and protocol upgrade, matched as prefixes of the lower-cased name.
pub open spec fn hop_header(name: Seq<char>) -> bool {
    let l = ascii_lower(name);
    crate::text::starts_with(l, "host"@) || crate::text::starts_with(l, "connection"@)
        || crate::text::starts_with(l, "upgrade"@) || crate::text::starts_with(
        l,
        "proxy-connection"@,
    )
}

/// A header list with `(name, value)` set: an existing entry of that name
/// takes the value in place, else the entry is added at the end.
pub open spec fn set_header(hs: Seq<(Seq<char>, Seq<u8>)>, name: Seq<char>, value: Seq<u8>) -> Seq<
    (Seq<char>, Seq<u8>),
> {
    let names = hs.map_values(|h: (Seq<char>, Seq<u8>)| h.0);
    if names.contains(name) {
        hs.update(index_of_key(names, name), (name, value))
    } else {
        hs.push((name, value))
    }
}

/// The headers passed upstream from `hs`, before the default user agent.
pub open spec fn passed_headers(hs: Seq<(Seq<char>, Seq<u8>)>) -> Seq<(Seq<char>, Seq<u8>)>
    decreases hs.len(),
{
    if hs.len() == 0 {
        Seq::empty()
    } else {
        let prev = passed_headers(hs.drop_last());
        if hop_header(hs.last().0) {
            prev
        } else {
            set_header(prev, hs.last().0, hs.last().1)
        }
    }
}

/// The bytes of the default user agent, `kairos-rs/0.2.0`.
pub open spec fn default_user_agent() -> Seq<u8> {
    seq![107u8, 97, 105, 114, 111, 115, 45, 114, 115, 47, 48, 46, 50, 46, 48]
}

/// The headers sent upstream for a request with headers `hs`.
pub open spec fn upstream_headers(hs: Seq<(Seq<char>, Seq<u8>)>) -> Seq<(Seq<char>, Seq<u8>)> {
    let p = passed_headers(hs);
    if p.map_values(|h: (Seq<char>, Seq<u8>)| h.0).contains("user-agent"@) {
        p
    } else {
        p.push(("user-agent"@, default_user_agent()))
    }
}

/// The views of a header list.
pub open spec fn headers_view(hs: Seq<(String, Vec<u8>)>) -> Seq<(Seq<char>, Seq<u8>)> {
    hs.map_values(|h: (String, Vec<u8>)| (h.0@, h.1@))
}

fn header_names(hs: &Vec<(String, Vec<u8>)>) -> (r: Vec<String>)
    ensures
        r@.map_values(|s: String| s@) == headers_view(hs@).map_values(
            |h: (Seq<char>, Seq<u8>)| h.0,
        ),
{
    let mut r: Vec<String> = Vec::new();
    let mut i: usize = 0;
    while i < hs.len()
        invariant
            i <= hs.len(),
            r@.map_values(|s: String| s@) == headers_view(hs@).map_values(
                |h: (Seq<char>, Seq<u8>)| h.0,
            ).take(i as int),
        decreases hs.len() - i,
    {
        let ghost before = r@;
        r.push(hs[i].0.clone());
        assert(r@.map_values(|s: String| s@) =~= before.map_values(|s: String| s@).push(
            hs@[i as int].0@,
        ));
        assert(r@.map_values(|s: String| s@) =~= headers_view(hs@).map_values(
            |h: (Seq<char>, Seq<u8>)| h.0,
        ).take(i + 1));
        i = i + 1;
    }
    assert(r@.map_values(|s: String| s@) =~= headers_view(hs@).map_values(
        |h: (Seq<char>, Seq<u8>)| h.0,
    ));
    r
}

fn put_header(hs: &mut Vec<(String, Vec<u8>)>, name: String, value: Vec<u8>)
    ensures
        headers_view(final(hs)@) == set_header(headers_view(old(hs)@), name@, value@),
{
    let names = header_names(hs);
    let ghost hv = headers_view(hs@);
    match find_key(&names, name.as_str()) {
        Some(i) => {
            let ghost nv = name@;
            let ghost vv = value@;
            hs.set(i, (name, value));
            assert(headers_view(hs@) =~= hv.update(i as int, (nv, vv)));
        },
        None => {
            let ghost nv = name@;
            let ghost vv = value@;
            hs.push((name, value));
            assert(headers_view(hs@) =~= hv.push((nv, vv)));
        },
    }
}

/// The headers to send upstream: hop-by-hop headers left out, a repeated
/// name keeping its first place and last value, and a default user agent
/// added when there is none.
pub fn build_headers_optimized(original_headers: &Vec<(String, Vec<u8>)>) -> (r: Vec<
    (String, Vec<u8>),
>)
    ensures
        headers_view(r@) == upstream_headers(headers_view(original_headers@)),
{
    let ghost hv = headers_view(original_headers@);
    let mut out: Vec<(String, Vec<u8>)> = Vec::new();
    let mut i: usize = 0;
    assert(hv.take(0) =~= Seq::<(Seq<char>, Seq<u8>)>::empty());
    while i < original_headers.len()
        invariant
            i <= original_headers.len(),
            hv == headers_view(original_headers@),
            headers_view(out@) == passed_headers(hv.take(i as int)),
        decreases original_headers.len() - i,
    {
        assert(hv.take(i + 1).drop_last() =~= hv.take(i as int));
        assert(hv[i as int] == (original_headers@[i as int].0@, original_headers@[i as int].1@));
        let lower = to_ascii_lower(original_headers[i].0.as_str());
        let skip = crate::text::str_starts_with(lower.as_str(), "host")
            || crate::text::str_starts_with(lower.as_str(), "connection")
            || crate::text::str_starts_with(lower.as_str(), "upgrade")
            || crate::text::str_starts_with(lower.as_str(), "proxy-connection");
        if !skip {
            let name = original_headers[i].0.clone();
            let value = original_headers[i].1.clone();
            put_header(&mut out, name, value);
        }
        i = i + 1;
    }
    assert(hv.take(original_headers.len() as int) =~= hv);
    let names = header_names(&out);
    match find_key(&names, "user-agent") {
        Some(_) => {},
        None => {
            let ua: Vec<u8> = vec![107u8, 97, 105, 114, 111, 115, 45, 114, 115, 47, 48, 46, 50, 46, 48];
            let ghost before = headers_view(out@);
            out.push((owned("user-agent"), ua));
            assert(headers_view(out@) =~= before.push(("user-agent"@, default_user_agent())));
        },
    }
    out
}

/// Upstream response headers are passed back unless they start with `connection`.
pub fn keep_response_header(name: &str) -> (r: bool)
    ensures
        r == !crate::text::starts_with(name@, "connection"@),
{
    !crate::text::str_starts_with(name, "connection")
}

/// A status in the 2xx range.
pub open spec fn is_success_status(status: u16) -> bool {
    200 <= status <= 299
}

/// Counts a request that ended after `response_time_ms` milliseconds with
/// the status of the answer, or without one (counted as a 500 failure).
pub fn record_response(metrics: &mut MetricsCollector, status: Option<u16>, response_time_ms: u64)
    ensures
        *final(metrics) == match status {
            Some(s) => old(metrics).recorded(is_success_status(s), response_time_ms, s, None, None),
            None => old(metrics).recorded(false, response_time_ms, 500, None, None),
        },
{
    match status {
        Some(s) => {
            let success = 200 <= s && s <= 299;
            metrics.record_request(success, response_time_ms, s, None, None);
        },
        None => {
            metrics.record_request(false, response_time_ms, 500, None, None);
        },
    }
}

/// `e` is a configuration error with this message, about this route.
pub open spec fn is_config_error(e: GatewayError, message: Seq<char>, route: Seq<char>) -> bool {
    match e {
        GatewayError::Config { message: m, route: r } => m@ == message && r@ == route,
        _ => false,
    }
}

/// The service keys of a route's backends.
pub open spec fn backend_keys(bs: Seq<BackendView>) -> Seq<Seq<char>> {
    bs.map_values(|b: BackendView| backend_key(b))
}

/// The service keys of all backends of `rs`, route by route.
pub open spec fn route_service_keys(rs: Seq<RouterView>) -> Seq<Seq<char>>
    decreases rs.len(),
{
    if rs.len() == 0 {
        Seq::empty()
    } else {
        route_service_keys(rs.drop_last()) + backend_keys(router_backends(rs.last()))
    }
}

/// A table of balancer strategies by route path, with `(path, s)` set.
pub open spec fn put_strategy(
    t: Seq<(Seq<char>, LoadBalancingStrategy)>,
    path: Seq<char>,
    s: LoadBalancingStrategy,
) -> Seq<(Seq<char>, LoadBalancingStrategy)> {
    let keys = t.map_values(|e: (Seq<char>, LoadBalancingStrategy)| e.0);
    if keys.contains(path) {
        t.update(index_of_key(keys, path), (path, s))
    } else {
        t.push((path, s))
    }
}

/// The balancer strategies of the routes of `rs` with several backends; a
/// later route with the same path replaces the earlier one's.
pub open spec fn balancer_table(rs: Seq<RouterView>) -> Seq<(Seq<char>, LoadBalancingStrategy)>
    decreases rs.len(),
{
    if rs.len() == 0 {
        Seq::empty()
    } else {
        let t = balancer_table(rs.drop_last());
        if router_backends(rs.last()).len() > 1 {
            put_strategy(t, rs.last().external_path, rs.last().load_balancing_strategy)
        } else {
            t
        }
    }
}

/// A breaker that has seen nothing.
pub open spec fn fresh_breaker(b: BreakerView) -> bool {
    b == BreakerView {
        state: CircuitState::Closed,
        failure_count: 0,
        success_count: 0,
        last_failure_time: None,
    }
}

/// The breaker configuration services get: five failures to open, three
/// successes to close, a 60 s request timeout and 30 s before testing recovery.
pub open spec fn service_breaker_config(c: CircuitBreakerConfig) -> bool {
    c.failure_threshold == 5 && c.success_threshold == 3 && c.timeout == 60_000 && c.reset_timeout
        == 30_000
}

/// The attempts of one forwarded request: the one being made, of how many.
#[derive(Debug)]
pub struct AttemptLoop {
    attempt: u32,
    max_attempts: u32,
}

impl AttemptLoop {
    /// The attempt being made, counting from zero.
    pub closed spec fn spec_attempt(&self) -> u32 {
        self.attempt
    }

    /// How many attempts the request may make.
    pub closed spec fn spec_max(&self) -> u32 {
        self.max_attempts
    }

    /// A request about to make its first of `max_attempts` attempts.
    pub fn new(max_attempts: u32) -> (r: Self)
        ensures
            r.spec_attempt() == 0,
            r.spec_max() == max_attempts,
    {
        AttemptLoop { attempt: 0, max_attempts }
    }

    /// The attempt being made.
    pub fn attempt(&self) -> (r: u32)
        ensures
            r == self.spec_attempt(),
    {
        self.attempt
    }

    /// How many attempts the request may make.
    pub fn max_attempts(&self) -> (r: u32)
        ensures
            r == self.spec_max(),
    {
        self.max_attempts
    }

    /// Whether the current attempt may still be made.
    pub fn may_try(&self) -> (r: bool)
        ensures
            r == (self.spec_attempt() < self.spec_max()),
    {
        self.attempt < self.max_attempts
    }

    /// Moves on to the next attempt, after a backend whose circuit was open
    /// or an attempt to be retried; `false`, with nothing changed, when no
    /// attempt is left.
    pub fn advance(&mut self) -> (r: bool)
        ensures
            final(self).spec_max() == old(self).spec_max(),
            r == (old(self).spec_attempt() + 1 < old(self).spec_max()),
            r ==> final(self).spec_attempt() == old(self).spec_attempt() + 1,
            !r ==> final(self).spec_attempt() == old(self).spec_attempt(),
            old(self).spec_attempt() < old(self).spec_max() ==> final(self).spec_attempt()
                < final(self).spec_max(),
    {
        if (self.attempt as u64) + 1 < self.max_attempts as u64 {
            self.attempt = self.attempt + 1;
            true
        } else {
            false
        }
    }
}

/// What to do after an attempt.
#[derive(Debug)]
pub enum AttemptStep {
    /// Answer the client with the upstream response, which had this status.
    Respond(u16),
    /// Wait the backoff for this attempt, then try again.
    Retry,
    /// Answer the client with this error.
    Fail(GatewayError),
}

/// Every breaker is well formed, fresh, configured for a service, and named
/// by its key.
pub open spec fn breakers_fresh(keys: Seq<Seq<char>>, bs: Seq<CircuitBreaker>) -> bool {
    &&& keys.len() == bs.len()
    &&& forall|k: int|
        0 <= k < bs.len() ==> #[trigger] bs[k].wf() && fresh_breaker(bs[k]@)
            && service_breaker_config(bs[k].spec_config()) && bs[k].spec_name() == keys[k]
}

/// The balancer table of parallel key and balancer lists.
pub open spec fn table_view(keys: Seq<String>, bs: Seq<Balancer>) -> Seq<
    (Seq<char>, LoadBalancingStrategy),
> {
    Seq::new(bs.len(), |i: int| (keys[i]@, bs[i].strategy()))
}

/// Adds a fresh breaker for each backend service not yet covered.
fn add_breakers(
    keys: &mut Vec<String>,
    breakers: &mut Vec<CircuitBreaker>,
    backends: &Vec<Backend>,
    Ghost(prefix): Ghost<Seq<Seq<char>>>,
)
    requires
        old(keys)@.map_values(|s: String| s@) == distinct_keys(prefix),
        breakers_fresh(old(keys)@.map_values(|s: String| s@), old(breakers)@),
    ensures
        final(keys)@.map_values(|s: String| s@) == distinct_keys(
            prefix + backend_keys(backends_view(backends@)),
        ),
        breakers_fresh(final(keys)@.map_values(|s: String| s@), final(breakers)@),
        final(keys)@.len() == final(breakers)@.len(),
{
    let ghost bk = backend_keys(backends_view(backends@));
    let mut j: usize = 0;
    assert(prefix + bk.take(0) =~= prefix);
    while j < backends.len()
        invariant
            j <= backends.len(),
            bk == backend_keys(backends_view(backends@)),
            keys@.map_values(|s: String| s@) == distinct_keys(prefix + bk.take(j as int)),
            breakers_fresh(keys@.map_values(|s: String| s@), breakers@),
        decreases backends.len() - j,
    {
        let ghost before = prefix + bk.take(j as int);
        assert((prefix + bk.take(j + 1)).drop_last() =~= before);
        let port = u64_to_decimal(backends[j].port as u64);
        let key = concat3(backends[j].host.as_str(), ":", port.as_str());
        assert(key@ == bk[j as int]);
        assert((prefix + bk.take(j + 1)).last() == key@);
        let ghost keys0 = keys@;
        let ghost breakers0 = breakers@;
        match find_key(&*keys, key.as_str()) {
            Some(_) => {
                assert(keys@ == keys0 && breakers@ == breakers0);
                assert(breakers_fresh(keys@.map_values(|s: String| s@), breakers@));
            },
            None => {
                let ghost kv = key@;
                let ghost old_keys = keys@.map_values(|s: String| s@);
                let ghost old_breakers = breakers@;
                let config = CircuitBreakerConfig::default();
                let breaker = CircuitBreaker::new(key.clone(), config);
                let ghost nb = breaker;
                keys.push(key);
                breakers.push(breaker);
                assert(keys@.map_values(|s: String| s@) =~= old_keys.push(kv));
                assert forall|k: int| 0 <= k < breakers@.len() implies #[trigger] breakers@[k].wf()
                    && fresh_breaker(breakers@[k]@) && service_breaker_config(
                    breakers@[k].spec_config(),
                ) && breakers@[k].spec_name() == keys@.map_values(|s: String| s@)[k] by {
                    if k < old_breakers.len() {
                        assert(old_breakers[k].wf());
                        assert(breakers@[k] == old_breakers[k]);
                    } else {
                        assert(breakers@[k] == nb);
                    }
                }
                assert(breakers_fresh(keys@.map_values(|s: String| s@), breakers@));
            },
        }
        j = j + 1;
    }
    assert(bk.take(backends.len() as int) =~= bk);
}

/// Gives the route at `path` a fresh balancer following `strategy`.
fn put_balancer(
    keys: &mut Vec<String>,
    balancers: &mut Vec<Balancer>,
    path: &str,
    strategy: LoadBalancingStrategy,
)
    requires
        old(keys)@.len() == old(balancers)@.len(),
        forall|k: int| 0 <= k < old(balancers)@.len() ==> #[trigger] old(balancers)@[k].is_fresh(),
    ensures
        final(keys)@.len() == final(balancers)@.len(),
        forall|k: int| 0 <= k < final(balancers)@.len() ==> #[trigger] final(balancers)@[k].is_fresh(),
        table_view(final(keys)@, final(balancers)@) == put_strategy(
            table_view(old(keys)@, old(balancers)@),
            path@,
            strategy,
        ),
{
    let ghost t = table_view(keys@, balancers@);
    assert(t.map_values(|e: (Seq<char>, LoadBalancingStrategy)| e.0) =~= keys@.map_values(
        |s: String| s@,
    ));
    let balancer = LoadBalancerFactory::create(&strategy);
    match find_key(&*keys, path) {
        Some(k) => {
            balancers.set(k, balancer);
            assert(table_view(keys@, balancers@) =~= put_strategy(t, path@, strategy));
        },
        None => {
            keys.push(owned(path));
            balancers.push(balancer);
            assert(table_view(keys@, balancers@) =~= put_strategy(t, path@, strategy));
        },
    }
}

/// The routes, breakers and balancers of the HTTP forwarder.
#[derive(Debug)]
pub struct RouteHandler {
    matcher: RouteMatcher,
    timeout_seconds: u64,
    breaker_keys: Vec<String>,
    breakers: Vec<CircuitBreaker>,
    balancer_keys: Vec<String>,
    balancers: Vec<Balancer>,
}

impl RouteHandler {
    /// The service keys that have breakers, in order.
    pub closed spec fn spec_breaker_keys(&self) -> Seq<Seq<char>> {
        self.breaker_keys@.map_values(|s: String| s@)
    }

    /// The breakers, by position.
    pub closed spec fn spec_breakers(&self) -> Seq<CircuitBreaker> {
        self.breakers@
    }

    /// The route paths that have balancers, with the balancers' strategies.
    pub closed spec fn spec_balancers(&self) -> Seq<(Seq<char>, LoadBalancingStrategy)> {
        table_view(self.balancer_keys@, self.balancers@)
    }

    /// The balancers, by position in the balancer table.
    pub closed spec fn spec_balancer_list(&self) -> Seq<Balancer> {
        self.balancers@
    }

    /// The routes served.
    pub closed spec fn spec_routes(&self) -> Seq<RouterView> {
        self.matcher.spec_routes()
    }

    /// The upstream timeout in seconds.
    pub closed spec fn spec_timeout(&self) -> u64 {
        self.timeout_seconds
    }

    /// The tables line up, and every breaker is well formed.
    pub closed spec fn wf(&self) -> bool {
        &&& self.breaker_keys@.len() == self.breakers@.len()
        &&& self.balancer_keys@.len() == self.balancers@.len()
        &&& forall|i: int| 0 <= i < self.breakers@.len() ==> #[trigger] self.breakers@[i].wf()
    }

    /// The breaker of the service at position `i`.
    pub closed spec fn breaker_at(&self, i: int) -> CircuitBreaker {
        self.breakers@[i]
    }

    /// A handler for `routes`, with a fresh breaker for each distinct backend
    /// service (`host:port`) and a fresh balancer for each route with
    /// several backends.
    pub fn new(routes: Vec<Router>, timeout_seconds: u64) -> (r: Self)
        ensures
            r.wf(),
            r.spec_routes() == routers_view(routes@),
            r.spec_timeout() == timeout_seconds,
            r.spec_breaker_keys() == distinct_keys(route_service_keys(routers_view(routes@))),
            breakers_fresh(r.spec_breaker_keys(), r.spec_breakers()),
            r.spec_balancers() == balancer_table(routers_view(routes@)),
            forall|k: int|
                0 <= k < r.spec_balancer_list().len() ==> #[trigger] r.spec_balancer_list()[k].is_fresh(),
    {
        let ghost rs = routers_view(routes@);
        let mut breaker_keys: Vec<String> = Vec::new();
        let mut breakers: Vec<CircuitBreaker> = Vec::new();
        let mut balancer_keys: Vec<String> = Vec::new();
        let mut balancers: Vec<Balancer> = Vec::new();
        let mut i: usize = 0;
        assert(rs.take(0) =~= Seq::<RouterView>::empty());
        assert(breaker_keys@.map_values(|s: String| s@) =~= Seq::<Seq<char>>::empty());
        while i < routes.len()
            invariant
                i <= routes.len(),
                rs == routers_view(routes@),
                breaker_keys@.len() == breakers@.len(),
                balancer_keys@.len() == balancers@.len(),
                breaker_keys@.map_values(|s: String| s@) == distinct_keys(
                    route_service_keys(rs.take(i as int)),
                ),
                breakers_fresh(breaker_keys@.map_values(|s: String| s@), breakers@),
                table_view(balancer_keys@, balancers@) == balancer_table(rs.take(i as int)),
                forall|k: int| 0 <= k < balancers@.len() ==> #[trigger] balancers@[k].is_fresh(),
            decreases routes.len() - i,
        {
            let ghost prefix_keys = route_service_keys(rs.take(i as int));
            assert(rs.take(i + 1).drop_last() =~= rs.take(i as int));
            assert(rs[i as int] == routes@[i as int]@);
            let backends = routes[i].get_backends();
            add_breakers(&mut breaker_keys, &mut breakers, &backends, Ghost(prefix_keys));
            assert(route_service_keys(rs.take(i + 1)) == prefix_keys + backend_keys(
                router_backends(rs[i as int]),
            ));
            if backends.len() > 1 {
                let strategy = routes[i].load_balancing_strategy;
                put_balancer(
                    &mut balancer_keys,
                    &mut balancers,
                    routes[i].external_path.as_str(),
                    strategy,
                );
            }
            i = i + 1;
        }
        assert(rs.take(routes.len() as int) =~= rs);
        let matcher = RouteMatcher::new(routes);
        RouteHandler { matcher, timeout_seconds, breaker_keys, breakers, balancer_keys, balancers }
    }

    /// The number of attempts a route's retry policy allows: one more than
    /// its retries, or one without a policy. The count is a `u32` and wraps
    /// as `u32` addition does: `u32::MAX` retries leave no attempt (a valid
    /// policy has at most ten).
    pub fn max_attempts(retry: &Option<RetryConfig>) -> (r: u32)
        ensures
            r == match retry {
                Some(c) => if c.max_retries < u32::MAX {
                    (c.max_retries + 1) as u32
                } else {
                    0u32
                },
                None => 1u32,
            },
    {
        match retry {
            Some(c) => c.max_retries.wrapping_add(1),
            None => 1,
        }
    }

    /// Asks the breaker of `backend`'s service whether the attempt may go
    /// out at `now`. An open circuit moves on to the next attempt when the
    /// route has other backends and attempts remain, else fails the request.
    pub fn check_breaker(
        &mut self,
        backend: &Backend,
        now: u64,
        path: &str,
        backends_len: usize,
        attempt: u32,
        max_attempts: u32,
    ) -> (r: Result<bool, GatewayError>)
        requires
            old(self).wf(),
        ensures
            final(self).wf(),
            final(self).spec_routes() == old(self).spec_routes(),
            final(self).spec_timeout() == old(self).spec_timeout(),
            final(self).spec_breaker_keys() == old(self).spec_breaker_keys(),
            final(self).spec_balancers() == old(self).spec_balancers(),
            final(self).spec_balancer_list() == old(self).spec_balancer_list(),
            ({
                let key = backend_key(backend@);
                let i = index_of_key(old(self).spec_breaker_keys(), key);
                let b = old(self).spec_breakers()[i];
                let reset = b.spec_config().reset_timeout;
                &&& i < 0 ==> r is Err && is_config_error(
                    r->Err_0,
                    "No circuit breaker found for backend: "@ + key,
                    path@,
                ) && final(self).spec_breakers() == old(self).spec_breakers()
                &&& i >= 0 ==> final(self).spec_breakers() == old(self).spec_breakers().update(
                    i,
                    final(self).spec_breakers()[i],
                ) && final(self).spec_breakers()[i]@ == after_check(b@, reset, now)
                    && final(self).spec_breakers()[i].spec_config() == b.spec_config()
                    && final(self).spec_breakers()[i].spec_name() == b.spec_name()
                &&& i >= 0 && !refuses(b@, reset, now) ==> r == Ok::<bool, GatewayError>(true)
                &&& i >= 0 && refuses(b@, reset, now) && backends_len > 1 && attempt + 1
                    < max_attempts ==> r == Ok::<bool, GatewayError>(false)
                &&& i >= 0 && refuses(b@, reset, now) && !(backends_len > 1 && attempt + 1
                    < max_attempts) ==> (r matches Err(GatewayError::CircuitOpen { service })
                    && service@ == key)
            }),
    {
        let port = u64_to_decimal(backend.port as u64);
        let key = concat3(backend.host.as_str(), ":", port.as_str());
        match find_key(&self.breaker_keys, key.as_str()) {
            None => Err(
                GatewayError::Config {
                    message: concat2("No circuit breaker found for backend: ", key.as_str()),
                    route: owned(path),
                },
            ),
            Some(i) => {
                let ghost old_breakers = self.breakers@;
                let mut breaker = self.breakers.remove(i);
                assert(old_breakers[i as int].wf());
                let open = breaker.is_open(now);
                let ghost nb = breaker;
                self.breakers.insert(i, breaker);
                assert(self.breakers@ =~= old_breakers.update(i as int, nb));
                assert forall|k: int| 0 <= k < self.breakers@.len() implies #[trigger] self.breakers@[
                    k].wf() by {
                    if k != i {
                        assert(old_breakers[k].wf());
                    }
                }
                if !open {
                    Ok(true)
                } else if backends_len > 1 && (attempt as u64) + 1 < max_attempts as u64 {
                    Ok(false)
                } else {
                    Err(GatewayError::CircuitOpen { service: key })
                }
            },
        }
    }

    /// Reports the outcome of an attempt that ended at `now`: the upstream
    /// status, or the error of a request that got no answer. The service's
    /// breaker records it, the route's balancer learns of answers that are
    /// kept and of failures, and the step says what comes next: a status the
    /// retry policy names, or a failure the policy retries, is retried while
    /// attempts remain; otherwise the status is answered or the error returned.
    pub fn complete_attempt(
        &mut self,
        route_path: &str,
        backend: &Backend,
        retry: &Option<RetryConfig>,
        attempt: u32,
        max_attempts: u32,
        outcome: Result<u16, GatewayError>,
        now: u64,
    ) -> (r: AttemptStep)
        requires
            old(self).wf(),
        ensures
            final(self).wf(),
            final(self).spec_routes() == old(self).spec_routes(),
            final(self).spec_timeout() == old(self).spec_timeout(),
            final(self).spec_breaker_keys() == old(self).spec_breaker_keys(),
            final(self).spec_balancers() == old(self).spec_balancers(),
            ({
                let key = backend_key(backend@);
                let i = index_of_key(old(self).spec_breaker_keys(), key);
                let b = old(self).spec_breakers()[i];
                &&& i < 0 ==> final(self).spec_breakers() == old(self).spec_breakers()
                &&& i >= 0 ==> final(self).spec_breakers() == old(self).spec_breakers().update(
                    i,
                    final(self).spec_breakers()[i],
                ) && final(self).spec_breakers()[i].spec_config() == b.spec_config()
                    && final(self).spec_breakers()[i].spec_name() == b.spec_name()
                    && final(self).spec_breakers()[i]@ == match outcome {
                    Ok(_) => after_success(b@, b.spec_config().success_threshold),
                    Err(_) => after_failure(b@, b.spec_config().failure_threshold, now),
                }
            }),
            ({
                let more = attempt + 1 < max_attempts;
                match outcome {
                    Ok(status) => if retry is Some && retry->0@.retry_on_status_codes.contains(
                        status,
                    ) && more {
                        r == AttemptStep::Retry
                    } else {
                        r == AttemptStep::Respond(status)
                    },
                    Err(e) => if retry is Some && retry->0.retry_on_connection_error && more {
                        r == AttemptStep::Retry
                    } else {
                        r == AttemptStep::Fail(e)
                    },
                }
            }),
            ({
                let more = attempt + 1 < max_attempts;
                let noted = match outcome {
                    Ok(status) => !(retry is Some && retry->0@.retry_on_status_codes.contains(
                        status,
                    ) && more),
                    Err(_) => true,
                };
                let k = index_of_key(
                    old(self).spec_balancers().map_values(
                        |e: (Seq<char>, LoadBalancingStrategy)| e.0,
                    ),
                    route_path@,
                );
                let before = old(self).spec_balancer_list();
                let after = final(self).spec_balancer_list();
                &&& k < 0 ==> after == before
                &&& k >= 0 ==> 0 <= k < before.len() && after == before.update(k, after[k])
                &&& k >= 0 && noted ==> balancer_noted(before[k], after[k], backend@)
                &&& k >= 0 && !noted ==> after[k] == before[k]
            }),
    {
        let port = u64_to_decimal(backend.port as u64);
        let key = concat3(backend.host.as_str(), ":", port.as_str());
        let succeeded = outcome.is_ok();
        match find_key(&self.breaker_keys, key.as_str()) {
            None => {},
            Some(i) => {
                let ghost old_breakers = self.breakers@;
                let mut breaker = self.breakers.remove(i);
                assert(old_breakers[i as int].wf());
                if succeeded {
                    breaker.on_success();
                } else {
                    breaker.on_failure(now);
                }
                let ghost nb = breaker;
                self.breakers.insert(i, breaker);
                assert(self.breakers@ =~= old_breakers.update(i as int, nb));
                assert forall|k: int| 0 <= k < self.breakers@.len() implies #[trigger] self.breakers@[
                    k].wf() by {
                    if k != i {
                        assert(old_breakers[k].wf());
                    }
                }
            },
        }
        let more = (attempt as u64) + 1 < max_attempts as u64;
        match outcome {
            Ok(status) => {
                let retryable = match retry {
                    Some(c) => more && crate::models::router::codes_contain(
                        &c.retry_on_status_codes,
                        status,
                    ),
                    None => false,
                };
                if retryable {
                    return AttemptStep::Retry;
                }
                self.note_balancer(route_path, backend, true);
                AttemptStep::Respond(status)
            },
            Err(e) => {
                self.note_balancer(route_path, backend, false);
                let again = match retry {
                    Some(c) => c.retry_on_connection_error && more,
                    None => false,
                };
                if again {
                    AttemptStep::Retry
                } else {
                    AttemptStep::Fail(e)
                }
            },
        }
    }

    /// Tells the balancer of the route at `route_path`, if it has one, that a
    /// request to `backend` succeeded or failed.
    fn note_balancer(&mut self, route_path: &str, backend: &Backend, success: bool)
        requires
            old(self).wf(),
        ensures
            final(self).wf(),
            final(self).spec_routes() == old(self).spec_routes(),
            final(self).spec_timeout() == old(self).spec_timeout(),
            final(self).spec_breaker_keys() == old(self).spec_breaker_keys(),
            final(self).spec_breakers() == old(self).spec_breakers(),
            final(self).spec_balancers() == old(self).spec_balancers(),
            ({
                let k = index_of_key(
                    old(self).spec_balancers().map_values(
                        |e: (Seq<char>, LoadBalancingStrategy)| e.0,
                    ),
                    route_path@,
                );
                let before = old(self).spec_balancer_list();
                let after = final(self).spec_balancer_list();
                &&& k < 0 ==> after == before
                &&& k >= 0 ==> 0 <= k < before.len() && after == before.update(k, after[k])
                    && balancer_noted(before[k], after[k], backend@)
            }),
    {
        assert(self.spec_balancers().map_values(|e: (Seq<char>, LoadBalancingStrategy)| e.0)
            =~= self.balancer_keys@.map_values(|s: String| s@));
        match find_key(&self.balancer_keys, route_path) {
            None => {},
            Some(k) => {
                let ghost t = self.spec_balancers();
                let ghost before = self.balancers@;
                let mut balancer = self.balancers.remove(k);
                if success {
                    balancer.record_success(backend);
                } else {
                    balancer.record_failure(backend);
                }
                let ghost nb = balancer;
                self.balancers.insert(k, balancer);
                assert(self.balancers@ =~= before.update(k as int, nb));
                assert(self.spec_balancers() =~= t);
            },
        }
    }

    /// The error once every attempt is used up.
    pub fn exhausted(max_attempts: u32, path: &str) -> (r: GatewayError)
        ensures
            r matches GatewayError::Upstream { message, url, status } && message@ == "All "@ + dec(
                max_attempts as nat,
            ) + " retry attempts exhausted"@ && url@ == path@ && status is None,
    {
        let n = u64_to_decimal(max_attempts as u64);
        GatewayError::Upstream {
            message: concat3("All ", n.as_str(), " retry attempts exhausted"),
            url: owned(path),
            status: None,
        }
    }

    /// Each service with its breaker's state, failure count and success count.
    pub fn get_circuit_breaker_states(&self) -> (r: Vec<(String, CircuitState, u64, u64)>)
        requires
            self.wf(),
        ensures
            r@.len() == self.spec_breaker_keys().len(),
            forall|i: int|
                0 <= i < r@.len() ==> (#[trigger] r@[i]).0@ == self.spec_breaker_keys()[i]
                    && r@[i].1 == self.spec_breakers()[i]@.state && r@[i].2
                    == self.spec_breakers()[i]@.failure_count && r@[i].3
                    == self.spec_breakers()[i]@.success_count,
    {
        let mut r: Vec<(String, CircuitState, u64, u64)> = Vec::new();
        let mut i: usize = 0;
        while i < self.breakers.len()
            invariant
                i <= self.breakers.len(),
                self.breaker_keys@.len() == self.breakers@.len(),
                r@.len() == i,
                forall|k: int|
                    0 <= k < i ==> (#[trigger] r@[k]).0@ == self.breaker_keys@[k]@ && r@[k].1
                        == self.breakers@[k]@.state && r@[k].2 == self.breakers@[k]@.failure_count
                        && r@[k].3 == self.breakers@[k]@.success_count,
            decreases self.breakers.len() - i,
        {
            let b = &self.breakers[i];
            r.push(
                (
                    self.breaker_keys[i].clone(),
                    b.get_state(),
                    b.get_failure_count(),
                    b.get_success_count(),
                ),
            );
            i = i + 1;
        }
        r
    }

    /// The route at position `i`.
    pub fn route(&self, i: usize) -> (r: &Router)
        requires
            i < self.spec_routes().len(),
        ensures
            r@ == self.spec_routes()[i as int],
    {
        self.matcher.route(i)
    }

    /// The route serving `path`, by position, and the internal path to
    /// forward to; a path no route serves is `RouteNotFound`.
    pub fn find_route(&self, path: &str) -> (r: Result<(usize, String), GatewayError>)
        ensures
            match route_for(self.spec_routes(), path@) {
                Some((i, internal)) => r matches Ok((k, s)) && k == i && s@ == internal,
                None => r matches Err(GatewayError::RouteNotFound { path: p }) && p@ == path@,
            },
    {
        match self.matcher.find_match(path) {
            Ok(found) => Ok(found),
            Err(RouteMatchError::NoMatch { path: p }) => Err(GatewayError::RouteNotFound { path: p }),
        }
    }

    /// The upstream timeout in seconds.
    pub fn timeout_seconds(&self) -> (r: u64)
        ensures
            r == self.spec_timeout(),
    {
        self.timeout_seconds
    }

    /// Checks that `route` allows `method` for a request to `path`.
    pub fn check_method(route: &Router, method: &str, path: &str) -> (r: Result<(), GatewayError>)
        ensures
            route@.methods.contains(method@) <==> r is Ok,
            r matches Err(e) ==> (e matches GatewayError::MethodNotAllowed { method: m, path: p }
                && m@ == method@ && p@ == path@),
    {
        if crate::text::strings_contain(&route.methods, method) {
            proof {
                let k = choose|k: int| 0 <= k < route.methods@.len() && route.methods@[k]@ == method@;
                assert(route@.methods[k] == method@);
            }
            Ok(())
        } else {
            proof {
                if route@.methods.contains(method@) {
                    let k = choose|k: int| 0 <= k < route@.methods.len() && route@.methods[k] == method@;
                    assert(route.methods@[k]@ == method@);
                }
            }
            Err(GatewayError::MethodNotAllowed { method: owned(method), path: owned(path) })
        }
    }

    /// The backends of `route`; a route without any cannot be served.
    pub fn route_backends(route: &Router, path: &str) -> (r: Result<Vec<Backend>, GatewayError>)
        ensures
            r matches Ok(bs) ==> backends_view(bs@) == router_backends(route@) && bs@.len() > 0,
            r is Err <==> router_backends(route@).len() == 0,
            r matches Err(e) ==> is_config_error(e, "No backends configured for route"@, path@),
    {
        let backends = route.get_backends();
        if backends.len() == 0 {
            return Err(
                GatewayError::Config {
                    message: owned("No backends configured for route"),
                    route: owned(path),
                },
            );
        }
        Ok(backends)
    }

    /// The backend for the next attempt: the only one, or the pick of the
    /// route's balancer, or the first when the route has no balancer.
    pub fn select_backend(
        &mut self,
        route: &Router,
        backends: &Vec<Backend>,
        client_ip: Option<&str>,
        path: &str,
    ) -> (r: Result<Backend, GatewayError>)
        requires
            old(self).wf(),
            backends@.len() > 0,
        ensures
            final(self).wf(),
            final(self).spec_routes() == old(self).spec_routes(),
            final(self).spec_timeout() == old(self).spec_timeout(),
            final(self).spec_breaker_keys() == old(self).spec_breaker_keys(),
            final(self).spec_breakers() == old(self).spec_breakers(),
            final(self).spec_balancers() == old(self).spec_balancers(),
            backends@.len() == 1 || !old(self).spec_balancers().map_values(
                |e: (Seq<char>, LoadBalancingStrategy)| e.0,
            ).contains(route@.external_path) ==> r is Ok && r->Ok_0@ == backends@[0]@,
            r matches Ok(b) ==> exists|i: int| 0 <= i < backends@.len() && b@ == backends@[i]@,
            r matches Err(e) ==> is_config_error(
                e,
                "Load balancer failed to select backend"@,
                path@,
            ),
            ({
                let k = index_of_key(
                    old(self).spec_balancers().map_values(
                        |e: (Seq<char>, LoadBalancingStrategy)| e.0,
                    ),
                    route@.external_path,
                );
                let before = old(self).spec_balancer_list();
                let after = final(self).spec_balancer_list();
                &&& backends@.len() == 1 || k < 0 ==> after == before
                &&& backends@.len() > 1 && k >= 0 ==> 0 <= k < before.len() && after
                    == before.update(k, after[k]) && balancer_selected(
                    before[k],
                    after[k],
                    backends@,
                    opt_str(client_ip),
                    match r {
                        Ok(b) => Some(b),
                        Err(_) => None,
                    },
                )
            }),
    {
        let ghost table = self.spec_balancers();
        assert(table.map_values(|e: (Seq<char>, LoadBalancingStrategy)| e.0)
            =~= self.balancer_keys@.map_values(|s: String| s@));
        if backends.len() == 1 {
            let b = backends[0].clone();
            return Ok(b);
        }
        match find_key(&self.balancer_keys, route.external_path.as_str()) {
            Some(k) => {
                let ghost before = self.balancers@;
                let mut balancer = self.balancers.remove(k);
                let picked = balancer.select_backend(backends.as_slice(), client_ip);
                let ghost nb = balancer;
                self.balancers.insert(k, balancer);
                assert(self.balancers@ =~= before.update(k as int, nb));
                assert(self.spec_balancers() =~= table);
                match picked {
                    Some(b) => Ok(b),
                    None => Err(
                        GatewayError::Config {
                            message: owned("Load balancer failed to select backend"),
                            route: owned(path),
                        },
                    ),
                }
            },
            None => {
                let b = backends[0].clone();
                Ok(b)
            },
        }
    }
}

/// The standard methods GET, POST, PUT, DELETE, HEAD, OPTIONS, CONNECT,
/// PATCH and TRACE go upstream as they came.
pub proof fn lemma_standard_methods_kept(m: Seq<char>)
    requires
        m == "GET"@ || m == "POST"@ || m == "PUT"@ || m == "DELETE"@ || m == "HEAD"@ || m
            == "OPTIONS"@ || m == "CONNECT"@ || m == "PATCH"@ || m == "TRACE"@,
    ensures
        forwarded_method(m) == m,
{
}

/// Every method goes upstream either as it came or as GET: no method is
/// turned into another one.
pub proof fn lemma_method_kept_or_get(m: Seq<char>)
    ensures
        forwarded_method(m) == m || forwarded_method(m) == "GET"@,
{
}

/// Whether a header name, lower-cased, starts with `host`, `connection`,
/// `upgrade` or `proxy-connection`.
pub open spec fn names_hop_prefix(name: Seq<char>) -> bool {
    let l = ascii_lower(name);
    ||| l.len() >= 4 && l.subrange(0, 4) == "host"@
    ||| l.len() >= 10 && l.subrange(0, 10) == "connection"@
    ||| l.len() >= 7 && l.subrange(0, 7) == "upgrade"@
    ||| l.len() >= 16 && l.subrange(0, 16) == "proxy-connection"@
}

/// The names of a header list.
pub open spec fn header_list_names(hs: Seq<(Seq<char>, Seq<u8>)>) -> Seq<Seq<char>> {
    hs.map_values(|h: (Seq<char>, Seq<u8>)| h.0)
}

proof fn lemma_passed_headers_rules(hs: Seq<(Seq<char>, Seq<u8>)>)
    ensures
        forall|i: int|
            0 <= i < passed_headers(hs).len() ==> !names_hop_prefix(
                #[trigger] passed_headers(hs)[i].0,
            ),
        forall|j: int|
            0 <= j < hs.len() && !names_hop_prefix(#[trigger] hs[j].0) ==> header_list_names(
                passed_headers(hs),
            ).contains(hs[j].0),
    decreases hs.len(),
{
    reveal_strlit("host");
    reveal_strlit("connection");
    reveal_strlit("upgrade");
    reveal_strlit("proxy-connection");
    if hs.len() > 0 {
        let prev = passed_headers(hs.drop_last());
        lemma_passed_headers_rules(hs.drop_last());
        let e = hs.last();
        assert(hop_header(e.0) == names_hop_prefix(e.0));
        if !hop_header(e.0) {
            let names = prev.map_values(|h: (Seq<char>, Seq<u8>)| h.0);
            let out = set_header(prev, e.0, e.1);
            if names.contains(e.0) {
                let k = index_of_key(names, e.0);
                let w = choose|w: int| 0 <= w < names.len() && names[w] == e.0;
                crate::keyed::lemma_key_held(names, e.0, w);
                assert(out == prev.update(k, (e.0, e.1)));
                assert(names[k] == e.0);
                assert(header_list_names(out) =~= header_list_names(prev));
            } else {
                assert(out == prev.push((e.0, e.1)));
                assert(header_list_names(out) =~= header_list_names(prev).push(e.0));
            }
            assert forall|j: int|
                0 <= j < hs.len() && !names_hop_prefix(#[trigger] hs[j].0) implies header_list_names(
                out,
            ).contains(hs[j].0) by {
                if j < hs.len() - 1 {
                    assert(hs.drop_last()[j] == hs[j]);
                    let w = choose|w: int|
                        0 <= w < header_list_names(prev).len() && header_list_names(prev)[w]
                            == hs[j].0;
                    if names.contains(e.0) {
                        assert(header_list_names(out)[w] == hs[j].0);
                    } else {
                        assert(header_list_names(out)[w] == hs[j].0);
                    }
                } else {
                    if names.contains(e.0) {
                        let k = index_of_key(names, e.0);
                        assert(header_list_names(out)[k] == e.0);
                    } else {
                        assert(header_list_names(out)[prev.len() as int] == e.0);
                    }
                }
            }
        } else {
            assert forall|j: int|
                0 <= j < hs.len() && !names_hop_prefix(#[trigger] hs[j].0) implies header_list_names(
                prev,
            ).contains(hs[j].0) by {
                assert(j < hs.len() - 1);
                assert(hs.drop_last()[j] == hs[j]);
            }
        }
    }
}

/// No header whose lower-cased name starts with `host`, `connection`,
/// `upgrade` or `proxy-connection` goes upstream; every other header of the
/// request does; and the upstream request always carries a `user-agent`.
pub proof fn lemma_upstream_header_rules(hs: Seq<(Seq<char>, Seq<u8>)>)
    ensures
        forall|i: int|
            0 <= i < upstream_headers(hs).len() ==> !names_hop_prefix(
                #[trigger] upstream_headers(hs)[i].0,
            ),
        forall|j: int|
            0 <= j < hs.len() && !names_hop_prefix(#[trigger] hs[j].0) ==> header_list_names(
                upstream_headers(hs),
            ).contains(hs[j].0),
        header_list_names(upstream_headers(hs)).contains("user-agent"@),
{
    reveal_strlit("user-agent");
    reveal_strlit("host");
    reveal_strlit("connection");
    reveal_strlit("upgrade");
    reveal_strlit("proxy-connection");
    lemma_passed_headers_rules(hs);
    let p = passed_headers(hs);
    let ua = "user-agent"@;
    assert(ascii_lower(ua) =~= ua);
    assert(!names_hop_prefix(ua)) by {
        let l = ascii_lower(ua);
        assert(l[0] == 'u');
        assert(l.subrange(0, 4)[0] == 'u' && "host"@[0] == 'h');
        assert(l.subrange(0, 10)[0] == 'u' && "connection"@[0] == 'c');
        assert(l.subrange(0, 7)[0] == 'u' && "upgrade"@[1] == 'p' && l.subrange(0, 7)[1] == 's');
    }
    if header_list_names(p).contains(ua) {
        assert(upstream_headers(hs) == p);
    } else {
        assert(upstream_headers(hs) == p.push((ua, default_user_agent())));
        assert(header_list_names(p.push((ua, default_user_agent()))) =~= header_list_names(p).push(
            ua,
        ));
        assert(header_list_names(upstream_headers(hs))[p.len() as int] == ua);
        assert forall|j: int|
            0 <= j < hs.len() && !names_hop_prefix(#[trigger] hs[j].0) implies header_list_names(
            upstream_headers(hs),
        ).contains(hs[j].0) by {
            let w = choose|w: int|
                0 <= w < header_list_names(p).len() && header_list_names(p)[w] == hs[j].0;
            assert(header_list_names(upstream_headers(hs))[w] == hs[j].0);
        }
    }
}

} // verus!

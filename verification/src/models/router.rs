//! Route, backend and retry configuration with their validation rules.
use vstd::prelude::*;
use vstd::string::*;
use crate::middleware::transform::{
    RequestTransformation, RequestTransformationView, ResponseTransformation,
    ResponseTransformationView,
};
use crate::models::check_view;
use crate::text::{
    clone_opt_string, clone_strings, concat2, concat4, dec, opt_view, owned, starts_with,
    str_eq, str_starts_with, strs_view, u64_to_decimal,
};

verus! {

/// How requests are spread over the backends of a route.
#[derive(PartialEq, Eq, Structural, Clone, Copy, Debug)]
pub enum LoadBalancingStrategy {
    RoundRobin,
    LeastConnections,
    Random,
    Weighted,
    IpHash,
}

impl Default for LoadBalancingStrategy {
    fn default() -> (r: Self)
        ensures
            r == LoadBalancingStrategy::RoundRobin,
    {
        LoadBalancingStrategy::RoundRobin
    }
}

/// The protocol a route carries.
#[derive(PartialEq, Eq, Structural, Clone, Copy, Debug)]
pub enum Protocol {
    Http,
    WebSocket,
    Ftp,
    Dns,
}

impl Default for Protocol {
    fn default() -> (r: Self)
        ensures
            r == Protocol::Http,
    {
        Protocol::Http
    }
}

/// One backend server of a route.
#[derive(Debug)]
pub struct Backend {
    pub host: String,
    pub port: u16,
    pub weight: u32,
    pub health_check_path: Option<String>,
}

pub struct BackendView {
    pub host: Seq<char>,
    pub port: u16,
    pub weight: u32,
    pub health_check_path: Option<Seq<char>>,
}

impl View for Backend {
    type V = BackendView;

    open spec fn view(&self) -> BackendView {
        BackendView {
            host: self.host@,
            port: self.port,
            weight: self.weight,
            health_check_path: opt_view(self.health_check_path),
        }
    }
}

impl Clone for Backend {
    fn clone(&self) -> (r: Self)
        ensures
            r@ == self@,
    {
        Backend {
            host: self.host.clone(),
            port: self.port,
            weight: self.weight,
            health_check_path: clone_opt_string(&self.health_check_path),
        }
    }
}

/// The weight a backend has when none is configured.
pub fn default_weight() -> (r: u32)
    ensures
        r == 1,
{
    1
}

/// The host names a scheme the gateway forwards HTTP to.
pub open spec fn has_http_scheme(host: Seq<char>) -> bool {
    starts_with(host, "http://"@) || starts_with(host, "https://"@)
}

/// The verdict of `Backend::validate`.
pub open spec fn backend_check(b: BackendView) -> Result<(), Seq<char>> {
    if !has_http_scheme(b.host) {
        Err("Backend host must start with http:// or https://: "@ + b.host)
    } else if b.port == 0 {
        Err("Backend port must be between 1 and 65535"@)
    } else if b.weight == 0 {
        Err("Backend weight must be greater than 0"@)
    } else {
        Ok(())
    }
}

impl Backend {
    /// Checks the scheme of the host, and that port and weight are not zero.
    pub fn validate(&self) -> (r: Result<(), String>)
        ensures
            check_view(r) == backend_check(self@),
    {
        if !str_starts_with(self.host.as_str(), "http://") && !str_starts_with(
            self.host.as_str(),
            "https://",
        ) {
            return Err(concat2("Backend host must start with http:// or https://: ", self.host.as_str()));
        }
        if self.port == 0 {
            return Err(owned("Backend port must be between 1 and 65535"));
        }
        if self.weight == 0 {
            return Err(owned("Backend weight must be greater than 0"));
        }
        Ok(())
    }
}

/// The views of a sequence of backends.
pub open spec fn backends_view(v: Seq<Backend>) -> Seq<BackendView> {
    v.map_values(|b: Backend| b@)
}

/// Copies of the backends of `v`, in order.
pub fn clone_backends(v: &Vec<Backend>) -> (r: Vec<Backend>)
    ensures
        backends_view(r@) == backends_view(v@),
{
    let mut r: Vec<Backend> = Vec::new();
    let mut i: usize = 0;
    while i < v.len()
        invariant
            i <= v.len(),
            backends_view(r@) == backends_view(v@.take(i as int)),
        decreases v.len() - i,
    {
        r.push(v[i].clone());
        assert(backends_view(v@.take(i + 1)) =~= backends_view(v@.take(i as int)).push(
            v@[i as int]@,
        ));
        assert(backends_view(r@) =~= backends_view(v@.take(i + 1)));
        i = i + 1;
    }
    assert(v@.take(v.len() as int) =~= v@);
    r
}

/// Retry policy for transient upstream failures. The backoff multiplier is
/// held as the IEEE-754 bit pattern of an `f64` (`f64::to_bits`).
#[derive(Debug)]
pub struct RetryConfig {
    pub max_retries: u32,
    pub initial_backoff_ms: u64,
    pub max_backoff_ms: u64,
    pub backoff_multiplier_bits: u64,
    pub retry_on_status_codes: Vec<u16>,
    pub retry_on_connection_error: bool,
}

pub struct RetryConfigView {
    pub max_retries: u32,
    pub initial_backoff_ms: u64,
    pub max_backoff_ms: u64,
    pub backoff_multiplier_bits: u64,
    pub retry_on_status_codes: Seq<u16>,
    pub retry_on_connection_error: bool,
}

impl View for RetryConfig {
    type V = RetryConfigView;

    open spec fn view(&self) -> RetryConfigView {
        RetryConfigView {
            max_retries: self.max_retries,
            initial_backoff_ms: self.initial_backoff_ms,
            max_backoff_ms: self.max_backoff_ms,
            backoff_multiplier_bits: self.backoff_multiplier_bits,
            retry_on_status_codes: self.retry_on_status_codes@,
            retry_on_connection_error: self.retry_on_connection_error,
        }
    }
}

/// Copies of a list of status codes.
pub fn clone_codes(v: &Vec<u16>) -> (r: Vec<u16>)
    ensures
        r@ == v@,
{
    let mut r: Vec<u16> = Vec::new();
    let mut i: usize = 0;
    while i < v.len()
        invariant
            i <= v.len(),
            r@ == v@.take(i as int),
        decreases v.len() - i,
    {
        r.push(v[i]);
        assert(r@ =~= v@.take(i + 1));
        i = i + 1;
    }
    assert(r@ =~= v@);
    r
}

/// Whether `code` is in the list.
pub fn codes_contain(v: &Vec<u16>, code: u16) -> (r: bool)
    ensures
        r == v@.contains(code),
{
    let mut i: usize = 0;
    while i < v.len()
        invariant
            i <= v.len(),
            forall|j: int| 0 <= j < i ==> v@[j] != code,
        decreases v.len() - i,
    {
        if v[i] == code {
            assert(v@[i as int] == code);
            return true;
        }
        i = i + 1;
    }
    false
}

impl Clone for RetryConfig {
    fn clone(&self) -> (r: Self)
        ensures
            r@ == self@,
    {
        RetryConfig {
            max_retries: self.max_retries,
            initial_backoff_ms: self.initial_backoff_ms,
            max_backoff_ms: self.max_backoff_ms,
            backoff_multiplier_bits: self.backoff_multiplier_bits,
            retry_on_status_codes: clone_codes(&self.retry_on_status_codes),
            retry_on_connection_error: self.retry_on_connection_error,
        }
    }
}

/// Default number of retries.
pub fn default_max_retries() -> (r: u32)
    ensures
        r == 3,
{
    3
}

/// Default first backoff, in milliseconds.
pub fn default_initial_backoff() -> (r: u64)
    ensures
        r == 100,
{
    100
}

/// Default longest backoff, in milliseconds.
pub fn default_max_backoff() -> (r: u64)
    ensures
        r == 5000,
{
    5000
}

/// The bit pattern of the default multiplier 2.0.
pub fn default_backoff_multiplier_bits() -> (r: u64)
    ensures
        r == 0x4000_0000_0000_0000,
{
    0x4000_0000_0000_0000
}

/// Default status codes that are retried: 502, 503 and 504.
pub fn default_retry_status_codes() -> (r: Vec<u16>)
    ensures
        r@ == seq![502u16, 503u16, 504u16],
{
    let mut v: Vec<u16> = Vec::new();
    v.push(502);
    v.push(503);
    v.push(504);
    assert(v@ =~= seq![502u16, 503u16, 504u16]);
    v
}

/// Connection errors are retried by default.
pub fn default_retry_on_connection_error() -> (r: bool)
    ensures
        r,
{
    true
}

/// `bits` encodes a NaN.
pub open spec fn f64_bits_is_nan(bits: u64) -> bool {
    bits % 0x8000_0000_0000_0000 > 0x7FF0_0000_0000_0000
}

/// The `f64` with bit pattern `bits` compares less than 1.0.
pub open spec fn f64_bits_less_than_one(bits: u64) -> bool {
    !f64_bits_is_nan(bits) && (bits >= 0x8000_0000_0000_0000 || bits < 0x3FF0_0000_0000_0000)
}

/// The verdict of `RetryConfig::validate`.
pub open spec fn retry_check(c: RetryConfigView) -> Result<(), Seq<char>> {
    if c.max_retries > 10 {
        Err("max_retries should not exceed 10 to prevent excessive delays"@)
    } else if c.initial_backoff_ms > c.max_backoff_ms {
        Err("initial_backoff_ms cannot be greater than max_backoff_ms"@)
    } else if f64_bits_less_than_one(c.backoff_multiplier_bits) {
        Err("backoff_multiplier must be >= 1.0"@)
    } else {
        Ok(())
    }
}

impl RetryConfig {
    /// The configuration used when a route asks for retries without details.
    pub fn default_config() -> (r: Self)
        ensures
            r@.max_retries == 3,
            r@.initial_backoff_ms == 100,
            r@.max_backoff_ms == 5000,
            r@.backoff_multiplier_bits == 0x4000_0000_0000_0000,
            r@.retry_on_status_codes == seq![502u16, 503u16, 504u16],
            r@.retry_on_connection_error,
    {
        RetryConfig {
            max_retries: default_max_retries(),
            initial_backoff_ms: default_initial_backoff(),
            max_backoff_ms: default_max_backoff(),
            backoff_multiplier_bits: default_backoff_multiplier_bits(),
            retry_on_status_codes: default_retry_status_codes(),
            retry_on_connection_error: default_retry_on_connection_error(),
        }
    }

    /// Checks the retry count bound, the order of the backoff bounds and the multiplier.
    pub fn validate(&self) -> (r: Result<(), String>)
        ensures
            check_view(r) == retry_check(self@),
    {
        if self.max_retries > 10 {
            return Err(owned("max_retries should not exceed 10 to prevent excessive delays"));
        }
        if self.initial_backoff_ms > self.max_backoff_ms {
            return Err(owned("initial_backoff_ms cannot be greater than max_backoff_ms"));
        }
        let bits = self.backoff_multiplier_bits;
        let is_nan = bits % 0x8000_0000_0000_0000 > 0x7FF0_0000_0000_0000;
        if !is_nan && (bits >= 0x8000_0000_0000_0000 || bits < 0x3FF0_0000_0000_0000) {
            return Err(owned("backoff_multiplier must be >= 1.0"));
        }
        Ok(())
    }
}

/// One route: which external path it serves, which methods it allows, and
/// where requests go.
#[derive(Debug)]
pub struct Router {
    pub host: Option<String>,
    pub port: Option<u16>,
    pub backends: Option<Vec<Backend>>,
    pub load_balancing_strategy: LoadBalancingStrategy,
    pub external_path: String,
    pub internal_path: String,
    pub methods: Vec<String>,
    pub auth_required: bool,
    pub retry: Option<RetryConfig>,
    pub protocol: Protocol,
    pub request_transformation: Option<RequestTransformation>,
    pub response_transformation: Option<ResponseTransformation>,
}

pub struct RouterView {
    pub host: Option<Seq<char>>,
    pub port: Option<u16>,
    pub backends: Option<Seq<BackendView>>,
    pub load_balancing_strategy: LoadBalancingStrategy,
    pub external_path: Seq<char>,
    pub internal_path: Seq<char>,
    pub methods: Seq<Seq<char>>,
    pub auth_required: bool,
    pub retry: Option<RetryConfigView>,
    pub protocol: Protocol,
    pub request_transformation: Option<RequestTransformationView>,
    pub response_transformation: Option<ResponseTransformationView>,
}

impl View for Router {
    type V = RouterView;

    open spec fn view(&self) -> RouterView {
        RouterView {
            host: opt_view(self.host),
            port: self.port,
            backends: match self.backends {
                Some(v) => Some(backends_view(v@)),
                None => None,
            },
            load_balancing_strategy: self.load_balancing_strategy,
            external_path: self.external_path@,
            internal_path: self.internal_path@,
            methods: strs_view(self.methods@),
            auth_required: self.auth_required,
            retry: match self.retry {
                Some(r) => Some(r@),
                None => None,
            },
            protocol: self.protocol,
            request_transformation: match self.request_transformation {
                Some(t) => Some(t@),
                None => None,
            },
            response_transformation: match self.response_transformation {
                Some(t) => Some(t@),
                None => None,
            },
        }
    }
}

impl Clone for Router {
    fn clone(&self) -> (r: Self)
        ensures
            r@ == self@,
    {
        let methods = clone_strings(&self.methods);
        assert(strs_view(methods@) =~= strs_view(self.methods@));
        Router {
            host: clone_opt_string(&self.host),
            port: self.port,
            backends: match &self.backends {
                Some(v) => Some(clone_backends(v)),
                None => None,
            },
            load_balancing_strategy: self.load_balancing_strategy,
            external_path: self.external_path.clone(),
            internal_path: self.internal_path.clone(),
            methods,
            auth_required: self.auth_required,
            retry: match &self.retry {
                Some(r) => Some(r.clone()),
                None => None,
            },
            protocol: self.protocol,
            request_transformation: match &self.request_transformation {
                Some(t) => Some(t.clone()),
                None => None,
            },
            response_transformation: match &self.response_transformation {
                Some(t) => Some(t.clone()),
                None => None,
            },
        }
    }
}

/// The HTTP methods a route may allow.
pub open spec fn is_valid_method(m: Seq<char>) -> bool {
    m == "GET"@ || m == "POST"@ || m == "PUT"@ || m == "DELETE"@ || m == "HEAD"@ || m
        == "OPTIONS"@ || m == "PATCH"@ || m == "TRACE"@
}

/// The first method of `ms` that is not a valid HTTP method.
pub open spec fn first_invalid_method(ms: Seq<Seq<char>>) -> Option<Seq<char>>
    decreases ms.len(),
{
    if ms.len() == 0 {
        None
    } else {
        match first_invalid_method(ms.drop_last()) {
            Some(m) => Some(m),
            None => if !is_valid_method(ms.last()) {
                Some(ms.last())
            } else {
                None
            },
        }
    }
}

/// The index and message of the first backend of `bs` that fails validation.
pub open spec fn first_backend_error(bs: Seq<BackendView>) -> Option<(nat, Seq<char>)>
    decreases bs.len(),
{
    if bs.len() == 0 {
        None
    } else {
        match first_backend_error(bs.drop_last()) {
            Some(e) => Some(e),
            None => match backend_check(bs.last()) {
                Err(e) => Some(((bs.len() - 1) as nat, e)),
                Ok(_) => None,
            },
        }
    }
}

/// The verdict of `Router::validate`.
pub open spec fn router_check(r: RouterView) -> Result<(), Seq<char>> {
    if !starts_with(r.external_path, "/"@) {
        Err("External path must start with '/'"@)
    } else if !starts_with(r.internal_path, "/"@) {
        Err("Internal path must start with '/'"@)
    } else if r.methods.len() == 0 {
        Err("At least one HTTP method must be specified"@)
    } else if first_invalid_method(r.methods) is Some {
        Err("Invalid HTTP method: "@ + first_invalid_method(r.methods)->0)
    } else if r.backends is Some && r.backends->0.len() == 0 {
        Err("At least one backend must be specified"@)
    } else if r.backends is Some && first_backend_error(r.backends->0) is Some {
        let (i, e) = first_backend_error(r.backends->0)->0;
        Err("Backend "@ + dec(i) + " validation failed: "@ + e)
    } else if r.backends is None && (r.host is None || r.port is None) {
        Err("Either backends or host/port must be specified"@)
    } else if r.backends is None && !has_http_scheme(r.host->0) {
        Err("Host must start with http:// or https://"@)
    } else if r.backends is None && r.port->0 == 0 {
        Err("Port must be between 1 and 65535"@)
    } else if r.retry is Some {
        retry_check(r.retry->0)
    } else {
        Ok(())
    }
}

/// The backends a route sends to: its list, or the one given by the legacy host and port.
pub open spec fn router_backends(r: RouterView) -> Seq<BackendView> {
    match r.backends {
        Some(bs) => bs,
        None => match (r.host, r.port) {
            (Some(h), Some(p)) => seq![
                BackendView { host: h, port: p, weight: 1, health_check_path: None },
            ],
            _ => Seq::empty(),
        },
    }
}

/// Whether `m` is one of the eight methods a route may allow.
pub fn method_is_valid(m: &str) -> (r: bool)
    ensures
        r == is_valid_method(m@),
{
    str_eq(m, "GET") || str_eq(m, "POST") || str_eq(m, "PUT") || str_eq(m, "DELETE") || str_eq(
        m,
        "HEAD",
    ) || str_eq(m, "OPTIONS") || str_eq(m, "PATCH") || str_eq(m, "TRACE")
}

impl Router {
    /// Checks paths, methods, the backends (or legacy host and port) and the retry policy,
    /// and reports the first problem found.
    #[verifier::loop_isolation(false)]
    pub fn validate(&self) -> (r: Result<(), String>)
        ensures
            check_view(r) == router_check(self@),
    {
        if !str_starts_with(self.external_path.as_str(), "/") {
            return Err(owned("External path must start with '/'"));
        }
        if !str_starts_with(self.internal_path.as_str(), "/") {
            return Err(owned("Internal path must start with '/'"));
        }
        if self.methods.len() == 0 {
            return Err(owned("At least one HTTP method must be specified"));
        }
        let ghost ms = self@.methods;
        let mut i: usize = 0;
        while i < self.methods.len()
            invariant
                i <= self.methods.len(),
                ms == strs_view(self.methods@),
                first_invalid_method(ms.take(i as int)) is None,
            decreases self.methods.len() - i,
        {
            assert(ms.take(i + 1).drop_last() =~= ms.take(i as int));
            assert(ms[i as int] == self.methods@[i as int]@);
            if !method_is_valid(self.methods[i].as_str()) {
                assert(first_invalid_method(ms.take(i + 1)) == Some(ms[i as int]));
                proof {
                    lemma_first_invalid_extends(ms, i as int);
                }
                return Err(concat2("Invalid HTTP method: ", self.methods[i].as_str()));
            }
            i = i + 1;
        }
        assert(ms.take(ms.len() as int) =~= ms);
        match &self.backends {
            Some(bs) => {
                if bs.len() == 0 {
                    return Err(owned("At least one backend must be specified"));
                }
                let ghost bv = backends_view(bs@);
                let mut j: usize = 0;
                while j < bs.len()
                    invariant
                        j <= bs.len(),
                        bv == backends_view(bs@),
                        first_backend_error(bv.take(j as int)) is None,
                    decreases bs.len() - j,
                {
                    assert(bv.take(j + 1).drop_last() =~= bv.take(j as int));
                    assert(bv[j as int] == bs@[j as int]@);
                    match bs[j].validate() {
                        Err(e) => {
                            proof {
                                lemma_first_backend_error_extends(bv, j as int);
                                assert(first_invalid_method(ms) is None);
                            }
                            let idx = u64_to_decimal(j as u64);
                            return Err(
                                concat4("Backend ", idx.as_str(), " validation failed: ", e.as_str()),
                            );
                        },
                        Ok(_) => {},
                    }
                    j = j + 1;
                }
                assert(bv.take(bv.len() as int) =~= bv);
            },
            None => {
                match (&self.host, &self.port) {
                    (Some(host), Some(port)) => {
                        if !str_starts_with(host.as_str(), "http://") && !str_starts_with(
                            host.as_str(),
                            "https://",
                        ) {
                            return Err(owned("Host must start with http:// or https://"));
                        }
                        if *port == 0 {
                            return Err(owned("Port must be between 1 and 65535"));
                        }
                    },
                    _ => {
                        return Err(owned("Either backends or host/port must be specified"));
                    },
                }
            },
        }
        match &self.retry {
            Some(rc) => rc.validate(),
            None => Ok(()),
        }
    }

    /// The backends of the route; a legacy host and port give one backend of weight 1.
    pub fn get_backends(&self) -> (r: Vec<Backend>)
        ensures
            backends_view(r@) == router_backends(self@),
    {
        match &self.backends {
            Some(bs) => clone_backends(bs),
            None => match (&self.host, &self.port) {
                (Some(h), Some(p)) => {
                    let mut v: Vec<Backend> = Vec::new();
                    v.push(
                        Backend {
                            host: h.clone(),
                            port: *p,
                            weight: 1,
                            health_check_path: None,
                        },
                    );
                    assert(backends_view(v@) =~= router_backends(self@));
                    v
                },
                _ => {
                    let v: Vec<Backend> = Vec::new();
                    assert(backends_view(v@) =~= router_backends(self@));
                    v
                },
            },
        }
    }
}

/// A method found invalid at position `i`, with none before it, is the first invalid one.
pub proof fn lemma_first_invalid_extends(ms: Seq<Seq<char>>, i: int)
    requires
        0 <= i < ms.len(),
        first_invalid_method(ms.take(i + 1)) == Some(ms[i]),
    ensures
        first_invalid_method(ms) == Some(ms[i]),
    decreases ms.len() - i,
{
    if i + 1 < ms.len() {
        assert(ms.drop_last().take(i + 1) =~= ms.take(i + 1));
        lemma_first_invalid_extends(ms.drop_last(), i);
    } else {
        assert(ms.take(i + 1) =~= ms);
    }
}

/// A backend failing at position `i`, with none before it, is the first failing one.
pub proof fn lemma_first_backend_error_extends(bs: Seq<BackendView>, i: int)
    requires
        0 <= i < bs.len(),
        first_backend_error(bs.take(i)) is None,
        backend_check(bs[i]) is Err,
    ensures
        first_backend_error(bs) == Some((i as nat, backend_check(bs[i])->Err_0)),
    decreases bs.len() - i,
{
    assert(bs.take(i + 1).drop_last() =~= bs.take(i));
    if i + 1 < bs.len() {
        assert(bs.drop_last().take(i) =~= bs.take(i));
        lemma_first_backend_error_extends(bs.drop_last(), i);
    } else {
        assert(bs.take(i + 1) =~= bs);
    }
}

/// A route whose methods are all among the eight documented ones (GET,
/// POST, PUT, DELETE, HEAD, OPTIONS, PATCH, TRACE) passes the method check.
pub proof fn lemma_documented_methods_pass(ms: Seq<Seq<char>>)
    requires
        forall|i: int|
            0 <= i < ms.len() ==> (#[trigger] ms[i] == "GET"@ || ms[i] == "POST"@ || ms[i]
                == "PUT"@ || ms[i] == "DELETE"@ || ms[i] == "HEAD"@ || ms[i] == "OPTIONS"@
                || ms[i] == "PATCH"@ || ms[i] == "TRACE"@),
    ensures
        first_invalid_method(ms) is None,
    decreases ms.len(),
{
    if ms.len() > 0 {
        assert(ms.last() == ms[ms.len() - 1]);
        lemma_documented_methods_pass(ms.drop_last());
    }
}

/// A method the check reports is one of the route's methods.
pub proof fn lemma_reported_method_is_listed(ms: Seq<Seq<char>>)
    ensures
        first_invalid_method(ms) matches Some(m) ==> ms.contains(m),
    decreases ms.len(),
{
    if ms.len() > 0 {
        lemma_reported_method_is_listed(ms.drop_last());
        match first_invalid_method(ms.drop_last()) {
            Some(m) => {
                assert(ms.drop_last().contains(m));
                let j = choose|j: int| 0 <= j < ms.drop_last().len() && ms.drop_last()[j] == m;
                assert(ms[j] == m);
            },
            None => {
                assert(ms[ms.len() - 1] == ms.last());
            },
        }
    }
}

/// A method list the check passes holds only the eight documented methods.
proof fn lemma_passed_methods_documented(ms: Seq<Seq<char>>)
    requires
        first_invalid_method(ms) is None,
    ensures
        forall|i: int|
            0 <= i < ms.len() ==> (#[trigger] ms[i] == "GET"@ || ms[i] == "POST"@ || ms[i]
                == "PUT"@ || ms[i] == "DELETE"@ || ms[i] == "HEAD"@ || ms[i] == "OPTIONS"@
                || ms[i] == "PATCH"@ || ms[i] == "TRACE"@),
    decreases ms.len(),
{
    if ms.len() > 0 {
        lemma_passed_methods_documented(ms.drop_last());
        assert forall|i: int| 0 <= i < ms.len() implies (#[trigger] ms[i] == "GET"@ || ms[i]
            == "POST"@ || ms[i] == "PUT"@ || ms[i] == "DELETE"@ || ms[i] == "HEAD"@ || ms[i]
            == "OPTIONS"@ || ms[i] == "PATCH"@ || ms[i] == "TRACE"@) by {
            if i < ms.len() - 1 {
                assert(ms[i] == ms.drop_last()[i]);
            }
        }
    }
}

/// A route that passes validation has both paths starting with `/`, at
/// least one method, only documented methods (GET, POST, PUT, DELETE,
/// HEAD, OPTIONS, PATCH, TRACE), and at least one backend to send to.
pub proof fn lemma_valid_route_shape(r: RouterView)
    requires
        router_check(r) is Ok,
    ensures
        r.external_path.len() > 0 && r.external_path[0] == '/',
        r.internal_path.len() > 0 && r.internal_path[0] == '/',
        r.methods.len() > 0,
        forall|i: int|
            0 <= i < r.methods.len() ==> (#[trigger] r.methods[i] == "GET"@ || r.methods[i]
                == "POST"@ || r.methods[i] == "PUT"@ || r.methods[i] == "DELETE"@ || r.methods[i]
                == "HEAD"@ || r.methods[i] == "OPTIONS"@ || r.methods[i] == "PATCH"@
                || r.methods[i] == "TRACE"@),
        router_backends(r).len() > 0,
{
    reveal_strlit("/");
    assert(r.external_path.subrange(0, 1)[0] == r.external_path[0]);
    assert(r.internal_path.subrange(0, 1)[0] == r.internal_path[0]);
    lemma_passed_methods_documented(r.methods);
}

} // verus!

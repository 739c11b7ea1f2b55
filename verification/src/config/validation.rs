//! Whole-configuration validation: structure, security, performance,
//! route conflicts and protocol-specific rules.
use vstd::prelude::*;
use vstd::string::*;
use crate::models::router::{
    router_backends, router_check, BackendView, Backend, Protocol, Router, RouterView,
    backends_view,
};
use crate::models::settings::{routers_view, Settings};
use crate::text::{
    concat2, concat3, concat4, concat5, contains, count_char, dec, owned, split, starts_with,
    str_contains, str_count_char, str_eq, str_split, str_starts_with, strs_view, strings_contain,
    u64_to_decimal, lemma_split_nonempty,
};

verus! {

/// Errors, warnings and recommendations collected while checking a configuration.
#[derive(Debug)]
pub struct ValidationResult {
    pub is_valid: bool,
    pub errors: Vec<String>,
    pub warnings: Vec<String>,
    pub recommendations: Vec<String>,
}

pub struct ValidationView {
    pub is_valid: bool,
    pub errors: Seq<Seq<char>>,
    pub warnings: Seq<Seq<char>>,
    pub recommendations: Seq<Seq<char>>,
}

impl View for ValidationResult {
    type V = ValidationView;

    open spec fn view(&self) -> ValidationView {
        ValidationView {
            is_valid: self.is_valid,
            errors: strs_view(self.errors@),
            warnings: strs_view(self.warnings@),
            recommendations: strs_view(self.recommendations@),
        }
    }
}

impl ValidationResult {
    /// A result with nothing reported, marked valid.
    pub fn new() -> (r: Self)
        ensures
            r@.is_valid,
            r@.errors.len() == 0,
            r@.warnings.len() == 0,
            r@.recommendations.len() == 0,
    {
        ValidationResult {
            is_valid: true,
            errors: Vec::new(),
            warnings: Vec::new(),
            recommendations: Vec::new(),
        }
    }

    /// Records an error; the result is no longer valid.
    pub fn add_error(&mut self, error: String)
        ensures
            final(self)@ == (ValidationView {
                is_valid: false,
                errors: old(self)@.errors.push(error@),
                ..old(self)@
            }),
    {
        self.is_valid = false;
        let ghost before = self@.errors;
        self.errors.push(error);
        assert(self@.errors =~= before.push(error@));
    }

    /// Records a warning; validity is unchanged.
    pub fn add_warning(&mut self, warning: String)
        ensures
            final(self)@ == (ValidationView {
                warnings: old(self)@.warnings.push(warning@),
                ..old(self)@
            }),
    {
        let ghost before = self@.warnings;
        self.warnings.push(warning);
        assert(self@.warnings =~= before.push(warning@));
    }

    /// Records a recommendation; validity is unchanged.
    pub fn add_recommendation(&mut self, recommendation: String)
        ensures
            final(self)@ == (ValidationView {
                recommendations: old(self)@.recommendations.push(recommendation@),
                ..old(self)@
            }),
    {
        let ghost before = self@.recommendations;
        self.recommendations.push(recommendation);
        assert(self@.recommendations =~= before.push(recommendation@));
    }
}

impl Default for ValidationResult {
    fn default() -> (r: Self)
        ensures
            r@.is_valid,
            r@.errors.len() == 0,
            r@.warnings.len() == 0,
            r@.recommendations.len() == 0,
    {
        ValidationResult::new()
    }
}

/// The messages `f` gives for each element of `s`, in order.
pub open spec fn concat_map<A>(s: Seq<A>, f: spec_fn(A) -> Seq<Seq<char>>) -> Seq<Seq<char>>
    decreases s.len(),
{
    if s.len() == 0 {
        Seq::empty()
    } else {
        concat_map(s.drop_last(), f) + f(s.last())
    }
}

/// The messages `f` gives for each element of `s` and its position, in order.
pub open spec fn concat_map_indexed<A>(
    s: Seq<A>,
    f: spec_fn(int, A) -> Seq<Seq<char>>,
) -> Seq<Seq<char>>
    decreases s.len(),
{
    if s.len() == 0 {
        Seq::empty()
    } else {
        concat_map_indexed(s.drop_last(), f) + f(s.len() - 1, s.last())
    }
}

pub proof fn lemma_concat_map_step<A>(s: Seq<A>, f: spec_fn(A) -> Seq<Seq<char>>, i: int)
    requires
        0 <= i < s.len(),
    ensures
        concat_map(s.take(i + 1), f) == concat_map(s.take(i), f) + f(s[i]),
{
    assert(s.take(i + 1).drop_last() =~= s.take(i));
}

pub proof fn lemma_concat_map_indexed_step<A>(
    s: Seq<A>,
    f: spec_fn(int, A) -> Seq<Seq<char>>,
    i: int,
)
    requires
        0 <= i < s.len(),
    ensures
        concat_map_indexed(s.take(i + 1), f) == concat_map_indexed(s.take(i), f) + f(i, s[i]),
{
    assert(s.take(i + 1).drop_last() =~= s.take(i));
}

/// A one-message sequence when `b` holds, else none.
pub open spec fn when(b: bool, m: Seq<char>) -> Seq<Seq<char>> {
    if b {
        seq![m]
    } else {
        Seq::empty()
    }
}

// ---------------------------------------------------------------- structure

/// The message for a route that fails its own validation.
pub open spec fn basic_route_error(i: int, r: RouterView) -> Seq<Seq<char>> {
    match router_check(r) {
        Err(e) => seq!["Router "@ + dec(i as nat) + " validation failed: "@ + e],
        Ok(_) => Seq::empty(),
    }
}

pub open spec fn f_basic() -> spec_fn(int, RouterView) -> Seq<Seq<char>> {
    |i: int, r: RouterView| basic_route_error(i, r)
}

/// Errors of the structural check.
pub open spec fn basic_errors(rs: Seq<RouterView>) -> Seq<Seq<char>> {
    when(rs.len() == 0, "No routers configured - gateway will not handle any requests"@)
        + concat_map_indexed(rs, f_basic())
}

// ----------------------------------------------------------------- security

/// Warnings for one backend's host.
pub open spec fn backend_security_warning(b: BackendView) -> Seq<Seq<char>> {
    if starts_with(b.host, "http://"@) {
        if contains(b.host, "localhost"@) || contains(b.host, "127.0.0.1"@) {
            seq![
                "HTTP backend to localhost detected: "@ + b.host
                    + " - consider HTTPS for production"@,
            ]
        } else {
            seq!["Insecure HTTP backend detected: "@ + b.host + " - consider HTTPS"@]
        }
    } else {
        Seq::empty()
    }
}

pub open spec fn f_backend_security() -> spec_fn(BackendView) -> Seq<Seq<char>> {
    |b: BackendView| backend_security_warning(b)
}

/// The warning for a route allowing more than four methods.
pub open spec fn route_methods_warning(r: RouterView) -> Seq<Seq<char>> {
    when(
        r.methods.len() > 4,
        "Route "@ + r.external_path + " allows many HTTP methods ("@ + dec(r.methods.len())
            + ") - consider restricting for security"@,
    )
}

/// Security warnings for one route: its backends, then its method count.
pub open spec fn route_security_warnings(r: RouterView) -> Seq<Seq<char>> {
    concat_map(router_backends(r), f_backend_security()) + route_methods_warning(r)
}

pub open spec fn f_security_warnings() -> spec_fn(RouterView) -> Seq<Seq<char>> {
    |r: RouterView| route_security_warnings(r)
}

/// Security errors for one route.
pub open spec fn route_security_errors(r: RouterView) -> Seq<Seq<char>> {
    when(
        contains(r.external_path, ".."@) || contains(r.internal_path, ".."@),
        "Path traversal detected in route: "@ + r.external_path + " -> "@ + r.internal_path,
    )
}

pub open spec fn f_security_errors() -> spec_fn(RouterView) -> Seq<Seq<char>> {
    |r: RouterView| route_security_errors(r)
}

/// Some backend of the route is reached over plain HTTP.
pub open spec fn route_has_http(r: RouterView) -> bool {
    exists|j: int|
        0 <= j < router_backends(r).len() && starts_with(router_backends(r)[j].host, "http://"@)
}

/// Some backend of the route is reached over HTTPS.
pub open spec fn route_has_https(r: RouterView) -> bool {
    exists|j: int|
        0 <= j < router_backends(r).len() && starts_with(router_backends(r)[j].host, "https://"@)
}

/// Some backend of some route is reached over plain HTTP.
pub open spec fn any_http_backend(rs: Seq<RouterView>) -> bool {
    exists|i: int| 0 <= i < rs.len() && route_has_http(rs[i])
}

/// Some backend of some route is reached over HTTPS.
pub open spec fn any_https_backend(rs: Seq<RouterView>) -> bool {
    exists|i: int| 0 <= i < rs.len() && route_has_https(rs[i])
}

/// Warnings of the security check.
pub open spec fn security_warnings(rs: Seq<RouterView>) -> Seq<Seq<char>> {
    concat_map(rs, f_security_warnings()) + when(
        any_http_backend(rs) && !any_https_backend(rs),
        "All routes use HTTP - consider HTTPS for production security"@,
    )
}

/// Errors of the security check.
pub open spec fn security_errors(rs: Seq<RouterView>) -> Seq<Seq<char>> {
    concat_map(rs, f_security_errors())
}

// -------------------------------------------------------------- performance

/// The route's external path has a parameter.
pub open spec fn is_dynamic(r: RouterView) -> bool {
    contains(r.external_path, "{"@)
}

/// Number of routes with parameters.
pub open spec fn dynamic_count(rs: Seq<RouterView>) -> nat
    decreases rs.len(),
{
    if rs.len() == 0 {
        0
    } else {
        dynamic_count(rs.drop_last()) + if is_dynamic(rs.last()) {
            1nat
        } else {
            0nat
        }
    }
}

/// Warning for a route with more than three parameters.
pub open spec fn route_parameter_warning(r: RouterView) -> Seq<Seq<char>> {
    when(
        count_char(r.external_path, '{') > 3,
        "Route "@ + r.external_path + " has many parameters ("@ + dec(
            count_char(r.external_path, '{'),
        ) + ") - may impact matching performance"@,
    )
}

pub open spec fn f_parameter_warning() -> spec_fn(RouterView) -> Seq<Seq<char>> {
    |r: RouterView| route_parameter_warning(r)
}

/// Warnings of the performance check.
pub open spec fn performance_warnings(rs: Seq<RouterView>) -> Seq<Seq<char>> {
    when(
        dynamic_count(rs) > 50,
        "High number of dynamic routes ("@ + dec(dynamic_count(rs))
            + ") may impact performance - consider route optimization"@,
    ) + concat_map(rs, f_parameter_warning())
}

/// Recommendations of the performance check.
pub open spec fn performance_recommendations(rs: Seq<RouterView>) -> Seq<Seq<char>> {
    when(
        dynamic_count(rs) == rs.len() && dynamic_count(rs) > 0,
        "Consider adding static routes for frequently accessed endpoints to improve performance"@,
    )
}

// ---------------------------------------------------------------- conflicts

/// Two paths could match the same request: same number of segments, and
/// every pair of segments is equal or has a parameter on one side.
pub open spec fn paths_may_conflict(p1: Seq<char>, p2: Seq<char>) -> bool {
    let s1 = split(p1, '/');
    let s2 = split(p2, '/');
    s1.len() == s2.len() && forall|k: int|
        0 <= k < s1.len() ==> (starts_with(s1[k], "{"@) || starts_with(s2[k], "{"@) || s1[k]
            == s2[k])
}

/// The route at position `i` repeats the path of an earlier one.
pub open spec fn is_duplicate(rs: Seq<RouterView>, i: int) -> bool {
    exists|j: int| 0 <= j < i && rs[j].external_path == rs[i].external_path
}

pub open spec fn f_duplicate(rs: Seq<RouterView>) -> spec_fn(int, RouterView) -> Seq<Seq<char>> {
    |i: int, r: RouterView|
        when(is_duplicate(rs, i), "Duplicate route path detected: "@ + r.external_path)
}

/// Errors of the conflict check.
pub open spec fn conflict_errors(rs: Seq<RouterView>) -> Seq<Seq<char>> {
    concat_map_indexed(rs, f_duplicate(rs))
}

/// The conflict warning for the pair `(p, q)`, if they differ and may conflict.
pub open spec fn pair_conflict(p: Seq<char>, q: Seq<char>) -> Seq<Seq<char>> {
    when(
        p != q && paths_may_conflict(p, q),
        "Potential route conflict between '"@ + p + "' and '"@ + q + "' - order matters"@,
    )
}

pub open spec fn f_pair(p: Seq<char>) -> spec_fn(RouterView) -> Seq<Seq<char>> {
    |o: RouterView| pair_conflict(p, o.external_path)
}

pub open spec fn f_row(rs: Seq<RouterView>) -> spec_fn(RouterView) -> Seq<Seq<char>> {
    |r: RouterView| concat_map(rs, f_pair(r.external_path))
}

/// Warnings of the conflict check: every ordered pair of routes, row by row.
pub open spec fn conflict_warnings(rs: Seq<RouterView>) -> Seq<Seq<char>> {
    concat_map(rs, f_row(rs))
}

// ---------------------------------------------------------------- protocols

/// Protocol errors for one backend of a route.
pub open spec fn backend_protocol_errors(r: RouterView, b: BackendView) -> Seq<Seq<char>> {
    match r.protocol {
        Protocol::WebSocket => when(
            !(starts_with(b.host, "ws://"@) || starts_with(b.host, "wss://"@) || starts_with(
                b.host,
                "http://"@,
            ) || starts_with(b.host, "https://"@)),
            "WebSocket route "@ + r.external_path
                + " requires backend URL with ws://, wss://, http://, or https:// protocol"@,
        ),
        Protocol::Dns => when(
            starts_with(b.host, "http://"@) || starts_with(b.host, "https://"@),
            "DNS route "@ + r.external_path + " backend should not use HTTP/HTTPS protocol: "@
                + b.host,
        ),
        _ => Seq::empty(),
    }
}

/// Protocol warnings for one backend of a route.
pub open spec fn backend_protocol_warnings(r: RouterView, b: BackendView) -> Seq<Seq<char>> {
    match r.protocol {
        Protocol::Ftp => when(
            !(starts_with(b.host, "ftp://"@) || starts_with(b.host, "ftps://"@) || contains(
                b.host,
                "ftp"@,
            )),
            "FTP route "@ + r.external_path + " backend may require ftp:// or ftps:// protocol: "@
                + b.host,
        ),
        Protocol::Dns => when(
            b.port != 53,
            "DNS route "@ + r.external_path + " uses non-standard port "@ + dec(b.port as nat)
                + " (standard is 53)"@,
        ),
        _ => Seq::empty(),
    }
}

/// Protocol recommendations for one backend of a route.
pub open spec fn backend_protocol_recommendations(r: RouterView, b: BackendView) -> Seq<
    Seq<char>,
> {
    match r.protocol {
        Protocol::Ftp => when(
            b.port != 21 && b.port != 22,
            "FTP route "@ + r.external_path + " uses non-standard port "@ + dec(b.port as nat)
                + " (standard is 21)"@,
        ),
        _ => Seq::empty(),
    }
}

pub open spec fn f_bpe(r: RouterView) -> spec_fn(BackendView) -> Seq<Seq<char>> {
    |b: BackendView| backend_protocol_errors(r, b)
}

pub open spec fn f_bpw(r: RouterView) -> spec_fn(BackendView) -> Seq<Seq<char>> {
    |b: BackendView| backend_protocol_warnings(r, b)
}

pub open spec fn f_bpr(r: RouterView) -> spec_fn(BackendView) -> Seq<Seq<char>> {
    |b: BackendView| backend_protocol_recommendations(r, b)
}

/// The route allows the method `m`.
pub open spec fn allows_method(r: RouterView, m: Seq<char>) -> bool {
    exists|i: int| 0 <= i < r.methods.len() && r.methods[i] == m
}

/// Protocol warnings for a route after its backends: the method it must allow.
pub open spec fn route_method_warning(r: RouterView) -> Seq<Seq<char>> {
    match r.protocol {
        Protocol::WebSocket => when(
            !allows_method(r, "GET"@),
            "WebSocket route "@ + r.external_path + " should allow GET method for upgrade"@,
        ),
        Protocol::Dns => when(
            !allows_method(r, "POST"@),
            "DNS route "@ + r.external_path + " should allow POST method for query forwarding"@,
        ),
        _ => Seq::empty(),
    }
}

/// Protocol errors of a route.
pub open spec fn route_protocol_errors(r: RouterView) -> Seq<Seq<char>> {
    concat_map(router_backends(r), f_bpe(r))
}

/// Protocol warnings of a route.
pub open spec fn route_protocol_warnings(r: RouterView) -> Seq<Seq<char>> {
    concat_map(router_backends(r), f_bpw(r)) + route_method_warning(r)
}

/// Protocol recommendations of a route.
pub open spec fn route_protocol_recommendations(r: RouterView) -> Seq<Seq<char>> {
    concat_map(router_backends(r), f_bpr(r))
}

pub open spec fn f_pe() -> spec_fn(RouterView) -> Seq<Seq<char>> {
    |r: RouterView| route_protocol_errors(r)
}

pub open spec fn f_pw() -> spec_fn(RouterView) -> Seq<Seq<char>> {
    |r: RouterView| route_protocol_warnings(r)
}

pub open spec fn f_pr() -> spec_fn(RouterView) -> Seq<Seq<char>> {
    |r: RouterView| route_protocol_recommendations(r)
}

// ------------------------------------------------------------------ overall

/// All errors of a full check, in the order the checks run.
pub open spec fn all_errors(rs: Seq<RouterView>) -> Seq<Seq<char>> {
    basic_errors(rs) + security_errors(rs) + conflict_errors(rs) + concat_map(rs, f_pe())
}

/// All warnings of a full check, in the order the checks run.
pub open spec fn all_warnings(rs: Seq<RouterView>) -> Seq<Seq<char>> {
    security_warnings(rs) + performance_warnings(rs) + conflict_warnings(rs) + concat_map(
        rs,
        f_pw(),
    )
}

/// All recommendations of a full check, in the order the checks run.
pub open spec fn all_recommendations(rs: Seq<RouterView>) -> Seq<Seq<char>> {
    performance_recommendations(rs) + concat_map(rs, f_pr())
}

/// `v` with the messages `e`, `w` and `r` appended; it stays valid only if `e` is empty.
pub open spec fn appended(
    v: ValidationView,
    e: Seq<Seq<char>>,
    w: Seq<Seq<char>>,
    r: Seq<Seq<char>>,
) -> ValidationView {
    ValidationView {
        is_valid: v.is_valid && e.len() == 0,
        errors: v.errors + e,
        warnings: v.warnings + w,
        recommendations: v.recommendations + r,
    }
}

pub proof fn lemma_appended_twice(
    v: ValidationView,
    e1: Seq<Seq<char>>,
    w1: Seq<Seq<char>>,
    r1: Seq<Seq<char>>,
    e2: Seq<Seq<char>>,
    w2: Seq<Seq<char>>,
    r2: Seq<Seq<char>>,
)
    ensures
        appended(appended(v, e1, w1, r1), e2, w2, r2) == appended(v, e1 + e2, w1 + w2, r1 + r2),
{
    assert(v.errors + e1 + e2 =~= v.errors + (e1 + e2));
    assert(v.warnings + w1 + w2 =~= v.warnings + (w1 + w2));
    assert(v.recommendations + r1 + r2 =~= v.recommendations + (r1 + r2));
}

pub proof fn lemma_appended_nothing(v: ValidationView)
    ensures
        appended(v, Seq::empty(), Seq::empty(), Seq::empty()) == v,
{
    assert(v.errors + Seq::<Seq<char>>::empty() =~= v.errors);
    assert(v.warnings + Seq::<Seq<char>>::empty() =~= v.warnings);
    assert(v.recommendations + Seq::<Seq<char>>::empty() =~= v.recommendations);
}

pub open spec fn nil() -> Seq<Seq<char>> {
    Seq::empty()
}

fn emit_error(res: &mut ValidationResult, m: String)
    ensures
        final(res)@ == appended(old(res)@, seq![m@], nil(), nil()),
{
    let ghost m_view = m@;
    res.add_error(m);
    assert(final(res)@.errors =~= old(res)@.errors + seq![m_view]);
    assert(final(res)@.warnings =~= old(res)@.warnings + nil());
    assert(final(res)@.recommendations =~= old(res)@.recommendations + nil());
}

fn emit_warning(res: &mut ValidationResult, m: String)
    ensures
        final(res)@ == appended(old(res)@, nil(), seq![m@], nil()),
{
    let ghost m_view = m@;
    res.add_warning(m);
    assert(final(res)@.errors =~= old(res)@.errors + nil());
    assert(final(res)@.warnings =~= old(res)@.warnings + seq![m_view]);
    assert(final(res)@.recommendations =~= old(res)@.recommendations + nil());
}

fn emit_recommendation(res: &mut ValidationResult, m: String)
    ensures
        final(res)@ == appended(old(res)@, nil(), nil(), seq![m@]),
{
    let ghost m_view = m@;
    res.add_recommendation(m);
    assert(final(res)@.errors =~= old(res)@.errors + nil());
    assert(final(res)@.warnings =~= old(res)@.warnings + nil());
    assert(final(res)@.recommendations =~= old(res)@.recommendations + seq![m_view]);
}

proof fn lemma_nil_plus_nil()
    ensures
        nil() + nil() == nil(),
{
    assert(nil() + nil() =~= nil());
}

proof fn lemma_plus_nil(a: Seq<Seq<char>>)
    ensures
        a + nil() == a,
        nil() + a == a,
{
    assert(a + nil() =~= a);
    assert(nil() + a =~= a);
}

/// Reports the empty route list and every route that fails `Router::validate`.
#[verifier::loop_isolation(false)]
fn check_structure(rs: &Vec<Router>, res: &mut ValidationResult)
    ensures
        final(res)@ == appended(old(res)@, basic_errors(routers_view(rs@)), nil(), nil()),
{
    let ghost v = routers_view(rs@);
    let ghost start = res@;
    if rs.len() == 0 {
        emit_error(res, owned("No routers configured - gateway will not handle any requests"));
    } else {
        proof {
            lemma_appended_nothing(start);
        }
    }
    let ghost mid = res@;
    assert(v.take(0) =~= Seq::<RouterView>::empty());
    proof {
        lemma_appended_nothing(mid);
    }
    let mut i: usize = 0;
    while i < rs.len()
        invariant
            i <= rs.len(),
            res@ == appended(mid, concat_map_indexed(v.take(i as int), f_basic()), nil(), nil()),
        decreases rs.len() - i,
    {
        proof {
            lemma_concat_map_indexed_step(v, f_basic(), i as int);
            lemma_nil_plus_nil();
        }
        assert(v[i as int] == rs@[i as int]@);
        let ghost before = res@;
        match rs[i].validate() {
            Err(e) => {
                let idx = u64_to_decimal(i as u64);
                emit_error(res, concat4("Router ", idx.as_str(), " validation failed: ", e.as_str()));
                proof {
                    lemma_appended_twice(
                        mid,
                        concat_map_indexed(v.take(i as int), f_basic()),
                        nil(),
                        nil(),
                        basic_route_error(i as int, v[i as int]),
                        nil(),
                        nil(),
                    );
                }
            },
            Ok(_) => {
                proof {
                    lemma_plus_nil(concat_map_indexed(v.take(i as int), f_basic()));
                }
            },
        }
        i = i + 1;
    }
    assert(v.take(rs.len() as int) =~= v);
    proof {
        lemma_appended_twice(
            start,
            when(v.len() == 0, "No routers configured - gateway will not handle any requests"@),
            nil(),
            nil(),
            concat_map_indexed(v, f_basic()),
            nil(),
            nil(),
        );
        lemma_nil_plus_nil();
    }
}

fn backend_security(b: &Backend, res: &mut ValidationResult)
    ensures
        final(res)@ == appended(old(res)@, nil(), backend_security_warning(b@), nil()),
{
    if str_starts_with(b.host.as_str(), "http://") {
        if str_contains(b.host.as_str(), "localhost") || str_contains(b.host.as_str(), "127.0.0.1") {
            emit_warning(
                res,
                concat3(
                    "HTTP backend to localhost detected: ",
                    b.host.as_str(),
                    " - consider HTTPS for production",
                ),
            );
        } else {
            emit_warning(
                res,
                concat3("Insecure HTTP backend detected: ", b.host.as_str(), " - consider HTTPS"),
            );
        }
    } else {
        proof {
            lemma_appended_nothing(old(res)@);
        }
    }
}

/// No text starts with both `http://` and `https://`.
pub proof fn lemma_http_https_exclusive(h: Seq<char>)
    ensures
        !(starts_with(h, "http://"@) && starts_with(h, "https://"@)),
{
    reveal_strlit("http://");
    reveal_strlit("https://");
    if starts_with(h, "http://"@) && starts_with(h, "https://"@) {
        assert(h.subrange(0, 7)[4] == h[4]);
        assert(h.subrange(0, 8)[4] == h[4]);
    }
}

/// Security messages for one route; returns whether it has plain-HTTP and HTTPS backends.
#[verifier::loop_isolation(false)]
fn route_security(r: &Router, res: &mut ValidationResult) -> (flags: (bool, bool))
    ensures
        final(res)@ == appended(
            old(res)@,
            route_security_errors(r@),
            route_security_warnings(r@),
            nil(),
        ),
        flags.0 == route_has_http(r@),
        flags.1 == route_has_https(r@),
{
    let ghost start = res@;
    let backends = r.get_backends();
    let ghost bv = backends_view(backends@);
    assert(bv == router_backends(r@));
    let mut has_http = false;
    let mut has_https = false;
    assert(bv.take(0) =~= Seq::<BackendView>::empty());
    proof {
        lemma_appended_nothing(start);
    }
    let mut j: usize = 0;
    while j < backends.len()
        invariant
            j <= backends.len(),
            res@ == appended(start, nil(), concat_map(bv.take(j as int), f_backend_security()), nil()),
            has_http == exists|k: int| 0 <= k < j && starts_with(bv[k].host, "http://"@),
            has_https == exists|k: int| 0 <= k < j && starts_with(bv[k].host, "https://"@),
        decreases backends.len() - j,
    {
        proof {
            lemma_concat_map_step(bv, f_backend_security(), j as int);
            lemma_nil_plus_nil();
        }
        assert(bv[j as int] == backends@[j as int]@);
        backend_security(&backends[j], res);
        proof {
            lemma_appended_twice(
                start,
                nil(),
                concat_map(bv.take(j as int), f_backend_security()),
                nil(),
                nil(),
                backend_security_warning(bv[j as int]),
                nil(),
            );
        }
        if str_starts_with(backends[j].host.as_str(), "http://") {
            has_http = true;
        } else if str_starts_with(backends[j].host.as_str(), "https://") {
            has_https = true;
        }
        proof {
            lemma_http_https_exclusive(bv[j as int].host);
        }
        j = j + 1;
    }
    assert(bv.take(backends.len() as int) =~= bv);
    let ghost mid = res@;
    let n = r.methods.len();
    if n > 4 {
        let count = u64_to_decimal(n as u64);
        emit_warning(
            res,
            concat5(
                "Route ",
                r.external_path.as_str(),
                " allows many HTTP methods (",
                count.as_str(),
                ") - consider restricting for security",
            ),
        );
    } else {
        proof {
            lemma_appended_nothing(mid);
        }
    }
    proof {
        lemma_appended_twice(
            start,
            nil(),
            concat_map(bv, f_backend_security()),
            nil(),
            nil(),
            route_methods_warning(r@),
            nil(),
        );
        lemma_nil_plus_nil();
    }
    let ghost mid2 = res@;
    if str_contains(r.external_path.as_str(), "..") || str_contains(r.internal_path.as_str(), "..") {
        emit_error(
            res,
            concat4(
                "Path traversal detected in route: ",
                r.external_path.as_str(),
                " -> ",
                r.internal_path.as_str(),
            ),
        );
    } else {
        proof {
            lemma_appended_nothing(mid2);
        }
    }
    proof {
        lemma_appended_twice(
            start,
            nil(),
            route_security_warnings(r@),
            nil(),
            route_security_errors(r@),
            nil(),
            nil(),
        );
        lemma_plus_nil(route_security_errors(r@));
        lemma_plus_nil(route_security_warnings(r@));
        lemma_nil_plus_nil();
    }
    (has_http, has_https)
}

/// Security checks: plain-HTTP backends, permissive methods, path traversal.
#[verifier::loop_isolation(false)]
fn check_security(rs: &Vec<Router>, res: &mut ValidationResult)
    ensures
        final(res)@ == appended(
            old(res)@,
            security_errors(routers_view(rs@)),
            security_warnings(routers_view(rs@)),
            nil(),
        ),
{
    let ghost v = routers_view(rs@);
    let ghost start = res@;
    let mut any_http = false;
    let mut any_https = false;
    assert(v.take(0) =~= Seq::<RouterView>::empty());
    proof {
        lemma_appended_nothing(start);
    }
    let mut i: usize = 0;
    while i < rs.len()
        invariant
            i <= rs.len(),
            res@ == appended(
                start,
                concat_map(v.take(i as int), f_security_errors()),
                concat_map(v.take(i as int), f_security_warnings()),
                nil(),
            ),
            any_http == exists|k: int| 0 <= k < i && route_has_http(v[k]),
            any_https == exists|k: int| 0 <= k < i && route_has_https(v[k]),
        decreases rs.len() - i,
    {
        proof {
            lemma_concat_map_step(v, f_security_errors(), i as int);
            lemma_concat_map_step(v, f_security_warnings(), i as int);
            lemma_nil_plus_nil();
        }
        assert(v[i as int] == rs@[i as int]@);
        let (h, hs) = route_security(&rs[i], res);
        proof {
            lemma_appended_twice(
                start,
                concat_map(v.take(i as int), f_security_errors()),
                concat_map(v.take(i as int), f_security_warnings()),
                nil(),
                route_security_errors(v[i as int]),
                route_security_warnings(v[i as int]),
                nil(),
            );
        }
        if h {
            any_http = true;
        }
        if hs {
            any_https = true;
        }
        i = i + 1;
    }
    assert(v.take(rs.len() as int) =~= v);
    let ghost mid = res@;
    if any_http && !any_https {
        emit_warning(res, owned("All routes use HTTP - consider HTTPS for production security"));
    } else {
        proof {
            lemma_appended_nothing(mid);
        }
    }
    proof {
        lemma_appended_twice(
            start,
            concat_map(v, f_security_errors()),
            concat_map(v, f_security_warnings()),
            nil(),
            nil(),
            when(
                any_http_backend(v) && !any_https_backend(v),
                "All routes use HTTP - consider HTTPS for production security"@,
            ),
            nil(),
        );
        lemma_plus_nil(concat_map(v, f_security_errors()));
        lemma_nil_plus_nil();
    }
}

/// Performance checks: many dynamic routes, no static routes, many parameters.
#[verifier::loop_isolation(false)]
fn check_performance(rs: &Vec<Router>, res: &mut ValidationResult)
    ensures
        final(res)@ == appended(
            old(res)@,
            nil(),
            performance_warnings(routers_view(rs@)),
            performance_recommendations(routers_view(rs@)),
        ),
{
    let ghost v = routers_view(rs@);
    let ghost start = res@;
    let mut dynamic: usize = 0;
    let mut i: usize = 0;
    while i < rs.len()
        invariant
            i <= rs.len(),
            dynamic == dynamic_count(v.take(i as int)),
            dynamic <= i,
        decreases rs.len() - i,
    {
        assert(v.take(i + 1).drop_last() =~= v.take(i as int));
        assert(v[i as int] == rs@[i as int]@);
        if str_contains(rs[i].external_path.as_str(), "{") {
            dynamic = dynamic + 1;
        }
        i = i + 1;
    }
    assert(v.take(rs.len() as int) =~= v);
    if dynamic > 50 {
        let count = u64_to_decimal(dynamic as u64);
        emit_warning(
            res,
            concat3(
                "High number of dynamic routes (",
                count.as_str(),
                ") may impact performance - consider route optimization",
            ),
        );
    } else {
        proof {
            lemma_appended_nothing(start);
        }
    }
    let ghost w1 = when(
        dynamic_count(v) > 50,
        "High number of dynamic routes ("@ + dec(dynamic_count(v))
            + ") may impact performance - consider route optimization"@,
    );
    let ghost mid = res@;
    let static_routes = rs.len() - dynamic;
    if static_routes == 0 && dynamic > 0 {
        emit_recommendation(
            res,
            owned(
                "Consider adding static routes for frequently accessed endpoints to improve performance",
            ),
        );
    } else {
        proof {
            lemma_appended_nothing(mid);
        }
    }
    proof {
        lemma_appended_twice(start, nil(), w1, nil(), nil(), nil(), performance_recommendations(v));
        lemma_nil_plus_nil();
        lemma_plus_nil(w1);
    }
    let ghost mid2 = res@;
    assert(v.take(0) =~= Seq::<RouterView>::empty());
    proof {
        lemma_appended_nothing(mid2);
    }
    let mut k: usize = 0;
    while k < rs.len()
        invariant
            k <= rs.len(),
            res@ == appended(mid2, nil(), concat_map(v.take(k as int), f_parameter_warning()), nil()),
        decreases rs.len() - k,
    {
        proof {
            lemma_concat_map_step(v, f_parameter_warning(), k as int);
            lemma_nil_plus_nil();
        }
        assert(v[k as int] == rs@[k as int]@);
        let params = str_count_char(rs[k].external_path.as_str(), '{');
        let ghost before = res@;
        if params > 3 {
            let count = u64_to_decimal(params as u64);
            emit_warning(
                res,
                concat5(
                    "Route ",
                    rs[k].external_path.as_str(),
                    " has many parameters (",
                    count.as_str(),
                    ") - may impact matching performance",
                ),
            );
        } else {
            proof {
                lemma_appended_nothing(before);
            }
        }
        proof {
            lemma_appended_twice(
                mid2,
                nil(),
                concat_map(v.take(k as int), f_parameter_warning()),
                nil(),
                nil(),
                route_parameter_warning(v[k as int]),
                nil(),
            );
        }
        k = k + 1;
    }
    assert(v.take(rs.len() as int) =~= v);
    proof {
        lemma_appended_twice(
            start,
            nil(),
            w1,
            performance_recommendations(v),
            nil(),
            concat_map(v, f_parameter_warning()),
            nil(),
        );
        lemma_nil_plus_nil();
        lemma_plus_nil(performance_recommendations(v));
    }
}

/// Whether two route paths could match the same request.
pub fn routes_may_conflict(path1: &str, path2: &str) -> (r: bool)
    ensures
        r == paths_may_conflict(path1@, path2@),
{
    let s1 = str_split(path1, '/');
    let s2 = str_split(path2, '/');
    let ghost v1 = split(path1@, '/');
    let ghost v2 = split(path2@, '/');
    if s1.len() != s2.len() {
        return false;
    }
    let mut k: usize = 0;
    while k < s1.len()
        invariant
            s1.len() == s2.len(),
            v1 == split(path1@, '/'),
            v2 == split(path2@, '/'),
            v1 == s1@.map_values(|p: String| p@),
            v2 == s2@.map_values(|p: String| p@),
            k <= s1.len(),
            forall|m: int|
                0 <= m < k ==> (starts_with(v1[m], "{"@) || starts_with(v2[m], "{"@) || v1[m]
                    == v2[m]),
        decreases s1.len() - k,
    {
        assert(v1[k as int] == s1@[k as int]@);
        assert(v2[k as int] == s2@[k as int]@);
        if !str_starts_with(s1[k].as_str(), "{") && !str_starts_with(s2[k].as_str(), "{") {
            if !str_eq(s1[k].as_str(), s2[k].as_str()) {
                assert(!(starts_with(v1[k as int], "{"@) || starts_with(v2[k as int], "{"@)
                    || v1[k as int] == v2[k as int]));
                assert(!paths_may_conflict(path1@, path2@));
                return false;
            }
        }
        k = k + 1;
    }
    true
}

/// Whether the route at position `i` repeats the path of an earlier route.
fn repeats_earlier_path(rs: &Vec<Router>, i: usize) -> (r: bool)
    requires
        i < rs.len(),
    ensures
        r == is_duplicate(routers_view(rs@), i as int),
{
    let ghost v = routers_view(rs@);
    assert(v[i as int] == rs@[i as int]@);
    let mut seen = false;
    let mut j: usize = 0;
    while j < i
        invariant
            i < rs.len(),
            v == routers_view(rs@),
            v[i as int] == rs@[i as int]@,
            j <= i,
            seen == exists|m: int| 0 <= m < j && v[m].external_path == v[i as int].external_path,
        decreases i - j,
    {
        assert(v[j as int] == rs@[j as int]@);
        if str_eq(rs[j].external_path.as_str(), rs[i].external_path.as_str()) {
            seen = true;
        }
        j = j + 1;
    }
    seen
}

/// Warns about every route whose path may conflict with the path of route `i`.
#[verifier::loop_isolation(false)]
fn report_row_conflicts(rs: &Vec<Router>, i: usize, res: &mut ValidationResult)
    requires
        i < rs.len(),
    ensures
        final(res)@ == appended(
            old(res)@,
            nil(),
            concat_map(routers_view(rs@), f_pair(routers_view(rs@)[i as int].external_path)),
            nil(),
        ),
{
    let ghost v = routers_view(rs@);
    let ghost p = v[i as int].external_path;
    assert(v[i as int] == rs@[i as int]@);
    let ghost mid = res@;
    assert(v.take(0) =~= Seq::<RouterView>::empty());
    proof {
        lemma_appended_nothing(mid);
    }
    let mut k: usize = 0;
    while k < rs.len()
        invariant
            k <= rs.len(),
            res@ == appended(mid, nil(), concat_map(v.take(k as int), f_pair(p)), nil()),
        decreases rs.len() - k,
    {
        proof {
            lemma_concat_map_step(v, f_pair(p), k as int);
            lemma_nil_plus_nil();
        }
        assert(v[k as int] == rs@[k as int]@);
        let ghost before = res@;
        if !str_eq(rs[i].external_path.as_str(), rs[k].external_path.as_str())
            && routes_may_conflict(rs[i].external_path.as_str(), rs[k].external_path.as_str()) {
            emit_warning(
                res,
                concat5(
                    "Potential route conflict between '",
                    rs[i].external_path.as_str(),
                    "' and '",
                    rs[k].external_path.as_str(),
                    "' - order matters",
                ),
            );
        } else {
            proof {
                lemma_appended_nothing(before);
            }
        }
        proof {
            lemma_appended_twice(
                mid,
                nil(),
                concat_map(v.take(k as int), f_pair(p)),
                nil(),
                nil(),
                pair_conflict(p, v[k as int].external_path),
                nil(),
            );
        }
        k = k + 1;
    }
    assert(v.take(rs.len() as int) =~= v);
}

/// Conflict checks: repeated paths, and pairs of paths that may match the same request.
#[verifier::loop_isolation(false)]
fn check_route_conflicts(rs: &Vec<Router>, res: &mut ValidationResult)
    ensures
        final(res)@ == appended(
            old(res)@,
            conflict_errors(routers_view(rs@)),
            conflict_warnings(routers_view(rs@)),
            nil(),
        ),
{
    let ghost v = routers_view(rs@);
    let ghost start = res@;
    assert(v.take(0) =~= Seq::<RouterView>::empty());
    proof {
        lemma_appended_nothing(start);
    }
    let mut i: usize = 0;
    while i < rs.len()
        invariant
            i <= rs.len(),
            res@ == appended(
                start,
                concat_map_indexed(v.take(i as int), f_duplicate(v)),
                concat_map(v.take(i as int), f_row(v)),
                nil(),
            ),
        decreases rs.len() - i,
    {
        proof {
            lemma_concat_map_indexed_step(v, f_duplicate(v), i as int);
            lemma_concat_map_step(v, f_row(v), i as int);
            lemma_nil_plus_nil();
        }
        assert(v[i as int] == rs@[i as int]@);
        let ghost row_start = res@;
        if repeats_earlier_path(rs, i) {
            emit_error(res, concat2("Duplicate route path detected: ", rs[i].external_path.as_str()));
        } else {
            proof {
                lemma_appended_nothing(row_start);
            }
        }
        let ghost dup = when(
            is_duplicate(v, i as int),
            "Duplicate route path detected: "@ + v[i as int].external_path,
        );
        let ghost p = v[i as int].external_path;
        report_row_conflicts(rs, i, res);
        proof {
            lemma_appended_twice(
                row_start,
                dup,
                nil(),
                nil(),
                nil(),
                concat_map(v, f_pair(p)),
                nil(),
            );
            lemma_plus_nil(dup);
            lemma_nil_plus_nil();
            lemma_appended_twice(
                start,
                concat_map_indexed(v.take(i as int), f_duplicate(v)),
                concat_map(v.take(i as int), f_row(v)),
                nil(),
                dup,
                concat_map(v, f_pair(p)),
                nil(),
            );
        }
        i = i + 1;
    }
    assert(v.take(rs.len() as int) =~= v);
}

fn backend_protocol(r: &Router, b: &Backend, res: &mut ValidationResult)
    ensures
        final(res)@ == appended(
            old(res)@,
            backend_protocol_errors(r@, b@),
            backend_protocol_warnings(r@, b@),
            backend_protocol_recommendations(r@, b@),
        ),
{
    let ghost start = res@;
    let host = b.host.as_str();
    match r.protocol {
        Protocol::WebSocket => {
            if !str_starts_with(host, "ws://") && !str_starts_with(host, "wss://")
                && !str_starts_with(host, "http://") && !str_starts_with(host, "https://") {
                emit_error(
                    res,
                    concat3(
                        "WebSocket route ",
                        r.external_path.as_str(),
                        " requires backend URL with ws://, wss://, http://, or https:// protocol",
                    ),
                );
            } else {
                proof {
                    lemma_appended_nothing(start);
                }
            }
        },
        Protocol::Ftp => {
            if !str_starts_with(host, "ftp://") && !str_starts_with(host, "ftps://")
                && !str_contains(host, "ftp") {
                emit_warning(
                    res,
                    concat4(
                        "FTP route ",
                        r.external_path.as_str(),
                        " backend may require ftp:// or ftps:// protocol: ",
                        host,
                    ),
                );
            } else {
                proof {
                    lemma_appended_nothing(start);
                }
            }
            let ghost mid = res@;
            let ghost w = backend_protocol_warnings(r@, b@);
            if b.port != 21 && b.port != 22 {
                let port = u64_to_decimal(b.port as u64);
                emit_recommendation(
                    res,
                    concat5(
                        "FTP route ",
                        r.external_path.as_str(),
                        " uses non-standard port ",
                        port.as_str(),
                        " (standard is 21)",
                    ),
                );
            } else {
                proof {
                    lemma_appended_nothing(mid);
                }
            }
            proof {
                lemma_appended_twice(
                    start,
                    nil(),
                    w,
                    nil(),
                    nil(),
                    nil(),
                    backend_protocol_recommendations(r@, b@),
                );
                lemma_nil_plus_nil();
                lemma_plus_nil(w);
            }
        },
        Protocol::Dns => {
            if b.port != 53 {
                let port = u64_to_decimal(b.port as u64);
                emit_warning(
                    res,
                    concat5(
                        "DNS route ",
                        r.external_path.as_str(),
                        " uses non-standard port ",
                        port.as_str(),
                        " (standard is 53)",
                    ),
                );
            } else {
                proof {
                    lemma_appended_nothing(start);
                }
            }
            let ghost mid = res@;
            let ghost w = backend_protocol_warnings(r@, b@);
            if str_starts_with(host, "http://") || str_starts_with(host, "https://") {
                emit_error(
                    res,
                    concat4(
                        "DNS route ",
                        r.external_path.as_str(),
                        " backend should not use HTTP/HTTPS protocol: ",
                        host,
                    ),
                );
            } else {
                proof {
                    lemma_appended_nothing(mid);
                }
            }
            proof {
                lemma_appended_twice(
                    start,
                    nil(),
                    w,
                    nil(),
                    backend_protocol_errors(r@, b@),
                    nil(),
                    nil(),
                );
                lemma_nil_plus_nil();
                lemma_plus_nil(w);
                lemma_plus_nil(backend_protocol_errors(r@, b@));
            }
        },
        Protocol::Http => {
            proof {
                lemma_appended_nothing(start);
            }
        },
    }
}

/// Protocol checks for one route: its backends, then the method it must allow.
#[verifier::loop_isolation(false)]
fn route_protocol(r: &Router, res: &mut ValidationResult)
    ensures
        final(res)@ == appended(
            old(res)@,
            route_protocol_errors(r@),
            route_protocol_warnings(r@),
            route_protocol_recommendations(r@),
        ),
{
    let ghost start = res@;
    let ghost rv = r@;
    let backends = r.get_backends();
    let ghost bv = backends_view(backends@);
    assert(bv == router_backends(rv));
    assert(bv.take(0) =~= Seq::<BackendView>::empty());
    proof {
        lemma_appended_nothing(start);
    }
    let mut j: usize = 0;
    while j < backends.len()
        invariant
            j <= backends.len(),
            res@ == appended(
                start,
                concat_map(bv.take(j as int), f_bpe(rv)),
                concat_map(bv.take(j as int), f_bpw(rv)),
                concat_map(bv.take(j as int), f_bpr(rv)),
            ),
        decreases backends.len() - j,
    {
        proof {
            lemma_concat_map_step(bv, f_bpe(rv), j as int);
            lemma_concat_map_step(bv, f_bpw(rv), j as int);
            lemma_concat_map_step(bv, f_bpr(rv), j as int);
        }
        assert(bv[j as int] == backends@[j as int]@);
        backend_protocol(r, &backends[j], res);
        proof {
            lemma_appended_twice(
                start,
                concat_map(bv.take(j as int), f_bpe(rv)),
                concat_map(bv.take(j as int), f_bpw(rv)),
                concat_map(bv.take(j as int), f_bpr(rv)),
                backend_protocol_errors(rv, bv[j as int]),
                backend_protocol_warnings(rv, bv[j as int]),
                backend_protocol_recommendations(rv, bv[j as int]),
            );
        }
        j = j + 1;
    }
    assert(bv.take(backends.len() as int) =~= bv);
    let ghost mid = res@;
    match r.protocol {
        Protocol::WebSocket => {
            if !strings_contain(&r.methods, "GET") {
                emit_warning(
                    res,
                    concat3(
                        "WebSocket route ",
                        r.external_path.as_str(),
                        " should allow GET method for upgrade",
                    ),
                );
            } else {
                proof {
                    lemma_appended_nothing(mid);
                }
            }
        },
        Protocol::Dns => {
            if !strings_contain(&r.methods, "POST") {
                emit_warning(
                    res,
                    concat3(
                        "DNS route ",
                        r.external_path.as_str(),
                        " should allow POST method for query forwarding",
                    ),
                );
            } else {
                proof {
                    lemma_appended_nothing(mid);
                }
            }
        },
        _ => {
            proof {
                lemma_appended_nothing(mid);
            }
        },
    }
    proof {
        assert forall|m: Seq<char>| allows_method(rv, m) <==> exists|i: int|
            0 <= i < r.methods@.len() && r.methods@[i]@ == m by {
            if allows_method(rv, m) {
                let i = choose|i: int| 0 <= i < rv.methods.len() && rv.methods[i] == m;
                assert(r.methods@[i]@ == rv.methods[i]);
            }
            if exists|i: int| 0 <= i < r.methods@.len() && r.methods@[i]@ == m {
                let i = choose|i: int| 0 <= i < r.methods@.len() && r.methods@[i]@ == m;
                assert(r.methods@[i]@ == rv.methods[i]);
            }
        }
        lemma_appended_twice(
            start,
            concat_map(bv, f_bpe(rv)),
            concat_map(bv, f_bpw(rv)),
            concat_map(bv, f_bpr(rv)),
            nil(),
            route_method_warning(rv),
            nil(),
        );
        lemma_plus_nil(concat_map(bv, f_bpe(rv)));
        lemma_plus_nil(concat_map(bv, f_bpr(rv)));
    }
}

/// Protocol checks for every route.
#[verifier::loop_isolation(false)]
fn check_protocols(rs: &Vec<Router>, res: &mut ValidationResult)
    ensures
        final(res)@ == appended(
            old(res)@,
            concat_map(routers_view(rs@), f_pe()),
            concat_map(routers_view(rs@), f_pw()),
            concat_map(routers_view(rs@), f_pr()),
        ),
{
    let ghost v = routers_view(rs@);
    let ghost start = res@;
    assert(v.take(0) =~= Seq::<RouterView>::empty());
    proof {
        lemma_appended_nothing(start);
    }
    let mut i: usize = 0;
    while i < rs.len()
        invariant
            i <= rs.len(),
            res@ == appended(
                start,
                concat_map(v.take(i as int), f_pe()),
                concat_map(v.take(i as int), f_pw()),
                concat_map(v.take(i as int), f_pr()),
            ),
        decreases rs.len() - i,
    {
        proof {
            lemma_concat_map_step(v, f_pe(), i as int);
            lemma_concat_map_step(v, f_pw(), i as int);
            lemma_concat_map_step(v, f_pr(), i as int);
        }
        assert(v[i as int] == rs@[i as int]@);
        route_protocol(&rs[i], res);
        proof {
            lemma_appended_twice(
                start,
                concat_map(v.take(i as int), f_pe()),
                concat_map(v.take(i as int), f_pw()),
                concat_map(v.take(i as int), f_pr()),
                route_protocol_errors(v[i as int]),
                route_protocol_warnings(v[i as int]),
                route_protocol_recommendations(v[i as int]),
            );
        }
        i = i + 1;
    }
    assert(v.take(rs.len() as int) =~= v);
}

/// Runs every configuration check.
#[derive(Debug)]
pub struct ConfigValidator;

impl ConfigValidator {
    /// Checks structure, security, performance, route conflicts and protocol
    /// rules, in that order, and collects every message. The result is valid
    /// exactly when no error was found.
    pub fn validate_comprehensive(settings: &Settings) -> (r: ValidationResult)
        ensures
            r@.errors == all_errors(routers_view(settings.routers@)),
            r@.warnings == all_warnings(routers_view(settings.routers@)),
            r@.recommendations == all_recommendations(routers_view(settings.routers@)),
            r@.is_valid == (r@.errors.len() == 0),
    {
        let ghost v = routers_view(settings.routers@);
        let mut result = ValidationResult::new();
        let ghost e0 = result@;
        check_structure(&settings.routers, &mut result);
        check_security(&settings.routers, &mut result);
        check_performance(&settings.routers, &mut result);
        check_route_conflicts(&settings.routers, &mut result);
        check_protocols(&settings.routers, &mut result);
        proof {
            lemma_appended_twice(e0, basic_errors(v), nil(), nil(), security_errors(v), security_warnings(v), nil());
            lemma_appended_twice(
                e0,
                basic_errors(v) + security_errors(v),
                nil() + security_warnings(v),
                nil() + nil(),
                nil(),
                performance_warnings(v),
                performance_recommendations(v),
            );
            lemma_appended_twice(
                e0,
                basic_errors(v) + security_errors(v) + nil(),
                nil() + security_warnings(v) + performance_warnings(v),
                nil() + nil() + performance_recommendations(v),
                conflict_errors(v),
                conflict_warnings(v),
                nil(),
            );
            lemma_appended_twice(
                e0,
                basic_errors(v) + security_errors(v) + nil() + conflict_errors(v),
                nil() + security_warnings(v) + performance_warnings(v) + conflict_warnings(v),
                nil() + nil() + performance_recommendations(v) + nil(),
                concat_map(v, f_pe()),
                concat_map(v, f_pw()),
                concat_map(v, f_pr()),
            );
            assert(e0.errors =~= nil());
            assert(e0.warnings =~= nil());
            assert(e0.recommendations =~= nil());
            assert(result@.errors =~= all_errors(v));
            assert(result@.warnings =~= all_warnings(v));
            assert(result@.recommendations =~= all_recommendations(v));
        }
        result
    }
}

} // verus!

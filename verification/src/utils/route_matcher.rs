//! Matching request paths against route patterns.
//!
//! A route's external path is either static, matched exactly, or dynamic:
//! its `/`-separated segments written `{name}` match any non-empty segment,
//! and the matched values replace the same `{name}` segments of the
//! internal path. Static routes are tried first, then dynamic ones, each in
//! configuration order.
use vstd::prelude::*;
use vstd::string::*;
use crate::models::router::{Router, RouterView};
use crate::models::settings::routers_view;
use crate::text::{concat2, join, owned, split, str_eq, str_join, str_split, strs_view};

verus! {

/// A pattern segment naming a parameter: `{name}`.
pub open spec fn is_param(seg: Seq<char>) -> bool {
    seg.len() >= 2 && seg[0] == '{' && seg.last() == '}'
}

/// The name of a parameter segment.
pub open spec fn param_name(seg: Seq<char>) -> Seq<char> {
    seg.subrange(1, seg.len() - 1)
}

/// A pattern without parameters.
pub open spec fn is_static(pattern: Seq<char>) -> bool {
    forall|i: int| 0 <= i < split(pattern, '/').len() ==> !is_param(#[trigger] split(pattern, '/')[i])
}

/// A pattern segment accepts a path segment: a parameter any non-empty one,
/// a literal only itself.
pub open spec fn segment_accepts(p: Seq<char>, s: Seq<char>) -> bool {
    if is_param(p) {
        s.len() > 0
    } else {
        p == s
    }
}

/// The segments of a dynamic pattern accept those of a path.
pub open spec fn segments_accept(ps: Seq<Seq<char>>, ss: Seq<Seq<char>>) -> bool {
    ps.len() == ss.len() && forall|i: int| 0 <= i < ps.len() ==> segment_accepts(#[trigger] ps[i], ss[i])
}

/// The value bound to `name` from position `i` on: the path segment under
/// the first parameter segment so named.
pub open spec fn binding_from(ps: Seq<Seq<char>>, ss: Seq<Seq<char>>, name: Seq<char>, i: int) -> Option<
    Seq<char>,
>
    decreases ps.len() - i,
{
    if i < 0 || i >= ps.len() {
        None
    } else if is_param(ps[i]) && param_name(ps[i]) == name {
        Some(ss[i])
    } else {
        binding_from(ps, ss, name, i + 1)
    }
}

/// An internal path segment after substitution.
pub open spec fn substituted(seg: Seq<char>, ps: Seq<Seq<char>>, ss: Seq<Seq<char>>) -> Seq<char> {
    if is_param(seg) {
        match binding_from(ps, ss, param_name(seg), 0) {
            Some(v) => v,
            None => seg,
        }
    } else {
        seg
    }
}

/// The internal path of a dynamic route for a path it matched.
pub open spec fn internal_for(internal: Seq<char>, pattern: Seq<char>, path: Seq<char>) -> Seq<char> {
    let ps = split(pattern, '/');
    let ss = split(path, '/');
    join(split(internal, '/').map_values(|seg: Seq<char>| substituted(seg, ps, ss)), "/"@)
}

/// Route `i` of `rs` is static and serves exactly `path`.
pub open spec fn static_hit(rs: Seq<RouterView>, path: Seq<char>, i: int) -> bool {
    0 <= i < rs.len() && is_static(rs[i].external_path) && rs[i].external_path == path
}

/// Route `i` of `rs` is dynamic and accepts `path`.
pub open spec fn dynamic_hit(rs: Seq<RouterView>, path: Seq<char>, i: int) -> bool {
    0 <= i < rs.len() && !is_static(rs[i].external_path) && segments_accept(
        split(rs[i].external_path, '/'),
        split(path, '/'),
    )
}

/// The route serving `path` and the internal path to forward to: the first
/// static route with that path, else the first dynamic route accepting it.
pub open spec fn route_for(rs: Seq<RouterView>, path: Seq<char>) -> Option<(int, Seq<char>)> {
    if exists|i: int| static_hit(rs, path, i) {
        let i = choose|i: int| static_hit(rs, path, i) && forall|j: int| 0 <= j < i ==> !static_hit(rs, path, j);
        Some((i, rs[i].internal_path))
    } else if exists|i: int| dynamic_hit(rs, path, i) {
        let i = choose|i: int| dynamic_hit(rs, path, i) && forall|j: int| 0 <= j < i ==> !dynamic_hit(rs, path, j);
        Some((i, internal_for(rs[i].internal_path, rs[i].external_path, path)))
    } else {
        None
    }
}

/// Why no route was found.
#[derive(Debug)]
pub enum RouteMatchError {
    /// No route serves the path.
    NoMatch { path: String },
}

fn is_param_exec(seg: &str) -> (r: bool)
    ensures
        r == is_param(seg@),
{
    let n = seg.unicode_len();
    n >= 2 && seg.get_char(0) == '{' && seg.get_char(n - 1) == '}'
}

fn all_literal(parts: &Vec<String>) -> (r: bool)
    ensures
        r == forall|i: int| 0 <= i < parts@.len() ==> !is_param(#[trigger] strs_view(parts@)[i]),
{
    let mut i: usize = 0;
    while i < parts.len()
        invariant
            i <= parts.len(),
            forall|k: int| 0 <= k < i ==> !is_param(#[trigger] strs_view(parts@)[k]),
        decreases parts.len() - i,
    {
        if is_param_exec(parts[i].as_str()) {
            assert(is_param(strs_view(parts@)[i as int]));
            return false;
        }
        i = i + 1;
    }
    true
}

fn accepts(ps: &Vec<String>, ss: &Vec<String>) -> (r: bool)
    ensures
        r == segments_accept(strs_view(ps@), strs_view(ss@)),
{
    if ps.len() != ss.len() {
        return false;
    }
    let mut i: usize = 0;
    while i < ps.len()
        invariant
            i <= ps.len(),
            ps.len() == ss.len(),
            forall|k: int| 0 <= k < i ==> segment_accepts(#[trigger] strs_view(ps@)[k], strs_view(ss@)[k]),
        decreases ps.len() - i,
    {
        let ok = if is_param_exec(ps[i].as_str()) {
            ss[i].unicode_len() > 0
        } else {
            str_eq(ps[i].as_str(), ss[i].as_str())
        };
        if !ok {
            assert(!segment_accepts(strs_view(ps@)[i as int], strs_view(ss@)[i as int]));
            return false;
        }
        i = i + 1;
    }
    true
}

fn binding(ps: &Vec<String>, ss: &Vec<String>, name: &str) -> (r: Option<String>)
    requires
        ps@.len() == ss@.len(),
    ensures
        match binding_from(strs_view(ps@), strs_view(ss@), name@, 0) {
            Some(v) => r matches Some(s) && s@ == v,
            None => r is None,
        },
{
    let ghost pv = strs_view(ps@);
    let ghost sv = strs_view(ss@);
    let mut i: usize = 0;
    while i < ps.len()
        invariant
            i <= ps.len(),
            ps@.len() == ss@.len(),
            pv == strs_view(ps@),
            sv == strs_view(ss@),
            binding_from(pv, sv, name@, 0) == binding_from(pv, sv, name@, i as int),
        decreases ps.len() - i,
    {
        if is_param_exec(ps[i].as_str()) {
            let n = ps[i].unicode_len();
            let inner = ps[i].as_str().substring_char(1, n - 1);
            if str_eq(inner, name) {
                return Some(ss[i].clone());
            }
        }
        i = i + 1;
    }
    None
}

/// The matcher over a set of routes.
#[derive(Debug)]
pub struct RouteMatcher {
    routes: Vec<Router>,
}

impl RouteMatcher {
    /// The routes matched against, in configuration order.
    pub closed spec fn spec_routes(&self) -> Seq<RouterView> {
        routers_view(self.routes@)
    }

    /// A matcher over `routes`.
    pub fn new(routes: Vec<Router>) -> (r: Self)
        ensures
            r.spec_routes() == routers_view(routes@),
    {
        RouteMatcher { routes }
    }

    /// The number of routes.
    pub fn len(&self) -> (r: usize)
        ensures
            r == self.spec_routes().len(),
    {
        self.routes.len()
    }

    /// The route at position `i`.
    pub fn route(&self, i: usize) -> (r: &Router)
        requires
            i < self.spec_routes().len(),
        ensures
            r@ == self.spec_routes()[i as int],
    {
        &self.routes[i]
    }

    /// The route serving `path`, by position, and the internal path to
    /// forward to; `NoMatch` when no route serves it.
    pub fn find_match(&self, path: &str) -> (r: Result<(usize, String), RouteMatchError>)
        ensures
            match route_for(self.spec_routes(), path@) {
                Some((i, internal)) => r matches Ok((k, s)) && k == i && s@ == internal,
                None => r matches Err(RouteMatchError::NoMatch { path: p }) && p@ == path@,
            },
    {
        let ghost rs = self.spec_routes();
        let mut i: usize = 0;
        while i < self.routes.len()
            invariant
                i <= self.routes.len(),
                rs == self.spec_routes(),
                forall|j: int| 0 <= j < i ==> !static_hit(rs, path@, j),
            decreases self.routes.len() - i,
        {
            assert(rs[i as int] == self.routes@[i as int]@);
            let parts = str_split(self.routes[i].external_path.as_str(), '/');
            let lit = all_literal(&parts);
            assert(lit == is_static(rs[i as int].external_path));
            if lit && str_eq(self.routes[i].external_path.as_str(), path) {
                assert(static_hit(rs, path@, i as int));
                let internal = self.routes[i].internal_path.clone();
                proof {
                    let c = choose|c: int| static_hit(rs, path@, c) && forall|j: int| 0 <= j < c ==> !static_hit(rs, path@, j);
                    if c < i {
                        assert(!static_hit(rs, path@, c));
                    } else if c > i {
                        assert(!static_hit(rs, path@, i as int));
                    }
                }
                return Ok((i, internal));
            }
            i = i + 1;
        }
        assert(!exists|j: int| static_hit(rs, path@, j));
        let path_parts = str_split(path, '/');
        let mut k: usize = 0;
        while k < self.routes.len()
            invariant
                k <= self.routes.len(),
                rs == self.spec_routes(),
                !exists|j: int| static_hit(rs, path@, j),
                strs_view(path_parts@) == split(path@, '/'),
                forall|j: int| 0 <= j < k ==> !dynamic_hit(rs, path@, j),
            decreases self.routes.len() - k,
        {
            assert(rs[k as int] == self.routes@[k as int]@);
            let parts = str_split(self.routes[k].external_path.as_str(), '/');
            let lit = all_literal(&parts);
            assert(lit == is_static(rs[k as int].external_path));
            if !lit && accepts(&parts, &path_parts) {
                assert(dynamic_hit(rs, path@, k as int));
                let internal_parts = str_split(self.routes[k].internal_path.as_str(), '/');
                let mut out: Vec<String> = Vec::new();
                let mut m: usize = 0;
                let ghost ps = strs_view(parts@);
                let ghost ss = strs_view(path_parts@);
                let ghost ip = strs_view(internal_parts@);
                while m < internal_parts.len()
                    invariant
                        m <= internal_parts.len(),
                        ps == strs_view(parts@),
                        ss == strs_view(path_parts@),
                        ip == strs_view(internal_parts@),
                        parts@.len() == path_parts@.len(),
                        strs_view(out@) == ip.take(m as int).map_values(
                            |seg: Seq<char>| substituted(seg, ps, ss),
                        ),
                    decreases internal_parts.len() - m,
                {
                    let seg = &internal_parts[m];
                    let value = if is_param_exec(seg.as_str()) {
                        let n = seg.unicode_len();
                        let name = seg.as_str().substring_char(1, n - 1);
                        match binding(&parts, &path_parts, name) {
                            Some(v) => v,
                            None => seg.clone(),
                        }
                    } else {
                        seg.clone()
                    };
                    let ghost before = strs_view(out@);
                    out.push(value);
                    assert(strs_view(out@) =~= before.push(substituted(ip[m as int], ps, ss)));
                    assert(ip.take(m + 1).map_values(|seg: Seq<char>| substituted(seg, ps, ss))
                        =~= ip.take(m as int).map_values(
                        |seg: Seq<char>| substituted(seg, ps, ss),
                    ).push(substituted(ip[m as int], ps, ss)));
                    m = m + 1;
                }
                assert(ip.take(internal_parts.len() as int) =~= ip);
                let joined = str_join(&out, "/");
                proof {
                    let c = choose|c: int| dynamic_hit(rs, path@, c) && forall|j: int| 0 <= j < c ==> !dynamic_hit(rs, path@, j);
                    if c < k {
                        assert(!dynamic_hit(rs, path@, c));
                    } else if c > k {
                        assert(!dynamic_hit(rs, path@, k as int));
                    }
                }
                return Ok((k, joined));
            }
            k = k + 1;
        }
        Err(RouteMatchError::NoMatch { path: owned(path) })
    }
}

} // verus!

//! Header, path, query-parameter and status-code rewriting rules.
use vstd::prelude::*;
use vstd::string::*;
use crate::headers::{
    HeaderContents, check_value, first_value, header_map_contains, header_map_get, header_map_insert,
    header_map_remove, header_map_view, header_name_of, parse_header_name, read_value, value_ok,
    value_readable, value_text,
};
use actix_web::http::header::HeaderMap;
use crate::keyed::{find_key, index_of_key};
use crate::patterns::{regex_replace_every, regex_replace_first, replace_every, replace_first};
use crate::text::{opt_view, clone_opt_string, owned, str_eq};

verus! {

/// What a transformation rule does with the header or parameter it names.
#[derive(PartialEq, Eq, Structural, Clone, Copy, Debug)]
pub enum TransformAction {
    /// Add a value unless one is already present.
    Add,
    /// Set a value, replacing any present one.
    SetValue,
    /// Remove the value.
    Remove,
    /// Rewrite the value with a regular expression.
    Replace,
}

/// A header rewriting rule.
#[derive(Debug)]
pub struct HeaderTransformation {
    pub action: TransformAction,
    pub name: String,
    pub value: Option<String>,
    pub pattern: Option<String>,
    pub replacement: Option<String>,
}

pub struct HeaderTransformationView {
    pub action: TransformAction,
    pub name: Seq<char>,
    pub value: Option<Seq<char>>,
    pub pattern: Option<Seq<char>>,
    pub replacement: Option<Seq<char>>,
}

impl View for HeaderTransformation {
    type V = HeaderTransformationView;

    open spec fn view(&self) -> HeaderTransformationView {
        HeaderTransformationView {
            action: self.action,
            name: self.name@,
            value: opt_view(self.value),
            pattern: opt_view(self.pattern),
            replacement: opt_view(self.replacement),
        }
    }
}

impl Clone for HeaderTransformation {
    fn clone(&self) -> (r: Self)
        ensures
            r@ == self@,
    {
        HeaderTransformation {
            action: self.action,
            name: self.name.clone(),
            value: clone_opt_string(&self.value),
            pattern: clone_opt_string(&self.pattern),
            replacement: clone_opt_string(&self.replacement),
        }
    }
}

/// A path rewriting rule: a regular expression and its replacement template.
#[derive(Debug)]
pub struct PathTransformation {
    pub pattern: String,
    pub replacement: String,
}

pub struct PathTransformationView {
    pub pattern: Seq<char>,
    pub replacement: Seq<char>,
}

impl View for PathTransformation {
    type V = PathTransformationView;

    open spec fn view(&self) -> PathTransformationView {
        PathTransformationView { pattern: self.pattern@, replacement: self.replacement@ }
    }
}

impl Clone for PathTransformation {
    fn clone(&self) -> (r: Self)
        ensures
            r@ == self@,
    {
        PathTransformation { pattern: self.pattern.clone(), replacement: self.replacement.clone() }
    }
}

/// A query-parameter rewriting rule.
#[derive(Debug)]
pub struct QueryTransformation {
    pub action: TransformAction,
    pub name: String,
    pub value: Option<String>,
}

pub struct QueryTransformationView {
    pub action: TransformAction,
    pub name: Seq<char>,
    pub value: Option<Seq<char>>,
}

impl View for QueryTransformation {
    type V = QueryTransformationView;

    open spec fn view(&self) -> QueryTransformationView {
        QueryTransformationView {
            action: self.action,
            name: self.name@,
            value: opt_view(self.value),
        }
    }
}

impl Clone for QueryTransformation {
    fn clone(&self) -> (r: Self)
        ensures
            r@ == self@,
    {
        QueryTransformation {
            action: self.action,
            name: self.name.clone(),
            value: clone_opt_string(&self.value),
        }
    }
}

/// Transformations applied to a request before it is forwarded.
#[derive(Debug)]
pub struct RequestTransformation {
    pub headers: Vec<HeaderTransformation>,
    pub path: Option<PathTransformation>,
    pub query_params: Vec<QueryTransformation>,
}

pub struct RequestTransformationView {
    pub headers: Seq<HeaderTransformationView>,
    pub path: Option<PathTransformationView>,
    pub query_params: Seq<QueryTransformationView>,
}

impl View for RequestTransformation {
    type V = RequestTransformationView;

    open spec fn view(&self) -> RequestTransformationView {
        RequestTransformationView {
            headers: self.headers@.map_values(|h: HeaderTransformation| h@),
            path: match self.path {
                Some(p) => Some(p@),
                None => None,
            },
            query_params: self.query_params@.map_values(|q: QueryTransformation| q@),
        }
    }
}

/// Copies of header rules, in order.
pub fn clone_header_rules(v: &Vec<HeaderTransformation>) -> (r: Vec<HeaderTransformation>)
    ensures
        r@.map_values(|h: HeaderTransformation| h@) == v@.map_values(|h: HeaderTransformation| h@),
{
    let mut r: Vec<HeaderTransformation> = Vec::new();
    let mut i: usize = 0;
    while i < v.len()
        invariant
            i <= v.len(),
            r@.map_values(|h: HeaderTransformation| h@) == v@.take(i as int).map_values(
                |h: HeaderTransformation| h@,
            ),
        decreases v.len() - i,
    {
        r.push(v[i].clone());
        assert(v@.take(i + 1).map_values(|h: HeaderTransformation| h@) =~= v@.take(
            i as int,
        ).map_values(|h: HeaderTransformation| h@).push(v@[i as int]@));
        assert(r@.map_values(|h: HeaderTransformation| h@) =~= v@.take(i + 1).map_values(
            |h: HeaderTransformation| h@,
        ));
        i = i + 1;
    }
    assert(v@.take(v.len() as int) =~= v@);
    r
}

/// Copies of query rules, in order.
pub fn clone_query_rules(v: &Vec<QueryTransformation>) -> (r: Vec<QueryTransformation>)
    ensures
        r@.map_values(|q: QueryTransformation| q@) == v@.map_values(|q: QueryTransformation| q@),
{
    let mut r: Vec<QueryTransformation> = Vec::new();
    let mut i: usize = 0;
    while i < v.len()
        invariant
            i <= v.len(),
            r@.map_values(|q: QueryTransformation| q@) == v@.take(i as int).map_values(
                |q: QueryTransformation| q@,
            ),
        decreases v.len() - i,
    {
        r.push(v[i].clone());
        assert(v@.take(i + 1).map_values(|q: QueryTransformation| q@) =~= v@.take(
            i as int,
        ).map_values(|q: QueryTransformation| q@).push(v@[i as int]@));
        assert(r@.map_values(|q: QueryTransformation| q@) =~= v@.take(i + 1).map_values(
            |q: QueryTransformation| q@,
        ));
        i = i + 1;
    }
    assert(v@.take(v.len() as int) =~= v@);
    r
}

impl Clone for RequestTransformation {
    fn clone(&self) -> (r: Self)
        ensures
            r@ == self@,
    {
        RequestTransformation {
            headers: clone_header_rules(&self.headers),
            path: match &self.path {
                Some(p) => Some(p.clone()),
                None => None,
            },
            query_params: clone_query_rules(&self.query_params),
        }
    }
}

impl Default for RequestTransformation {
    fn default() -> (r: Self)
        ensures
            r@.headers.len() == 0,
            r@.path is None,
            r@.query_params.len() == 0,
    {
        RequestTransformation { headers: Vec::new(), path: None, query_params: Vec::new() }
    }
}

/// Replaces one status code by another; `condition` is carried but not evaluated.
#[derive(Debug)]
pub struct StatusCodeMapping {
    pub from: u16,
    pub to: u16,
    pub condition: Option<String>,
}

pub struct StatusCodeMappingView {
    pub from: u16,
    pub to: u16,
    pub condition: Option<Seq<char>>,
}

impl View for StatusCodeMapping {
    type V = StatusCodeMappingView;

    open spec fn view(&self) -> StatusCodeMappingView {
        StatusCodeMappingView { from: self.from, to: self.to, condition: opt_view(self.condition) }
    }
}

impl Clone for StatusCodeMapping {
    fn clone(&self) -> (r: Self)
        ensures
            r@ == self@,
    {
        StatusCodeMapping {
            from: self.from,
            to: self.to,
            condition: clone_opt_string(&self.condition),
        }
    }
}

/// Transformations applied to a response before it is returned to the client.
#[derive(Debug)]
pub struct ResponseTransformation {
    pub headers: Vec<HeaderTransformation>,
    pub status_code_mappings: Vec<StatusCodeMapping>,
}

pub struct ResponseTransformationView {
    pub headers: Seq<HeaderTransformationView>,
    pub status_code_mappings: Seq<StatusCodeMappingView>,
}

impl View for ResponseTransformation {
    type V = ResponseTransformationView;

    open spec fn view(&self) -> ResponseTransformationView {
        ResponseTransformationView {
            headers: self.headers@.map_values(|h: HeaderTransformation| h@),
            status_code_mappings: self.status_code_mappings@.map_values(
                |m: StatusCodeMapping| m@,
            ),
        }
    }
}

impl Clone for ResponseTransformation {
    fn clone(&self) -> (r: Self)
        ensures
            r@ == self@,
    {
        let mut maps: Vec<StatusCodeMapping> = Vec::new();
        let mut i: usize = 0;
        while i < self.status_code_mappings.len()
            invariant
                i <= self.status_code_mappings.len(),
                maps@.map_values(|m: StatusCodeMapping| m@)
                    == self.status_code_mappings@.take(i as int).map_values(
                    |m: StatusCodeMapping| m@,
                ),
            decreases self.status_code_mappings.len() - i,
        {
            maps.push(self.status_code_mappings[i].clone());
            assert(self.status_code_mappings@.take(i + 1).map_values(|m: StatusCodeMapping| m@)
                =~= self.status_code_mappings@.take(i as int).map_values(
                |m: StatusCodeMapping| m@,
            ).push(self.status_code_mappings@[i as int]@));
            assert(maps@.map_values(|m: StatusCodeMapping| m@)
                =~= self.status_code_mappings@.take(i + 1).map_values(|m: StatusCodeMapping| m@));
            i = i + 1;
        }
        assert(self.status_code_mappings@.take(self.status_code_mappings.len() as int)
            =~= self.status_code_mappings@);
        ResponseTransformation { headers: clone_header_rules(&self.headers), status_code_mappings: maps }
    }
}

impl Default for ResponseTransformation {
    fn default() -> (r: Self)
        ensures
            r@.headers.len() == 0,
            r@.status_code_mappings.len() == 0,
    {
        ResponseTransformation { headers: Vec::new(), status_code_mappings: Vec::new() }
    }
}

/// The bytes of a header value given as text.
pub open spec fn text_bytes(s: Seq<char>) -> Seq<u8> {
    vstd::utf8::encode_utf8(s)
}

/// The header contents after one rule. `Add` and `SetValue` need a value
/// and a valid name and value (`Add` leaves a present header alone);
/// `Remove` needs a valid name; `Replace` rewrites the first value of the
/// header with the rule's pattern and replacement when that value reads as
/// text, the pattern compiles, and the result is a valid value. A name or
/// value set this way is the header's only value. Any rule whose conditions
/// fail leaves the headers as they are.
pub open spec fn header_step(hs: HeaderContents, t: HeaderTransformationView) -> HeaderContents {
    match t.action {
        TransformAction::Add | TransformAction::SetValue => match (t.value, header_name_of(t.name)) {
            (Some(v), Some(n)) => if !value_ok(text_bytes(v)) {
                hs
            } else if t.action == TransformAction::Add && hs.contains_key(n) {
                hs
            } else {
                hs.insert(n, seq![text_bytes(v)])
            },
            _ => hs,
        },
        TransformAction::Remove => match header_name_of(t.name) {
            Some(n) => hs.remove(n),
            None => hs,
        },
        TransformAction::Replace => match (t.pattern, t.replacement, header_name_of(t.name)) {
            (Some(p), Some(rep), Some(n)) => match first_value(hs, n) {
                Some(v) => if !value_readable(v) {
                    hs
                } else {
                    match regex_replace_every(p, value_text(v), rep) {
                        Some(nv) => if value_ok(text_bytes(nv)) {
                            hs.insert(n, seq![text_bytes(nv)])
                        } else {
                            hs
                        },
                        None => hs,
                    }
                },
                None => hs,
            },
            _ => hs,
        },
    }
}

/// The header contents after the rules `ts`, applied in order.
pub open spec fn headers_after(hs: HeaderContents, ts: Seq<HeaderTransformationView>) -> HeaderContents
    decreases ts.len(),
{
    if ts.len() == 0 {
        hs
    } else {
        header_step(headers_after(hs, ts.drop_last()), ts.last())
    }
}

/// Applies one header rule.
fn apply_header_rule(t: &HeaderTransformation, headers: &mut HeaderMap)
    ensures
        header_map_view(*final(headers)) == header_step(header_map_view(*old(headers)), t@),
{
    let name = t.name.as_str();
    if parse_header_name(name).is_none() {
        return;
    }
    match t.action {
        TransformAction::Add | TransformAction::SetValue => {
            match &t.value {
                Some(value) => {
                    let bytes = value.as_str().as_bytes_vec();
                    if !check_value(&bytes) {
                        return;
                    }
                    if t.action == TransformAction::Add && header_map_contains(headers, name) {
                        return;
                    }
                    header_map_insert(headers, name, bytes.as_slice());
                },
                None => {},
            }
        },
        TransformAction::Remove => header_map_remove(headers, name),
        TransformAction::Replace => {
            match (&t.pattern, &t.replacement) {
                (Some(pattern), Some(replacement)) => {
                    match header_map_get(headers, name) {
                        Some(value) => {
                            match read_value(&value) {
                                Some(text) => {
                                    match replace_every(
                                        pattern.as_str(),
                                        text.as_str(),
                                        replacement.as_str(),
                                    ) {
                                        Some(new_value) => {
                                            let bytes = new_value.as_str().as_bytes_vec();
                                            if check_value(&bytes) {
                                                header_map_insert(headers, name, bytes.as_slice());
                                            }
                                        },
                                        None => {},
                                    }
                                },
                                None => {},
                            }
                        },
                        None => {},
                    }
                },
                _ => {},
            }
        },
    }
}

/// Applies header rules in order.
fn apply_header_rules(rules: &Vec<HeaderTransformation>, headers: &mut HeaderMap)
    ensures
        header_map_view(*final(headers)) == headers_after(
            header_map_view(*old(headers)),
            rules@.map_values(|t: HeaderTransformation| t@),
        ),
{
    let ghost ts = rules@.map_values(|t: HeaderTransformation| t@);
    let ghost start = header_map_view(*headers);
    let mut i: usize = 0;
    assert(ts.take(0) =~= Seq::<HeaderTransformationView>::empty());
    while i < rules.len()
        invariant
            i <= rules.len(),
            ts == rules@.map_values(|t: HeaderTransformation| t@),
            header_map_view(*headers) == headers_after(start, ts.take(i as int)),
        decreases rules.len() - i,
    {
        assert(ts.take(i + 1).drop_last() =~= ts.take(i as int));
        assert(ts.take(i + 1).last() == rules@[i as int]@);
        apply_header_rule(&rules[i], headers);
        i = i + 1;
    }
    assert(ts.take(rules.len() as int) =~= ts);
}

/// A parameter list by value.
pub type ParamSeq = Seq<(Seq<char>, Seq<char>)>;

/// The view of a parameter list.
pub open spec fn param_seq(ps: Seq<(String, String)>) -> ParamSeq {
    ps.map_values(|p: (String, String)| (p.0@, p.1@))
}

/// The names of a parameter list.
pub open spec fn param_names(ps: ParamSeq) -> Seq<Seq<char>> {
    ps.map_values(|p: (Seq<char>, Seq<char>)| p.0)
}

/// `ps` with `name` set to `value`: in place when present, else at the end.
pub open spec fn with_param(ps: ParamSeq, name: Seq<char>, value: Seq<char>) -> ParamSeq {
    let i = index_of_key(param_names(ps), name);
    if i >= 0 {
        ps.update(i, (name, value))
    } else {
        ps.push((name, value))
    }
}

/// `ps` without the entries named `name`.
pub open spec fn without_param(ps: ParamSeq, name: Seq<char>) -> ParamSeq
    decreases ps.len(),
{
    if ps.len() == 0 {
        Seq::empty()
    } else if ps.last().0 == name {
        without_param(ps.drop_last(), name)
    } else {
        without_param(ps.drop_last(), name).push(ps.last())
    }
}

/// The parameters after one rule: `Add` sets an absent parameter, `SetValue`
/// sets it, `Remove` drops it, and `Replace` does nothing.
pub open spec fn query_step(ps: ParamSeq, t: QueryTransformationView) -> ParamSeq {
    match t.action {
        TransformAction::Add => match t.value {
            Some(v) => if index_of_key(param_names(ps), t.name) >= 0 {
                ps
            } else {
                with_param(ps, t.name, v)
            },
            None => ps,
        },
        TransformAction::SetValue => match t.value {
            Some(v) => with_param(ps, t.name, v),
            None => ps,
        },
        TransformAction::Remove => without_param(ps, t.name),
        TransformAction::Replace => ps,
    }
}

/// The parameters after the rules `ts`, applied in order.
pub open spec fn params_after(ps: ParamSeq, ts: Seq<QueryTransformationView>) -> ParamSeq
    decreases ts.len(),
{
    if ts.len() == 0 {
        ps
    } else {
        query_step(params_after(ps, ts.drop_last()), ts.last())
    }
}

fn names_of_params(ps: &Vec<(String, String)>) -> (r: Vec<String>)
    ensures
        r@.map_values(|s: String| s@) == param_names(param_seq(ps@)),
{
    let mut r: Vec<String> = Vec::new();
    let mut i: usize = 0;
    while i < ps.len()
        invariant
            i <= ps.len(),
            r@.map_values(|s: String| s@) == param_names(param_seq(ps@)).take(i as int),
        decreases ps.len() - i,
    {
        let ghost before = r@;
        r.push(ps[i].0.clone());
        assert(r@.map_values(|s: String| s@) =~= before.map_values(|s: String| s@).push(
            ps@[i as int].0@,
        ));
        assert(r@.map_values(|s: String| s@) =~= param_names(param_seq(ps@)).take(i + 1));
        i = i + 1;
    }
    assert(r@.map_values(|s: String| s@) =~= param_names(param_seq(ps@)));
    r
}

fn set_param(ps: &mut Vec<(String, String)>, name: &str, value: &str)
    ensures
        param_seq(final(ps)@) == with_param(param_seq(old(ps)@), name@, value@),
{
    let names = names_of_params(ps);
    let ghost pv = param_seq(ps@);
    match find_key(&names, name) {
        Some(i) => {
            ps.set(i, (owned(name), owned(value)));
            assert(param_seq(ps@) =~= pv.update(i as int, (name@, value@)));
        },
        None => {
            ps.push((owned(name), owned(value)));
            assert(param_seq(ps@) =~= pv.push((name@, value@)));
        },
    }
}

fn drop_param(ps: &mut Vec<(String, String)>, name: &str)
    ensures
        param_seq(final(ps)@) == without_param(param_seq(old(ps)@), name@),
{
    let ghost pv = param_seq(ps@);
    let mut out: Vec<(String, String)> = Vec::new();
    let mut i: usize = 0;
    assert(pv.take(0) =~= Seq::<(Seq<char>, Seq<char>)>::empty());
    while i < ps.len()
        invariant
            i <= ps.len(),
            pv == param_seq(ps@),
            param_seq(out@) == without_param(pv.take(i as int), name@),
        decreases ps.len() - i,
    {
        assert(pv.take(i + 1).drop_last() =~= pv.take(i as int));
        assert(pv.take(i + 1).last() == pv[i as int]);
        if !str_eq(ps[i].0.as_str(), name) {
            let ghost before = out@;
            out.push((ps[i].0.clone(), ps[i].1.clone()));
            assert(param_seq(out@) =~= param_seq(before).push(pv[i as int]));
        }
        i = i + 1;
    }
    assert(pv.take(ps.len() as int) =~= pv);
    *ps = out;
}

/// The status a response leaves with: the target of the first mapping from
/// `status`, else `status` (conditions are not evaluated).
pub open spec fn mapped_status(ms: Seq<StatusCodeMappingView>, status: u16) -> u16
    decreases ms.len(),
{
    if ms.len() == 0 {
        status
    } else if ms[0].from == status {
        ms[0].to
    } else {
        mapped_status(ms.drop_first(), status)
    }
}

/// Rewrites requests by a `RequestTransformation`.
#[derive(Debug)]
pub struct RequestTransformer {
    config: RequestTransformation,
}

impl RequestTransformer {
    /// The rules applied.
    pub closed spec fn spec_config(&self) -> RequestTransformationView {
        self.config@
    }

    /// A transformer applying `config`.
    pub fn new(config: RequestTransformation) -> (r: Self)
        ensures
            r.spec_config() == config@,
    {
        RequestTransformer { config }
    }

    /// Applies the header rules, in order.
    pub fn transform_headers(&self, headers: &mut HeaderMap)
        ensures
            header_map_view(*final(headers)) == headers_after(
                header_map_view(*old(headers)),
                self.spec_config().headers,
            ),
    {
        apply_header_rules(&self.config.headers, headers);
    }

    /// The path with the path rule's pattern replaced at its first match;
    /// the path as it is without a rule or when the pattern does not compile.
    pub fn transform_path(&self, path: &str) -> (r: String)
        ensures
            r@ == match self.spec_config().path {
                Some(p) => match regex_replace_first(p.pattern, path@, p.replacement) {
                    Some(s) => s,
                    None => path@,
                },
                None => path@,
            },
    {
        match &self.config.path {
            Some(p) => match replace_first(p.pattern.as_str(), path, p.replacement.as_str()) {
                Some(s) => s,
                None => owned(path),
            },
            None => owned(path),
        }
    }

    /// Applies the query parameter rules, in order.
    pub fn transform_query_params(&self, params: &mut Vec<(String, String)>)
        ensures
            param_seq(final(params)@) == params_after(
                param_seq(old(params)@),
                self.spec_config().query_params,
            ),
    {
        let ghost ts = self.spec_config().query_params;
        let ghost start = param_seq(params@);
        let rules = &self.config.query_params;
        let mut i: usize = 0;
        assert(ts.take(0) =~= Seq::<QueryTransformationView>::empty());
        while i < rules.len()
            invariant
                i <= rules.len(),
                ts == rules@.map_values(|t: QueryTransformation| t@),
                param_seq(params@) == params_after(start, ts.take(i as int)),
            decreases rules.len() - i,
        {
            assert(ts.take(i + 1).drop_last() =~= ts.take(i as int));
            assert(ts.take(i + 1).last() == rules@[i as int]@);
            let t = &rules[i];
            match t.action {
                TransformAction::Add => match &t.value {
                    Some(v) => {
                        let names = names_of_params(params);
                        if find_key(&names, t.name.as_str()).is_none() {
                            set_param(params, t.name.as_str(), v.as_str());
                        }
                    },
                    None => {},
                },
                TransformAction::SetValue => match &t.value {
                    Some(v) => set_param(params, t.name.as_str(), v.as_str()),
                    None => {},
                },
                TransformAction::Remove => drop_param(params, t.name.as_str()),
                TransformAction::Replace => {},
            }
            i = i + 1;
        }
        assert(ts.take(rules.len() as int) =~= ts);
    }
}

/// Rewrites responses by a `ResponseTransformation`.
#[derive(Debug)]
pub struct ResponseTransformer {
    config: ResponseTransformation,
}

impl ResponseTransformer {
    /// The rules applied.
    pub closed spec fn spec_config(&self) -> ResponseTransformationView {
        self.config@
    }

    /// A transformer applying `config`.
    pub fn new(config: ResponseTransformation) -> (r: Self)
        ensures
            r.spec_config() == config@,
    {
        ResponseTransformer { config }
    }

    /// Applies the header rules, in order.
    pub fn transform_headers(&self, headers: &mut HeaderMap)
        ensures
            header_map_view(*final(headers)) == headers_after(
                header_map_view(*old(headers)),
                self.spec_config().headers,
            ),
    {
        apply_header_rules(&self.config.headers, headers);
    }

    /// The status after the first mapping from `status`, if any.
    pub fn transform_status_code(&self, status: u16, path: &str) -> (r: u16)
        ensures
            r == mapped_status(self.spec_config().status_code_mappings, status),
    {
        let ghost ms = self.spec_config().status_code_mappings;
        let mut i: usize = 0;
        assert(ms.skip(0) =~= ms);
        while i < self.config.status_code_mappings.len()
            invariant
                i <= self.config.status_code_mappings.len(),
                ms == self.config.status_code_mappings@.map_values(|m: StatusCodeMapping| m@),
                mapped_status(ms, status) == mapped_status(ms.skip(i as int), status),
            decreases self.config.status_code_mappings.len() - i,
        {
            assert(ms.skip(i as int)[0] == ms[i as int]);
            assert(ms.skip(i as int).drop_first() =~= ms.skip(i + 1));
            if self.config.status_code_mappings[i].from == status {
                return self.config.status_code_mappings[i].to;
            }
            i = i + 1;
        }
        assert(ms.skip(i as int).len() == 0);
        status
    }
}

/// A header rule removing a name leaves no value under it.
pub proof fn lemma_header_remove_clears(hs: HeaderContents, t: HeaderTransformationView, n: Seq<char>)
    requires
        t.action == TransformAction::Remove,
        header_name_of(t.name) == Some(n),
    ensures
        first_value(header_step(hs, t), n) is None,
{
}

/// A header rule adding a value leaves a header that is already present
/// as it is.
pub proof fn lemma_header_add_keeps(hs: HeaderContents, t: HeaderTransformationView, n: Seq<char>)
    requires
        t.action == TransformAction::Add,
        header_name_of(t.name) == Some(n),
        first_value(hs, n) is Some,
    ensures
        header_step(hs, t) == hs,
{
}

/// A header rule setting a valid value makes it the value read back.
pub proof fn lemma_header_set_overrides(
    hs: HeaderContents,
    t: HeaderTransformationView,
    n: Seq<char>,
    v: Seq<char>,
)
    requires
        t.action == TransformAction::SetValue,
        header_name_of(t.name) == Some(n),
        t.value == Some(v),
        value_ok(text_bytes(v)),
    ensures
        first_value(header_step(hs, t), n) == Some(text_bytes(v)),
{
}

/// No entry of `without_param(ps, name)` is named `name`.
proof fn lemma_without_param_drops(ps: ParamSeq, name: Seq<char>)
    ensures
        !param_names(without_param(ps, name)).contains(name),
    decreases ps.len(),
{
    if ps.len() > 0 {
        let rest = without_param(ps.drop_last(), name);
        lemma_without_param_drops(ps.drop_last(), name);
        if ps.last().0 != name {
            assert(param_names(rest.push(ps.last())) =~= param_names(rest).push(ps.last().0));
        }
    }
}

/// The value of `name` in `ps`, if it has one.
pub open spec fn param_value(ps: ParamSeq, name: Seq<char>) -> Option<Seq<char>> {
    let i = index_of_key(param_names(ps), name);
    if i >= 0 {
        Some(ps[i].1)
    } else {
        None
    }
}

/// A query rule removing a parameter leaves no parameter of that name.
pub proof fn lemma_query_remove_clears(ps: ParamSeq, t: QueryTransformationView)
    requires
        t.action == TransformAction::Remove,
    ensures
        !param_names(query_step(ps, t)).contains(t.name),
        param_value(query_step(ps, t), t.name) is None,
{
    lemma_without_param_drops(ps, t.name);
    crate::keyed::lemma_key_missing(param_names(query_step(ps, t)), t.name);
}

/// A query rule adding a parameter that is already present changes nothing.
pub proof fn lemma_query_add_keeps(ps: ParamSeq, t: QueryTransformationView)
    requires
        t.action == TransformAction::Add,
        param_value(ps, t.name) is Some,
    ensures
        query_step(ps, t) == ps,
{
}

/// A query rule setting a parameter makes its value the one read back.
pub proof fn lemma_query_set_overrides(ps: ParamSeq, t: QueryTransformationView, v: Seq<char>)
    requires
        t.action == TransformAction::SetValue,
        t.value == Some(v),
    ensures
        param_value(query_step(ps, t), t.name) == Some(v),
{
    let n = t.name;
    let i = index_of_key(param_names(ps), n);
    let q = query_step(ps, t);
    if i >= 0 {
        assert(crate::keyed::is_first_index(param_names(ps), n, i)) by {
            assert(exists|j: int| crate::keyed::is_first_index(param_names(ps), n, j));
        }
        assert forall|j: int| 0 <= j < i implies #[trigger] param_names(q)[j] != n by {
            assert(param_names(ps)[j] != n);
        }
        assert(crate::keyed::is_first_index(param_names(q), n, i));
        crate::keyed::lemma_index_of_key(param_names(q), n, i);
    } else {
        assert(!param_names(ps).contains(n)) by {
            if param_names(ps).contains(n) {
                let w = choose|w: int| 0 <= w < param_names(ps).len() && param_names(ps)[w] == n;
                crate::keyed::lemma_key_held(param_names(ps), n, w);
            }
        }
        assert forall|j: int| 0 <= j < ps.len() implies #[trigger] param_names(q)[j] != n by {
            assert(param_names(ps)[j] != n);
        }
        assert(crate::keyed::is_first_index(param_names(q), n, ps.len() as int));
        crate::keyed::lemma_index_of_key(param_names(q), n, ps.len() as int);
    }
}

/// A header rule that rewrites with a pattern sets the header to its first
/// value with every non-overlapping match of the pattern replaced (all of
/// them, not only the first), as the header's one value.
pub proof fn lemma_header_replace_rewrites_every_match(
    hs: HeaderContents,
    t: HeaderTransformationView,
    n: Seq<char>,
    v: Seq<u8>,
    nv: Seq<char>,
)
    requires
        t.action == TransformAction::Replace,
        t.pattern is Some,
        t.replacement is Some,
        header_name_of(t.name) == Some(n),
        first_value(hs, n) == Some(v),
        value_readable(v),
        regex_replace_every(t.pattern->0, value_text(v), t.replacement->0) == Some(nv),
        value_ok(text_bytes(nv)),
    ensures
        header_step(hs, t) == hs.insert(n, seq![text_bytes(nv)]),
        first_value(header_step(hs, t), n) == Some(text_bytes(nv)),
        header_step(hs, t)[n].len() == 1,
{
}

/// A status leaves with the target of the first mapping from it, whatever
/// later mappings from the same status say; a status no mapping starts from
/// leaves unchanged.
pub proof fn lemma_first_mapping_wins(ms: Seq<StatusCodeMappingView>, status: u16, i: int)
    requires
        0 <= i < ms.len(),
        ms[i].from == status,
        forall|j: int| 0 <= j < i ==> #[trigger] ms[j].from != status,
    ensures
        mapped_status(ms, status) == ms[i].to,
    decreases i,
{
    if i > 0 {
        assert(ms[0].from != status);
        assert forall|j: int| 0 <= j < i - 1 implies #[trigger] ms.drop_first()[j].from != status by {
            assert(ms.drop_first()[j] == ms[j + 1]);
        }
        lemma_first_mapping_wins(ms.drop_first(), status, i - 1);
    }
}

/// A status that no mapping starts from is left as it is.
pub proof fn lemma_unmapped_status_kept(ms: Seq<StatusCodeMappingView>, status: u16)
    requires
        forall|j: int| 0 <= j < ms.len() ==> #[trigger] ms[j].from != status,
    ensures
        mapped_status(ms, status) == status,
    decreases ms.len(),
{
    if ms.len() > 0 {
        assert(ms[0].from != status);
        assert forall|j: int| 0 <= j < ms.len() - 1 implies #[trigger] ms.drop_first()[j].from
            != status by {
            assert(ms.drop_first()[j] == ms[j + 1]);
        }
        lemma_unmapped_status_kept(ms.drop_first(), status);
    }
}

} // verus!

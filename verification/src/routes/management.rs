//! Route and configuration management.
//!
//! `RouteManager` holds the live settings and answers the management API:
//! each operation gives the HTTP status and body to send, and says whether
//! the settings changed and must be written back to the configuration file.
//! Writing the file is the caller's part; `save_failed` is the answer when
//! that write fails.
use vstd::prelude::*;
use vstd::string::*;
use crate::middleware::rate_limit::RateLimitConfig;
use crate::models::check_view;
use crate::models::router::{Router, RouterView, router_check};
use crate::models::settings::{
    JwtSettings, Settings, check_jwt_secret, jwt_secret_check, routers_view,
};
use crate::text::{concat2, dec, owned, str_eq, u64_to_decimal};

verus! {

/// The body of a route management answer.
#[derive(Debug)]
pub struct RouteResponse {
    pub success: bool,
    pub message: String,
    pub route: Option<Router>,
    pub routes: Option<Vec<Router>>,
}

/// The body of a configuration answer.
#[derive(Debug)]
pub struct ApiMessage {
    pub success: bool,
    pub message: String,
}

/// An answer: status code, body, and whether the settings must be saved.
#[derive(Debug)]
pub struct Reply<T> {
    pub status: u16,
    pub body: T,
    pub save: bool,
}

/// The verdict on a route submitted for validation.
#[derive(Debug)]
pub struct ValidateRouteResponse {
    pub valid: bool,
    pub error: Option<String>,
    pub warnings: Option<Vec<String>>,
}

/// CORS settings submitted to the management API.
#[derive(Debug)]
pub struct CorsConfig {
    pub allowed_origins: Vec<String>,
    pub allowed_methods: Vec<String>,
    pub allowed_headers: Vec<String>,
    pub allow_credentials: bool,
}

/// Metrics settings submitted to the management API.
#[derive(Debug)]
pub struct MetricsConfig {
    pub endpoint: String,
    pub enable_per_route_metrics: bool,
}

/// Server settings submitted to the management API.
#[derive(Debug)]
pub struct ServerConfig {
    pub host: String,
    pub port: u16,
    pub workers: usize,
    pub keep_alive: u64,
}

/// `i` is the first route of `rs` serving `path`.
pub open spec fn is_first_route(rs: Seq<RouterView>, path: Seq<char>, i: int) -> bool {
    &&& 0 <= i < rs.len()
    &&& rs[i].external_path == path
    &&& forall|j: int| 0 <= j < i ==> #[trigger] rs[j].external_path != path
}

/// Some route of `rs` serves `path`.
pub open spec fn has_route(rs: Seq<RouterView>, path: Seq<char>) -> bool {
    exists|i: int| 0 <= i < rs.len() && #[trigger] rs[i].external_path == path
}

/// The first route of `rs` serving `path`.
pub open spec fn find_route(rs: Seq<RouterView>, path: Seq<char>) -> Option<RouterView> {
    if exists|i: int| is_first_route(rs, path, i) {
        Some(rs[choose|i: int| is_first_route(rs, path, i)])
    } else {
        None
    }
}

/// `rs` without the routes serving `path`, in order.
pub open spec fn without_route(rs: Seq<RouterView>, path: Seq<char>) -> Seq<RouterView>
    decreases rs.len(),
{
    if rs.len() == 0 {
        Seq::empty()
    } else if rs.last().external_path == path {
        without_route(rs.drop_last(), path)
    } else {
        without_route(rs.drop_last(), path).push(rs.last())
    }
}

/// `rs` with its first route serving `path` replaced by `r`.
pub open spec fn replace_route(rs: Seq<RouterView>, path: Seq<char>, r: RouterView) -> Seq<RouterView> {
    if exists|i: int| is_first_route(rs, path, i) {
        rs.update(choose|i: int| is_first_route(rs, path, i), r)
    } else {
        rs
    }
}

/// The external path named by a path parameter: a slash and the parameter.
pub open spec fn param_path(param: Seq<char>) -> Seq<char> {
    "/"@ + param
}

/// The message of a route that fails validation.
pub open spec fn validation_failed(e: Seq<char>) -> Seq<char> {
    "Route validation failed: "@ + e
}

/// The message of a missing route.
pub open spec fn not_found(path: Seq<char>) -> Seq<char> {
    "Route not found: "@ + path
}

/// The first route serving a path is the one `find_route` names.
pub proof fn lemma_find_route(rs: Seq<RouterView>, path: Seq<char>, i: int)
    requires
        is_first_route(rs, path, i),
    ensures
        find_route(rs, path) == Some(rs[i]),
        replace_route(rs, path, rs[i]) == rs,
        forall|r: RouterView| #[trigger] replace_route(rs, path, r) == rs.update(i, r),
{
    let c = choose|c: int| is_first_route(rs, path, c);
    assert(is_first_route(rs, path, c));
    if c < i {
        assert(rs[c].external_path != path);
    } else if c > i {
        assert(rs[i].external_path != path);
    }
    assert(rs.update(i, rs[i]) =~= rs);
}

/// No route serves a path that none of `rs` carries.
pub proof fn lemma_route_absent(rs: Seq<RouterView>, path: Seq<char>)
    requires
        !has_route(rs, path),
    ensures
        find_route(rs, path) is None,
        forall|r: RouterView| #[trigger] replace_route(rs, path, r) == rs,
        without_route(rs, path) == rs,
    decreases rs.len(),
{
    if exists|i: int| is_first_route(rs, path, i) {
        let c = choose|c: int| is_first_route(rs, path, c);
        assert(rs[c].external_path == path);
    }
    if rs.len() > 0 {
        assert(!has_route(rs.drop_last(), path)) by {
            if has_route(rs.drop_last(), path) {
                let k = choose|k: int|
                    0 <= k < rs.drop_last().len() && #[trigger] rs.drop_last()[k].external_path
                        == path;
                assert(rs[k].external_path == path);
            }
        }
        lemma_route_absent(rs.drop_last(), path);
        assert(rs.last().external_path != path) by {
            assert(rs[rs.len() - 1].external_path != path);
        }
        assert(rs.drop_last().push(rs.last()) =~= rs);
    }
}

/// A path some route carries has a first route.
pub proof fn lemma_route_present(rs: Seq<RouterView>, path: Seq<char>, j: int)
    requires
        0 <= j < rs.len(),
        rs[j].external_path == path,
    ensures
        exists|i: int| is_first_route(rs, path, i),
    decreases j,
{
    if exists|k: int| 0 <= k < j && #[trigger] rs[k].external_path == path {
        let k = choose|k: int| 0 <= k < j && #[trigger] rs[k].external_path == path;
        lemma_route_present(rs, path, k);
    } else {
        assert(is_first_route(rs, path, j));
    }
}

/// The removal keeps exactly the routes not serving `path`.
pub proof fn lemma_without_route(rs: Seq<RouterView>, path: Seq<char>)
    ensures
        !has_route(without_route(rs, path), path),
        without_route(rs, path).len() <= rs.len(),
        without_route(rs, path).len() == rs.len() <==> !has_route(rs, path),
    decreases rs.len(),
{
    if rs.len() > 0 {
        let prev = rs.drop_last();
        lemma_without_route(prev, path);
        let w = without_route(rs, path);
        let wp = without_route(prev, path);
        if rs.last().external_path != path {
            assert(!has_route(w, path)) by {
                if has_route(w, path) {
                    let k = choose|k: int| 0 <= k < w.len() && #[trigger] w[k].external_path == path;
                    if k < wp.len() {
                        assert(w[k] == wp[k]);
                    }
                }
            }
            if has_route(rs, path) {
                let k = choose|k: int| 0 <= k < rs.len() && #[trigger] rs[k].external_path == path;
                assert(prev[k].external_path == path);
            }
            if has_route(prev, path) {
                let k = choose|k: int| 0 <= k < prev.len() && #[trigger] prev[k].external_path == path;
                assert(rs[k].external_path == path);
            }
        } else {
            assert(rs[rs.len() - 1].external_path == path);
        }
    }
}

/// The route of `rs` serving `path`, as found by a scan.
fn position_of(routers: &Vec<Router>, path: &str) -> (r: Option<usize>)
    ensures
        r matches Some(i) ==> is_first_route(routers_view(routers@), path@, i as int),
        r is None ==> !has_route(routers_view(routers@), path@),
{
    let ghost rs = routers_view(routers@);
    let mut i: usize = 0;
    while i < routers.len()
        invariant
            i <= routers.len(),
            rs == routers_view(routers@),
            forall|j: int| 0 <= j < i ==> #[trigger] rs[j].external_path != path@,
        decreases routers.len() - i,
    {
        assert(rs[i as int] == routers@[i as int]@);
        if str_eq(routers[i].external_path.as_str(), path) {
            return Some(i);
        }
        i = i + 1;
    }
    None
}

/// A route answer with neither a route nor a list.
fn plain(success: bool, message: String) -> (r: RouteResponse)
    ensures
        r.success == success,
        r.message == message,
        r.route is None,
        r.routes is None,
{
    RouteResponse { success, message, route: None, routes: None }
}

/// The views of an optional list of routes.
pub open spec fn opt_routes_view(o: Option<Vec<Router>>) -> Option<Seq<RouterView>> {
    match o {
        Some(v) => Some(routers_view(v@)),
        None => None,
    }
}

/// The view of an optional route.
pub open spec fn opt_route_view(o: Option<Router>) -> Option<RouterView> {
    match o {
        Some(r) => Some(r@),
        None => None,
    }
}

/// The answer to a settings write that failed with `error`.
pub fn save_failed(error: &str) -> (r: Reply<RouteResponse>)
    ensures
        r.status == 500,
        !r.save,
        !r.body.success,
        r.body.message@ == "Failed to save configuration: "@ + error@,
        r.body.route is None,
        r.body.routes is None,
{
    Reply {
        status: 500,
        body: plain(false, concat2("Failed to save configuration: ", error)),
        save: false,
    }
}

/// The answer to a configuration write that failed with `error`.
pub fn config_save_failed(error: &str) -> (r: Reply<ApiMessage>)
    ensures
        r.status == 500,
        !r.save,
        !r.body.success,
        r.body.message@ == "Failed to save configuration: "@ + error@,
{
    Reply {
        status: 500,
        body: ApiMessage {
            success: false,
            message: concat2("Failed to save configuration: ", error),
        },
        save: false,
    }
}

fn api_message(status: u16, success: bool, message: &str, save: bool) -> (r: Reply<ApiMessage>)
    ensures
        r.status == status,
        r.save == save,
        r.body.success == success,
        r.body.message@ == message@,
{
    Reply { status, body: ApiMessage { success, message: owned(message) }, save }
}

/// The verdict on a route: valid, or invalid with the validation message.
pub fn validate_route(route: &Router) -> (r: ValidateRouteResponse)
    ensures
        r.valid == (router_check(route@) is Ok),
        router_check(route@) is Err ==> r.error is Some && r.error->0@ == router_check(route@)->Err_0,
        router_check(route@) is Ok ==> r.error is None,
        r.warnings is None,
{
    match route.validate() {
        Ok(_) => ValidateRouteResponse { valid: true, error: None, warnings: None },
        Err(e) => ValidateRouteResponse { valid: false, error: Some(e), warnings: None },
    }
}

/// The answer to submitted CORS settings, which take effect on restart.
pub fn update_cors_config(cors_config: &CorsConfig) -> (r: Reply<ApiMessage>)
    ensures
        r.status == 200,
        !r.save,
        r.body.success,
        r.body.message@
            == "CORS configuration received. Server restart required to apply CORS settings."@,
{
    api_message(
        200,
        true,
        "CORS configuration received. Server restart required to apply CORS settings.",
        false,
    )
}

/// The answer to submitted metrics settings, which take effect on restart.
pub fn update_metrics_config(metrics_config: &MetricsConfig) -> (r: Reply<ApiMessage>)
    ensures
        r.status == 200,
        !r.save,
        r.body.success,
        r.body.message@
            == "Metrics configuration received. Server restart required to apply metrics settings."@,
{
    api_message(
        200,
        true,
        "Metrics configuration received. Server restart required to apply metrics settings.",
        false,
    )
}

/// The answer to submitted server settings: refused without a port or
/// without workers, else noted for the next restart.
pub fn update_server_config(server_config: &ServerConfig) -> (r: Reply<ApiMessage>)
    ensures
        !r.save,
        server_config.port == 0 ==> r.status == 400 && !r.body.success && r.body.message@
            == "Port must be greater than 0"@,
        server_config.port != 0 && server_config.workers == 0 ==> r.status == 400
            && !r.body.success && r.body.message@ == "Workers must be greater than 0"@,
        server_config.port != 0 && server_config.workers != 0 ==> r.status == 200
            && r.body.success && r.body.message@
            == "Server configuration received. Server restart required to apply changes."@,
{
    if server_config.port == 0 {
        return api_message(400, false, "Port must be greater than 0", false);
    }
    if server_config.workers == 0 {
        return api_message(400, false, "Workers must be greater than 0", false);
    }
    api_message(
        200,
        true,
        "Server configuration received. Server restart required to apply changes.",
        false,
    )
}

/// The answer to submitted AI settings, which take effect on restart.
pub fn update_ai_config(ai_config: &crate::models::settings::AiSettings) -> (r: Reply<ApiMessage>)
    ensures
        r.status == 200,
        !r.save,
        r.body.success,
        r.body.message@
            == "AI configuration received. Server restart required to apply changes."@,
{
    api_message(
        200,
        true,
        "AI configuration received. Server restart required to apply changes.",
        false,
    )
}

/// The live settings behind the management API, and the file they come from.
#[derive(Debug)]
pub struct RouteManager {
    settings: Settings,
    config_path: String,
}

impl RouteManager {
    /// The routes, by value.
    pub closed spec fn routes(&self) -> Seq<RouterView> {
        routers_view(self.settings.routers@)
    }

    /// The settings, as held.
    pub closed spec fn spec_settings(&self) -> Settings {
        self.settings
    }

    /// The configuration file path.
    pub closed spec fn spec_config_path(&self) -> Seq<char> {
        self.config_path@
    }

    /// A manager over `settings`, saving to `config_path`.
    pub fn new(settings: Settings, config_path: String) -> (r: Self)
        ensures
            r.spec_settings() == settings,
            r.routes() == routers_view(settings.routers@),
            r.spec_config_path() == config_path@,
    {
        RouteManager { settings, config_path }
    }

    /// The settings, to be served or written out.
    pub fn get_config(&self) -> (r: &Settings)
        ensures
            *r == self.spec_settings(),
    {
        &self.settings
    }

    /// The configuration file path.
    pub fn config_path(&self) -> (r: &str)
        ensures
            r@ == self.spec_config_path(),
    {
        self.config_path.as_str()
    }

    /// All routes.
    pub fn list_routes(&self) -> (r: Reply<RouteResponse>)
        ensures
            r.status == 200,
            !r.save,
            r.body.success,
            r.body.message@ == "Found "@ + dec(self.routes().len()) + " routes"@,
            r.body.route is None,
            opt_routes_view(r.body.routes) == Some(self.routes()),
    {
        let n = u64_to_decimal(self.settings.routers.len() as u64);
        let message = concat2(concat2("Found ", n.as_str()).as_str(), " routes");
        let mut routes: Vec<Router> = Vec::new();
        let mut i: usize = 0;
        while i < self.settings.routers.len()
            invariant
                i <= self.settings.routers.len(),
                routers_view(routes@) == routers_view(self.settings.routers@).take(i as int),
            decreases self.settings.routers.len() - i,
        {
            let ghost before = routes@;
            routes.push(self.settings.routers[i].clone());
            assert(routers_view(routes@) =~= routers_view(before).push(
                self.settings.routers@[i as int]@,
            ));
            assert(routers_view(routes@) =~= routers_view(self.settings.routers@).take(i + 1));
            i = i + 1;
        }
        assert(routers_view(routes@) =~= routers_view(self.settings.routers@));
        Reply {
            status: 200,
            body: RouteResponse { success: true, message, route: None, routes: Some(routes) },
            save: false,
        }
    }

    /// The route serving `/` + `path`: 200 with it, or 404.
    pub fn get_route(&self, path: &str) -> (r: Reply<RouteResponse>)
        ensures
            !r.save,
            r.body.routes is None,
            opt_route_view(r.body.route) == find_route(self.routes(), param_path(path@)),
            find_route(self.routes(), param_path(path@)) is Some ==> r.status == 200
                && r.body.success && r.body.message@ == "Route found"@,
            find_route(self.routes(), param_path(path@)) is None ==> r.status == 404
                && !r.body.success && r.body.message@ == not_found(param_path(path@)),
    {
        let external_path = concat2("/", path);
        match position_of(&self.settings.routers, external_path.as_str()) {
            Some(i) => {
                proof {
                    lemma_find_route(self.routes(), external_path@, i as int);
                }
                let route = self.settings.routers[i].clone();
                Reply {
                    status: 200,
                    body: RouteResponse {
                        success: true,
                        message: owned("Route found"),
                        route: Some(route),
                        routes: None,
                    },
                    save: false,
                }
            },
            None => {
                proof {
                    lemma_route_absent(self.routes(), external_path@);
                }
                Reply {
                    status: 404,
                    body: plain(false, concat2("Route not found: ", external_path.as_str())),
                    save: false,
                }
            },
        }
    }

    /// Adds `route`: refused (400) when it does not validate, refused (409)
    /// when its path is taken; else appended (201), to be saved.
    pub fn create_route(&mut self, route: Router) -> (r: Reply<RouteResponse>)
        ensures
            r.body.route is None,
            r.body.routes is None,
            final(self).spec_config_path() == old(self).spec_config_path(),
            router_check(route@) matches Err(e) ==> r.status == 400 && !r.save && !r.body.success
                && r.body.message@ == validation_failed(e) && final(self).spec_settings() == old(self).spec_settings(),
            router_check(route@) is Ok && has_route(old(self).routes(), route@.external_path)
                ==> r.status == 409 && !r.save && !r.body.success && r.body.message@
                == "Route already exists: "@ + route@.external_path && final(self).spec_settings() == old(self).spec_settings(),
            router_check(route@) is Ok && !has_route(old(self).routes(), route@.external_path)
                ==> r.status == 201 && r.save && r.body.success && r.body.message@
                == "Route created successfully. Restart required for changes to take effect."@
                && final(self).routes() == old(self).routes().push(route@),
            final(self).spec_settings() == (Settings {
                routers: final(self).spec_settings().routers,
                ..old(self).spec_settings()
            }),
    {
        match route.validate() {
            Err(e) => {
                return Reply {
                    status: 400,
                    body: plain(false, concat2("Route validation failed: ", e.as_str())),
                    save: false,
                };
            },
            Ok(_) => {},
        }
        match position_of(&self.settings.routers, route.external_path.as_str()) {
            Some(i) => {
                assert(old(self).routes()[i as int].external_path == route@.external_path);
                let message = concat2("Route already exists: ", route.external_path.as_str());
                Reply { status: 409, body: plain(false, message), save: false }
            },
            None => {
                let ghost before = self.settings.routers@;
                let ghost rv = route@;
                self.settings.routers.push(route);
                assert(routers_view(self.settings.routers@) =~= routers_view(before).push(rv));
                Reply {
                    status: 201,
                    body: plain(
                        true,
                        owned(
                            "Route created successfully. Restart required for changes to take effect.",
                        ),
                    ),
                    save: true,
                }
            },
        }
    }

    /// Replaces the route serving `/` + `path` with `route`: refused (400)
    /// when `route` does not validate or serves another path, 404 when no
    /// route serves the path; else replaced (200), to be saved.
    pub fn update_route(&mut self, path: &str, route: Router) -> (r: Reply<RouteResponse>)
        ensures
            r.body.route is None,
            r.body.routes is None,
            final(self).spec_config_path() == old(self).spec_config_path(),
            final(self).spec_settings() == (Settings {
                routers: final(self).spec_settings().routers,
                ..old(self).spec_settings()
            }),
            router_check(route@) matches Err(e) ==> r.status == 400 && !r.save && r.body.message@
                == validation_failed(e) && final(self).spec_settings() == old(self).spec_settings(),
            router_check(route@) is Ok && route@.external_path != param_path(path@) ==> r.status
                == 400 && !r.save && r.body.message@
                == "Route external_path must match URL parameter"@ && final(self).spec_settings() == old(self).spec_settings(),
            router_check(route@) is Ok && route@.external_path == param_path(path@) && !has_route(
                old(self).routes(),
                param_path(path@),
            ) ==> r.status == 404 && !r.save && r.body.message@ == not_found(param_path(path@))
                && final(self).spec_settings() == old(self).spec_settings(),
            router_check(route@) is Ok && route@.external_path == param_path(path@) && has_route(
                old(self).routes(),
                param_path(path@),
            ) ==> r.status == 200 && r.save && r.body.success && r.body.message@
                == "Route updated successfully. Restart required for changes to take effect."@
                && final(self).routes() == replace_route(
                old(self).routes(),
                param_path(path@),
                route@,
            ),
            r.status != 200 ==> !r.body.success,
    {
        let external_path = concat2("/", path);
        match route.validate() {
            Err(e) => {
                return Reply {
                    status: 400,
                    body: plain(false, concat2("Route validation failed: ", e.as_str())),
                    save: false,
                };
            },
            Ok(_) => {},
        }
        if !str_eq(route.external_path.as_str(), external_path.as_str()) {
            return Reply {
                status: 400,
                body: plain(false, owned("Route external_path must match URL parameter")),
                save: false,
            };
        }
        match position_of(&self.settings.routers, external_path.as_str()) {
            Some(i) => {
                let ghost before = self.settings.routers@;
                let ghost rv = route@;
                proof {
                    lemma_find_route(routers_view(before), external_path@, i as int);
                }
                self.settings.routers.set(i, route);
                assert(routers_view(self.settings.routers@) =~= routers_view(before).update(
                    i as int,
                    rv,
                ));
                Reply {
                    status: 200,
                    body: plain(
                        true,
                        owned(
                            "Route updated successfully. Restart required for changes to take effect.",
                        ),
                    ),
                    save: true,
                }
            },
            None => {
                let message = concat2("Route not found: ", external_path.as_str());
                Reply { status: 404, body: plain(false, message), save: false }
            },
        }
    }

    /// Removes every route serving `/` + `path`: 200 (to be saved) when one
    /// was removed, else 404.
    pub fn delete_route(&mut self, path: &str) -> (r: Reply<RouteResponse>)
        ensures
            r.body.route is None,
            r.body.routes is None,
            final(self).spec_config_path() == old(self).spec_config_path(),
            final(self).spec_settings() == (Settings {
                routers: final(self).spec_settings().routers,
                ..old(self).spec_settings()
            }),
            final(self).routes() == without_route(old(self).routes(), param_path(path@)),
            has_route(old(self).routes(), param_path(path@)) ==> r.status == 200 && r.save
                && r.body.success && r.body.message@
                == "Route deleted successfully. Restart required for changes to take effect."@,
            !has_route(old(self).routes(), param_path(path@)) ==> r.status == 404 && !r.save
                && !r.body.success && r.body.message@ == not_found(param_path(path@)),
    {
        let external_path = concat2("/", path);
        let ghost old_routes = routers_view(self.settings.routers@);
        let original_count = self.settings.routers.len();
        let mut kept: Vec<Router> = Vec::new();
        let old_list = &self.settings.routers;
        let mut i: usize = 0;
        while i < old_list.len()
            invariant
                i <= old_list.len(),
                routers_view(old_list@) == old_routes,
                routers_view(kept@) == without_route(old_routes.take(i as int), external_path@),
            decreases old_list.len() - i,
        {
            assert(old_routes.take(i + 1).drop_last() =~= old_routes.take(i as int));
            assert(old_routes[i as int] == old_list@[i as int]@);
            if !str_eq(old_list[i].external_path.as_str(), external_path.as_str()) {
                let ghost before = kept@;
                kept.push(old_list[i].clone());
                assert(routers_view(kept@) =~= routers_view(before).push(old_list@[i as int]@));
            }
            i = i + 1;
        }
        assert(old_routes.take(old_list.len() as int) =~= old_routes);
        self.settings.routers = kept;
        proof {
            lemma_without_route(old_routes, external_path@);
        }
        if self.settings.routers.len() < original_count {
            Reply {
                status: 200,
                body: plain(
                    true,
                    owned(
                        "Route deleted successfully. Restart required for changes to take effect.",
                    ),
                ),
                save: true,
            }
        } else {
            let message = concat2("Route not found: ", external_path.as_str());
            Reply { status: 404, body: plain(false, message), save: false }
        }
    }

    /// Installs new JWT settings after checking the secret (400 when it is
    /// refused); the change is to be saved.
    pub fn update_jwt_config(&mut self, jwt_settings: JwtSettings) -> (r: Reply<ApiMessage>)
        ensures
            final(self).routes() == old(self).routes(),
            final(self).spec_config_path() == old(self).spec_config_path(),
            jwt_secret_check(jwt_settings@.secret) matches Err(e) ==> r.status == 400 && !r.save
                && !r.body.success && r.body.message@ == e && final(self).spec_settings()
                == old(self).spec_settings(),
            jwt_secret_check(jwt_settings@.secret) is Ok ==> r.status == 200 && r.save
                && r.body.success && r.body.message@
                == "JWT configuration updated successfully. Restart required for changes to take effect."@
                && final(self).spec_settings() == (Settings {
                jwt: Some(jwt_settings),
                ..old(self).spec_settings()
            }),
    {
        match check_jwt_secret(&jwt_settings.secret) {
            Err(e) => {
                return Reply {
                    status: 400,
                    body: ApiMessage { success: false, message: e },
                    save: false,
                };
            },
            Ok(_) => {},
        }
        self.settings.jwt = Some(jwt_settings);
        api_message(
            200,
            true,
            "JWT configuration updated successfully. Restart required for changes to take effect.",
            true,
        )
    }

    /// Installs new rate-limit settings; the change is to be saved.
    pub fn update_rate_limit_config(&mut self, rate_limit: RateLimitConfig) -> (r: Reply<
        ApiMessage,
    >)
        ensures
            final(self).routes() == old(self).routes(),
            final(self).spec_config_path() == old(self).spec_config_path(),
            final(self).spec_settings() == (Settings {
                rate_limit: Some(rate_limit),
                ..old(self).spec_settings()
            }),
            r.status == 200,
            r.save,
            r.body.success,
            r.body.message@
                == "Rate limit configuration updated successfully. Restart required for changes to take effect."@,
    {
        self.settings.rate_limit = Some(rate_limit);
        api_message(
            200,
            true,
            "Rate limit configuration updated successfully. Restart required for changes to take effect.",
            true,
        )
    }
}

/// A route created under a free path is the one read back under that path.
pub proof fn lemma_create_then_get(rs: Seq<RouterView>, r: RouterView)
    requires
        !has_route(rs, r.external_path),
    ensures
        find_route(rs.push(r), r.external_path) == Some(r),
        has_route(rs.push(r), r.external_path),
{
    let n = rs.len() as int;
    assert forall|j: int| 0 <= j < n implies #[trigger] rs.push(r)[j].external_path
        != r.external_path by {
        assert(rs.push(r)[j] == rs[j]);
        if rs[j].external_path == r.external_path {
            assert(has_route(rs, r.external_path));
        }
    }
    assert(is_first_route(rs.push(r), r.external_path, n));
    lemma_find_route(rs.push(r), r.external_path, n);
}

/// After an update, the path reads back the new route.
pub proof fn lemma_update_then_get(rs: Seq<RouterView>, path: Seq<char>, r: RouterView)
    requires
        has_route(rs, path),
        r.external_path == path,
    ensures
        find_route(replace_route(rs, path, r), path) == Some(r),
{
    let j = choose|j: int| 0 <= j < rs.len() && #[trigger] rs[j].external_path == path;
    lemma_route_present(rs, path, j);
    let i = choose|i: int| is_first_route(rs, path, i);
    lemma_find_route(rs, path, i);
    let u = rs.update(i, r);
    assert(is_first_route(u, path, i));
    lemma_find_route(u, path, i);
}

/// After a delete, no route serves the path, and the others stay.
pub proof fn lemma_delete_then_get(rs: Seq<RouterView>, path: Seq<char>)
    ensures
        find_route(without_route(rs, path), path) is None,
{
    lemma_without_route(rs, path);
    lemma_route_absent(without_route(rs, path), path);
}

} // verus!

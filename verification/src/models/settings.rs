//! Gateway-wide settings and their validation.
use vstd::prelude::*;
use vstd::string::*;
use crate::middleware::rate_limit::RateLimitConfig;
use crate::models::check_view;
use crate::models::router::{router_check, Router, RouterView};
use crate::text::{clone_opt_string, clone_strings, opt_view, owned, str_eq, strs_view};

verus! {

/// Configuration of the AI provider used for routing decisions.
#[derive(Debug)]
pub struct AiSettings {
    pub provider: String,
    pub model: String,
    pub api_key: Option<String>,
}

pub struct AiSettingsView {
    pub provider: Seq<char>,
    pub model: Seq<char>,
    pub api_key: Option<Seq<char>>,
}

impl View for AiSettings {
    type V = AiSettingsView;

    open spec fn view(&self) -> AiSettingsView {
        AiSettingsView {
            provider: self.provider@,
            model: self.model@,
            api_key: opt_view(self.api_key),
        }
    }
}

impl Clone for AiSettings {
    fn clone(&self) -> (r: Self)
        ensures
            r@ == self@,
    {
        AiSettings {
            provider: self.provider.clone(),
            model: self.model.clone(),
            api_key: clone_opt_string(&self.api_key),
        }
    }
}

/// JWT validation parameters.
#[derive(Debug)]
pub struct JwtSettings {
    pub secret: String,
    pub issuer: Option<String>,
    pub audience: Option<String>,
    pub required_claims: Vec<String>,
}

pub struct JwtSettingsView {
    pub secret: Seq<char>,
    pub issuer: Option<Seq<char>>,
    pub audience: Option<Seq<char>>,
    pub required_claims: Seq<Seq<char>>,
}

impl View for JwtSettings {
    type V = JwtSettingsView;

    open spec fn view(&self) -> JwtSettingsView {
        JwtSettingsView {
            secret: self.secret@,
            issuer: opt_view(self.issuer),
            audience: opt_view(self.audience),
            required_claims: strs_view(self.required_claims@),
        }
    }
}

impl Clone for JwtSettings {
    fn clone(&self) -> (r: Self)
        ensures
            r@ == self@,
    {
        let claims = clone_strings(&self.required_claims);
        assert(strs_view(claims@) =~= strs_view(self.required_claims@));
        JwtSettings {
            secret: self.secret.clone(),
            issuer: clone_opt_string(&self.issuer),
            audience: clone_opt_string(&self.audience),
            required_claims: claims,
        }
    }
}

/// The secret used when none is configured; `Settings::validate` refuses it.
pub open spec fn placeholder_secret() -> Seq<char> {
    "please-change-this-secret"@
}

impl JwtSettings {
    /// The default JWT settings: the secret taken from the environment when it
    /// is set there (`env_secret`), else the placeholder, and the claims `sub` and `exp`.
    pub fn default_with_secret(env_secret: Option<String>) -> (r: Self)
        ensures
            env_secret matches Some(s) ==> r@.secret == s@,
            env_secret is None ==> r@.secret == placeholder_secret(),
            r@.issuer is None,
            r@.audience is None,
            r@.required_claims == seq!["sub"@, "exp"@],
    {
        let secret = match env_secret {
            Some(s) => s,
            None => owned("please-change-this-secret"),
        };
        let mut claims: Vec<String> = Vec::new();
        claims.push(owned("sub"));
        claims.push(owned("exp"));
        assert(strs_view(claims@) =~= seq!["sub"@, "exp"@]);
        JwtSettings { secret, issuer: None, audience: None, required_claims: claims }
    }
}

/// The whole gateway configuration.
#[derive(Debug)]
pub struct Settings {
    pub version: u8,
    pub jwt: Option<JwtSettings>,
    pub rate_limit: Option<RateLimitConfig>,
    pub ai: Option<AiSettings>,
    pub routers: Vec<Router>,
}

/// The views of a sequence of routes.
pub open spec fn routers_view(v: Seq<Router>) -> Seq<RouterView> {
    v.map_values(|r: Router| r@)
}

/// The reason a JWT secret is refused, if it is.
pub open spec fn jwt_secret_check(secret: Seq<char>) -> Result<(), Seq<char>> {
    if secret.len() == 0 {
        Err("JWT secret cannot be empty"@)
    } else if secret == placeholder_secret() {
        Err("JWT secret must be changed from default value"@)
    } else if (vstd::utf8::encode_utf8(secret).len() as usize) < 32 {
        Err("JWT secret should be at least 32 characters for security"@)
    } else {
        Ok(())
    }
}

/// The first route of `rs` that fails validation, with its message.
pub open spec fn first_router_error(rs: Seq<RouterView>) -> Option<Seq<char>>
    decreases rs.len(),
{
    if rs.len() == 0 {
        None
    } else {
        match first_router_error(rs.drop_last()) {
            Some(e) => Some(e),
            None => match router_check(rs.last()) {
                Err(e) => Some(e),
                Ok(_) => None,
            },
        }
    }
}

/// Some route of `rs` requires authentication.
pub open spec fn any_auth_required(rs: Seq<RouterView>) -> bool {
    exists|i: int| 0 <= i < rs.len() && rs[i].auth_required
}

/// The verdict of `Settings::validate`.
pub open spec fn settings_check(
    jwt: Option<JwtSettingsView>,
    routers: Seq<RouterView>,
) -> Result<(), Seq<char>> {
    if any_auth_required(routers) && jwt is None {
        Err("JWT configuration is required when routes have auth_required=true"@)
    } else if jwt is Some && jwt_secret_check(jwt->0.secret) is Err {
        jwt_secret_check(jwt->0.secret)
    } else if first_router_error(routers) is Some {
        Err(first_router_error(routers)->0)
    } else {
        Ok(())
    }
}

/// Checks a JWT secret: not empty, not the placeholder, at least 32 bytes.
pub fn check_jwt_secret(secret: &String) -> (r: Result<(), String>)
    ensures
        check_view(r) == jwt_secret_check(secret@),
{
    if secret.unicode_len() == 0 {
        return Err(owned("JWT secret cannot be empty"));
    }
    if str_eq(secret.as_str(), "please-change-this-secret") {
        return Err(owned("JWT secret must be changed from default value"));
    }
    if secret.as_str().len() < 32 {
        return Err(owned("JWT secret should be at least 32 characters for security"));
    }
    Ok(())
}

impl Settings {
    /// The JWT settings by value, when present.
    pub open spec fn jwt_view(&self) -> Option<JwtSettingsView> {
        match self.jwt {
            Some(j) => Some(j@),
            None => None,
        }
    }

    /// Checks that routes requiring authentication have JWT settings, that the
    /// secret is acceptable, and that every route is valid; reports the first problem.
    #[verifier::loop_isolation(false)]
    pub fn validate(&self) -> (r: Result<(), String>)
        ensures
            check_view(r) == settings_check(self.jwt_view(), routers_view(self.routers@)),
    {
        let ghost rs = routers_view(self.routers@);
        let mut has_auth = false;
        let mut i: usize = 0;
        while i < self.routers.len()
            invariant
                i <= self.routers.len(),
                has_auth == exists|k: int| 0 <= k < i && rs[k].auth_required,
            decreases self.routers.len() - i,
        {
            assert(rs[i as int] == self.routers@[i as int]@);
            if self.routers[i].auth_required {
                has_auth = true;
            }
            i = i + 1;
        }
        if has_auth && self.jwt.is_none() {
            return Err(owned("JWT configuration is required when routes have auth_required=true"));
        }
        match &self.jwt {
            Some(j) => {
                match check_jwt_secret(&j.secret) {
                    Err(e) => {
                        return Err(e);
                    },
                    Ok(_) => {},
                }
            },
            None => {},
        }
        let mut k: usize = 0;
        while k < self.routers.len()
            invariant
                k <= self.routers.len(),
                first_router_error(rs.take(k as int)) is None,
            decreases self.routers.len() - k,
        {
            assert(rs.take(k + 1).drop_last() =~= rs.take(k as int));
            assert(rs[k as int] == self.routers@[k as int]@);
            match self.routers[k].validate() {
                Err(e) => {
                    proof {
                        lemma_first_router_error_extends(rs, k as int);
                    }
                    return Err(e);
                },
                Ok(_) => {},
            }
            k = k + 1;
        }
        assert(rs.take(rs.len() as int) =~= rs);
        Ok(())
    }
}

/// A route failing at position `i`, with none before it, is the first failing one.
pub proof fn lemma_first_router_error_extends(rs: Seq<RouterView>, i: int)
    requires
        0 <= i < rs.len(),
        first_router_error(rs.take(i)) is None,
        router_check(rs[i]) is Err,
    ensures
        first_router_error(rs) == Some(router_check(rs[i])->Err_0),
    decreases rs.len() - i,
{
    assert(rs.take(i + 1).drop_last() =~= rs.take(i));
    if i + 1 < rs.len() {
        assert(rs.drop_last().take(i) =~= rs.take(i));
        lemma_first_router_error_extends(rs.drop_last(), i);
    } else {
        assert(rs.take(i + 1) =~= rs);
    }
}

} // verus!

//! Per-request decisions: which handler a method and path reach, what an
//! invalid auth cookie leads to, the auth cookie's attributes, and the
//! process configuration.

use vstd::prelude::*;
use vstd::string::StrSliceExecFns;
use vstd::string::StringExecFns;

use crate::auth::TOKEN_LIFETIME_SECONDS;
use crate::db::Db;
use crate::errors::AppError;
use crate::errors::PublicError;
use crate::strutil::str_eq;
use crate::strutil::strip_lead;
use crate::strutil::strip_leading_char;
use crate::strutil::trim_spec;
use crate::strutil::trim_str;
use crate::types::User;

verus! {

/// The name of the cookie that carries the bearer token.
pub const AUTH_COOKIE_NAME: &'static str = "timelytoken";

/// The HTTP methods the router distinguishes; everything else is routed
/// like an unknown path.
#[derive(PartialEq, Eq, Structural, Clone, Copy, Debug)]
pub enum HttpMethod {
    Get,
    Post,
    Other,
}

/// The handler a request reaches.
#[derive(PartialEq, Eq, Structural, Clone, Copy, Debug)]
pub enum Route {
    SignupPage,
    SignupSubmit,
    LoginPage,
    LoginSubmit,
    Dashboard,
    TimelogStart,
    TimelogFinish,
    Logout,
    NotFound,
}

/// Where a method and path lead, given whether a user is signed in.
///
/// Signed out, the signup path reaches the signup flow and every other
/// path the login flow. Signed in, every GET shows the dashboard, the
/// three action paths accept POST, and anything else is not found.
pub open spec fn route_spec(authenticated: bool, method: HttpMethod, path: Seq<char>) -> Route {
    let p = strip_lead(path, '/');
    if !authenticated {
        if p == "signup"@ {
            match method {
                HttpMethod::Get => Route::SignupPage,
                HttpMethod::Post => Route::SignupSubmit,
                HttpMethod::Other => Route::NotFound,
            }
        } else {
            match method {
                HttpMethod::Get => Route::LoginPage,
                HttpMethod::Post => Route::LoginSubmit,
                HttpMethod::Other => Route::NotFound,
            }
        }
    } else {
        match method {
            HttpMethod::Get => Route::Dashboard,
            HttpMethod::Post => if p == "timelog/start"@ {
                Route::TimelogStart
            } else if p == "timelog/finish"@ {
                Route::TimelogFinish
            } else if p == "user/logout"@ {
                Route::Logout
            } else {
                Route::NotFound
            },
            HttpMethod::Other => Route::NotFound,
        }
    }
}

/// Decide the route for one request.
pub fn route(authenticated: bool, method: HttpMethod, path: &str) -> (r: Route)
    ensures
        r == route_spec(authenticated, method, path@),
{
    let p = strip_leading_char(path, '/');
    if !authenticated {
        if str_eq(p, "signup") {
            match method {
                HttpMethod::Get => Route::SignupPage,
                HttpMethod::Post => Route::SignupSubmit,
                HttpMethod::Other => Route::NotFound,
            }
        } else {
            match method {
                HttpMethod::Get => Route::LoginPage,
                HttpMethod::Post => Route::LoginSubmit,
                HttpMethod::Other => Route::NotFound,
            }
        }
    } else {
        match method {
            HttpMethod::Get => Route::Dashboard,
            HttpMethod::Post => {
                if str_eq(p, "timelog/start") {
                    Route::TimelogStart
                } else if str_eq(p, "timelog/finish") {
                    Route::TimelogFinish
                } else if str_eq(p, "user/logout") {
                    Route::Logout
                } else {
                    Route::NotFound
                }
            },
            HttpMethod::Other => Route::NotFound,
        }
    }
}

/// What one request leads to, cookie handling included.
#[derive(PartialEq, Eq, Structural, Clone, Copy, Debug)]
pub enum Dispatch {
    /// Clear the auth cookie and redirect home.
    ClearCookieRedirect,
    /// Hand the request to a route's handler.
    Handle(Route),
}

/// The complete decision for one request: a cookie that fails validation
/// clears the cookie and redirects home, whatever the route; otherwise
/// the request is routed, signed in exactly when a valid cookie was
/// presented.
pub open spec fn dispatch_spec(
    cookie_present: bool,
    token_valid: bool,
    method: HttpMethod,
    path: Seq<char>,
) -> Dispatch {
    if cookie_present && !token_valid {
        Dispatch::ClearCookieRedirect
    } else {
        Dispatch::Handle(route_spec(cookie_present && token_valid, method, path))
    }
}

/// Decide what one request leads to. `cookie_present` says whether an
/// auth cookie came with the request, `token_valid` whether its token
/// resolved to a user.
pub fn dispatch(cookie_present: bool, token_valid: bool, method: HttpMethod, path: &str) -> (r:
    Dispatch)
    ensures
        r == dispatch_spec(cookie_present, token_valid, method, path@),
        cookie_present && !token_valid ==> r == Dispatch::ClearCookieRedirect,
{
    if cookie_present && !token_valid {
        Dispatch::ClearCookieRedirect
    } else {
        Dispatch::Handle(route(cookie_present && token_valid, method, path))
    }
}

/// The attribute set of the auth cookie, as responses set it.
#[derive(Clone, Debug)]
pub struct AuthCookie {
    pub name: String,
    pub value: String,
    pub path: String,
    pub secure: bool,
    pub http_only: bool,
    pub same_site_strict: bool,
    pub max_age_seconds: u64,
}

/// The auth cookie carrying `token`: site-wide, secure, strict same-site,
/// inaccessible to scripts, living as long as the token.
pub fn build_auth_cookie(token: &str) -> (r: AuthCookie)
    ensures
        r.name@ == "timelytoken"@,
        r.value@ == token@,
        r.path@ == "/"@,
        r.secure && r.http_only && r.same_site_strict,
        r.max_age_seconds == TOKEN_LIFETIME_SECONDS,
{
    AuthCookie {
        name: AUTH_COOKIE_NAME.to_owned(),
        value: token.to_owned(),
        path: "/".to_owned(),
        secure: true,
        http_only: true,
        same_site_strict: true,
        max_age_seconds: TOKEN_LIFETIME_SECONDS,
    }
}

/// Process-wide configuration, loaded once at startup.
#[derive(Clone, Debug)]
pub struct Config {
    pub supabase_endpoint: String,
    pub supabase_api_key: String,
    /// Signing secret for the bearer tokens.
    pub jwt_token_secret: String,
}

/// Build the configuration from the three recognized settings, each
/// trimmed; a missing or blank one fails fast with a message naming it.
pub fn config_from_values(
    supabase_endpoint: Option<String>,
    supabase_api_key: Option<String>,
    jwt_token_secret: Option<String>,
) -> (r: Result<Config, PublicError>)
    ensures
        (match r {
            Ok(c) => (supabase_endpoint matches Some(e) && c.supabase_endpoint@ == trim_spec(e@)
                && trim_spec(e@).len() > 0) && (supabase_api_key matches Some(k)
                && c.supabase_api_key@ == trim_spec(k@) && trim_spec(k@).len() > 0) && (
            jwt_token_secret matches Some(s) && c.jwt_token_secret@ == trim_spec(s@) && trim_spec(
                s@,
            ).len() > 0),
            Err(e) => true,
        }),
        (supabase_endpoint matches Some(e) && trim_spec(e@).len() > 0) && (supabase_api_key
            matches Some(k) && trim_spec(k@).len() > 0) && (jwt_token_secret matches Some(s)
            && trim_spec(s@).len() > 0) ==> r is Ok,
        (match supabase_endpoint {
            None => r matches Err(e) && e@ == "Missing required env var SUPABASE_ENDPOINT"@,
            Some(v) => trim_spec(v@).len() == 0 ==> (r matches Err(e) && e@
                == "Missing required env var SUPABASE_ENDPOINT"@),
        }),
        (supabase_endpoint matches Some(v) && trim_spec(v@).len() > 0) ==> (match
        supabase_api_key {
            None => r matches Err(e) && e@ == "Missing required env var SUPABASE_KEY"@,
            Some(k) => trim_spec(k@).len() == 0 ==> (r matches Err(e) && e@
                == "Missing required env var SUPABASE_KEY"@),
        }),
        ((supabase_endpoint matches Some(v) && trim_spec(v@).len() > 0) && (supabase_api_key
            matches Some(k) && trim_spec(k@).len() > 0)) ==> (match jwt_token_secret {
            None => r matches Err(e) && e@ == "Missing required env var TIMELY_TOKEN_SECRET"@,
            Some(w) => trim_spec(w@).len() == 0 ==> (r matches Err(e) && e@
                == "Missing required env var TIMELY_TOKEN_SECRET"@),
        }),
{
    let endpoint = match config_value(supabase_endpoint) {
        Some(v) => v,
        None => {
            return Err(PublicError::msg("Missing required env var SUPABASE_ENDPOINT"));
        },
    };
    let api_key = match config_value(supabase_api_key) {
        Some(v) => v,
        None => {
            return Err(PublicError::msg("Missing required env var SUPABASE_KEY"));
        },
    };
    let secret = match config_value(jwt_token_secret) {
        Some(v) => v,
        None => {
            return Err(PublicError::msg("Missing required env var TIMELY_TOKEN_SECRET"));
        },
    };
    Ok(
        Config {
            supabase_endpoint: endpoint,
            supabase_api_key: api_key,
            jwt_token_secret: secret,
        },
    )
}

/// One setting's value: trimmed, and only when non-blank.
fn config_value(v: Option<String>) -> (r: Option<String>)
    ensures
        (match v {
            None => r is None,
            Some(x) => (if trim_spec(x@).len() == 0 {
                r is None
            } else {
                r matches Some(t) && t@ == trim_spec(x@)
            }),
        }),
{
    match v {
        Some(x) => {
            let t = trim_str(x.as_str());
            if t.as_str().is_empty() {
                None
            } else {
                Some(t)
            }
        },
        None => None,
    }
}

/// Request-scoped state: the configuration, the store, and the user the
/// request's cookie resolved to, if any.
pub struct Context<D> {
    pub config: Config,
    pub db: D,
    pub user: Option<User>,
}

impl<D: Db> Context<D> {
    /// A fresh context with no user attached.
    pub fn new(config: Config, db: D) -> (r: Self)
        ensures
            r.user is None && r.db == db && r.config == config,
    {
        Context { config, db, user: None }
    }

    /// The signed-in user, or an error for handlers that need one.
    pub fn require_user(&self) -> (r: Result<&User, AppError>)
        ensures
            (match r {
                Ok(u) => self.user == Some(*u),
                Err(e) => self.user is None && e is Auth,
            }),
    {
        match &self.user {
            Some(u) => Ok(u),
            None => Err(AppError::Auth("expected a user in the context".to_owned())),
        }
    }
}

} // verus!

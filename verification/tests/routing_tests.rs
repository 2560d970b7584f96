//! Routing and cookie decisions, and configuration loading.

use timely_server::routing::AUTH_COOKIE_NAME;
use timely_server::routing::Dispatch;
use timely_server::routing::HttpMethod;
use timely_server::routing::Route;
use timely_server::routing::build_auth_cookie;
use timely_server::routing::config_from_values;
use timely_server::routing::dispatch;
use timely_server::routing::route;

#[test]
fn invalid_cookie_clears_and_redirects_on_every_route() {
    for path in ["/", "/signup", "/timelog/start", "/timelog/finish", "/user/logout", "/x"] {
        for method in [HttpMethod::Get, HttpMethod::Post, HttpMethod::Other] {
            assert_eq!(dispatch(true, false, method, path), Dispatch::ClearCookieRedirect);
        }
    }
}

#[test]
fn valid_cookie_routes_as_signed_in() {
    assert_eq!(dispatch(true, true, HttpMethod::Get, "/"), Dispatch::Handle(Route::Dashboard));
    assert_eq!(
        dispatch(true, true, HttpMethod::Post, "/timelog/start"),
        Dispatch::Handle(Route::TimelogStart)
    );
}

#[test]
fn no_cookie_routes_as_signed_out() {
    assert_eq!(dispatch(false, false, HttpMethod::Get, "/"), Dispatch::Handle(Route::LoginPage));
    assert_eq!(
        dispatch(false, false, HttpMethod::Get, "/signup"),
        Dispatch::Handle(Route::SignupPage)
    );
}

#[test]
fn signed_out_routes() {
    assert_eq!(route(false, HttpMethod::Get, "/signup"), Route::SignupPage);
    assert_eq!(route(false, HttpMethod::Post, "/signup"), Route::SignupSubmit);
    assert_eq!(route(false, HttpMethod::Other, "/signup"), Route::NotFound);
    assert_eq!(route(false, HttpMethod::Get, "/"), Route::LoginPage);
    assert_eq!(route(false, HttpMethod::Get, "/anything"), Route::LoginPage);
    assert_eq!(route(false, HttpMethod::Post, "/login"), Route::LoginSubmit);
    assert_eq!(route(false, HttpMethod::Other, "/"), Route::NotFound);
}

#[test]
fn signed_in_routes() {
    assert_eq!(route(true, HttpMethod::Get, "/"), Route::Dashboard);
    assert_eq!(route(true, HttpMethod::Get, "/any/old/path"), Route::Dashboard);
    assert_eq!(route(true, HttpMethod::Post, "/timelog/start"), Route::TimelogStart);
    assert_eq!(route(true, HttpMethod::Post, "/timelog/finish"), Route::TimelogFinish);
    assert_eq!(route(true, HttpMethod::Post, "/user/logout"), Route::Logout);
    assert_eq!(route(true, HttpMethod::Post, "/elsewhere"), Route::NotFound);
    assert_eq!(route(true, HttpMethod::Other, "/"), Route::NotFound);
}

#[test]
fn paths_without_leading_slash_route_the_same() {
    assert_eq!(route(false, HttpMethod::Get, "signup"), Route::SignupPage);
    assert_eq!(route(true, HttpMethod::Post, "timelog/start"), Route::TimelogStart);
}

#[test]
fn auth_cookie_attributes() {
    let c = build_auth_cookie("tok123");
    assert_eq!(c.name, "timelytoken");
    assert_eq!(c.name, AUTH_COOKIE_NAME);
    assert_eq!(c.value, "tok123");
    assert_eq!(c.path, "/");
    assert!(c.secure);
    assert!(c.http_only);
    assert!(c.same_site_strict);
    assert_eq!(c.max_age_seconds, 30 * 24 * 3600);
}

#[test]
fn config_requires_all_three_settings() {
    let ok = config_from_values(
        Some(" https://x.example ".to_string()),
        Some("key".to_string()),
        Some("secret".to_string()),
    )
    .unwrap();
    assert_eq!(ok.supabase_endpoint, "https://x.example");
    assert_eq!(ok.supabase_api_key, "key");
    assert_eq!(ok.jwt_token_secret, "secret");

    let missing = config_from_values(None, Some("key".to_string()), Some("secret".to_string()));
    assert_eq!(
        missing.err().unwrap().message(),
        "Missing required env var SUPABASE_ENDPOINT"
    );
    let blank = config_from_values(
        Some("  ".to_string()),
        Some("key".to_string()),
        Some("secret".to_string()),
    );
    assert_eq!(blank.err().unwrap().message(), "Missing required env var SUPABASE_ENDPOINT");
    let nokey =
        config_from_values(Some("e".to_string()), None, Some("secret".to_string()));
    assert_eq!(nokey.err().unwrap().message(), "Missing required env var SUPABASE_KEY");
    let nosecret = config_from_values(Some("e".to_string()), Some("key".to_string()), None);
    assert_eq!(
        nosecret.err().unwrap().message(),
        "Missing required env var TIMELY_TOKEN_SECRET"
    );
}

#[test]
fn context_attaches_no_user_by_default() {
    let config = config_from_values(
        Some("e".to_string()),
        Some("k".to_string()),
        Some("s".to_string()),
    )
    .unwrap();
    let db = timely_server::memdb::MemDb::new();
    let ctx = timely_server::routing::Context::new(config, db);
    assert!(ctx.user.is_none());
    assert!(ctx.require_user().is_err());
}

use ticket_api::web::middleware_auth::{
    cookie_must_be_removed, ctx_from_extension, parse_token, require_auth, resolve_ctx,
};
use ticket_api::web::routes_login::{check_login, LoginPayload};
use ticket_api::web::AUTH_TOKEN;
use ticket_api::{AppCtx, Error};

fn parsed(token: &str) -> Result<(u64, String, String), Error> {
    parse_token(token.to_string())
}

fn ok(id: u64, e: &str, s: &str) -> Result<(u64, String, String), Error> {
    Ok((id, e.to_string(), s.to_string()))
}

const WRONG: Error = Error::AuthFailTokenWrongFormat;

#[test]
fn parse_token_reads_the_three_parts() {
    assert_eq!(parsed("user-42.exp.sig"), ok(42, "exp", "sig"));
    assert_eq!(parsed("user-007.e.s"), ok(7, "e", "s"));
    assert_eq!(parsed("user-1.é.ß"), ok(1, "é", "ß"));
}

#[test]
fn parse_token_splits_at_the_last_dot() {
    assert_eq!(parsed("user-1.a.b.c"), ok(1, "a.b", "c"));
    assert_eq!(parsed("user-1..b"), Err(WRONG));
    assert_eq!(parsed("user-1...b"), ok(1, ".", "b"));
    assert_eq!(parsed("user-1.a..b"), ok(1, "a.", "b"));
}

#[test]
fn parse_token_reads_only_the_first_line() {
    assert_eq!(parsed("user-1.a.b\nzzz"), ok(1, "a", "b"));
    assert_eq!(parsed("user-1.a\n.b"), Err(WRONG));
}

#[test]
fn parse_token_refuses_malformed_tokens() {
    for token in [
        "",
        "user-",
        "user-.a.b",
        "user-12x.a.b",
        "user-1.a.",
        "user-1.ab",
        "user-1..",
        "xuser-1.a.b",
        "User-1.a.b",
        "user1.expiration.signature",
        "user-١.a.b",
    ] {
        assert_eq!(parsed(token), Err(WRONG), "token {token:?}");
    }
}

#[test]
fn parse_token_user_id_bounds() {
    assert_eq!(parsed("user-18446744073709551615.a.b"), ok(u64::MAX, "a", "b"));
    assert_eq!(parsed("user-18446744073709551616.a.b"), Err(WRONG));
    assert_eq!(parsed("user-99999999999999999999999.a.b"), Err(WRONG));
}

#[test]
fn resolve_without_cookie_keeps_it() {
    let r = resolve_ctx(None);
    assert_eq!(r, Err(Error::AuthFailNoAuthTokenCookie));
    assert!(!cookie_must_be_removed(&r));
}

#[test]
fn resolve_bad_token_removes_cookie() {
    let r = resolve_ctx(Some("garbage".to_string()));
    assert_eq!(r, Err(WRONG));
    assert!(cookie_must_be_removed(&r));
}

#[test]
fn resolve_good_token_gives_the_user() {
    let r = resolve_ctx(Some("user-12.exp.sig".to_string()));
    assert_eq!(r.map(|c| c.user_id()), Ok(12));
    assert!(!cookie_must_be_removed(&r));
}

#[test]
fn login_token_is_not_accepted_by_the_resolver() {
    let token = check_login(&LoginPayload { username: "HIRE".to_string(), password: "ME".to_string() }).unwrap();
    assert_eq!(resolve_ctx(Some(token)), Err(WRONG));
}

#[test]
fn login_checks_credentials() {
    let ok = check_login(&LoginPayload { username: "HIRE".to_string(), password: "ME".to_string() });
    assert_eq!(ok, Ok("user1.expiration.signature".to_string()));
    for (u, p) in [("HIRE", "me"), ("hire", "ME"), ("", ""), ("HIRE ", "ME"), ("ME", "HIRE")] {
        let r = check_login(&LoginPayload { username: u.to_string(), password: p.to_string() });
        assert_eq!(r, Err(Error::LoginFail));
    }
}

#[test]
fn require_auth_passes_errors_through() {
    assert_eq!(require_auth(Ok(AppCtx::new(1))), Ok(()));
    assert_eq!(require_auth(Err(WRONG)), Err(WRONG));
    assert_eq!(require_auth(Err(Error::AuthFailNoAuthTokenCookie)), Err(Error::AuthFailNoAuthTokenCookie));
}

#[test]
fn ctx_from_extension_cases() {
    assert_eq!(ctx_from_extension(None), Err(Error::AuthFailAppCtxNotInRequestExt));
    assert_eq!(ctx_from_extension(Some(&Ok(AppCtx::new(5)))), Ok(AppCtx::new(5)));
    assert_eq!(ctx_from_extension(Some(&Err(WRONG))), Err(WRONG));
}

#[test]
fn auth_cookie_name() {
    assert_eq!(AUTH_TOKEN, "auth-token");
}

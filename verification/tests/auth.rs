use axum::http::header::{COOKIE, SET_COOKIE};
use axum::http::{HeaderMap, HeaderValue};
use axum::response::IntoResponse;
use axum_extra::extract::cookie::{Cookie, PrivateCookieJar};
use recipe_creator::auth::{
    clear_user_cookie, cookie_key, cookie_key_material, home_location, login_credentials,
    login_gate, login_result, password_hash_for, registration_credentials, registration_result,
    removal_cookie, require_user, session_cookie, set_user_cookie, user_id, user_id_from_jar,
    user_id_from_value, AuthReply, CookieSameSite, InsertOutcome, UserRow, USER_ID_COOKIE,
};
use recipe_creator::error::AppError;

#[test]
fn session_cookie_holds_decimal_id() {
    let c = session_cookie(42);
    assert_eq!(c.name, "user_id");
    assert_eq!(c.name, USER_ID_COOKIE);
    assert_eq!(c.value, "42");
    assert_eq!(c.path, "/");
    assert!(c.http_only);
    assert_eq!(c.same_site, Some(CookieSameSite::Lax));
    assert_eq!(session_cookie(-7).value, "-7");
    assert_eq!(session_cookie(i64::MIN).value, "-9223372036854775808");
}

#[test]
fn session_cookie_value_names_its_user() {
    for id in [0i64, 1, 42, -1, i64::MAX, i64::MIN] {
        let c = session_cookie(id);
        assert_eq!(user_id_from_value(Some(c.value.as_str())), Some(id));
    }
}

#[test]
fn removal_cookie_only_names_the_session() {
    let c = removal_cookie();
    assert_eq!(c.name, "user_id");
    assert_eq!(c.value, "");
    assert_eq!(c.path, "/");
    assert!(!c.http_only);
    assert_eq!(c.same_site, None);
}

#[test]
fn cookie_values_parse_like_i64() {
    assert_eq!(user_id_from_value(None), None);
    assert_eq!(user_id_from_value(Some("")), None);
    assert_eq!(user_id_from_value(Some("abc")), None);
    assert_eq!(user_id_from_value(Some("+7")), Some(7));
    assert_eq!(user_id_from_value(Some("-")), None);
    assert_eq!(user_id_from_value(Some(" 7")), None);
    assert_eq!(user_id_from_value(Some("9223372036854775808")), None);
    assert_eq!(user_id_from_value(Some("-9223372036854775809")), None);
    assert_eq!(user_id_from_value(Some("007")), Some(7));
}

#[test]
fn cookie_key_material_is_sha512_of_secret() {
    let m = cookie_key_material("abc");
    assert_eq!(m.len(), 64);
    assert_eq!(&m[..4], &[0xdd, 0xaf, 0x35, 0xa1]);
    assert_eq!(&m[60..], &[0xa5, 0x4c, 0xa4, 0x9f]);
}

#[test]
fn signed_in_jar_gives_back_the_user() {
    let key = cookie_key("a long random secret value");
    let jar = PrivateCookieJar::new(key);
    assert_eq!(user_id_from_jar(&jar), None);
    assert!(matches!(user_id(&jar), Err(AppError::Unauthorized)));
    let jar = set_user_cookie(jar, 31);
    assert_eq!(user_id_from_jar(&jar), Some(31));
    assert!(matches!(user_id(&jar), Ok(31)));
    let jar = clear_user_cookie(jar);
    assert_eq!(user_id_from_jar(&jar), None);
}

#[test]
fn login_requires_both_fields() {
    match login_credentials("  ", "secret") {
        Err(l) => assert_eq!(l, "/login?error=Username+and+password+are+required"),
        Ok(_) => panic!("expected a redirect"),
    }
    match login_credentials("alice", " \t") {
        Err(l) => assert_eq!(l, "/login?error=Username+and+password+are+required"),
        Ok(_) => panic!("expected a redirect"),
    }
    match login_credentials("  alice ", " pw ") {
        Ok((u, p)) => {
            assert_eq!(u, "alice");
            assert_eq!(p, "pw");
        }
        Err(_) => panic!("expected credentials"),
    }
}

#[test]
fn registered_password_signs_in() {
    let (_, password) = registration_credentials(" bob ", " hunter22 ").unwrap();
    let hash = password_hash_for(&password).unwrap();
    let (_, typed) = login_credentials("bob", "hunter22\n").unwrap();
    let row = UserRow { id: 9, password_hash: hash };
    assert!(matches!(login_result(&typed, Some(row)), AuthReply::SignIn(9)));
}

#[test]
fn wrong_or_unknown_login_is_invalid() {
    let hash = password_hash_for("hunter22").unwrap();
    let row = UserRow { id: 9, password_hash: hash };
    match login_result("hunter23", Some(row)) {
        AuthReply::Redirect(l) => assert_eq!(l, "/login?error=Invalid+username+or+password"),
        _ => panic!("expected a redirect"),
    }
    match login_result("hunter22", None) {
        AuthReply::Redirect(l) => assert_eq!(l, "/login?error=Invalid+username+or+password"),
        _ => panic!("expected a redirect"),
    }
    let broken = UserRow { id: 9, password_hash: "not a phc string".into() };
    assert!(matches!(login_result("hunter22", Some(broken)), AuthReply::Redirect(_)));
}

#[test]
fn registration_checks_byte_lengths() {
    match registration_credentials(" ab ", "secret123") {
        Err(l) => assert_eq!(l, "/register?error=Username+must+be+at+least+3+characters"),
        Ok(_) => panic!("expected a redirect"),
    }
    match registration_credentials("abc", "12345") {
        Err(l) => assert_eq!(l, "/register?error=Password+must+be+at+least+6+characters"),
        Ok(_) => panic!("expected a redirect"),
    }
    // "é" is two bytes of UTF-8: "éa" is long enough, "ééé" too.
    assert!(registration_credentials("\u{e9}a", "\u{e9}\u{e9}\u{e9}").is_ok());
    assert!(registration_credentials("\u{e9}", "123456").is_err());
}

#[test]
fn registration_outcomes() {
    assert!(matches!(registration_result(InsertOutcome::Inserted(5)), Ok(AuthReply::SignIn(5))));
    match registration_result(InsertOutcome::UniqueViolation) {
        Ok(AuthReply::Redirect(l)) => assert_eq!(l, "/register?error=That+username+is+already+taken"),
        _ => panic!("expected a redirect"),
    }
    match registration_result(InsertOutcome::Failed("disk full".into())) {
        Err(AppError::Sqlx(d)) => assert_eq!(d, "disk full"),
        _ => panic!("expected a database error"),
    }
}

#[test]
fn gates_and_home() {
    assert!(matches!(require_user(Some(3)), Ok(3)));
    assert!(matches!(require_user(None), Err(AppError::Unauthorized)));
    assert_eq!(home_location(Some(1)), "/pantry");
    assert_eq!(home_location(None), "/login");
    assert_eq!(login_gate(Some(1)), None);
    assert_eq!(login_gate(None).as_deref(), Some("/login"));
}

#[test]
fn cookie_key_master_is_secret_digest() {
    let key = cookie_key("a long random secret value");
    assert_eq!(key.master(), cookie_key_material("a long random secret value").as_slice());
}

#[test]
fn session_cookie_leaves_other_cookies() {
    let jar = PrivateCookieJar::new(cookie_key("another long secret value"));
    let jar = jar.add(Cookie::new("theme", "dark"));
    let jar = set_user_cookie(jar, 5);
    assert_eq!(jar.get("theme").map(|c| c.value().to_string()).as_deref(), Some("dark"));
    let jar = clear_user_cookie(jar);
    assert_eq!(jar.get("theme").map(|c| c.value().to_string()).as_deref(), Some("dark"));
    assert_eq!(user_id_from_jar(&jar), None);
}

fn set_cookie_headers(jar: PrivateCookieJar) -> Vec<String> {
    let response = (jar, "").into_response();
    response
        .headers()
        .get_all(SET_COOKIE)
        .iter()
        .map(|v| v.to_str().unwrap().to_string())
        .collect()
}

#[test]
fn signing_in_sets_site_wide_http_only_lax_cookie() {
    let jar = PrivateCookieJar::new(cookie_key("a long random secret value"));
    let headers = set_cookie_headers(set_user_cookie(jar, 12));
    assert_eq!(headers.len(), 1);
    let h = &headers[0];
    assert!(h.starts_with("user_id="));
    assert!(h.contains("; HttpOnly"));
    assert!(h.contains("; SameSite=Lax"));
    assert!(h.contains("; Path=/"));
}

#[test]
fn signing_out_removes_the_site_wide_cookie() {
    let key = cookie_key("a long random secret value");
    let issued = set_cookie_headers(set_user_cookie(PrivateCookieJar::new(key.clone()), 12));
    let pair = issued[0].split(';').next().unwrap().to_string();
    let mut request = HeaderMap::new();
    request.insert(COOKIE, HeaderValue::from_str(&pair).unwrap());
    let jar = PrivateCookieJar::from_headers(&request, key);
    assert_eq!(user_id_from_jar(&jar), Some(12));
    let headers = set_cookie_headers(clear_user_cookie(jar));
    assert_eq!(headers.len(), 1);
    let h = &headers[0];
    assert!(h.starts_with("user_id=;"));
    assert!(h.contains("; Path=/"));
    assert!(h.contains("Max-Age=0"));
}

#[test]
fn password_hash_is_default_argon2_phc() {
    let h = password_hash_for("hunter22").unwrap();
    assert!(h.starts_with("$argon2id$v=19$m=19456,t=2,p=1$"));
    assert_eq!(h.len(), "$argon2id$v=19$m=19456,t=2,p=1$".len() + 66);
    assert_eq!(&h[31 + 22..31 + 23], "$");
    assert_ne!(h, "hunter22");
}

use recipe_creator::config::Config;
use recipe_creator::db::{database_dir, default_database_url};

fn secret() -> Option<String> {
    Some("0123456789abcdef".into())
}

fn key() -> Option<String> {
    Some("gemini-key".into())
}

#[test]
fn config_defaults() {
    let c = Config::from_values(None, None, secret(), key(), None).unwrap();
    assert_eq!(c.port, 8090);
    assert_eq!(c.database_url, "sqlite:data/recipe_creator.db?mode=rwc");
    assert_eq!(c.database_url, default_database_url());
    assert_eq!(c.app_secret, "0123456789abcdef");
    assert_eq!(c.gemini_api_key.as_deref(), Some("gemini-key"));
    assert_eq!(c.gemini_model, "gemini-2.0-flash");
}

#[test]
fn config_takes_given_values() {
    let c = Config::from_values(
        Some("+3000".into()),
        Some("sqlite:x.db".into()),
        secret(),
        Some("key".into()),
        Some("gemini-pro".into()),
    )
    .unwrap();
    assert_eq!(c.port, 3000);
    assert_eq!(c.database_url, "sqlite:x.db");
    assert_eq!(c.gemini_api_key.as_deref(), Some("key"));
    assert_eq!(c.gemini_model, "gemini-pro");
}

#[test]
fn config_requires_api_key() {
    let e = Config::from_values(None, None, secret(), Some(String::new()), None).unwrap_err();
    assert_eq!(e, "GEMINI_API_KEY is required");
    let e = Config::from_values(None, None, secret(), None, None).unwrap_err();
    assert_eq!(e, "GEMINI_API_KEY is required");
}

#[test]
fn config_rejects_bad_port() {
    for p in ["abc", "65536", "-1", "", " 80", "+"] {
        let e = Config::from_values(Some(p.into()), None, secret(), key(), None).unwrap_err();
        assert_eq!(e, "PORT must be a valid number");
    }
    assert_eq!(Config::from_values(Some("65535".into()), None, secret(), key(), None).unwrap().port, 65535);
}

#[test]
fn config_requires_long_secret() {
    let e = Config::from_values(None, None, None, key(), None).unwrap_err();
    assert_eq!(e, "APP_SECRET is required (use a long random string)");
    let e = Config::from_values(None, None, Some("0123456789abcde".into()), key(), None).unwrap_err();
    assert_eq!(e, "APP_SECRET must be at least 16 characters");
    // Characters are counted, not bytes: nine two-byte characters are too few.
    let e = Config::from_values(None, None, Some("\u{e9}".repeat(9)), key(), None).unwrap_err();
    assert_eq!(e, "APP_SECRET must be at least 16 characters");
    assert!(Config::from_values(None, None, Some("\u{e9}".repeat(16)), key(), None).is_ok());
    // The port is checked first.
    let e = Config::from_values(Some("x".into()), None, None, None, None).unwrap_err();
    assert_eq!(e, "PORT must be a valid number");
}

#[test]
fn database_dir_of_sqlite_urls() {
    assert_eq!(database_dir("sqlite:data/recipe_creator.db?mode=rwc").as_deref(), Some("data"));
    assert_eq!(database_dir("sqlite:/var/lib/app/db.sqlite").as_deref(), Some("/var/lib/app"));
    assert_eq!(database_dir("sqlite:a/b/c.db?x=1?y=2").as_deref(), Some("a/b"));
    assert_eq!(database_dir("sqlite:test.db"), None);
    assert_eq!(database_dir("sqlite:"), None);
    assert_eq!(database_dir("postgres://host/db"), None);
}

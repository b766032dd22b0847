use recipe_creator::auth::InsertOutcome;
use recipe_creator::decimal::{format_i64, format_u64, parse_i64, parse_u16};
use recipe_creator::error::AppError;
use recipe_creator::llm::LlmError;
use recipe_creator::pantry::{deleted_item_name, pantry_insert_result, pantry_item_name, pantry_page};
use recipe_creator::reset::{confirm_password, reset_arguments, reset_hash, reset_report};

#[test]
fn app_error_replies() {
    let (s, b) = AppError::NotFound.reply();
    assert_eq!((s, b.as_str()), (404, "Not found"));
    let (s, b) = AppError::Unauthorized.reply();
    assert_eq!((s, b.as_str()), (401, "Unauthorized"));
    let (s, b) = AppError::msg("bad input".into()).reply();
    assert_eq!((s, b.as_str()), (400, "bad input"));
    let (s, b) = AppError::Sqlx("table users is locked".into()).reply();
    assert_eq!((s, b.as_str()), (500, "Something went wrong. Please try again."));
    let (s, b) = AppError::Askama("missing field".into()).reply();
    assert_eq!((s, b.as_str()), (500, "Something went wrong. Please try again."));
    let (s, b) = AppError::Llm(LlmError::BadResponse).reply();
    assert_eq!((s, b.as_str()), (502, "Gemini returned an unexpected response. Try again."));
}

#[test]
fn app_error_messages() {
    assert_eq!(AppError::NotFound.message(), "not found");
    assert_eq!(AppError::Unauthorized.message(), "unauthorized");
    assert_eq!(AppError::msg("m".into()).message(), "m");
    assert_eq!(AppError::Sqlx("db down".into()).message(), "db down");
    assert_eq!(AppError::Askama("tpl".into()).message(), "tpl");
    assert_eq!(AppError::Llm(LlmError::Api("x".into())).message(), "Gemini error: x");
}

#[test]
fn pantry_names_are_trimmed() {
    assert_eq!(pantry_item_name("  olive oil \n").as_deref(), Some("olive oil"));
    assert_eq!(pantry_item_name(" \t "), None);
    assert_eq!(deleted_item_name(" salt "), "salt");
    assert_eq!(pantry_page(), "/pantry");
}

#[test]
fn pantry_duplicates_are_not_errors() {
    assert!(pantry_insert_result(InsertOutcome::Inserted(1)).is_ok());
    assert!(pantry_insert_result(InsertOutcome::UniqueViolation).is_ok());
    assert!(matches!(pantry_insert_result(InsertOutcome::Failed("x".into())), Err(AppError::Sqlx(_))));
}

#[test]
fn decimal_formatting() {
    assert_eq!(format_u64(0), "0");
    assert_eq!(format_u64(u64::MAX), "18446744073709551615");
    assert_eq!(format_i64(i64::MIN), "-9223372036854775808");
    assert_eq!(format_i64(-10), "-10");
    assert_eq!(parse_i64("-9223372036854775808"), Some(i64::MIN));
    assert_eq!(parse_i64("9223372036854775807"), Some(i64::MAX));
    assert_eq!(parse_i64("99999999999999999999999"), None);
    assert_eq!(parse_i64("12a"), None);
    assert_eq!(parse_u16("+0"), Some(0));
    assert_eq!(parse_u16("-0"), None);
    assert_eq!(parse_u16("08090"), Some(8090));
}

#[test]
fn reset_argument_counts() {
    let args = |v: &[&str]| v.iter().map(|s| s.to_string()).collect::<Vec<String>>();
    assert_eq!(reset_arguments(&args(&["reset_password"])).unwrap_err(), "Usage: reset_password <username> [new-password]");
    assert!(reset_arguments(&args(&["r", "a", "b", "c"])).is_err());
    assert_eq!(reset_arguments(&args(&["r", "alice"])).unwrap(), ("alice".to_string(), None));
    assert_eq!(
        reset_arguments(&args(&["r", "alice", "pw"])).unwrap(),
        ("alice".to_string(), Some("pw".to_string()))
    );
}

#[test]
fn reset_confirmation_and_report() {
    assert_eq!(confirm_password("abc".into(), "abc").unwrap(), "abc");
    assert_eq!(confirm_password("abc".into(), "abd").unwrap_err(), "Passwords do not match");
    let h = reset_hash("new password").unwrap();
    assert!(h.starts_with("$argon2id$v=19$m=19456,t=2,p=1$"));
    assert_eq!(h.len(), 97);
    assert_eq!(reset_report("alice", 1).unwrap(), "Password for 'alice' updated successfully.");
    assert_eq!(reset_report("bob", 0).unwrap_err(), "No user found with username 'bob'");
}

#[test]
fn stored_pantry_name_deletes_same_item() {
    let stored = pantry_item_name(" \u{a0}basil\t").unwrap();
    assert_eq!(deleted_item_name(&stored), stored);
}

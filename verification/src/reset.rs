//! The password-reset command: its arguments, the confirmation of the new
//! password, and what the update's outcome is reported as.
use vstd::prelude::*;
use crate::auth::{hash_password, argon2_accepts, argon2_password_fits, is_default_argon2_phc, argon2_error_text};

verus! {

/// The usage line printed for wrong arguments.
pub open spec fn usage_text() -> Seq<char> {
    "Usage: reset_password <username> [new-password]"@
}

/// The username and, when given, the new password, from the command line
/// (program name first); the usage line when there are not one or two arguments.
pub fn reset_arguments(args: &Vec<String>) -> (r: Result<(String, Option<String>), String>)
    ensures
        match r {
            Ok((user, pw)) => (args@.len() == 2 || args@.len() == 3) && user == args@[1]
                && pw == (if args@.len() == 3 { Some(args@[2]) } else { None::<String> }),
            Err(m) => (args@.len() < 2 || args@.len() > 3) && m@ == usage_text(),
        },
{
    if args.len() < 2 || args.len() > 3 {
        return Err("Usage: reset_password <username> [new-password]".to_string());
    }
    let user = args[1].clone();
    let pw = if args.len() == 3 { Some(args[2].clone()) } else { None };
    Ok((user, pw))
}

/// The new password when both prompts agree; the mismatch message otherwise.
pub fn confirm_password(first: String, second: &str) -> (r: Result<String, String>)
    ensures
        match r {
            Ok(p) => first@ == second@ && p == first,
            Err(m) => first@ != second@ && m@ == "Passwords do not match"@,
        },
{
    let second = second.to_string();
    if first == second {
        Ok(first)
    } else {
        Err("Passwords do not match".to_string())
    }
}

/// The hash to store for the new password; a failure is described as an Argon2 error.
pub fn reset_hash(password: &str) -> (r: Result<String, String>)
    ensures
        r is Ok <==> argon2_password_fits(password@),
        match r {
            Ok(h) => argon2_accepts(password@, h@) && is_default_argon2_phc(h@),
            Err(m) => m@ == "argon2 error: "@ + argon2_error_text(),
        },
{
    match hash_password(password) {
        Ok(h) => Ok(h),
        Err(d) => {
            let mut m = "argon2 error: ".to_string();
            m.append(d.as_str());
            Err(m)
        },
    }
}

/// What to print once the update has run: success when a row changed, else
/// that no such user exists.
pub fn reset_report(username: &str, rows_affected: u64) -> (r: Result<String, String>)
    ensures
        match r {
            Ok(m) => rows_affected > 0 && m@ == "Password for '"@ + username@ + "' updated successfully."@,
            Err(m) => rows_affected == 0 && m@ == "No user found with username '"@ + username@ + "'"@,
        },
{
    if rows_affected == 0 {
        let mut m = "No user found with username '".to_string();
        m.append(username);
        m.append("'");
        Err(m)
    } else {
        let mut m = "Password for '".to_string();
        m.append(username);
        m.append("' updated successfully.");
        Ok(m)
    }
}

} // verus!

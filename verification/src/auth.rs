//! Accounts and sessions: the session cookie, password hashing, and the
//! decisions of the login, registration, logout and login-gate handlers.
use vstd::prelude::*;
use vstd::utf8::encode_utf8;
use axum_extra::extract::cookie::{Cookie, Key, PrivateCookieJar, SameSite};
use argon2::password_hash::rand_core::OsRng;
use argon2::password_hash::{PasswordHash, PasswordHasher, PasswordVerifier, SaltString};
use argon2::Argon2;
use sha2::{Digest, Sha512};
use crate::text::{trim, trim_str};
use crate::decimal::{decimal_int, parse_i64_spec, parse_i64, format_i64, lemma_parse_decimal_i64};
use crate::error::AppError;

verus! {

/// The name of the cookie that holds the signed-in user's id.
pub const USER_ID_COOKIE: &'static str = "user_id";

#[verifier::external_type_specification]
#[verifier::external_body]
pub struct ExKey(Key);

#[verifier::external_type_specification]
#[verifier::external_body]
#[verifier::reject_recursive_types(K)]
pub struct ExPrivateCookieJar<K>(PrivateCookieJar<K>);

/// The SHA-512 digest of some bytes.
pub uninterp spec fn sha512(data: Seq<u8>) -> Seq<u8>;

/// `Sha512::digest` from `sha2`: the digest is a function of the data, and is
/// 64 bytes long (the output size of the type).
#[verifier::external_body]
fn sha512_digest(data: &[u8]) -> (r: Vec<u8>)
    ensures
        r@ == sha512(data@),
        r@.len() == 64,
{
    Sha512::digest(data).to_vec()
}

/// The 64 master bytes a cookie `Key` holds (what `Key::master` returns).
pub uninterp spec fn key_master(key: Key) -> Seq<u8>;

/// `Key::from` from `cookie` (re-exported by `axum_extra`), which panics on fewer
/// than 64 bytes; its source copies the first 64 bytes given into the key.
#[verifier::external_body]
fn key_from_bytes(bytes: &[u8]) -> (r: Key)
    requires
        bytes@.len() >= 64,
    ensures
        key_master(r) == bytes@.take(64),
{
    Key::from(bytes)
}

/// The key material for the cookie key: the SHA-512 digest of the secret's UTF-8 bytes.
pub fn cookie_key_material(app_secret: &str) -> (r: Vec<u8>)
    ensures
        r@ == sha512(encode_utf8(app_secret@)),
        r@.len() == 64,
{
    sha512_digest(app_secret.as_bytes())
}

/// The key that encrypts session cookies: its master bytes are the SHA-512
/// digest of the app secret.
pub fn cookie_key(app_secret: &str) -> (r: Key)
    ensures
        key_master(r) == sha512(encode_utf8(app_secret@)),
{
    let digest = cookie_key_material(app_secret);
    let r = key_from_bytes(digest.as_slice());
    assert(digest@.take(64) =~= digest@);
    r
}

/// The `SameSite` attribute of a cookie.
#[derive(Debug, Clone, Copy, PartialEq, Eq, Structural)]
pub enum CookieSameSite {
    Strict,
    Lax,
    /// `SameSite=None`.
    NoRestriction,
}

/// A cookie to set on (or remove from) the response.
#[derive(Debug)]
pub struct SessionCookie {
    pub name: String,
    pub value: String,
    pub path: String,
    pub http_only: bool,
    pub same_site: Option<CookieSameSite>,
}

/// The session cookie for `user_id`: its decimal id, for the whole site,
/// hidden from scripts, sent on same-site requests and top-level navigation.
pub open spec fn is_session_cookie(c: SessionCookie, user_id: i64) -> bool {
    &&& c.name@ == USER_ID_COOKIE@
    &&& c.value@ == decimal_int(user_id as int)
    &&& c.path@ == "/"@
    &&& c.http_only
    &&& c.same_site == Some(CookieSameSite::Lax)
}

/// The cookie that removes the session: same name and path, nothing else.
pub open spec fn is_removal_cookie(c: SessionCookie) -> bool {
    &&& c.name@ == USER_ID_COOKIE@
    &&& c.value@ == Seq::<char>::empty()
    &&& c.path@ == "/"@
    &&& !c.http_only
    &&& c.same_site is None
}

/// The session cookie for a signed-in user.
pub fn session_cookie(user_id: i64) -> (r: SessionCookie)
    ensures
        is_session_cookie(r, user_id),
{
    SessionCookie {
        name: USER_ID_COOKIE.to_string(),
        value: format_i64(user_id),
        path: "/".to_string(),
        http_only: true,
        same_site: Some(CookieSameSite::Lax),
    }
}

/// The cookie that signs the user out.
pub fn removal_cookie() -> (r: SessionCookie)
    ensures
        is_removal_cookie(r),
{
    SessionCookie {
        name: USER_ID_COOKIE.to_string(),
        value: String::new(),
        path: "/".to_string(),
        http_only: false,
        same_site: None,
    }
}

/// The user id a session cookie value names: its value read as an `i64`.
pub open spec fn user_id_of_value(value: Option<Seq<char>>) -> Option<i64> {
    match value {
        Some(v) => parse_i64_spec(v),
        None => None,
    }
}

/// The user id held in a session cookie's value, if it is a valid `i64`.
pub fn user_id_from_value(value: Option<&str>) -> (r: Option<i64>)
    ensures
        r == user_id_of_value(match value {
            Some(v) => Some(v@),
            None => None,
        }),
{
    match value {
        Some(v) => parse_i64(v),
        None => None,
    }
}

/// What a private cookie jar holds: for each cookie name whose value decrypts
/// under the jar's key, the decrypted value (what `PrivateCookieJar::get` gives).
pub uninterp spec fn jar_cookies(jar: PrivateCookieJar) -> Map<Seq<char>, Seq<char>>;

/// What one `Set-Cookie` of a response says: the cookie's path, its HttpOnly
/// flag, its SameSite attribute as the `cookie` crate writes it, and whether it
/// removes the cookie.
pub type CookieSetting = (Option<Seq<char>>, Option<bool>, Option<Seq<char>>, bool);

/// The cookies a private jar sets on the response (its delta), by name.
pub uninterp spec fn jar_outgoing(jar: PrivateCookieJar) -> Map<Seq<char>, (Option<Seq<char>>, Option<bool>, Option<Seq<char>>, bool)>;

/// The names of the cookies that came with the request and decrypted
/// (the jar's original cookies).
pub uninterp spec fn jar_incoming(jar: PrivateCookieJar) -> Set<Seq<char>>;

/// How the `cookie` crate writes a `SameSite` attribute.
pub open spec fn same_site_text(s: Option<CookieSameSite>) -> Option<Seq<char>> {
    match s {
        Some(CookieSameSite::Strict) => Some("Strict"@),
        Some(CookieSameSite::Lax) => Some("Lax"@),
        Some(CookieSameSite::NoRestriction) => Some("None"@),
        None => None,
    }
}

/// The `Set-Cookie` that adds the cookie `c`.
pub open spec fn added_setting(c: SessionCookie) -> CookieSetting {
    (Some(c.path@), Some(c.http_only), same_site_text(c.same_site), false)
}

/// The `Set-Cookie` that removes a cookie at `path`.
pub open spec fn removal_setting(path: Seq<char>) -> CookieSetting {
    (Some(path), None, None, true)
}

/// The value the jar gives for a cookie name, if any.
pub open spec fn jar_value(jar: PrivateCookieJar, name: Seq<char>) -> Option<Seq<char>> {
    if jar_cookies(jar).dom().contains(name) {
        Some(jar_cookies(jar)[name])
    } else {
        None
    }
}

/// The value of the named cookie in the jar (`PrivateCookieJar::get`), if the jar
/// holds it and it decrypts.
#[verifier::external_body]
fn jar_cookie_value(jar: &PrivateCookieJar, name: &str) -> (r: Option<String>)
    ensures
        match r {
            Some(v) => jar_value(*jar, name@) == Some(v@),
            None => jar_value(*jar, name@) is None,
        },
{
    jar.get(name).map(|c| c.value().to_string())
}

/// `PrivateCookieJar::add` of the cookie that `c` describes: the cookie is
/// sealed under the jar's key (only its value changes) and replaces any cookie
/// of the same name in the delta (`CookieJar::add`), so the jar then gives
/// `c.value` for `c.name`, the response sets the cookie with `c`'s attributes,
/// and nothing else changes.
#[verifier::external_body]
fn jar_add(jar: PrivateCookieJar, c: SessionCookie) -> (r: PrivateCookieJar)
    ensures
        jar_cookies(r) == jar_cookies(jar).insert(c.name@, c.value@),
        jar_outgoing(r) == jar_outgoing(jar).insert(c.name@, added_setting(c)),
        jar_incoming(r) == jar_incoming(jar),
{
    let same_site = match c.same_site {
        Some(CookieSameSite::Strict) => Some(SameSite::Strict),
        Some(CookieSameSite::Lax) => Some(SameSite::Lax),
        Some(CookieSameSite::NoRestriction) => Some(SameSite::None),
        None => None,
    };
    let mut cookie = Cookie::build((c.name, c.value)).path(c.path).http_only(c.http_only).build();
    cookie.set_same_site(same_site);
    jar.add(cookie)
}

/// `PrivateCookieJar::remove` of the cookie that `c` names, at `c`'s path
/// (`CookieJar::remove`): when the request carried it, the response sets a
/// removal cookie of that name and path; otherwise any cookie of that name
/// added in this response is dropped. The jar then gives nothing for that name.
#[verifier::external_body]
fn jar_remove(jar: PrivateCookieJar, c: SessionCookie) -> (r: PrivateCookieJar)
    ensures
        jar_cookies(r) == jar_cookies(jar).remove(c.name@),
        jar_outgoing(r) == if jar_incoming(jar).contains(c.name@) {
            jar_outgoing(jar).insert(c.name@, removal_setting(c.path@))
        } else {
            jar_outgoing(jar).remove(c.name@)
        },
        jar_incoming(r) == jar_incoming(jar),
{
    jar.remove(Cookie::build(c.name).path(c.path).build())
}

/// The user a jar's session cookie names.
pub open spec fn jar_user(jar: PrivateCookieJar) -> Option<i64> {
    user_id_of_value(jar_value(jar, USER_ID_COOKIE@))
}

/// The signed-in user's id, read from the session cookie of the jar.
pub fn user_id_from_jar(jar: &PrivateCookieJar) -> (r: Option<i64>)
    ensures
        r == jar_user(*jar),
{
    let value = jar_cookie_value(jar, USER_ID_COOKIE);
    match value {
        Some(v) => user_id_from_value(Some(v.as_str())),
        None => None,
    }
}

/// The jar with the session cookie for `user_id` added.
pub fn set_user_cookie(jar: PrivateCookieJar, user_id: i64) -> (r: PrivateCookieJar)
    ensures
        jar_cookies(r) == jar_cookies(jar).insert(USER_ID_COOKIE@, decimal_int(user_id as int)),
        jar_outgoing(r) == jar_outgoing(jar).insert(
            USER_ID_COOKIE@,
            (Some("/"@), Some(true), Some("Lax"@), false),
        ),
        jar_incoming(r) == jar_incoming(jar),
{
    jar_add(jar, session_cookie(user_id))
}

/// The jar with the session cookie removed.
pub fn clear_user_cookie(jar: PrivateCookieJar) -> (r: PrivateCookieJar)
    ensures
        jar_cookies(r) == jar_cookies(jar).remove(USER_ID_COOKIE@),
        jar_outgoing(r) == if jar_incoming(jar).contains(USER_ID_COOKIE@) {
            jar_outgoing(jar).insert(USER_ID_COOKIE@, (Some("/"@), None, None, true))
        } else {
            jar_outgoing(jar).remove(USER_ID_COOKIE@)
        },
        jar_incoming(r) == jar_incoming(jar),
{
    jar_remove(jar, removal_cookie())
}

/// After signing a user in, the jar names that user; after signing out, no one.
pub proof fn lemma_jar_session_round_trip(jar: PrivateCookieJar, user_id: i64, signed_in: PrivateCookieJar, signed_out: PrivateCookieJar)
    requires
        jar_cookies(signed_in) == jar_cookies(jar).insert(USER_ID_COOKIE@, decimal_int(user_id as int)),
        jar_cookies(signed_out) == jar_cookies(jar).remove(USER_ID_COOKIE@),
    ensures
        jar_user(signed_in) == Some(user_id),
        jar_user(signed_out) is None,
{
    lemma_parse_decimal_i64(user_id);
}

/// A session cookie names the user it was made for.
pub proof fn lemma_session_cookie_names_user(c: SessionCookie, user_id: i64)
    requires
        is_session_cookie(c, user_id),
    ensures
        user_id_of_value(Some(c.value@)) == Some(user_id),
{
    lemma_parse_decimal_i64(user_id);
}

/// Whether Argon2 accepts `password` against the PHC-format hash string `phc`
/// (parsing the string, then recomputing with its salt and parameters).
pub uninterp spec fn argon2_accepts(password: Seq<char>, phc: Seq<char>) -> bool;

/// Verifies a password against a stored Argon2 hash: `PasswordHash::new` on the
/// stored string, then `Argon2::default().verify_password` on the password's
/// bytes; a string that does not parse verifies nothing. The outcome is a
/// function of the two strings.
#[verifier::external_body]
pub(crate) fn verify_password(password: &str, password_hash: &str) -> (r: bool)
    ensures
        r == argon2_accepts(password@, password_hash@),
{
    match PasswordHash::new(password_hash) {
        Ok(parsed) => Argon2::default().verify_password(password.as_bytes(), &parsed).is_ok(),
        Err(_) => false,
    }
}

/// Argon2 takes passwords of at most `0xFFFFFFFF` bytes (`argon2::MAX_PWD_LEN`).
pub open spec fn argon2_password_fits(password: Seq<char>) -> bool {
    encode_utf8(password).len() <= 0xFFFFFFFF
}

/// How a PHC string of Argon2's default settings begins: algorithm `argon2id`,
/// version 19, memory 19456 KiB, 2 passes, 1 lane.
pub open spec fn argon2_phc_prefix() -> Seq<char> {
    "$argon2id$v=19$m=19456,t=2,p=1$"@
}

/// A PHC string of Argon2's default settings: the prefix, a 16-byte salt in
/// unpadded B64 (22 characters), `$`, and a 32-byte hash (43 characters).
pub open spec fn is_default_argon2_phc(h: Seq<char>) -> bool {
    &&& argon2_phc_prefix().is_prefix_of(h)
    &&& h.len() == argon2_phc_prefix().len() + 66
    &&& h[argon2_phc_prefix().len() + 22int] == '$'
}

/// The text of the one error that hashing with default settings can give
/// (`password_hash::Error::Password`, from `argon2::Error::PwdTooLong`).
pub open spec fn argon2_error_text() -> Seq<char> {
    "invalid password"@
}

/// Hashes a password with Argon2 (default parameters) and a fresh random salt
/// from `OsRng`, giving the PHC string; on failure, the error's text. The salt
/// is random, so no clause fixes the hash's salt and output; the clauses state
/// what `argon2` and `password-hash` show: the string's form, that the password
/// verifies against it, and that the only possible error, a password longer
/// than `MAX_PWD_LEN` bytes, is `Error::Password` ("invalid password").
#[verifier::external_body]
pub(crate) fn hash_password(password: &str) -> (r: Result<String, String>)
    ensures
        r is Ok <==> argon2_password_fits(password@),
        r matches Ok(h) ==> argon2_accepts(password@, h@) && is_default_argon2_phc(h@),
        r matches Err(m) ==> m@ == argon2_error_text(),
{
    let salt = SaltString::generate(&mut OsRng);
    match Argon2::default().hash_password(password.as_bytes(), &salt) {
        Ok(hash) => Ok(hash.to_string()),
        Err(e) => Err(e.to_string()),
    }
}

/// A stored account: its id and its password hash.
#[derive(Debug)]
pub struct UserRow {
    pub id: i64,
    pub password_hash: String,
}

/// What an auth handler answers.
#[derive(Debug)]
pub enum AuthReply {
    /// Redirect to this location.
    Redirect(String),
    /// Set the session cookie for this user and go to the pantry.
    SignIn(i64),
}

/// Where a signed-in user lands.
pub open spec fn pantry_location() -> Seq<char> {
    "/pantry"@
}

/// The login page.
pub open spec fn login_location() -> Seq<char> {
    "/login"@
}

pub open spec fn login_missing_location() -> Seq<char> {
    "/login?error=Username+and+password+are+required"@
}

pub open spec fn login_invalid_location() -> Seq<char> {
    "/login?error=Invalid+username+or+password"@
}

pub open spec fn register_short_username_location() -> Seq<char> {
    "/register?error=Username+must+be+at+least+3+characters"@
}

pub open spec fn register_short_password_location() -> Seq<char> {
    "/register?error=Password+must+be+at+least+6+characters"@
}

pub open spec fn register_taken_location() -> Seq<char> {
    "/register?error=That+username+is+already+taken"@
}

/// The login form's fields, trimmed, when neither is blank; otherwise the page to go back to.
pub fn login_credentials(username: &str, password: &str) -> (r: Result<(String, String), String>)
    ensures
        match r {
            Ok((u, p)) => trim(username@).len() > 0 && trim(password@).len() > 0
                && u@ == trim(username@) && p@ == trim(password@),
            Err(l) => (trim(username@).len() == 0 || trim(password@).len() == 0)
                && l@ == login_missing_location(),
        },
{
    let u = trim_str(username);
    let p = trim_str(password);
    if u.as_str().is_empty() || p.as_str().is_empty() {
        return Err("/login?error=Username+and+password+are+required".to_string());
    }
    Ok((u, p))
}

/// The outcome of a login, given the (trimmed) password and the account found
/// under the username, if any: signed in when the password verifies.
pub open spec fn login_outcome(password: Seq<char>, user: Option<UserRow>, r: AuthReply) -> bool {
    match user {
        Some(row) => if argon2_accepts(password, row.password_hash@) {
            r == AuthReply::SignIn(row.id)
        } else {
            r matches AuthReply::Redirect(l) && l@ == login_invalid_location()
        },
        None => r matches AuthReply::Redirect(l) && l@ == login_invalid_location(),
    }
}

/// Finishes a login once the account has been looked up.
pub fn login_result(password: &str, user: Option<UserRow>) -> (r: AuthReply)
    ensures
        login_outcome(password@, user, r),
{
    match user {
        Some(row) => {
            if verify_password(password, row.password_hash.as_str()) {
                AuthReply::SignIn(row.id)
            } else {
                AuthReply::Redirect("/login?error=Invalid+username+or+password".to_string())
            }
        },
        None => AuthReply::Redirect("/login?error=Invalid+username+or+password".to_string()),
    }
}

/// The registration form's fields, trimmed, when the username has at least 3
/// and the password at least 6 bytes of UTF-8; otherwise the page to go back to.
pub fn registration_credentials(username: &str, password: &str) -> (r: Result<(String, String), String>)
    ensures
        match r {
            Ok((u, p)) => encode_utf8(trim(username@)).len() >= 3
                && encode_utf8(trim(password@)).len() >= 6
                && u@ == trim(username@) && p@ == trim(password@),
            Err(l) => if encode_utf8(trim(username@)).len() < 3 {
                l@ == register_short_username_location()
            } else {
                encode_utf8(trim(password@)).len() < 6 && l@ == register_short_password_location()
            },
        },
{
    let u = trim_str(username);
    let p = trim_str(password);
    if !crate::text::utf8_len_at_least(u.as_str(), 3) {
        return Err("/register?error=Username+must+be+at+least+3+characters".to_string());
    }
    if !crate::text::utf8_len_at_least(p.as_str(), 6) {
        return Err("/register?error=Password+must+be+at+least+6+characters".to_string());
    }
    Ok((u, p))
}

/// Hashes a new password; a failure becomes a message for the user.
pub fn password_hash_for(password: &str) -> (r: Result<String, AppError>)
    ensures
        r is Ok <==> argon2_password_fits(password@),
        match r {
            Ok(h) => argon2_accepts(password@, h@) && is_default_argon2_phc(h@),
            Err(e) => e matches AppError::Message(m)
                && m@ == "failed to hash password: "@ + argon2_error_text(),
        },
{
    match hash_password(password) {
        Ok(h) => Ok(h),
        Err(d) => {
            let mut m = "failed to hash password: ".to_string();
            m.append(d.as_str());
            Err(AppError::Message(m))
        },
    }
}

/// How an insert into a table with a unique key ended.
#[derive(Debug)]
pub enum InsertOutcome {
    /// Inserted; the new row's id.
    Inserted(i64),
    /// Refused: the key is already taken.
    UniqueViolation,
    /// Failed otherwise; the database's description of the failure.
    Failed(String),
}

/// Finishes a registration once the account insert has run.
pub fn registration_result(outcome: InsertOutcome) -> (r: Result<AuthReply, AppError>)
    ensures
        match outcome {
            InsertOutcome::Inserted(id) => r == Ok::<AuthReply, AppError>(AuthReply::SignIn(id)),
            InsertOutcome::UniqueViolation => r matches Ok(AuthReply::Redirect(l))
                && l@ == register_taken_location(),
            InsertOutcome::Failed(d) => r == Err::<AuthReply, AppError>(AppError::Sqlx(d)),
        },
{
    match outcome {
        InsertOutcome::Inserted(id) => Ok(AuthReply::SignIn(id)),
        InsertOutcome::UniqueViolation => Ok(AuthReply::Redirect(
            "/register?error=That+username+is+already+taken".to_string(),
        )),
        InsertOutcome::Failed(d) => Err(AppError::Sqlx(d)),
    }
}

/// The signed-in user, or `Unauthorized`.
pub fn require_user(user_id: Option<i64>) -> (r: Result<i64, AppError>)
    ensures
        match user_id {
            Some(id) => r == Ok::<i64, AppError>(id),
            None => r == Err::<i64, AppError>(AppError::Unauthorized),
        },
{
    match user_id {
        Some(id) => Ok(id),
        None => Err(AppError::Unauthorized),
    }
}

/// The signed-in user of the request whose cookies are in `jar`, or `Unauthorized`.
pub fn user_id(jar: &PrivateCookieJar) -> (r: Result<i64, AppError>)
    ensures
        match jar_user(*jar) {
            Some(id) => r == Ok::<i64, AppError>(id),
            None => r == Err::<i64, AppError>(AppError::Unauthorized),
        },
{
    require_user(user_id_from_jar(jar))
}

/// Where the home page sends a visitor: the pantry when signed in, else the login page.
pub fn home_location(user_id: Option<i64>) -> (r: String)
    ensures
        r@ == (if user_id is Some { pantry_location() } else { login_location() }),
{
    match user_id {
        Some(_) => "/pantry".to_string(),
        None => "/login".to_string(),
    }
}

/// Whether a page that needs an account may be shown: `None` when a user is
/// signed in, else the login page to redirect to.
pub fn login_gate(user_id: Option<i64>) -> (r: Option<String>)
    ensures
        match user_id {
            Some(_) => r is None,
            None => r matches Some(l) && l@ == login_location(),
        },
{
    match user_id {
        Some(_) => None,
        None => Some("/login".to_string()),
    }
}

/// A password that registration accepted and hashed signs in with the same
/// form input: trimming it again gives the stored password, and the stored
/// hash verifies it.
pub proof fn lemma_registered_password_signs_in(
    raw_username: Seq<char>,
    raw_password: Seq<char>,
    stored: UserRow,
)
    requires
        encode_utf8(trim(raw_username)).len() >= 3,
        encode_utf8(trim(raw_password)).len() >= 6,
        argon2_accepts(trim(raw_password), stored.password_hash@),
    ensures
        trim(raw_username).len() > 0,
        trim(raw_password).len() > 0,
        forall|r: AuthReply| login_outcome(trim(raw_password), Some(stored), r)
            ==> r == AuthReply::SignIn(stored.id),
{
    crate::text::lemma_encode_utf8_empty(trim(raw_username));
    crate::text::lemma_encode_utf8_empty(trim(raw_password));
}

} // verus!

//! Password hashing and verification, bearer-token issuance and
//! validation, and the signup / login orchestration.
//!
//! The password hash is a keyless, unsalted content hash (the stored hash
//! equals the hash of the plaintext); the bearer token is a signed claim
//! set `{iat, exp, sub}` whose validity is a pure function of secret and
//! token — note that the expiry claim is carried but not checked at
//! validation time.

use vstd::prelude::*;
use vstd::string::StrSliceExecFns;
use vstd::utf8::encode_utf8;

use crate::db::Db;
use crate::errors::AppError;
use crate::strutil::dec_str;
use crate::strutil::dec_value;
use crate::strutil::is_u64_numeral;
use crate::strutil::parse_u64;
use crate::strutil::str_eq;
use crate::strutil::trim_spec;
use crate::strutil::trim_str;
use crate::strutil::u64_to_string;
use crate::strutil::unicode_alphanumeric;
use crate::types::User;
use crate::types::UserCreate;
use crate::types::UserFilter;

verus! {

/// The hex rendering of the content hash that `hash_password` computes.
pub uninterp spec fn blake3_hex_of(s: Seq<char>) -> Seq<char>;

/// Relies on blake3::hash and blake3::Hash's Display: the digest depends
/// on the input bytes alone, rendered as 64 lowercase hex characters.
#[verifier::external_body]
pub fn hash_password(password: &str) -> (r: String)
    ensures
        r@ == blake3_hex_of(password@),
        r@.len() == 64,
{
    blake3::hash(password.as_bytes()).to_string()
}

/// Whether `hash` is the stored hash of `password`.
pub fn validate_password_hash(hash: &str, password: &str) -> (r: bool)
    ensures
        r == (hash@ == blake3_hex_of(password@)),
{
    let pw_hash = hash_password(password);
    str_eq(hash, pw_hash.as_str())
}

/// The token that signing the claim set `{iat, exp, sub}` under `secret`
/// yields.
pub uninterp spec fn signed_token_of(secret: Seq<char>, iat: u64, exp: u64, sub: Seq<char>) -> Seq<
    char,
>;

/// The claim set `(iat, exp, sub)` that verifying `token` under `secret`
/// yields, or `None` when the signature or the claim shape is rejected.
pub uninterp spec fn token_claims_of(secret: Seq<char>, token: Seq<char>) -> Option<
    (u64, Option<u64>, Seq<char>),
>;

/// Relies on jwt's SignWithKey over an HMAC-SHA-256 key: the token
/// depends on secret and claims alone, and verifying it under the same
/// secret yields the same claims back. Signing is total: an HMAC key is
/// built from a slice of any length, HMAC signing never fails, and the
/// claim object always serializes, so the unwraps cannot fire.
#[verifier::external_body]
fn sign_token(secret: &str, iat: u64, exp: u64, sub: &str) -> (t: String)
    ensures
        t@ == signed_token_of(secret@, iat, exp, sub@),
        token_claims_of(secret@, t@) == Some((iat, Some(exp), sub@)),
{
    let key: hmac::Hmac<sha2::Sha256> = hmac::Mac::new_from_slice(secret.as_bytes()).unwrap();
    let mut claims = serde_json::Map::new();
    claims.insert("iat".to_string(), serde_json::Value::from(iat));
    claims.insert("exp".to_string(), serde_json::Value::from(exp));
    claims.insert("sub".to_string(), serde_json::Value::from(sub));
    jwt::SignWithKey::sign_with_key(serde_json::Value::Object(claims), &key).unwrap()
}

/// Relies on jwt's VerifyWithKey over an HMAC-SHA-256 key: verification
/// succeeds exactly on tokens signed under the same secret, and hands the
/// embedded claims back; the outcome depends on secret and token alone.
#[verifier::external_body]
fn verify_token(secret: &str, token: &str) -> (r: Result<(u64, Option<u64>, String), jwt::Error>)
    ensures
        (match r {
            Ok(c) => token_claims_of(secret@, token@) == Some((c.0, c.1, c.2@)),
            Err(_) => token_claims_of(secret@, token@) is None,
        }),
{
    let key: hmac::Hmac<sha2::Sha256> = match hmac::Mac::new_from_slice(secret.as_bytes()) {
        Ok(k) => k,
        Err(e) => return Err(jwt::Error::RustCryptoMacKeyLength(e)),
    };
    let claims: std::collections::BTreeMap<String, serde_json::Value> =
        jwt::VerifyWithKey::verify_with_key(token, &key)?;
    let iat = claims.get("iat").and_then(|v| v.as_u64()).ok_or(jwt::Error::Format)?;
    let exp = claims.get("exp").and_then(|v| v.as_u64());
    let sub = claims.get("sub").and_then(|v| v.as_str()).ok_or(jwt::Error::Format)?;
    Ok((iat, exp, sub.to_string()))
}

/// The jwt error type, opaque to the library.
#[verifier::external_type_specification]
#[verifier::external_body]
pub struct ExJwtError(jwt::Error);

/// How long a token stays valid: thirty days, in seconds.
pub const TOKEN_LIFETIME_SECONDS: u64 = 2592000;

/// The expiry claim for a token issued at `now`: thirty days later,
/// saturating at the largest representable time.
pub open spec fn token_exp_at(now: u64) -> u64 {
    if now + TOKEN_LIFETIME_SECONDS <= u64::MAX {
        (now + TOKEN_LIFETIME_SECONDS) as u64
    } else {
        u64::MAX
    }
}

/// Issue a signed token for `user`, issued at `now_unix` and expiring
/// thirty days later, with the user's id as subject.
pub fn build_user_token(jwt_key: &str, user: &User, now_unix: u64) -> (t: String)
    ensures
        t@ == signed_token_of(
            jwt_key@,
            now_unix,
            token_exp_at(now_unix),
            dec_str(user.id as nat),
        ),
        token_claims_of(jwt_key@, t@) == Some(
            (now_unix, Some(token_exp_at(now_unix)), dec_str(user.id as nat)),
        ),
{
    let exp: u64 = if now_unix <= u64::MAX - TOKEN_LIFETIME_SECONDS {
        now_unix + TOKEN_LIFETIME_SECONDS
    } else {
        u64::MAX
    };
    let sub = u64_to_string(user.id);
    sign_token(jwt_key, now_unix, exp, sub.as_str())
}

/// Look up a user by trimmed username and check the password. The two
/// failure causes carry distinct messages, though callers surface both as
/// the same generic failure.
pub fn user_login<D: Db>(
    db: &D,
    jwt_key: &str,
    username: &str,
    password: &str,
    now_unix: u64,
) -> (r: Result<(User, String), AppError>)
    ensures
        (match r {
            Ok((u, t)) => u@.username == trim_spec(username@) && u@.password_hash == blake3_hex_of(
                password@,
            ) && db.db_users().contains(u@) && token_claims_of(jwt_key@, t@) == Some(
                (now_unix, Some(token_exp_at(now_unix)), dec_str(u@.id as nat)),
            ),
            Err(e) => e is Auth || e is Backend,
        }),
        (r matches Err(e) && e matches AppError::Auth(m) && m@ == "User not found"@) ==> forall|
            i: int,
        |
            0 <= i < db.db_users().len() ==> (#[trigger] db.db_users()[i]).username != trim_spec(
                username@,
            ),
        (r matches Err(e) && e matches AppError::Auth(m) && m@ == "Wrong password"@) ==> exists|
            i: int,
        |
            0 <= i < db.db_users().len() && (#[trigger] db.db_users()[i]).username == trim_spec(
                username@,
            ) && db.db_users()[i].password_hash != blake3_hex_of(password@),
        r matches Err(e) ==> (e matches AppError::Auth(m) ==> (m@ == "User not found"@ || m@
            == "Wrong password"@)),
        (forall|i: int|
            0 <= i < db.db_users().len() ==> (#[trigger] db.db_users()[i]).username != trim_spec(
                username@,
            )) ==> (r matches Err(e) && (e is Backend || (e matches AppError::Auth(m) && m@
            == "User not found"@))),
        ((exists|i: int|
            0 <= i < db.db_users().len() && (#[trigger] db.db_users()[i]).username == trim_spec(
                username@,
            )) && (forall|i: int|
            0 <= i < db.db_users().len() && (#[trigger] db.db_users()[i]).username == trim_spec(
                username@,
            ) ==> db.db_users()[i].password_hash == blake3_hex_of(password@))) ==> (r is Ok || (
        r matches Err(e) && e is Backend)),
{
    proof {
        broadcast use vstd::string::group_string_axioms;

        reveal_strlit("User not found");
        reveal_strlit("Wrong password");
        assert("User not found"@ != "Wrong password"@) by {
            assert("User not found"@[0] == 'U');
            assert("Wrong password"@[0] == 'W');
        }
    }
    let trimmed = trim_str(username);
    let filter = UserFilter::Name(trimmed);
    match db.user(&filter) {
        Err(e) => Err(AppError::Backend(e)),
        Ok(None) => Err(AppError::Auth("User not found".to_owned())),
        Ok(Some(user)) => {
            proof {
                assert(db.db_users().contains(user@));
                let i = choose|i: int|
                    0 <= i < db.db_users().len() && db.db_users()[i] == user@;
                assert((db.db_users()[i]).username == trim_spec(username@));
            }
            if !validate_password_hash(user.password_hash.as_str(), password) {
                return Err(AppError::Auth("Wrong password".to_owned()));
            }
            let t = build_user_token(jwt_key, &user, now_unix);
            Ok((user, t))
        },
    }
}

/// Verify a bearer token and load the user it names. Any failure — bad
/// signature, malformed subject, unknown user — is an error; the caller
/// clears the cookie on it.
pub fn load_user_for_token<D: Db>(db: &D, raw_key: &str, token: &str) -> (r: Result<
    User,
    AppError,
>)
    ensures
        (match r {
            Ok(u) => token_claims_of(raw_key@, token@) matches Some(c) && u@.id as nat == dec_value(
                c.2,
            ) && db.db_users().contains(u@),
            Err(e) => !(e is Backend) ==> (e is Auth || e is NotFound),
        }),
        token_claims_of(raw_key@, token@) is None ==> (r matches Err(e) && e is Auth),
        (r matches Err(e) && e is Auth) ==> (token_claims_of(raw_key@, token@) is None || (
        token_claims_of(raw_key@, token@) matches Some(c) && !is_u64_numeral(c.2))),
        (r matches Err(e) && e is NotFound) ==> (token_claims_of(raw_key@, token@) matches Some(
            c,
        ) && forall|i: int|
            0 <= i < db.db_users().len() ==> (#[trigger] db.db_users()[i]).id as nat != dec_value(
                c.2,
            )),
        (token_claims_of(raw_key@, token@) matches Some(c) && is_u64_numeral(c.2) && (exists|
            i: int,
        |
            0 <= i < db.db_users().len() && (#[trigger] db.db_users()[i]).id as nat == dec_value(
                c.2,
            ))) ==> (r is Ok || (r matches Err(e) && e is Backend)),
{
    let claims = match verify_token(raw_key, token) {
        Ok(c) => c,
        Err(_) => {
            return Err(AppError::Auth("invalid token".to_owned()));
        },
    };
    let id = match parse_u64(claims.2.as_str()) {
        Some(id) => id,
        None => {
            return Err(
                AppError::Auth("Invalid 'sub' field in token: expected a u64 user id".to_owned()),
            );
        },
    };
    match db.user(&UserFilter::Id(id)) {
        Err(e) => Err(AppError::Backend(e)),
        Ok(None) => Err(AppError::NotFound("User not found".to_owned())),
        Ok(Some(u)) => Ok(u),
    }
}

/// A signup request as the form hands it in.
#[derive(Clone, Debug)]
pub struct Signup {
    pub username: String,
    pub email: String,
    pub password: String,
}

/// A well-formed email: exactly one `@`, with non-blank text on both
/// sides of it.
pub open spec fn valid_email(s: Seq<char>) -> bool {
    exists|k: int|
        0 <= k < s.len() && #[trigger] s[k] == '@' && (forall|j: int|
            0 <= j < s.len() && j != k ==> s[j] != '@') && trim_spec(s.subrange(0, k)).len() > 0
            && trim_spec(s.subrange(k + 1, s.len() as int)).len() > 0
}

/// Check that `val` is a well-formed email address.
#[verifier::loop_isolation(false)]
pub fn validate_email_address(val: &str) -> (r: Result<(), AppError>)
    ensures
        r.is_ok() <==> valid_email(val@),
        r matches Err(e) ==> e matches AppError::Validation(m) && m@ == "invalid email"@,
{
    let n = val.unicode_len();
    let mut at: usize = 0;
    let mut found: bool = false;
    let mut i: usize = 0;
    while i < n
        invariant
            0 <= i <= n,
            found ==> 0 <= at < i && val@[at as int] == '@' && (forall|j: int|
                0 <= j < i && j != at ==> val@[j] != '@'),
            !found ==> forall|j: int| 0 <= j < i ==> val@[j] != '@',
        decreases n - i,
    {
        if val.get_char(i) == '@' {
            if found {
                proof {
                    lemma_two_ats_invalid(val@, at as int, i as int);
                }
                return Err(AppError::Validation("invalid email".to_owned()));
            }
            at = i;
            found = true;
        }
        i = i + 1;
    }
    if !found {
        assert(!valid_email(val@));
        return Err(AppError::Validation("invalid email".to_owned()));
    }
    let local = trim_str(val.substring_char(0, at));
    let domain = trim_str(val.substring_char(at + 1, n));
    proof {
        lemma_unique_at_shape(val@, at as int);
    }
    if local.as_str().is_empty() || domain.as_str().is_empty() {
        return Err(AppError::Validation("invalid email".to_owned()));
    }
    Ok(())
}

/// A string with two `@`s is not a well-formed email.
proof fn lemma_two_ats_invalid(s: Seq<char>, a: int, b: int)
    requires
        0 <= a < b < s.len(),
        s[a] == '@',
        s[b] == '@',
    ensures
        !valid_email(s),
{
    if valid_email(s) {
        let k = choose|k: int|
            0 <= k < s.len() && #[trigger] s[k] == '@' && (forall|j: int|
                0 <= j < s.len() && j != k ==> s[j] != '@') && trim_spec(s.subrange(0, k)).len()
                > 0 && trim_spec(s.subrange(k + 1, s.len() as int)).len() > 0;
        assert(a == k && b == k);
    }
}

/// With a unique `@` at `a`, well-formedness comes down to the two parts
/// around it being non-blank.
proof fn lemma_unique_at_shape(s: Seq<char>, a: int)
    requires
        0 <= a < s.len(),
        s[a] == '@',
        forall|j: int| 0 <= j < s.len() && j != a ==> s[j] != '@',
    ensures
        valid_email(s) <==> (trim_spec(s.subrange(0, a)).len() > 0 && trim_spec(
            s.subrange(a + 1, s.len() as int),
        ).len() > 0),
{
    if valid_email(s) {
        let k = choose|k: int|
            0 <= k < s.len() && #[trigger] s[k] == '@' && (forall|j: int|
                0 <= j < s.len() && j != k ==> s[j] != '@') && trim_spec(s.subrange(0, k)).len()
                > 0 && trim_spec(s.subrange(k + 1, s.len() as int)).len() > 0;
        assert(k == a);
    }
}

/// A well-formed username: every character alphanumeric.
pub open spec fn valid_username(s: Seq<char>) -> bool {
    forall|i: int| 0 <= i < s.len() ==> unicode_alphanumeric(#[trigger] s[i])
}

/// Check that `val` holds only alphanumeric characters.
#[verifier::loop_isolation(false)]
pub fn validate_username(val: &str) -> (r: Result<(), AppError>)
    ensures
        r.is_ok() <==> valid_username(val@),
        r matches Err(e) ==> e matches AppError::Validation(m) && m@
            == "Invalid characters in username: only numbers and alphabetic characters allowed"@,
{
    let n = val.unicode_len();
    let mut i: usize = 0;
    while i < n
        invariant
            0 <= i <= n,
            forall|j: int| 0 <= j < i ==> unicode_alphanumeric(#[trigger] val@[j]),
        decreases n - i,
    {
        if !crate::strutil::char_is_alphanumeric(val.get_char(i)) {
            return Err(
                AppError::Validation(
                    "Invalid characters in username: only numbers and alphabetic characters allowed".to_owned(),
                ),
            );
        }
        i = i + 1;
    }
    Ok(())
}

/// A long-enough password: at least eight bytes.
pub open spec fn valid_password(s: Seq<char>) -> bool {
    encode_utf8(s).len() >= 8
}

/// Check that `val` is at least eight bytes long.
pub fn validate_password(val: &str) -> (r: Result<(), AppError>)
    ensures
        r.is_ok() <==> valid_password(val@),
        r matches Err(e) ==> e matches AppError::Validation(m) && m@
            == "password must be at least 8 characters long"@,
{
    broadcast use vstd::slice::axiom_spec_len;

    if val.as_bytes().len() < 8 {
        return Err(
            AppError::Validation("password must be at least 8 characters long".to_owned()),
        );
    }
    Ok(())
}

/// Validate a signup request, hash the password, and create the user.
pub fn user_signup<D: Db>(db: &mut D, signup: Signup) -> (r: Result<User, AppError>)
    ensures
        (match r {
            Ok(u) => valid_email(signup.email@) && valid_username(signup.username@)
                && valid_password(signup.password@) && u@.username == signup.username@ && u@.email
                == signup.email@ && u@.password_hash == blake3_hex_of(signup.password@)
                && final(db).db_users() == old(db).db_users().push(u@),
            Err(e) => e is Validation || e is Backend,
        }),
        !valid_email(signup.email@) ==> (r matches Err(e) && e matches AppError::Validation(m)
            && m@ == "invalid email"@),
        valid_email(signup.email@) && !valid_username(signup.username@) ==> (r matches Err(e)
            && e matches AppError::Validation(m) && m@
            == "Invalid characters in username: only numbers and alphabetic characters allowed"@),
        valid_email(signup.email@) && valid_username(signup.username@) && !valid_password(
            signup.password@,
        ) ==> (r matches Err(e) && e matches AppError::Validation(m) && m@
            == "password must be at least 8 characters long"@),
        (valid_email(signup.email@) && valid_username(signup.username@) && valid_password(
            signup.password@,
        )) ==> (r is Ok || (r matches Err(e) && e is Backend)),
        (r matches Err(e) && e is Validation) ==> final(db).db_users() == old(db).db_users()
            && final(db).db_timelogs() == old(db).db_timelogs(),
{
    match validate_email_address(signup.email.as_str()) {
        Ok(()) => (),
        Err(e) => {
            return Err(e);
        },
    }
    match validate_username(signup.username.as_str()) {
        Ok(()) => (),
        Err(e) => {
            return Err(e);
        },
    }
    match validate_password(signup.password.as_str()) {
        Ok(()) => (),
        Err(e) => {
            return Err(e);
        },
    }
    let password_hash = hash_password(signup.password.as_str());
    let pre = UserCreate {
        username: signup.username,
        email: signup.email,
        password_hash,
    };
    match db.user_create(&pre) {
        Ok(u) => Ok(u),
        Err(e) => Err(AppError::Backend(e)),
    }
}

/// Sign up and immediately issue a token: signup implies login.
pub fn user_signup_and_login<D: Db>(
    db: &mut D,
    token_key: &str,
    data: Signup,
    now_unix: u64,
) -> (r: Result<(User, String), AppError>)
    ensures
        (match r {
            Ok((u, t)) => u@.username == data.username@ && u@.email == data.email@
                && u@.password_hash == blake3_hex_of(data.password@) && final(db).db_users()
                == old(db).db_users().push(u@) && token_claims_of(token_key@, t@) == Some(
                (now_unix, Some(token_exp_at(now_unix)), dec_str(u@.id as nat)),
            ),
            Err(e) => e is Validation || e is Backend,
        }),
        (valid_email(data.email@) && valid_username(data.username@) && valid_password(
            data.password@,
        )) ==> (r is Ok || (r matches Err(e) && e is Backend)),
        !valid_email(data.email@) ==> (r matches Err(e) && e matches AppError::Validation(m)
            && m@ == "invalid email"@),
        (r matches Err(e) && e is Validation) ==> final(db).db_users() == old(db).db_users()
            && final(db).db_timelogs() == old(db).db_timelogs(),
{
    let user = match user_signup(db, data) {
        Ok(u) => u,
        Err(e) => {
            return Err(e);
        },
    };
    let t = build_user_token(token_key, &user, now_unix);
    Ok((user, t))
}

} // verus!

use vstd::prelude::*;
use crate::error::{ClientError, StatusCode, UserError};
use crate::text::push_str;

verus! {

/// Why a bearer token was refused.
#[derive(Debug, Clone, Copy, PartialEq, Eq)]
pub enum TokenError {
    TokenExpired,
    TokenInvalid,
}

/// Whether `e` is the client error for the refusal `t`: 401; an expired token tells the user
/// that the session has expired; a bad signature is the developer's to see.
pub open spec fn token_refusal(t: TokenError, e: ClientError) -> bool {
    &&& e.status_code.number() == 401
    &&& t == TokenError::TokenExpired ==> {
        &&& e.dev_hint@ == "token is valid but has expired"@
        &&& e.user_error matches Some(u) && u.code@ == "token_expired"@ && u.user_hint@
            == "session has expired"@ && u.structured_hint is None && u.server_suggest is None
    }
    &&& t == TokenError::TokenInvalid ==> e.dev_hint@ == "invalid signature"@ && e.user_error is None
}

impl TokenError {
    /// The 401 client error for the refusal (see `token_refusal`).
    pub fn into_client_error(self) -> (r: ClientError)
        ensures
            token_refusal(self, r),
    {
        match self {
            TokenError::TokenExpired => {
                let mut hint = String::new();
                push_str(&mut hint, "token is valid but has expired");
                let mut code = String::new();
                push_str(&mut code, "token_expired");
                let mut user_hint = String::new();
                push_str(&mut user_hint, "session has expired");
                ClientError {
                    status_code: StatusCode::unauthorized(),
                    dev_hint: hint,
                    user_error: Some(
                        UserError {
                            code,
                            user_hint,
                            structured_hint: None,
                            server_suggest: None,
                        },
                    ),
                }
            },
            TokenError::TokenInvalid => {
                let mut hint = String::new();
                push_str(&mut hint, "invalid signature");
                ClientError { status_code: StatusCode::unauthorized(), dev_hint: hint, user_error: None }
            },
        }
    }
}

/// Whether a token that expires at `exp` seconds (whole seconds since the epoch) has expired
/// at the instant `now_secs` seconds and `now_nanos` nanoseconds.
pub open spec fn expired(exp: i64, now_secs: i64, now_nanos: u32) -> bool {
    exp < now_secs || (exp == now_secs && now_nanos > 0)
}

/// The expiry check of a verified token: `TokenExpired` where the expiry lies before now.
pub fn verify_exp_at(exp: i64, now_secs: i64, now_nanos: u32) -> (r: Result<(), TokenError>)
    ensures
        r is Ok <==> !expired(exp, now_secs, now_nanos),
        r matches Err(e) ==> e == TokenError::TokenExpired,
{
    if exp < now_secs || (exp == now_secs && now_nanos > 0) {
        Err(TokenError::TokenExpired)
    } else {
        Ok(())
    }
}

/// An email and a password hash, as a login or a first sign-up gives them.
pub struct EmailPassword {
    pub email: String,
    pub password: String,
    private_to_construct: (),
}

impl EmailPassword {
    /// The email.
    pub closed spec fn email_text(self) -> Seq<char> {
        self.email@
    }

    /// The password hash.
    pub closed spec fn password_text(self) -> Seq<char> {
        self.password@
    }

    /// The credentials that a login or a first sign-up reads: `email`, and `password` hashed
    /// with the salt (see `password_hash`).
    pub fn from_plain(salt: &str, email: String, password: &str) -> (r: Self)
        requires
            salt@.len() < 0x100_0000_0000_0000,
            password@.len() < 0x100_0000_0000_0000,
        ensures
            r.email_text() == email@,
            r.password_text() == crate::token::password_hash(salt@, password@),
    {
        let hashed = crate::token::hash_pass(salt, password);
        EmailPassword { email, password: hashed, private_to_construct: () }
    }

    /// The pair of `email` and an already hashed `password`.
    pub fn from_hashed(email: String, password: String) -> (r: Self)
        ensures
            r.email_text() == email@,
            r.password_text() == password@,
    {
        EmailPassword { email, password, private_to_construct: () }
    }
}

/// The first super user: a name and credentials.
pub struct SetupFirstUser {
    pub user_name: String,
    pub email_password: EmailPassword,
}

/// An authentication failure, described.
pub struct AuthError(pub String);

/// The user whose token should be extended in the response, if any.
#[derive(Clone)]
pub struct MayExtend(pub Option<String>);

impl MayExtend {
    /// Marks the token of the user `id` for extension.
    pub fn extend_for(&mut self, id: &str)
        ensures
            final(self).0 matches Some(s) && s@ == id@,
    {
        let mut s = String::new();
        push_str(&mut s, id);
        self.0 = Some(s);
    }
}

/// The statement that creates the table of super users.
pub fn migration_st() -> (r: &'static str)
    ensures
        r@ == "
    CREATE TABLE IF NOT EXISTS _super_users (
        id SERIAL,
        user_name TEXT NOT NULL,
        email TEXT,
        password TEXT,
        PRIMARY KEY (user_name, email)
    );
    "@,
{
    "
    CREATE TABLE IF NOT EXISTS _super_users (
        id SERIAL,
        user_name TEXT NOT NULL,
        email TEXT,
        password TEXT,
        PRIMARY KEY (user_name, email)
    );
    "
}

} // verus!

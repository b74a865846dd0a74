use vstd::prelude::*;
use crate::text::{push_str, string_push};

verus! {

/// The reason phrase that `http` gives for a status code (`StatusCode::canonical_reason`).
pub uninterp spec fn reason_phrase(code: u16) -> Option<Seq<char>>;

/// `http::StatusCode::from_u16` then `StatusCode::canonical_reason`: the reason phrase of a
/// status code, `None` for a code outside `100..=999` or one without a phrase.
#[verifier::external_body]
fn canonical_reason(code: u16) -> (r: Option<&'static str>)
    ensures
        reason_phrase(code) == match r {
            Some(s) => Some(s@),
            None => None,
        },
{
    match http::StatusCode::from_u16(code) {
        Ok(s) => s.canonical_reason(),
        Err(_) => None,
    }
}

/// An HTTP status code, `100..=999`.
#[derive(Clone, Copy, Debug, PartialEq, Eq, PartialOrd, Ord)]
pub struct StatusCode {
    code: u16,
}

impl StatusCode {
    #[verifier::type_invariant]
    spec fn inv(self) -> bool {
        100 <= self.code <= 999
    }

    /// The number of the code.
    pub closed spec fn number(self) -> u16 {
        self.code
    }

    /// The code with number `code`; `None` outside `100..=999`.
    pub fn from_u16(code: u16) -> (r: Option<StatusCode>)
        ensures
            r matches Some(s) ==> s.number() == code,
            r is Some <==> 100 <= code <= 999,
    {
        if 100 <= code && code <= 999 {
            Some(StatusCode { code })
        } else {
            None
        }
    }

    /// The number of the code.
    pub fn as_u16(&self) -> (r: u16)
        ensures
            r == self.number(),
            100 <= r <= 999,
    {
        proof {
            use_type_invariant(self);
        }
        self.code
    }

    /// 400 Bad Request.
    pub fn bad_request() -> (r: StatusCode)
        ensures
            r.number() == 400,
    {
        StatusCode { code: 400 }
    }

    /// 401 Unauthorized.
    pub fn unauthorized() -> (r: StatusCode)
        ensures
            r.number() == 401,
    {
        StatusCode { code: 401 }
    }

    /// 404 Not Found.
    pub fn not_found() -> (r: StatusCode)
        ensures
            r.number() == 404,
    {
        StatusCode { code: 404 }
    }

    /// 500 Internal Server Error.
    pub fn internal_server_error() -> (r: StatusCode)
        ensures
            r.number() == 500,
    {
        StatusCode { code: 500 }
    }

    /// Whether the code is in `500..600`.
    pub fn is_server_error(&self) -> (r: bool)
        ensures
            r == (500 <= self.number() < 600),
    {
        500 <= self.code && self.code < 600
    }

    /// The reason phrase of the code, where it has one.
    pub fn canonical_reason(&self) -> (r: Option<&'static str>)
        ensures
            reason_phrase(self.number()) == match r {
                Some(s) => Some(s@),
                None => None,
            },
    {
        canonical_reason(self.code)
    }
}

/// A step the server suggests that the user take.
#[derive(Debug)]
pub struct Action(pub &'static str);

/// An error that is the user's to resolve, with hints for the front end.
#[derive(Debug)]
pub struct UserError {
    pub code: String,
    pub user_hint: String,
    /// In forms: a hint for each field, keyed by the field's name.
    pub structured_hint: Option<Vec<(String, String)>>,
    /// Actions that the server suggests to resolve the error.
    pub server_suggest: Option<Vec<Action>>,
}

/// An error with a 4xx status: a hint for the developer and, where the user can act on it,
/// a `UserError`.
#[derive(Debug)]
pub struct ClientError {
    pub status_code: StatusCode,
    pub dev_hint: String,
    pub user_error: Option<UserError>,
}

/// The response to a panic: 500 with "server paniced".
pub struct PanicError;

impl PanicError {
    /// The status and body text of the response.
    pub fn response(&self) -> (r: (StatusCode, &'static str))
        ensures
            r.0.number() == 500,
            r.1@ == "server paniced"@,
    {
        (StatusCode::internal_server_error(), "server paniced")
    }
}

impl ClientError {
    /// Attaches a user error with `code` and `info`, which `opt` may then adjust.
    pub fn add_user_error<F: FnOnce(UserError) -> UserError>(self, code: &str, info: &str, opt: F) -> (r:
        Self)
        requires
            forall|u: UserError| call_requires(opt, (u,)),
        ensures
            r.status_code == self.status_code,
            r.dev_hint == self.dev_hint,
            r.user_error matches Some(u) && exists|u0: UserError|
                u0.code@ == code@ && u0.user_hint@ == info@ && u0.structured_hint is None
                    && u0.server_suggest is None && call_ensures(opt, (u0,), u),
    {
        let mut c = String::new();
        push_str(&mut c, code);
        let mut h = String::new();
        push_str(&mut h, info);
        let user_error = UserError {
            code: c,
            user_hint: h,
            structured_hint: None,
            server_suggest: None,
        };
        let ghost u0 = user_error;
        assert(u0.code@ =~= code@ && u0.user_hint@ =~= info@);
        let user_error = opt(user_error);
        assert(call_ensures(opt, (u0,), user_error));
        ClientError { status_code: self.status_code, dev_hint: self.dev_hint, user_error: Some(user_error) }
    }

    /// The error with status `code` in place of its own.
    pub fn with_status(self, code: StatusCode) -> (r: Self)
        ensures
            r.status_code == code,
            r.dev_hint == self.dev_hint,
            r.user_error == self.user_error,
    {
        ClientError { status_code: code, dev_hint: self.dev_hint, user_error: self.user_error }
    }

    /// A 400 error with the hint `value`.
    pub fn from_hint(value: String) -> (r: Self)
        ensures
            r.status_code.number() == 400,
            r.dev_hint == value,
            r.user_error is None,
    {
        ClientError { status_code: StatusCode::bad_request(), dev_hint: value, user_error: None }
    }

    /// The hint of the response: the status's reason phrase, `: ` and the developer hint, or
    /// the hint alone where the status has no phrase. Server errors (5xx) have no response
    /// of this kind, which `requires` leaves out.
    pub fn response_hint(&self) -> (r: String)
        requires
            !(500 <= self.status_code.number() < 600),
        ensures
            r@ == match reason_phrase(self.status_code.number()) {
                Some(p) => p + ": "@ + self.dev_hint@,
                None => self.dev_hint@,
            },
    {
        match self.status_code.canonical_reason() {
            Some(info) => {
                let mut s = String::new();
                push_str(&mut s, info);
                push_str(&mut s, ": ");
                push_str(&mut s, self.dev_hint.as_str());
                s
            },
            None => self.dev_hint.clone(),
        }
    }
}

/// Why an insert failed, for the developer.
#[derive(Debug, Clone, PartialEq, Eq, PartialOrd, Ord)]
pub enum InsertErrorInternal {
    ForiegnKeyViolation,
    Other(String),
    Unkown,
}

/// A failed insert: its status and why.
#[derive(Debug, Clone, PartialEq, Eq, PartialOrd, Ord)]
pub struct InsertError(pub StatusCode, pub InsertErrorInternal);

impl InsertError {
    /// A failed insert with `code` and a hint for the developer.
    pub fn to_refactor(code: StatusCode, for_dev: &str) -> (r: Self)
        ensures
            r.0 == code,
            r.1 matches InsertErrorInternal::Other(s) && s@ == for_dev@,
    {
        let mut s = String::new();
        push_str(&mut s, for_dev);
        InsertError(code, InsertErrorInternal::Other(s))
    }

    /// The failed insert that a `GlobalError` describes: its extra information becomes the
    /// hint for the developer.
    pub fn from_global(value: GlobalError) -> (r: Self)
        ensures
            r.0 == value.0,
            match value.1 {
                ErrorInternal::MoreInfo(info) => r.1 == InsertErrorInternal::Other(info),
                _ => r.1 == InsertErrorInternal::Unkown,
            },
    {
        let internal = match value.1 {
            ErrorInternal::MoreInfo(info) => InsertErrorInternal::Other(info),
            _ => InsertErrorInternal::Unkown,
        };
        InsertError(value.0, internal)
    }

    /// The fields of the response body: the status number, its reason phrase (empty where it
    /// has none) and the hint for the developer, where there is one.
    pub fn response_fields(&self) -> (r: (u16, String, Option<String>))
        ensures
            r.0 == self.0.number(),
            r.1@ == match reason_phrase(self.0.number()) {
                Some(p) => p,
                None => Seq::empty(),
            },
            match self.1 {
                InsertErrorInternal::Other(o) => r.2 == Some(o),
                _ => r.2 is None,
            },
    {
        let reason = match self.0.canonical_reason() {
            Some(p) => {
                let mut s = String::new();
                push_str(&mut s, p);
                s
            },
            None => String::new(),
        };
        let extra = match &self.1 {
            InsertErrorInternal::Other(o) => Some(o.clone()),
            _ => None,
        };
        (self.0.as_u16(), reason, extra)
    }
}

/// What a `GlobalError` says beyond its status.
#[derive(Debug)]
pub enum ErrorInternal {
    Unkown,
    EntryNotFound(String),
    MoreInfo(String),
}

/// An error of any operation: its status and what more it says.
#[derive(Debug)]
pub struct GlobalError(pub StatusCode, pub ErrorInternal);

impl GlobalError {
    /// A 400 error with extra information `value`.
    pub fn from_info(value: String) -> (r: Self)
        ensures
            r.0.number() == 400,
            r.1 == ErrorInternal::MoreInfo(value),
    {
        GlobalError(StatusCode::bad_request(), ErrorInternal::MoreInfo(value))
    }

    /// The error with `msg` as its extra information.
    pub fn info(self, msg: &str) -> (r: Self)
        ensures
            r.0 == self.0,
            r.1 matches ErrorInternal::MoreInfo(s) && s@ == msg@,
    {
        let mut s = String::new();
        push_str(&mut s, msg);
        GlobalError(self.0, ErrorInternal::MoreInfo(s))
    }

    /// The fields of the response body: the status number, its reason phrase (empty where it
    /// has none) and the extra information, where there is some.
    pub fn response_fields(&self) -> (r: (u16, String, Option<String>))
        ensures
            r.0 == self.0.number(),
            r.1@ == match reason_phrase(self.0.number()) {
                Some(p) => p,
                None => Seq::empty(),
            },
            match self.1 {
                ErrorInternal::MoreInfo(o) => r.2 == Some(o),
                _ => r.2 is None,
            },
    {
        let reason = match self.0.canonical_reason() {
            Some(p) => {
                let mut s = String::new();
                push_str(&mut s, p);
                s
            },
            None => String::new(),
        };
        let extra = match &self.1 {
            ErrorInternal::MoreInfo(o) => Some(o.clone()),
            _ => None,
        };
        (self.0.as_u16(), reason, extra)
    }
}

/// 404 for the entry `entry`.
pub fn entry_not_found(entry: &str) -> (r: GlobalError)
    ensures
        r.0.number() == 404,
        r.1 matches ErrorInternal::EntryNotFound(s) && s@ == entry@,
{
    let mut s = String::new();
    push_str(&mut s, entry);
    GlobalError(StatusCode::not_found(), ErrorInternal::EntryNotFound(s))
}

/// 400 with extra information `info`.
pub fn to_refactor(info: &str) -> (r: GlobalError)
    ensures
        r.0.number() == 400,
        r.1 matches ErrorInternal::MoreInfo(s) && s@ == info@,
{
    let mut s = String::new();
    push_str(&mut s, info);
    GlobalError(StatusCode::bad_request(), ErrorInternal::MoreInfo(s))
}

/// 404 for the entry with `id`.
pub fn not_found(id: i32) -> (r: GlobalError)
    ensures
        r.0.number() == 404,
        r.1 is Unkown,
{
    GlobalError(StatusCode::not_found(), ErrorInternal::Unkown)
}

/// 400: the query lacks an id.
pub fn missing_id_in_query() -> (r: GlobalError)
    ensures
        r.0.number() == 400,
        r.1 is Unkown,
{
    GlobalError(StatusCode::bad_request(), ErrorInternal::Unkown)
}

/// The application could not start.
#[derive(Debug, PartialEq)]
pub struct InitializationError(pub String);

/// The start-up check: the signing salt (`JWT_SALT`) must be set.
pub fn verify_initialization(salt_is_set: bool) -> (r: Result<(), InitializationError>)
    ensures
        r is Ok <==> salt_is_set,
        r matches Err(e) ==> e.0@ == "JWT_SALT not set"@,
{
    if !salt_is_set {
        return Err(InitializationError(crate::text::string_of("JWT_SALT not set")));
    }
    Ok(())
}

} // verus!

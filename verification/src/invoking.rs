use vstd::prelude::*;
use crate::error::StatusCode;
use crate::expect::{Similar, SimilarResult};

verus! {

/// A request to an application under test, and what its response should be.
pub struct Invoking<'r, S, B> {
    app: &'r S,
    status: Option<StatusCode>,
    body: Option<B>,
    headers: Vec<(String, String)>,
}

impl<'r, S, B> Invoking<'r, S, B> {
    /// The application.
    pub closed spec fn app_of(self) -> &'r S {
        self.app
    }

    /// The expected status, where set.
    pub closed spec fn status_of(self) -> Option<StatusCode> {
        self.status
    }

    /// The expected body, where set.
    pub closed spec fn body_of(self) -> Option<B> {
        self.body
    }

    /// The request's headers, by name and value.
    pub closed spec fn headers_of(self) -> Seq<(String, String)> {
        self.headers@
    }

    /// The response should have the body `body`.
    pub fn body(self, body: B) -> (r: Invoking<'r, S, B>)
        ensures
            r.app_of() == self.app_of(),
            r.status_of() == self.status_of(),
            r.body_of() == Some(body),
            r.headers_of() == self.headers_of(),
    {
        Invoking { app: self.app, status: self.status, body: Some(body), headers: self.headers }
    }

    /// The response should have the status `status`.
    pub fn status(self, status: StatusCode) -> (r: Invoking<'r, S, B>)
        ensures
            r.app_of() == self.app_of(),
            r.status_of() == Some(status),
            r.body_of() == self.body_of(),
            r.headers_of() == self.headers_of(),
    {
        Invoking { app: self.app, status: Some(status), body: self.body, headers: self.headers }
    }
}

#[verifier::external_type_specification]
#[verifier::external_body]
pub struct ExJsonValue(serde_json::Value);

impl<'r, S> Invoking<'r, S, serde_json::Value> {
    /// The response should have the JSON body `body`.
    pub fn json(self, body: serde_json::Value) -> (r: Invoking<'r, S, serde_json::Value>)
        ensures
            r.app_of() == self.app_of(),
            r.status_of() == self.status_of(),
            r.body_of() == Some(body),
            r.headers_of() == self.headers_of(),
    {
        self.body(body)
    }
}

/// A request to `app`, with nothing expected yet.
pub fn invoking<'r, S, B>(app: &'r S) -> (r: Invoking<'r, S, B>)
    ensures
        r.app_of() == app,
        r.status_of() is None,
        r.body_of() is None,
        r.headers_of().len() == 0,
{
    Invoking { app, status: None, body: None, headers: Vec::new() }
}

/// A request, as its builder gives it.
pub struct With<W> {
    pub builder: W,
}

#[verifier::external_type_specification]
#[verifier::external_body]
pub struct ExRequestBuilder(http::request::Builder);

#[verifier::external_type_specification]
#[verifier::external_body]
pub struct ExHttpError(http::Error);

/// `http::Error`'s message, through `ToString`. What the message says is left to `http`.
#[verifier::external_body]
fn http_error_text(e: &http::Error) -> String {
    e.to_string()
}

impl<'r, S, B> Similar<With<http::request::Builder>> for Invoking<'r, S, B> {
    /// A built request passes.
    open spec fn fails_with(&self, request: With<http::request::Builder>, m: Seq<char>) -> bool {
        false
    }

    open spec fn similar_spec(&self, request: With<http::request::Builder>) -> bool {
        true
    }

    fn similar(&self, request: With<http::request::Builder>) -> (r: SimilarResult) {
        Ok(())
    }
}

impl<'r, S, B> Similar<With<Result<http::request::Builder, http::Error>>> for Invoking<'r, S, B> {
    /// A request that could be built passes; one that could not fails with the builder's
    /// error message.
    /// The message is `http`'s text for the builder's error.
    open spec fn fails_with(
        &self,
        request: With<Result<http::request::Builder, http::Error>>,
        m: Seq<char>,
    ) -> bool {
        request.builder is Err
    }

    open spec fn similar_spec(&self, request: With<Result<http::request::Builder, http::Error>>) -> bool {
        request.builder is Ok
    }

    fn similar(&self, request: With<Result<http::request::Builder, http::Error>>) -> (r: SimilarResult) {
        match request.builder {
            Ok(builder) => self.similar(With { builder }),
            Err(err) => Err(http_error_text(&err)),
        }
    }
}

} // verus!

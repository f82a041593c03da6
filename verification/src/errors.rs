//! The errors the gateway answers with, and the OpenAI-style body of each.
use vstd::prelude::*;
use crate::json::{JsonValue, JsonView};
use crate::bridge;

verus! {

/// An error the gateway answers a request with.
#[derive(Clone, Copy, Debug, PartialEq, Eq, Structural)]
pub enum AppError {
    InvalidApiKey,
    UpstreamUnavailable,
    NoHealthyPoolMember,
    Internal,
}

/// The HTTP status of each error.
pub open spec fn status_of(e: AppError) -> u16 {
    match e {
        AppError::InvalidApiKey => 401,
        AppError::UpstreamUnavailable => 503,
        AppError::NoHealthyPoolMember => 503,
        AppError::Internal => 500,
    }
}

/// The message of each error, which is also how it reads as text.
pub open spec fn message_of(e: AppError) -> Seq<char> {
    match e {
        AppError::InvalidApiKey => "invalid api key"@,
        AppError::UpstreamUnavailable => "upstream unavailable"@,
        AppError::NoHealthyPoolMember => "no healthy pool member"@,
        AppError::Internal => "internal server error"@,
    }
}

/// The OpenAI error type of each error.
pub open spec fn type_of(e: AppError) -> Seq<char> {
    match e {
        AppError::InvalidApiKey => "authentication_error"@,
        AppError::UpstreamUnavailable => "service_unavailable_error"@,
        AppError::NoHealthyPoolMember => "service_unavailable_error"@,
        AppError::Internal => "internal_server_error"@,
    }
}

/// The machine-readable code of each error.
pub open spec fn code_of(e: AppError) -> Seq<char> {
    match e {
        AppError::InvalidApiKey => "invalid_api_key"@,
        AppError::UpstreamUnavailable => "upstream_unavailable"@,
        AppError::NoHealthyPoolMember => "no_healthy_pool_member"@,
        AppError::Internal => "internal_error"@,
    }
}

/// The body an error is answered with: `{"error": {"message", "type", "code"}}`.
pub open spec fn error_body_view(e: AppError) -> JsonView {
    JsonView::Object(
        seq![
            (
                "error"@,
                JsonView::Object(
                    seq![
                        ("message"@, JsonView::Str(message_of(e))),
                        ("type"@, JsonView::Str(type_of(e))),
                        ("code"@, JsonView::Str(code_of(e))),
                    ],
                ),
            ),
        ],
    )
}

impl AppError {
    /// The HTTP status the error is answered with.
    pub fn status_code(&self) -> (r: u16)
        ensures
            r == status_of(*self),
    {
        match self {
            AppError::InvalidApiKey => 401,
            AppError::UpstreamUnavailable => 503,
            AppError::NoHealthyPoolMember => 503,
            AppError::Internal => 500,
        }
    }

    /// The error's message.
    pub fn message(&self) -> (r: String)
        ensures
            r@ == message_of(*self),
    {
        match self {
            AppError::InvalidApiKey => String::from_str("invalid api key"),
            AppError::UpstreamUnavailable => String::from_str("upstream unavailable"),
            AppError::NoHealthyPoolMember => String::from_str("no healthy pool member"),
            AppError::Internal => String::from_str("internal server error"),
        }
    }

    /// The error's OpenAI error type.
    pub fn error_type(&self) -> (r: String)
        ensures
            r@ == type_of(*self),
    {
        match self {
            AppError::InvalidApiKey => String::from_str("authentication_error"),
            AppError::UpstreamUnavailable => String::from_str("service_unavailable_error"),
            AppError::NoHealthyPoolMember => String::from_str("service_unavailable_error"),
            AppError::Internal => String::from_str("internal_server_error"),
        }
    }

    /// The error's code.
    pub fn code(&self) -> (r: String)
        ensures
            r@ == code_of(*self),
    {
        match self {
            AppError::InvalidApiKey => String::from_str("invalid_api_key"),
            AppError::UpstreamUnavailable => String::from_str("upstream_unavailable"),
            AppError::NoHealthyPoolMember => String::from_str("no_healthy_pool_member"),
            AppError::Internal => String::from_str("internal_error"),
        }
    }

    /// The body the error is answered with.
    pub fn error_body(&self) -> (r: JsonValue)
        ensures
            r@ == error_body_view(*self),
    {
        let m = self.message();
        let t = self.error_type();
        let c = self.code();
        let detail = bridge::object3(
            "message",
            bridge::jstr(m.as_str()),
            "type",
            bridge::jstr(t.as_str()),
            "code",
            bridge::jstr(c.as_str()),
        );
        bridge::object1("error", detail)
    }
}

} // verus!

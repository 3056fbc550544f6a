//! The errors that the API answers with.

use vstd::prelude::*;
use vstd::string::*;

use crate::json::{Json, JsonView};
use crate::names::names_are_told_apart;

verus! {

/// An error answer: the HTTP status, a code for programs and a message for people.
#[derive(Debug)]
pub struct ApiError {
    pub status: u16,
    pub code: &'static str,
    pub message: String,
}

/// What an error answer says.
pub struct ErrorView {
    pub status: u16,
    pub code: Seq<char>,
    pub message: Seq<char>,
}

impl View for ApiError {
    type V = ErrorView;

    open spec fn view(&self) -> ErrorView {
        ErrorView { status: self.status, code: self.code@, message: self.message@ }
    }
}

/// The request itself is wrong.
pub open spec fn bad(message: Seq<char>) -> ErrorView {
    ErrorView { status: 400, code: "invalid_request"@, message }
}

/// Nobody is signed in.
pub open spec fn unauthorized() -> ErrorView {
    ErrorView { status: 401, code: "unauthorized"@, message: "Authentication is required."@ }
}

/// There is no such thing, or it belongs to someone else.
pub open spec fn not_found() -> ErrorView {
    ErrorView { status: 404, code: "not_found"@, message: "The requested resource was not found."@ }
}

/// The service does not allow this.
pub open spec fn forbidden(message: Seq<char>) -> ErrorView {
    ErrorView { status: 403, code: "forbidden"@, message }
}

/// A run is already active.
pub open spec fn conflict(message: Seq<char>) -> ErrorView {
    ErrorView { status: 409, code: "active_run"@, message }
}

/// The service itself failed.
pub open spec fn internal(message: Seq<char>) -> ErrorView {
    ErrorView { status: 500, code: "internal_error"@, message }
}

/// The provider did not accept the credentials.
pub open spec fn provider_access_denied() -> ErrorView {
    ErrorView {
        status: 502,
        code: "provider_access_denied"@,
        message: "The AI provider rejected this request. Check the provider key, endpoint, model access, and account balance or allowlist."@,
    }
}

/// The provider asks to slow down.
pub open spec fn provider_rate_limited() -> ErrorView {
    ErrorView {
        status: 503,
        code: "provider_rate_limited"@,
        message: "The AI provider is rate limiting requests. Wait briefly and try again."@,
    }
}

/// The provider refused the request.
pub open spec fn provider_rejected() -> ErrorView {
    ErrorView {
        status: 502,
        code: "provider_rejected_request"@,
        message: "The AI provider rejected this request. Check the selected model and provider configuration."@,
    }
}

/// The provider does not take tools.
pub open spec fn provider_tool_unsupported() -> ErrorView {
    ErrorView {
        status: 502,
        code: "provider_tool_unsupported"@,
        message: "The selected provider or model does not support native tool calling."@,
    }
}

/// The provider no longer knows the stored conversation. Callers recover from it by sending the
/// whole conversation again.
pub open spec fn provider_chain_stale() -> ErrorView {
    ErrorView {
        status: 502,
        code: "provider_chain_stale"@,
        message: "The provider no longer recognises the stored conversation chain."@,
    }
}

/// The provider could not be reached.
pub open spec fn provider_unavailable() -> ErrorView {
    ErrorView {
        status: 502,
        code: "provider_unavailable"@,
        message: "The AI provider could not be reached."@,
    }
}

/// The provider answered with something that is no answer.
pub open spec fn invalid_provider_reply() -> ErrorView {
    ErrorView {
        status: 502,
        code: "invalid_provider_response"@,
        message: "The AI provider returned an unexpected response."@,
    }
}

impl ErrorView {
    /// The body of the answer.
    pub open spec fn body(self) -> JsonView {
        JsonView::object().with(
            "error"@,
            JsonView::object().with("code"@, JsonView::Str(self.code)).with(
                "message"@,
                JsonView::Str(self.message),
            ),
        )
    }
}

impl ApiError {
    /// The request itself is wrong.
    pub fn bad(message: &str) -> (r: Self)
        ensures
            r@ == bad(message@),
    {
        ApiError { status: 400, code: "invalid_request", message: message.to_owned() }
    }

    /// Nobody is signed in.
    pub fn unauthorized() -> (r: Self)
        ensures
            r@ == unauthorized(),
    {
        ApiError {
            status: 401,
            code: "unauthorized",
            message: "Authentication is required.".to_owned(),
        }
    }

    /// There is no such thing, or it belongs to someone else.
    pub fn not_found() -> (r: Self)
        ensures
            r@ == not_found(),
    {
        ApiError {
            status: 404,
            code: "not_found",
            message: "The requested resource was not found.".to_owned(),
        }
    }

    /// The service does not allow this.
    pub fn forbidden(message: &str) -> (r: Self)
        ensures
            r@ == forbidden(message@),
    {
        ApiError { status: 403, code: "forbidden", message: message.to_owned() }
    }

    /// A run is already active.
    pub fn conflict(message: &str) -> (r: Self)
        ensures
            r@ == conflict(message@),
    {
        ApiError { status: 409, code: "active_run", message: message.to_owned() }
    }

    /// The service itself failed.
    pub fn internal(message: &str) -> (r: Self)
        ensures
            r@ == internal(message@),
    {
        ApiError { status: 500, code: "internal_error", message: message.to_owned() }
    }

    /// The provider did not accept the credentials.
    pub fn provider_access_denied() -> (r: Self)
        ensures
            r@ == provider_access_denied(),
    {
        ApiError {
            status: 502,
            code: "provider_access_denied",
            message: "The AI provider rejected this request. Check the provider key, endpoint, model access, and account balance or allowlist.".to_owned(),
        }
    }

    /// The provider asks to slow down.
    pub fn provider_rate_limited() -> (r: Self)
        ensures
            r@ == provider_rate_limited(),
    {
        ApiError {
            status: 503,
            code: "provider_rate_limited",
            message: "The AI provider is rate limiting requests. Wait briefly and try again.".to_owned(),
        }
    }

    /// The provider refused the request.
    pub fn provider_rejected() -> (r: Self)
        ensures
            r@ == provider_rejected(),
    {
        ApiError {
            status: 502,
            code: "provider_rejected_request",
            message: "The AI provider rejected this request. Check the selected model and provider configuration.".to_owned(),
        }
    }

    /// The provider does not take tools.
    pub fn provider_tool_unsupported() -> (r: Self)
        ensures
            r@ == provider_tool_unsupported(),
    {
        ApiError {
            status: 502,
            code: "provider_tool_unsupported",
            message: "The selected provider or model does not support native tool calling.".to_owned(),
        }
    }

    /// The provider no longer knows the stored conversation.
    pub fn provider_chain_stale() -> (r: Self)
        ensures
            r@ == provider_chain_stale(),
    {
        ApiError {
            status: 502,
            code: "provider_chain_stale",
            message: "The provider no longer recognises the stored conversation chain.".to_owned(),
        }
    }

    /// The provider could not be reached.
    pub fn provider_unavailable() -> (r: Self)
        ensures
            r@ == provider_unavailable(),
    {
        ApiError {
            status: 502,
            code: "provider_unavailable",
            message: "The AI provider could not be reached.".to_owned(),
        }
    }

    /// The database failed.
    pub fn database_failure() -> (r: Self)
        ensures
            r@ == internal("The server could not complete this request."@),
    {
        ApiError::internal("The server could not complete this request.")
    }

    /// The body of the answer.
    pub fn into_response(&self) -> (r: (u16, Json))
        ensures
            r.0 == self.status,
            r.1@ == self@.body(),
    {
        let inner = Json::object().with("code", Json::text(self.code)).with(
            "message",
            Json::text(self.message.as_str()),
        );
        (self.status, Json::object().with("error", inner))
    }
}

// ---------------------------------------------------------------- laws

/// An error answer tells programs the code and people the message, each under its own name.
pub proof fn error_bodies_tell_code_and_message(error: ErrorView)
    ensures
        error.body().at("error"@).at("code"@) == JsonView::Str(error.code),
        error.body().at("error"@).at("message"@) == JsonView::Str(error.message),
{
    names_are_told_apart();
}

/// An error that is told in words of the caller's keeps the words; which of these it is shows in the
/// status and in the code alike.
pub proof fn errors_keep_their_words(message: Seq<char>)
    ensures
        bad(message).message == message,
        forbidden(message).message == message,
        conflict(message).message == message,
        internal(message).message == message,
        bad(message).status == 400,
        unauthorized().status == 401,
        forbidden(message).status == 403,
        not_found().status == 404,
        conflict(message).status == 409,
        internal(message).status == 500,
        bad(message).code == "invalid_request"@,
        unauthorized().code == "unauthorized"@,
        forbidden(message).code == "forbidden"@,
        not_found().code == "not_found"@,
        conflict(message).code == "active_run"@,
        internal(message).code == "internal_error"@,
        unauthorized().message == "Authentication is required."@,
        not_found().message == "The requested resource was not found."@,
{
}

/// What a provider did is never blamed on the client: such errors answer as a bad gateway, or as
/// unavailable where the provider asks to slow down, and each has a code of its own.
pub proof fn provider_errors_are_told_apart()
    ensures
        provider_access_denied().status == 502,
        provider_rate_limited().status == 503,
        provider_rejected().status == 502,
        provider_tool_unsupported().status == 502,
        provider_chain_stale().status == 502,
        provider_unavailable().status == 502,
        invalid_provider_reply().status == 502,
        provider_access_denied().code == "provider_access_denied"@,
        provider_rate_limited().code == "provider_rate_limited"@,
        provider_rejected().code == "provider_rejected_request"@,
        provider_tool_unsupported().code == "provider_tool_unsupported"@,
        provider_chain_stale().code == "provider_chain_stale"@,
        provider_unavailable().code == "provider_unavailable"@,
        invalid_provider_reply().code == "invalid_provider_response"@,
        provider_access_denied().message
            == "The AI provider rejected this request. Check the provider key, endpoint, model access, and account balance or allowlist."@,
        provider_rate_limited().message
            == "The AI provider is rate limiting requests. Wait briefly and try again."@,
        provider_rejected().message
            == "The AI provider rejected this request. Check the selected model and provider configuration."@,
        provider_tool_unsupported().message
            == "The selected provider or model does not support native tool calling."@,
        provider_chain_stale().message
            == "The provider no longer recognises the stored conversation chain."@,
        provider_unavailable().message == "The AI provider could not be reached."@,
        invalid_provider_reply().message == "The AI provider returned an unexpected response."@,
{
}

} // verus!

//! What can go wrong while an agent runs.

use crate::decimal::{decimal, format_natural};
use vstd::prelude::*;
use vstd::string::StringExecFns;

verus! {

/// `async_openai::error::OpenAIError`: the failure of the chat client, which the library
/// hands on and does not look into.
#[verifier::external_type_specification]
#[verifier::external_body]
pub struct ExOpenAIError(async_openai::error::OpenAIError);

/// `serde_json::Error`: the failure of the JSON parser, which the library hands on and
/// does not look into.
#[verifier::external_type_specification]
#[verifier::external_body]
pub struct ExJsonError(serde_json::Error);

/// The model of an [`AgentError`].
pub enum AgentErrorView {
    UpstreamError(async_openai::error::OpenAIError),
    Json(serde_json::Error),
    EmptyResponse,
    NoToolsConfigured,
    ToolNotFound(Seq<char>),
    InvalidArguments(Seq<char>),
    ToolExecutionFailed { name: Seq<char>, cause: Seq<char> },
    MaxIterationsExceeded { max: nat },
    InvalidConfiguration(Seq<char>),
    DuplicateName(Seq<char>),
}

/// A failure of an agent, of its tools or of its configuration.
#[derive(Debug)]
pub enum AgentError {
    /// The chat endpoint could not be reached or answered with a failure.
    UpstreamError(async_openai::error::OpenAIError),
    /// The arguments of a tool call are no JSON.
    Json(serde_json::Error),
    /// The model answered with neither text nor tool calls.
    EmptyResponse,
    /// The model asked for tools, and the agent has none.
    NoToolsConfigured,
    /// No tool has the name.
    ToolNotFound(String),
    /// The arguments do not have the shape that the named tool expects.
    InvalidArguments(String),
    /// The named tool could not be run, or failed.
    ToolExecutionFailed { name: String, cause: String },
    /// The model was asked as often as allowed and still wanted tools.
    MaxIterationsExceeded { max: usize },
    /// A required setting is missing.
    InvalidConfiguration(String),
    /// A tool with the name is registered already.
    DuplicateName(String),
}

impl View for AgentError {
    type V = AgentErrorView;

    open spec fn view(&self) -> AgentErrorView {
        match self {
            AgentError::UpstreamError(e) => AgentErrorView::UpstreamError(*e),
            AgentError::Json(e) => AgentErrorView::Json(*e),
            AgentError::EmptyResponse => AgentErrorView::EmptyResponse,
            AgentError::NoToolsConfigured => AgentErrorView::NoToolsConfigured,
            AgentError::ToolNotFound(name) => AgentErrorView::ToolNotFound(name@),
            AgentError::InvalidArguments(name) => AgentErrorView::InvalidArguments(name@),
            AgentError::ToolExecutionFailed { name, cause } => AgentErrorView::ToolExecutionFailed {
                name: name@,
                cause: cause@,
            },
            AgentError::MaxIterationsExceeded { max } => AgentErrorView::MaxIterationsExceeded {
                max: *max as nat,
            },
            AgentError::InvalidConfiguration(what) => AgentErrorView::InvalidConfiguration(what@),
            AgentError::DuplicateName(name) => AgentErrorView::DuplicateName(name@),
        }
    }
}

impl AgentErrorView {
    /// The failure in words, where `detail` is what an outside failure says of itself.
    pub open spec fn message(self, detail: Seq<char>) -> Seq<char> {
        match self {
            AgentErrorView::UpstreamError(_) => "OpenAI API error: "@ + detail,
            AgentErrorView::Json(_) => "JSON error: "@ + detail,
            AgentErrorView::EmptyResponse => "Agent returned no content or tool calls"@,
            AgentErrorView::NoToolsConfigured =>
                "Agent received tool calls but has no tools configured"@,
            AgentErrorView::ToolNotFound(name) => "Tool not found: "@ + name,
            AgentErrorView::InvalidArguments(name) => "Invalid arguments for tool: "@ + name,
            AgentErrorView::ToolExecutionFailed { name, cause } => "Tool '"@ + name + "' failed: "@
                + cause,
            AgentErrorView::MaxIterationsExceeded { max } => "Agent exceeded maximum iterations: "@
                + decimal(max),
            AgentErrorView::InvalidConfiguration(what) => "Invalid configuration: "@ + what,
            AgentErrorView::DuplicateName(name) => "Duplicate tool name: "@ + name,
        }
    }

    /// Whether the failure holds one of an outside crate, whose words are its own.
    pub open spec fn is_outside(self) -> bool {
        self is UpstreamError || self is Json
    }
}

/// What the failure of the chat client says of itself: `OpenAIError`'s `to_string`.
/// Nothing is claimed of the words.
#[verifier::external_body]
fn upstream_text(e: &async_openai::error::OpenAIError) -> String {
    e.to_string()
}

/// What the failure of the JSON parser says of itself: `serde_json::Error`'s
/// `to_string`. Nothing is claimed of the words.
#[verifier::external_body]
fn json_error_text(e: &serde_json::Error) -> String {
    e.to_string()
}

impl AgentError {
    /// The failure in words.
    pub fn message(&self) -> (r: String)
        ensures
            exists|detail: Seq<char>| r@ == self@.message(detail),
            !self@.is_outside() ==> r@ == self@.message(Seq::empty()),
    {
        match self {
            AgentError::UpstreamError(e) => {
                let detail = upstream_text(e);
                let r = String::from_str("OpenAI API error: ").concat(detail.as_str());
                assert(r@ == self@.message(detail@));
                r
            },
            AgentError::Json(e) => {
                let detail = json_error_text(e);
                let r = String::from_str("JSON error: ").concat(detail.as_str());
                assert(r@ == self@.message(detail@));
                r
            },
            AgentError::EmptyResponse => {
                let r = String::from_str("Agent returned no content or tool calls");
                assert(r@ == self@.message(Seq::empty()));
                r
            },
            AgentError::NoToolsConfigured => {
                let r = String::from_str("Agent received tool calls but has no tools configured");
                assert(r@ == self@.message(Seq::empty()));
                r
            },
            AgentError::ToolNotFound(name) => {
                let r = String::from_str("Tool not found: ").concat(name.as_str());
                assert(r@ == self@.message(Seq::empty()));
                r
            },
            AgentError::InvalidArguments(name) => {
                let r = String::from_str("Invalid arguments for tool: ").concat(name.as_str());
                assert(r@ == self@.message(Seq::empty()));
                r
            },
            AgentError::ToolExecutionFailed { name, cause } => {
                let r = String::from_str("Tool '").concat(name.as_str()).concat(
                    "' failed: ",
                ).concat(cause.as_str());
                assert(r@ == self@.message(Seq::empty()));
                r
            },
            AgentError::MaxIterationsExceeded { max } => {
                let digits = format_natural(*max as u64);
                let r = String::from_str("Agent exceeded maximum iterations: ").concat(
                    digits.as_str(),
                );
                assert(r@ == self@.message(Seq::empty()));
                r
            },
            AgentError::InvalidConfiguration(what) => {
                let r = String::from_str("Invalid configuration: ").concat(what.as_str());
                assert(r@ == self@.message(Seq::empty()));
                r
            },
            AgentError::DuplicateName(name) => {
                let r = String::from_str("Duplicate tool name: ").concat(name.as_str());
                assert(r@ == self@.message(Seq::empty()));
                r
            },
        }
    }
}

impl From<async_openai::error::OpenAIError> for AgentError {
    fn from(e: async_openai::error::OpenAIError) -> (r: AgentError) {
        AgentError::UpstreamError(e)
    }
}

impl vstd::std_specs::convert::FromSpecImpl<async_openai::error::OpenAIError> for AgentError {
    open spec fn obeys_from_spec() -> bool {
        true
    }

    open spec fn from_spec(e: async_openai::error::OpenAIError) -> AgentError {
        AgentError::UpstreamError(e)
    }
}

impl From<serde_json::Error> for AgentError {
    fn from(e: serde_json::Error) -> (r: AgentError) {
        AgentError::Json(e)
    }
}

impl vstd::std_specs::convert::FromSpecImpl<serde_json::Error> for AgentError {
    open spec fn obeys_from_spec() -> bool {
        true
    }

    open spec fn from_spec(e: serde_json::Error) -> AgentError {
        AgentError::Json(e)
    }
}

} // verus!

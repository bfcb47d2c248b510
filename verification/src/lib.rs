//! Typed tools and a bounded agent loop for chat-completion models.
//!
//! A tool is declared by a name, a description and the type of its arguments. From the
//! description of the type the library makes the JSON Schema that the model is told, and
//! against it the library reads the arguments that the model sends. An agent asks the
//! model, runs the tools that the model wants, and asks again, until the model answers
//! in text or the agent has asked as often as it may.

pub mod agent;
pub mod agent_tool;
pub mod codec;
pub mod conversation;
pub mod decimal;
pub mod error;
pub mod json;
pub mod lookup;
pub mod prelude;
pub mod roundtrip;
pub mod schema;
pub mod text;
pub mod tool;
pub mod toolset;
pub mod types;
pub mod value;

pub use agent::{Agent, AgentBuilder, ModelReply, Phase, Run, Step};
pub use agent_tool::{AgentCallArgs, AgentTool};
pub use conversation::{Conversation, Message, ToolCall};
pub use error::AgentError;
pub use json::Json;
pub use tool::{to_pascal_case, StructuredOutput, ToolArg, ToolDefinition};
pub use toolset::{Invocation, ToolSchema, ToolSet};
pub use types::{
    get_desc, ArgumentType, Attribute, Field, NamedType, Payload, TypeDesc, TypeTable, Variant,
};
pub use value::ArgValue;

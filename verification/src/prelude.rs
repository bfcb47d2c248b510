//! The names that most users of the library need.

pub use crate::agent::{Agent, AgentBuilder, ModelReply, Phase, Run, Step};
pub use crate::conversation::Conversation;
pub use crate::error::AgentError;
pub use crate::json::Json;
pub use crate::tool::{StructuredOutput, ToolArg, ToolDefinition};
pub use crate::toolset::ToolSet;
pub use crate::types::{ArgumentType, Field, TypeDesc, TypeTable, Variant};
pub use crate::value::ArgValue;

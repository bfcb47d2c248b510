//! An agent as a tool of another agent.

use crate::agent::{opening, Agent, AgentView, Run, RunView, Step, StepView};
use crate::codec::decode_argument;
use crate::error::{AgentError, AgentErrorView};
use crate::json::{Json, JsonView};
use crate::schema::argument_schema;
use crate::tool::{pascal_case, ToolArg, ToolDefinition, ToolDefinitionView};
use crate::types::{
    ArgumentType, ArgumentTypeView, Field, FieldView, TypeDesc, TypeDescView, TypeTable,
};
use crate::value::{ArgValue, ArgValueView};
use vstd::prelude::*;

verus! {

/// Arguments for calling an agent as a tool.
#[derive(Clone, Debug, PartialEq, Eq)]
pub struct AgentCallArgs {
    /// The message to send to the agent.
    pub message: String,
}

impl AgentCallArgs {
    /// The record that the arguments are: one string, `message`.
    pub open spec fn argument_type_view() -> ArgumentTypeView {
        ArgumentTypeView::Record {
            fields: seq![
                FieldView {
                    name: "message"@,
                    ty: TypeDescView::Text,
                    description: Seq::empty(),
                },
            ],
        }
    }

    /// The description of the arguments.
    pub fn argument_type() -> (r: ArgumentType)
        ensures
            r@ == Self::argument_type_view(),
    {
        let mut fields: Vec<Field> = Vec::new();
        let field = Field {
            name: "message".to_owned(),
            ty: TypeDesc::Text,
            description: String::new(),
        };
        assert(field@.ty == TypeDescView::Text);
        fields.push(field);
        let r = ArgumentType::Record { fields };
        assert(r@->Record_fields =~= Self::argument_type_view()->Record_fields);
        r
    }

    /// The arguments that the value holds: the string of its field `message`.
    pub fn from_value(value: &ArgValue) -> (r: Option<AgentCallArgs>)
        ensures
            match r {
                Some(args) => value@.field("message"@) == Some(ArgValueView::Text(args.message@)),
                None => !(value@.field("message"@) matches Some(ArgValueView::Text(_))),
            },
    {
        match value.field("message") {
            Some(ArgValue::Text(message)) => Some(AgentCallArgs { message: message.clone() }),
            _ => None,
        }
    }
}

impl ToolArg for AgentCallArgs {
    fn schema() -> (r: Json)
        ensures
            r@ == argument_schema(Seq::empty(), Set::empty(), Self::argument_type_view()),
    {
        TypeTable::new().generate(&Self::argument_type())
    }
}

/// The model of an [`AgentTool`].
pub struct AgentToolView {
    pub name: Seq<char>,
    pub description: Seq<char>,
    pub agent: AgentView,
}

/// An agent that stands as a tool among the tools of another agent. The other agent
/// sees the answer only, not what the agent did to arrive at it.
#[derive(Debug)]
pub struct AgentTool {
    name: String,
    description: String,
    agent: Agent,
}

impl View for AgentTool {
    type V = AgentToolView;

    closed spec fn view(&self) -> AgentToolView {
        AgentToolView { name: self.name@, description: self.description@, agent: self.agent@ }
    }
}

/// The model of what beginning a run returned.
pub open spec fn begun_view(r: Result<(Run, Step), AgentError>) -> Result<
    (RunView, StepView),
    AgentErrorView,
> {
    match r {
        Ok((run, step)) => Ok((run@, step@)),
        Err(e) => Err(e@),
    }
}

impl AgentTool {
    /// The agent `agent` as a tool that the calling agent knows as `name`, with
    /// `description` to say what the agent does.
    pub fn new(name: &str, description: &str, agent: Agent) -> (r: AgentTool)
        ensures
            r@ == (AgentToolView { name: name@, description: description@, agent: agent@ }),
    {
        AgentTool { name: name.to_owned(), description: description.to_owned(), agent }
    }

    /// The name that the tool was given.
    pub fn name(&self) -> (r: &String)
        ensures
            r@ == self@.name,
    {
        &self.name
    }

    /// The description that the tool was given.
    pub fn description(&self) -> (r: &String)
        ensures
            r@ == self@.description,
    {
        &self.description
    }

    /// The agent behind the tool.
    pub fn agent(&self) -> (r: &Agent)
        ensures
            r@ == self@.agent,
    {
        &self.agent
    }

    /// The JSON Schema of the tool's arguments: that of [`AgentCallArgs`].
    pub fn parameters() -> (r: Json)
        ensures
            r@ == argument_schema(
                Seq::empty(),
                Set::empty(),
                AgentCallArgs::argument_type_view(),
            ),
    {
        AgentCallArgs::schema()
    }

    /// The tool as it is registered: `agent_call`, which takes an [`AgentCallArgs`].
    pub fn definition() -> (r: ToolDefinition)
        ensures
            r@ == (ToolDefinitionView {
                name: "agent_call"@,
                struct_name: pascal_case("agent_call"@) + "Tool"@,
                description: "Call another agent"@,
                parameters: AgentCallArgs::argument_type_view(),
            }),
    {
        ToolDefinition::new("agent_call", "Call another agent", AgentCallArgs::argument_type())
    }

    /// Begins a private run of the agent on the message that `args` holds, or fails with
    /// `InvalidArguments` where `args` is no [`AgentCallArgs`].
    pub fn call(&self, args: &Json) -> (r: Result<(Run, Step), AgentError>)
        ensures
            begun_view(r) == Self::called(self@.agent, args@),
    {
        let value = TypeTable::new().decode(&AgentCallArgs::argument_type(), args);
        let parsed = match &value {
            Some(value) => AgentCallArgs::from_value(value),
            None => None,
        };
        match parsed {
            Some(parsed) => Ok(self.agent.call_as_tool(parsed.message.as_str())),
            None => Err(AgentError::InvalidArguments("agent_call".to_owned())),
        }
    }

    /// What calling the tool with `args` comes to: the beginning of a run of the agent
    /// on a fresh conversation with the message, where `args` is an object with a string
    /// under `message`.
    pub open spec fn called(agent: AgentView, args: JsonView) -> Result<
        (RunView, StepView),
        AgentErrorView,
    > {
        match decode_argument(Seq::empty(), AgentCallArgs::argument_type_view(), args) {
            Some(value) => match value.field("message"@) {
                Some(ArgValueView::Text(message)) => Ok(
                    agent.begin(opening(agent.system_prompt, message)),
                ),
                _ => Err(AgentErrorView::InvalidArguments("agent_call"@)),
            },
            None => Err(AgentErrorView::InvalidArguments("agent_call"@)),
        }
    }
}

} // verus!

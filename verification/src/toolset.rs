//! The tools of an agent: registered once under distinct names, then looked up by name
//! whenever the model asks for one.

use crate::codec::decode_argument;
use crate::conversation::{ToolCall, ToolCallView};
use crate::error::{AgentError, AgentErrorView};
use crate::json::{parsed_json, Json, JsonView};
use crate::lookup::{lemma_position, lemma_position_found, lemma_position_missing, position};
use crate::schema::argument_schema;
use crate::tool::{tool_names, tool_views, ToolDefinition, ToolDefinitionView};
use crate::types::{NamedTypeView, TypeTable};
use crate::value::{ArgValue, ArgValueView};
use vstd::prelude::*;

verus! {

/// The model of a [`ToolSchema`].
pub struct ToolSchemaView {
    pub name: Seq<char>,
    pub description: Seq<char>,
    pub parameters: JsonView,
}

/// What a request tells the model of one tool: its name, what it does, and the schema
/// of its arguments.
#[derive(Debug, PartialEq, Eq)]
pub struct ToolSchema {
    pub name: String,
    pub description: String,
    pub parameters: Json,
}

impl View for ToolSchema {
    type V = ToolSchemaView;

    open spec fn view(&self) -> ToolSchemaView {
        ToolSchemaView {
            name: self.name@,
            description: self.description@,
            parameters: self.parameters@,
        }
    }
}

/// The models of a list of tool schemas.
pub open spec fn tool_schema_views(schemas: Seq<ToolSchema>) -> Seq<ToolSchemaView> {
    schemas.map_values(|s: ToolSchema| s@)
}

/// The model of an [`Invocation`].
pub struct InvocationView {
    pub tool: int,
    pub name: Seq<char>,
    pub arguments: ArgValueView,
}

/// A tool call that is ready to run: which tool, and its arguments as a typed value.
#[derive(Debug, PartialEq, Eq)]
pub struct Invocation {
    /// The tool's place among the registered tools.
    pub tool: usize,
    /// The tool's name.
    pub name: String,
    /// The arguments, read against the type that the tool expects.
    pub arguments: ArgValue,
}

impl View for Invocation {
    type V = InvocationView;

    open spec fn view(&self) -> InvocationView {
        InvocationView { tool: self.tool as int, name: self.name@, arguments: self.arguments@ }
    }
}

/// The model of a [`ToolSet`].
pub struct ToolSetView {
    pub types: Seq<NamedTypeView>,
    pub tools: Seq<ToolDefinitionView>,
}

impl ToolSetView {
    /// What the tools look like to the model: each with the schema of its arguments.
    pub open spec fn schemas(self) -> Seq<ToolSchemaView> {
        self.tools.map_values(
            |t: ToolDefinitionView|
                ToolSchemaView {
                    name: t.name,
                    description: t.description,
                    parameters: argument_schema(self.types, Set::empty(), t.parameters),
                },
        )
    }

    /// What comes of a request for the tool `name` with the arguments `args`: the
    /// invocation of the tool with its arguments read against the type it expects; or
    /// `ToolNotFound` where no tool has the name; or `InvalidArguments` where the
    /// arguments are not of that type.
    pub open spec fn dispatch(self, name: Seq<char>, args: JsonView) -> Result<
        InvocationView,
        AgentErrorView,
    > {
        match position(tool_names(self.tools), name) {
            Some(i) => match decode_argument(self.types, self.tools[i].parameters, args) {
                Some(arguments) => Ok(InvocationView { tool: i, name, arguments }),
                None => Err(AgentErrorView::InvalidArguments(name)),
            },
            None => Err(AgentErrorView::ToolNotFound(name)),
        }
    }

    /// What comes of a tool call as the model sends it: what [`ToolSetView::dispatch`]
    /// makes of its name and of the JSON that its arguments are; or, where they are no
    /// JSON, `Json` with the parser's failure, which is `parse_failure` here.
    pub open spec fn prepare(self, call: ToolCallView, parse_failure: serde_json::Error) -> Result<
        InvocationView,
        AgentErrorView,
    > {
        match parsed_json(call.arguments) {
            Some(args) => self.dispatch(call.name, args),
            None => Err(AgentErrorView::Json(parse_failure)),
        }
    }
}

/// What a tool's outcome means to the caller: its text, or `ToolExecutionFailed` with
/// the tool's name and what it gave as the cause.
pub open spec fn concluded(name: Seq<char>, outcome: Result<Seq<char>, Seq<char>>) -> Result<
    Seq<char>,
    AgentErrorView,
> {
    match outcome {
        Ok(text) => Ok(text),
        Err(cause) => Err(AgentErrorView::ToolExecutionFailed { name, cause }),
    }
}

/// The model of the outcome of a tool or of a dispatch.
pub open spec fn outcome_view(outcome: Result<String, String>) -> Result<Seq<char>, Seq<char>> {
    match outcome {
        Ok(text) => Ok(text@),
        Err(cause) => Err(cause@),
    }
}

/// The model of what a dispatch returned.
pub open spec fn dispatched_view(r: Result<Invocation, AgentError>) -> Result<
    InvocationView,
    AgentErrorView,
> {
    match r {
        Ok(invocation) => Ok(invocation@),
        Err(e) => Err(e@),
    }
}

/// The model of what a registration returned.
pub open spec fn registered_view(r: Result<(), AgentError>) -> Result<(), AgentErrorView> {
    match r {
        Ok(_) => Ok(()),
        Err(e) => Err(e@),
    }
}

/// The model of a text or a failure.
pub open spec fn answer_view(r: Result<String, AgentError>) -> Result<Seq<char>, AgentErrorView> {
    match r {
        Ok(text) => Ok(text@),
        Err(e) => Err(e@),
    }
}

/// The tools that an agent may run, and the named types that the tools' arguments refer
/// to. No two tools have the same name: that is the type's invariant, which
/// [`ToolSet::len`] states of every set.
#[derive(Debug)]
pub struct ToolSet {
    types: TypeTable,
    tools: Vec<ToolDefinition>,
}

impl View for ToolSet {
    type V = ToolSetView;

    closed spec fn view(&self) -> ToolSetView {
        ToolSetView { types: self.types@, tools: tool_views(self.tools@) }
    }
}

impl ToolSetView {
    /// Whether no two tools have the same name.
    pub open spec fn wf(self) -> bool {
        tool_names(self.tools).no_duplicates()
    }
}

impl ToolSet {
    /// No two tools have the same name.
    #[verifier::type_invariant]
    spec fn names_differ(self) -> bool {
        tool_names(tool_views(self.tools@)).no_duplicates()
    }

    /// A set without tools, over the named types `types`.
    pub fn new(types: TypeTable) -> (r: ToolSet)
        ensures
            r@ == (ToolSetView { types: types@, tools: Seq::empty() }),
            r@.wf(),
    {
        let tools: Vec<ToolDefinition> = Vec::new();
        assert(tool_views(tools@) =~= Seq::<ToolDefinitionView>::empty());
        ToolSet { types, tools }
    }

    /// Where the tool `name` stands in the set.
    fn find(&self, name: &String) -> (r: Option<usize>)
        ensures
            match r {
                Some(i) => position(tool_names(self@.tools), name@) == Some(i as int) && i
                    < self.tools@.len(),
                None => position(tool_names(self@.tools), name@) is None,
            },
    {
        let mut i: usize = 0;
        while i < self.tools.len()
            invariant
                i <= self.tools.len(),
                forall|j: int| 0 <= j < i ==> tool_names(self@.tools)[j] != name@,
            decreases self.tools.len() - i,
        {
            if self.tools[i].name == *name {
                proof {
                    assert(tool_names(self@.tools)[i as int] == name@);
                    lemma_position_found(tool_names(self@.tools), name@, i as int);
                }
                return Some(i);
            }
            i += 1;
        }
        proof {
            lemma_position_missing(tool_names(self@.tools), name@);
        }
        None
    }

    /// Adds `tool` after the tools of the set, unless one of them has its name.
    pub fn register(&mut self, tool: ToolDefinition) -> (r: Result<(), AgentError>)
        ensures
            final(self)@.types == old(self)@.types,
            final(self)@.wf(),
            match position(tool_names(old(self)@.tools), tool@.name) {
                Some(_) => final(self)@ == old(self)@ && registered_view(r) == Err::<
                    (),
                    AgentErrorView,
                >(AgentErrorView::DuplicateName(tool@.name)),
                None => final(self)@.tools == old(self)@.tools.push(tool@) && r is Ok,
            },
    {
        proof {
            use_type_invariant(&*self);
        }
        match self.find(&tool.name) {
            Some(_) => Err(AgentError::DuplicateName(tool.name)),
            None => {
                let ghost before = tool_names(self@.tools);
                proof {
                    lemma_position(before, tool@.name);
                }
                let mut tools: Vec<ToolDefinition> = Vec::new();
                assert(tool_names(tool_views(tools@)) =~= Seq::<Seq<char>>::empty());
                core::mem::swap(&mut self.tools, &mut tools);
                tools.push(tool);
                proof {
                    let after = tool_names(tool_views(tools@));
                    assert(tool_views(tools@) =~= old(self)@.tools.push(tool@));
                    assert(after =~= before.push(tool@.name));
                    assert forall|i: int, j: int|
                        0 <= i < after.len() && 0 <= j < after.len() && i != j implies after[i]
                        != after[j] by {
                        if i < before.len() && j < before.len() {
                            assert(before[i] != before[j]);
                        }
                    }
                }
                core::mem::swap(&mut self.tools, &mut tools);
                Ok(())
            },
        }
    }

    /// How many tools the set holds.
    pub fn len(&self) -> (r: usize)
        ensures
            r == self@.tools.len(),
            self@.wf(),
    {
        proof {
            use_type_invariant(self);
        }
        self.tools.len()
    }

    /// The tools as a request tells the model of them, made anew at each call.
    pub fn tools(&self) -> (r: Vec<ToolSchema>)
        ensures
            tool_schema_views(r@) == self@.schemas(),
    {
        let mut r: Vec<ToolSchema> = Vec::new();
        let mut i: usize = 0;
        while i < self.tools.len()
            invariant
                i <= self.tools.len(),
                tool_schema_views(r@) =~= self@.schemas().take(i as int),
            decreases self.tools.len() - i,
        {
            let tool = &self.tools[i];
            let ghost before = tool_schema_views(r@);
            let schema = ToolSchema {
                name: tool.name.clone(),
                description: tool.description.clone(),
                parameters: self.types.generate(&tool.parameters),
            };
            r.push(schema);
            proof {
                assert(tool_schema_views(r@) =~= before.push(schema@));
                assert(self@.tools[i as int] == self.tools@[i as int]@);
                assert(self@.schemas()[i as int] == schema@);
            }
            i += 1;
        }
        assert(self@.schemas().take(self.tools.len() as int) =~= self@.schemas());
        r
    }

    /// Looks up the tool `name` and reads `args` against the type that it expects. The
    /// caller runs the invocation and hands what came of it to [`ToolSet::conclude`].
    pub fn dispatch(&self, name: &str, args: &Json) -> (r: Result<Invocation, AgentError>)
        ensures
            dispatched_view(r) == self@.dispatch(name@, args@),
    {
        let wanted = name.to_owned();
        match self.find(&wanted) {
            Some(i) => {
                assert(self@.tools[i as int] == self.tools@[i as int]@);
                match self.types.decode(&self.tools[i].parameters, args) {
                    Some(arguments) => Ok(Invocation { tool: i, name: wanted, arguments }),
                    None => Err(AgentError::InvalidArguments(wanted)),
                }
            },
            None => Err(AgentError::ToolNotFound(wanted)),
        }
    }

    /// Reads the arguments of `call` as JSON and dispatches the call. The failure of the
    /// parser, where there is one, is handed on as it came.
    pub fn prepare(&self, call: &ToolCall) -> (r: Result<Invocation, AgentError>)
        ensures
            exists|parse_failure: serde_json::Error| #[trigger]
                self@.prepare(call@, parse_failure) == dispatched_view(r),
    {
        match Json::parse(call.arguments.as_str()) {
            Ok(args) => {
                let r = self.dispatch(call.name.as_str(), &args);
                proof {
                    let any: serde_json::Error = arbitrary();
                    assert(self@.prepare(call@, any) == dispatched_view(r));
                }
                r
            },
            Err(e) => {
                assert(self@.prepare(call@, e->Json_0) == Err::<InvocationView, AgentErrorView>(
                    e@,
                ));
                Err(e)
            },
        }
    }

    /// What the outcome of running the tool `name` means to the caller.
    pub fn conclude(name: &str, outcome: Result<String, String>) -> (r: Result<
        String,
        AgentError,
    >)
        ensures
            answer_view(r) == concluded(name@, outcome_view(outcome)),
    {
        match outcome {
            Ok(text) => Ok(text),
            Err(cause) => Err(AgentError::ToolExecutionFailed { name: name.to_owned(), cause }),
        }
    }
}

} // verus!

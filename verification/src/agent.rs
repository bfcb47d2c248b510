//! An agent: a model, its instructions and its tools, and the bounded loop in which the
//! model is asked, the tools it wants are run, and it is asked again.
//!
//! The library decides; the caller does the waiting. A run begins with [`Agent::run`],
//! [`Agent::run_conversation`] or [`Agent::call_as_tool`], each of which hands back a
//! [`Run`] and the first [`Step`]. The caller sends the conversation to the model where
//! the step says `CallModel` and answers with [`Agent::on_model_event`]; it runs the tool
//! where the step says `InvokeTool` and answers with [`Agent::on_tool_outcome`]; it stops
//! at `Done` or `Failed`.

use crate::conversation::{
    text_view, tool_call_views, Conversation, MessageView, ToolCall, ToolCallView,
};
use crate::error::{AgentError, AgentErrorView};
use crate::toolset::{
    dispatched_view, outcome_view, Invocation, InvocationView, ToolSet, ToolSetView,
};
use vstd::prelude::*;

verus! {

/// How often an agent asks the model where nothing else is configured.
pub const DEFAULT_MAX_ITERATIONS: usize = 10;

/// The model of an [`Agent`].
pub struct AgentView {
    pub model: Seq<char>,
    pub system_prompt: Option<Seq<char>>,
    pub tools: Option<ToolSetView>,
    pub max_iterations: nat,
}

/// An agent's configuration: the model it asks, the instructions it gives, the tools it
/// offers, and how often it asks at most in one run.
#[derive(Debug)]
pub struct Agent {
    model: String,
    system_prompt: Option<String>,
    tools: Option<ToolSet>,
    max_iterations: usize,
}

/// The model of an optional tool set.
pub open spec fn tools_view(tools: Option<ToolSet>) -> Option<ToolSetView> {
    match tools {
        Some(set) => Some(set@),
        None => None,
    }
}

impl View for Agent {
    type V = AgentView;

    closed spec fn view(&self) -> AgentView {
        AgentView {
            model: self.model@,
            system_prompt: text_view(self.system_prompt),
            tools: tools_view(self.tools),
            max_iterations: self.max_iterations as nat,
        }
    }
}

/// Where a run stands.
#[derive(Debug, PartialEq, Eq, Clone, Copy)]
pub enum Phase {
    /// The model has been asked and has not answered.
    AwaitingModel,
    /// The tools that the model asked for are being run, one after the other.
    HandlingToolCalls,
    /// The model gave its answer.
    Done,
    /// The run failed.
    Failed,
}

/// The model of a [`Run`].
pub struct RunView {
    pub conversation: Seq<MessageView>,
    pub phase: Phase,
    /// How often the model has been asked.
    pub iterations: nat,
    /// The tool calls of the model's last answer.
    pub pending: Seq<ToolCallView>,
    /// How many of them have been run.
    pub next: nat,
}

/// One run of the loop: its conversation, and how far it has come.
#[derive(Debug)]
pub struct Run {
    conversation: Conversation,
    phase: Phase,
    iterations: usize,
    pending: Vec<ToolCall>,
    next: usize,
}

impl View for Run {
    type V = RunView;

    closed spec fn view(&self) -> RunView {
        RunView {
            conversation: self.conversation@,
            phase: self.phase,
            iterations: self.iterations as nat,
            pending: tool_call_views(self.pending@),
            next: self.next as nat,
        }
    }
}

/// The model of a [`ModelReply`].
pub struct ModelReplyView {
    pub content: Option<Seq<char>>,
    pub tool_calls: Option<Seq<ToolCallView>>,
}

/// What the model answered: text, tool calls, both or neither.
#[derive(Debug, PartialEq, Eq)]
pub struct ModelReply {
    pub content: Option<String>,
    pub tool_calls: Option<Vec<ToolCall>>,
}

impl View for ModelReply {
    type V = ModelReplyView;

    open spec fn view(&self) -> ModelReplyView {
        ModelReplyView {
            content: text_view(self.content),
            tool_calls: match self.tool_calls {
                Some(calls) => Some(tool_call_views(calls@)),
                None => None,
            },
        }
    }
}

/// The model of what came back from the model: its reply, or the client's failure.
pub open spec fn event_view(event: Result<ModelReply, async_openai::error::OpenAIError>) -> Result<
    ModelReplyView,
    async_openai::error::OpenAIError,
> {
    match event {
        Ok(reply) => Ok(reply@),
        Err(e) => Err(e),
    }
}

/// The model of a [`Step`].
pub enum StepView {
    CallModel,
    InvokeTool(InvocationView),
    Done(Seq<char>),
    Failed(AgentErrorView),
}

/// What the caller of a run is to do next.
#[derive(Debug)]
pub enum Step {
    /// Send the conversation and the tools to the model, and hand the answer to
    /// [`Agent::on_model_event`].
    CallModel,
    /// Run the tool, and hand the outcome to [`Agent::on_tool_outcome`].
    InvokeTool(Invocation),
    /// The run is over: this is the model's answer.
    Done(String),
    /// The run is over: this is why it failed.
    Failed(AgentError),
}

impl View for Step {
    type V = StepView;

    open spec fn view(&self) -> StepView {
        match self {
            Step::CallModel => StepView::CallModel,
            Step::InvokeTool(invocation) => StepView::InvokeTool(invocation@),
            Step::Done(text) => StepView::Done(text@),
            Step::Failed(e) => StepView::Failed(e@),
        }
    }
}

/// The messages that a fresh conversation of an agent begins with: its instructions,
/// where it has any, and the user's message.
pub open spec fn opening(system_prompt: Option<Seq<char>>, message: Seq<char>) -> Seq<
    MessageView,
> {
    match system_prompt {
        Some(prompt) => seq![
            MessageView::System { content: prompt },
            MessageView::User { content: message },
        ],
        None => seq![MessageView::User { content: message }],
    }
}

impl RunView {
    /// The run in another phase.
    pub open spec fn in_phase(self, phase: Phase) -> RunView {
        RunView { phase, ..self }
    }

    /// Whether the run is over.
    pub open spec fn is_over(self) -> bool {
        self.phase is Done || self.phase is Failed
    }
}

impl AgentView {
    /// Whether `run` is a state that a run of this agent can be in: the model has been
    /// asked no more often than allowed, and at least once unless the run has failed;
    /// no more tool calls have been run than the model asked for, and while tools are
    /// run there are tools.
    pub open spec fn admits(self, run: RunView) -> bool {
        &&& run.iterations <= self.max_iterations
        &&& run.next <= run.pending.len()
        &&& run.phase is AwaitingModel ==> run.iterations >= 1
        &&& run.phase is HandlingToolCalls ==> self.tools is Some && run.next < run.pending.len()
    }

    /// The beginning of a run on `conversation`: the model is asked, unless it may not be
    /// asked at all.
    pub open spec fn begin(self, conversation: Seq<MessageView>) -> (RunView, StepView) {
        let run = RunView {
            conversation,
            phase: Phase::AwaitingModel,
            iterations: 1,
            pending: Seq::empty(),
            next: 0,
        };
        if self.max_iterations == 0 {
            (
                RunView { phase: Phase::Failed, iterations: 0, ..run },
                StepView::Failed(AgentErrorView::MaxIterationsExceeded { max: 0 }),
            )
        } else {
            (run, StepView::CallModel)
        }
    }

    /// What a tool call comes to before it is run: the invocation of the tool, where the
    /// arguments are JSON and the tools have one of the name that takes them; else the
    /// failure. A failure to find the tool or to read the arguments is reported as
    /// `ToolExecutionFailed` with the tool's name and the failure in words; arguments
    /// that are no JSON are reported as `Json` with the parser's failure, which is
    /// `parse_failure` here.
    pub open spec fn prepared(
        self,
        call: ToolCallView,
        parse_failure: serde_json::Error,
    ) -> Result<InvocationView, AgentErrorView> {
        match self.tools.unwrap().prepare(call, parse_failure) {
            Ok(invocation) => Ok(invocation),
            Err(AgentErrorView::Json(e)) => Err(AgentErrorView::Json(e)),
            Err(e) => Err(
                AgentErrorView::ToolExecutionFailed {
                    name: call.name,
                    cause: e.message(Seq::empty()),
                },
            ),
        }
    }

    /// The run goes on with the tool call that is next. Where none is left, the model is
    /// asked again, unless it has been asked as often as allowed.
    pub open spec fn advance(self, run: RunView, parse_failure: serde_json::Error) -> (
        RunView,
        StepView,
    ) {
        if run.next >= run.pending.len() {
            if run.iterations >= self.max_iterations {
                (
                    run.in_phase(Phase::Failed),
                    StepView::Failed(
                        AgentErrorView::MaxIterationsExceeded { max: self.max_iterations },
                    ),
                )
            } else {
                (
                    RunView {
                        phase: Phase::AwaitingModel,
                        iterations: run.iterations + 1,
                        ..run
                    },
                    StepView::CallModel,
                )
            }
        } else {
            match self.prepared(run.pending[run.next as int], parse_failure) {
                Ok(invocation) => (
                    run.in_phase(Phase::HandlingToolCalls),
                    StepView::InvokeTool(invocation),
                ),
                Err(e) => (run.in_phase(Phase::Failed), StepView::Failed(e)),
            }
        }
    }

    /// What a run that awaits the model does with what came back. A failure of the
    /// client ends the run. Tool calls are recorded in an assistant message and then
    /// taken up in order; without tools the run fails. Text without tool calls is the
    /// answer. Neither is a failure.
    pub open spec fn after_model(
        self,
        run: RunView,
        event: Result<ModelReplyView, async_openai::error::OpenAIError>,
        parse_failure: serde_json::Error,
    ) -> (RunView, StepView) {
        match event {
            Err(e) => (
                run.in_phase(Phase::Failed),
                StepView::Failed(AgentErrorView::UpstreamError(e)),
            ),
            Ok(reply) => if reply.tool_calls is Some && reply.tool_calls.unwrap().len() > 0 {
                let calls = reply.tool_calls.unwrap();
                let recorded = RunView {
                    conversation: run.conversation.push(
                        MessageView::Assistant { text: reply.content, tool_calls: Some(calls) },
                    ),
                    pending: calls,
                    next: 0,
                    ..run
                };
                if self.tools is None {
                    (
                        recorded.in_phase(Phase::Failed),
                        StepView::Failed(AgentErrorView::NoToolsConfigured),
                    )
                } else {
                    self.advance(recorded, parse_failure)
                }
            } else {
                match reply.content {
                    Some(text) => (run.in_phase(Phase::Done), StepView::Done(text)),
                    None => (
                        run.in_phase(Phase::Failed),
                        StepView::Failed(AgentErrorView::EmptyResponse),
                    ),
                }
            },
        }
    }

    /// What a run that awaits a tool does with the tool's outcome. A result is added to
    /// the conversation as a tool message under the id of the call, and the run goes on
    /// with the next call. A failure ends the run as `ToolExecutionFailed` with the tool's
    /// name and the cause.
    pub open spec fn after_tool(
        self,
        run: RunView,
        outcome: Result<Seq<char>, Seq<char>>,
        parse_failure: serde_json::Error,
    ) -> (RunView, StepView) {
        let call = run.pending[run.next as int];
        match outcome {
            Ok(text) => self.advance(
                RunView {
                    conversation: run.conversation.push(
                        MessageView::Tool { tool_call_id: call.id, content: text },
                    ),
                    next: run.next + 1,
                    ..run
                },
                parse_failure,
            ),
            Err(cause) => (
                run.in_phase(Phase::Failed),
                StepView::Failed(AgentErrorView::ToolExecutionFailed { name: call.name, cause }),
            ),
        }
    }
}

impl AgentView {
    /// What a run may still do, in two parts of which the first counts more: twice the
    /// number of times that the model may still be asked, and one more while it is being
    /// asked; and the number of tool calls that are still to be run.
    pub open spec fn budget(self, run: RunView) -> (int, int) {
        (
            2 * (self.max_iterations - run.iterations) + if run.phase is AwaitingModel {
                1int
            } else {
                0int
            },
            run.pending.len() - run.next,
        )
    }

    /// Whether a run that went from `before` to `after` has less left to do.
    pub open spec fn progressed(self, before: RunView, after: RunView) -> bool {
        let (asks, calls) = self.budget(before);
        let (asks_left, calls_left) = self.budget(after);
        &&& 0 <= asks_left && 0 <= calls_left
        &&& asks_left < asks || (asks_left == asks && calls_left < calls)
    }

    /// Whether `step` and the state `after` that a run came to agree: the run is over
    /// exactly where the step says so, it awaits the model exactly where the step is to
    /// ask it, and where the step is to ask it the model has been asked once more than
    /// in `before`, else as often.
    pub open spec fn agrees(self, before: RunView, after: RunView, step: StepView) -> bool {
        &&& step is Done <==> after.phase is Done
        &&& step is Failed <==> after.phase is Failed
        &&& step is CallModel <==> after.phase is AwaitingModel
        &&& step is InvokeTool <==> after.phase is HandlingToolCalls
        &&& after.iterations == before.iterations + if step is CallModel {
            1int
        } else {
            0int
        }
    }
}

/// A run begins in a state that the agent admits, and has asked the model once or not
/// at all.
pub proof fn lemma_run_begins(agent: AgentView, conversation: Seq<MessageView>)
    ensures
        agent.admits(agent.begin(conversation).0),
        agent.begin(conversation).0.conversation == conversation,
        agent.begin(conversation).1 is CallModel <==> agent.max_iterations > 0,
        agent.begin(conversation).1 is CallModel || agent.begin(conversation).1
            == StepView::Failed(AgentErrorView::MaxIterationsExceeded { max: 0 }),
{
}

/// Whatever the model answers, a run that awaits it stays within what the agent admits:
/// the model is never asked more often than the agent allows. The run is then over, or
/// it has less left to do than before; so no run goes on for ever.
pub proof fn lemma_model_event_bounded(
    agent: AgentView,
    run: RunView,
    event: Result<ModelReplyView, async_openai::error::OpenAIError>,
    parse_failure: serde_json::Error,
)
    requires
        agent.admits(run),
        run.phase is AwaitingModel,
    ensures
        ({
            let (after, step) = agent.after_model(run, event, parse_failure);
            &&& agent.admits(after)
            &&& after.iterations <= agent.max_iterations
            &&& agent.agrees(run, after, step)
            &&& after.is_over() || agent.progressed(run, after)
        }),
{
}

/// Whatever a tool returns, a run that awaits it stays within what the agent admits. The
/// run is then over, or it has less left to do than before. It ends with
/// `MaxIterationsExceeded` exactly where the tool was the last of its batch and gave a
/// result, and the model has been asked as often as the agent allows.
pub proof fn lemma_tool_outcome_bounded(
    agent: AgentView,
    run: RunView,
    outcome: Result<Seq<char>, Seq<char>>,
    parse_failure: serde_json::Error,
)
    requires
        agent.admits(run),
        run.phase is HandlingToolCalls,
    ensures
        ({
            let (after, step) = agent.after_tool(run, outcome, parse_failure);
            &&& agent.admits(after)
            &&& after.iterations <= agent.max_iterations
            &&& agent.agrees(run, after, step)
            &&& after.is_over() || agent.progressed(run, after)
            &&& step == StepView::Failed(
                AgentErrorView::MaxIterationsExceeded { max: agent.max_iterations },
            ) <==> outcome is Ok && run.next + 1 == run.pending.len() && run.iterations
                == agent.max_iterations
        }),
{
}

/// A private call is isolated. The run that `call_as_tool` begins starts from the
/// callee's instructions and the message alone, whatever its caller's conversation
/// holds; and a caller that awaits the call gets the answer as one tool message under
/// the id of the call at the end of its conversation, which is otherwise as it was.
pub proof fn lemma_private_call_isolated(
    callee: AgentView,
    message: Seq<char>,
    caller: AgentView,
    outer: RunView,
    answer: Seq<char>,
    parse_failure: serde_json::Error,
)
    requires
        caller.admits(outer),
        outer.phase is HandlingToolCalls,
    ensures
        callee.begin(opening(callee.system_prompt, message)).0.conversation == opening(
            callee.system_prompt,
            message,
        ),
        caller.after_tool(outer, Ok(answer), parse_failure).0.conversation
            == outer.conversation.push(
            MessageView::Tool {
                tool_call_id: outer.pending[outer.next as int].id,
                content: answer,
            },
        ),
{
}

/// A copy of the tool calls.
fn duplicate_calls(calls: &Vec<ToolCall>) -> (r: Vec<ToolCall>)
    ensures
        tool_call_views(r@) == tool_call_views(calls@),
{
    let mut r: Vec<ToolCall> = Vec::new();
    let mut i: usize = 0;
    while i < calls.len()
        invariant
            i <= calls.len(),
            tool_call_views(r@) =~= tool_call_views(calls@).take(i as int),
        decreases calls.len() - i,
    {
        let ghost before = tool_call_views(r@);
        let copy = calls[i].clone();
        r.push(copy);
        assert(tool_call_views(r@) =~= before.push(copy@));
        i += 1;
    }
    assert(tool_call_views(calls@).take(calls.len() as int) =~= tool_call_views(calls@));
    r
}

impl Run {
    /// The conversation of the run.
    pub fn conversation(&self) -> (r: &Conversation)
        ensures
            r@ == self@.conversation,
    {
        &self.conversation
    }

    /// The conversation of the run, which is given up.
    pub fn into_conversation(self) -> (r: Conversation)
        ensures
            r@ == self@.conversation,
    {
        self.conversation
    }

    /// Where the run stands.
    pub fn phase(&self) -> (r: Phase)
        ensures
            r == self@.phase,
    {
        self.phase
    }

    /// How often the model has been asked.
    pub fn iterations(&self) -> (r: usize)
        ensures
            r == self@.iterations,
    {
        self.iterations
    }

    /// The tool call that is being run, while tools are run.
    pub fn current_call(&self) -> (r: Option<&ToolCall>)
        ensures
            match r {
                Some(call) => self@.next < self@.pending.len() && call@
                    == self@.pending[self@.next as int],
                None => self@.next >= self@.pending.len(),
            },
    {
        if self.next < self.pending.len() {
            assert(tool_call_views(self.pending@)[self.next as int]
                == self.pending@[self.next as int]@);
            Some(&self.pending[self.next])
        } else {
            None
        }
    }
}

impl Agent {
    /// A builder of agents.
    pub fn builder() -> (r: AgentBuilder)
        ensures
            r@ == AgentBuilderView::empty(),
    {
        AgentBuilder::new()
    }

    /// The name of the model that the agent asks.
    pub fn model(&self) -> (r: &String)
        ensures
            r@ == self@.model,
    {
        &self.model
    }

    /// The agent's tools.
    pub fn tools(&self) -> (r: Option<&ToolSet>)
        ensures
            match r {
                Some(set) => self@.tools == Some(set@),
                None => self@.tools is None,
            },
    {
        self.tools.as_ref()
    }

    /// How often the agent asks the model at most in one run.
    pub fn max_iterations(&self) -> (r: usize)
        ensures
            r == self@.max_iterations,
    {
        self.max_iterations
    }

    /// The instructions that the agent's fresh conversations begin with.
    pub fn system_prompt(&self) -> (r: Option<&String>)
        ensures
            match r {
                Some(prompt) => self@.system_prompt == Some(prompt@),
                None => self@.system_prompt is None,
            },
    {
        self.system_prompt.as_ref()
    }

    /// Whether `run` is a state that a run of this agent can be in.
    pub fn admits(&self, run: &Run) -> (r: bool)
        ensures
            r == self@.admits(run@),
    {
        run.iterations <= self.max_iterations && run.next <= run.pending.len() && (match run.phase {
            Phase::AwaitingModel => run.iterations >= 1,
            Phase::HandlingToolCalls => self.tools.is_some() && run.next < run.pending.len(),
            _ => true,
        })
    }

    /// A fresh conversation: the agent's instructions, where it has any, and `message`.
    fn open_conversation(&self, message: &str) -> (r: Conversation)
        ensures
            r@ == opening(self@.system_prompt, message@),
    {
        let mut conversation = match &self.system_prompt {
            Some(prompt) => Conversation::with_system(prompt.as_str()),
            None => Conversation::new(),
        };
        conversation.add_user_message(message);
        assert(conversation@ =~= opening(self@.system_prompt, message@));
        conversation
    }

    /// Begins a run on a fresh conversation that holds the agent's instructions and the
    /// user's `message`.
    pub fn run(&self, message: &str) -> (r: (Run, Step))
        ensures
            (r.0@, r.1@) == self@.begin(opening(self@.system_prompt, message@)),
            self@.admits(r.0@),
    {
        self.run_conversation(self.open_conversation(message))
    }

    /// Begins a run on `conversation`, which goes on from the messages it holds. The
    /// conversation comes back from the run with what was added.
    pub fn run_conversation(&self, conversation: Conversation) -> (r: (Run, Step))
        ensures
            (r.0@, r.1@) == self@.begin(conversation@),
            self@.admits(r.0@),
    {
        self.execute_loop(conversation)
    }

    /// Begins a run for another agent that uses this one as a tool. The run has a
    /// conversation of its own, made of this agent's instructions and of `message` alone;
    /// what its caller gets to see is the answer that the run ends with.
    pub fn call_as_tool(&self, message: &str) -> (r: (Run, Step))
        ensures
            (r.0@, r.1@) == self@.begin(opening(self@.system_prompt, message@)),
            self@.admits(r.0@),
    {
        self.execute_loop(self.open_conversation(message))
    }

    /// Begins the loop on `conversation`.
    fn execute_loop(&self, conversation: Conversation) -> (r: (Run, Step))
        ensures
            (r.0@, r.1@) == self@.begin(conversation@),
            self@.admits(r.0@),
    {
        let pending: Vec<ToolCall> = Vec::new();
        assert(tool_call_views(pending@) =~= Seq::<ToolCallView>::empty());
        if self.max_iterations == 0 {
            (
                Run { conversation, phase: Phase::Failed, iterations: 0, pending, next: 0 },
                Step::Failed(AgentError::MaxIterationsExceeded { max: 0 }),
            )
        } else {
            (
                Run { conversation, phase: Phase::AwaitingModel, iterations: 1, pending, next: 0 },
                Step::CallModel,
            )
        }
    }

    /// Reads the arguments of `call` and looks up its tool.
    fn prepare(&self, call: &ToolCall) -> (r: Result<Invocation, AgentError>)
        requires
            self@.tools is Some,
        ensures
            exists|f: serde_json::Error| #[trigger]
                self@.prepared(call@, f) == dispatched_view(r),
    {
        let tools = match &self.tools {
            Some(tools) => tools,
            None => {
                return Err(AgentError::NoToolsConfigured);
            },
        };
        let prepared = tools.prepare(call);
        let ghost f = choose|f: serde_json::Error| #[trigger]
            tools@.prepare(call@, f) == dispatched_view(prepared);
        let r = match prepared {
            Ok(invocation) => Ok(invocation),
            Err(AgentError::Json(e)) => Err(AgentError::Json(e)),
            Err(e) => Err(
                AgentError::ToolExecutionFailed { name: call.name.clone(), cause: e.message() },
            ),
        };
        assert(self@.prepared(call@, f) == dispatched_view(r));
        r
    }

    /// Goes on with the tool call that is next, or asks the model again.
    fn advance(&self, run: &mut Run) -> (step: Step)
        requires
            self@.tools is Some,
            old(run)@.next <= old(run)@.pending.len(),
        ensures
            exists|f: serde_json::Error| #[trigger]
                self@.advance(old(run)@, f) == (final(run)@, step@),
    {
        if run.next >= run.pending.len() {
            let ghost f: serde_json::Error = arbitrary();
            if run.iterations >= self.max_iterations {
                run.phase = Phase::Failed;
                assert(self@.advance(old(run)@, f) == (run@, StepView::Failed(
                    AgentErrorView::MaxIterationsExceeded { max: self@.max_iterations },
                )));
                Step::Failed(AgentError::MaxIterationsExceeded { max: self.max_iterations })
            } else {
                run.phase = Phase::AwaitingModel;
                run.iterations = run.iterations + 1;
                assert(self@.advance(old(run)@, f) == (run@, StepView::CallModel));
                Step::CallModel
            }
        } else {
            assert(tool_call_views(run.pending@)[run.next as int]
                == run.pending@[run.next as int]@);
            let prepared = self.prepare(&run.pending[run.next]);
            let ghost f = choose|f: serde_json::Error| #[trigger]
                self@.prepared(run.pending@[run.next as int]@, f) == dispatched_view(prepared);
            match prepared {
                Ok(invocation) => {
                    run.phase = Phase::HandlingToolCalls;
                    assert(self@.advance(old(run)@, f) == (run@, StepView::InvokeTool(
                        invocation@,
                    )));
                    Step::InvokeTool(invocation)
                },
                Err(e) => {
                    run.phase = Phase::Failed;
                    assert(self@.advance(old(run)@, f) == (run@, StepView::Failed(e@)));
                    Step::Failed(e)
                },
            }
        }
    }

    /// Takes what came back from the model into a run that awaits it, and says what is to
    /// be done next. Of `parse_failure` see [`AgentView::prepared`]. A run that the agent
    /// admits stays one, and the step says where it stands.
    pub fn on_model_event(
        &self,
        run: &mut Run,
        event: Result<ModelReply, async_openai::error::OpenAIError>,
    ) -> (step: Step)
        requires
            old(run)@.phase is AwaitingModel,
        ensures
            exists|parse_failure: serde_json::Error| #[trigger]
                self@.after_model(old(run)@, event_view(event), parse_failure) == (
                    final(run)@,
                    step@,
                ),
            self@.admits(old(run)@) ==> self@.admits(final(run)@) && self@.agrees(
                old(run)@,
                final(run)@,
                step@,
            ),
    {
        let step = self.take_model_event(run, event);
        proof {
            let f = choose|f: serde_json::Error| #[trigger]
                self@.after_model(old(run)@, event_view(event), f) == (run@, step@);
            if self@.admits(old(run)@) {
                lemma_model_event_bounded(self@, old(run)@, event_view(event), f);
            }
        }
        step
    }

    /// Takes what came back from the model into a run that awaits it.
    fn take_model_event(
        &self,
        run: &mut Run,
        event: Result<ModelReply, async_openai::error::OpenAIError>,
    ) -> (step: Step)
        requires
            old(run)@.phase is AwaitingModel,
        ensures
            exists|parse_failure: serde_json::Error| #[trigger]
                self@.after_model(old(run)@, event_view(event), parse_failure) == (
                    final(run)@,
                    step@,
                ),
    {
        let ghost any: serde_json::Error = arbitrary();
        let reply = match event {
            Ok(reply) => reply,
            Err(e) => {
                run.phase = Phase::Failed;
                assert(self@.after_model(old(run)@, event_view(event), any) == (
                    run@,
                    StepView::Failed(AgentErrorView::UpstreamError(e)),
                ));
                return Step::Failed(AgentError::UpstreamError(e));
            },
        };
        match reply.tool_calls {
            Some(calls) if calls.len() > 0 => {
                run.pending = duplicate_calls(&calls);
                run.next = 0;
                run.conversation.add_assistant_message_with_tools(reply.content, calls);
                if self.tools.is_none() {
                    run.phase = Phase::Failed;
                    assert(self@.after_model(old(run)@, event_view(event), any) == (
                        run@,
                        StepView::Failed(AgentErrorView::NoToolsConfigured),
                    ));
                    return Step::Failed(AgentError::NoToolsConfigured);
                }
                let ghost recorded = run@;
                let step = self.advance(run);
                proof {
                    let f = choose|f: serde_json::Error| #[trigger]
                        self@.advance(recorded, f) == (run@, step@);
                    assert(self@.after_model(old(run)@, event_view(event), f) == (run@, step@));
                }
                step
            },
            _ => match reply.content {
                Some(text) => {
                    run.phase = Phase::Done;
                    assert(self@.after_model(old(run)@, event_view(event), any) == (
                        run@,
                        StepView::Done(text@),
                    ));
                    Step::Done(text)
                },
                None => {
                    run.phase = Phase::Failed;
                    assert(self@.after_model(old(run)@, event_view(event), any) == (
                        run@,
                        StepView::Failed(AgentErrorView::EmptyResponse),
                    ));
                    Step::Failed(AgentError::EmptyResponse)
                },
            },
        }
    }

    /// Takes the outcome of the tool that was run into a run that awaits it, and says
    /// what is to be done next. Of `parse_failure` see [`AgentView::prepared`]. The run
    /// stays one that the agent admits, and the step says where it stands.
    pub fn on_tool_outcome(&self, run: &mut Run, outcome: Result<String, String>) -> (step: Step)
        requires
            old(run)@.phase is HandlingToolCalls,
            self@.admits(old(run)@),
        ensures
            exists|parse_failure: serde_json::Error| #[trigger]
                self@.after_tool(old(run)@, outcome_view(outcome), parse_failure) == (
                    final(run)@,
                    step@,
                ),
            self@.admits(final(run)@),
            self@.agrees(old(run)@, final(run)@, step@),
    {
        let step = self.take_tool_outcome(run, outcome);
        proof {
            let f = choose|f: serde_json::Error| #[trigger]
                self@.after_tool(old(run)@, outcome_view(outcome), f) == (run@, step@);
            lemma_tool_outcome_bounded(self@, old(run)@, outcome_view(outcome), f);
        }
        step
    }

    /// Takes the outcome of the tool that was run into a run that awaits it.
    fn take_tool_outcome(&self, run: &mut Run, outcome: Result<String, String>) -> (step: Step)
        requires
            old(run)@.phase is HandlingToolCalls,
            self@.admits(old(run)@),
        ensures
            exists|parse_failure: serde_json::Error| #[trigger]
                self@.after_tool(old(run)@, outcome_view(outcome), parse_failure) == (
                    final(run)@,
                    step@,
                ),
    {
        assert(run.next < run.pending.len());
        assert(tool_call_views(run.pending@)[run.next as int] == run.pending@[run.next as int]@);
        match outcome {
            Ok(text) => {
                run.conversation.add_tool_message(
                    run.pending[run.next].id.as_str(),
                    text.as_str(),
                );
                run.next = run.next + 1;
                let ghost added = run@;
                let step = self.advance(run);
                proof {
                    let f = choose|f: serde_json::Error| #[trigger]
                        self@.advance(added, f) == (run@, step@);
                    assert(self@.after_tool(
                        old(run)@,
                        outcome_view(outcome),
                        f,
                    ) == (run@, step@));
                }
                step
            },
            Err(cause) => {
                let ghost any: serde_json::Error = arbitrary();
                let name = run.pending[run.next].name.clone();
                run.phase = Phase::Failed;
                assert(self@.after_tool(old(run)@, outcome_view(outcome), any)
                    == (run@, StepView::Failed(
                    AgentErrorView::ToolExecutionFailed { name: name@, cause: cause@ },
                )));
                Step::Failed(AgentError::ToolExecutionFailed { name, cause })
            },
        }
    }
}

/// The model of an [`AgentBuilder`].
pub struct AgentBuilderView {
    pub model: Option<Seq<char>>,
    pub system_prompt: Option<Seq<char>>,
    pub tools: Option<ToolSetView>,
    pub max_iterations: Option<nat>,
}

impl AgentBuilderView {
    /// The builder in which nothing is set.
    pub open spec fn empty() -> AgentBuilderView {
        AgentBuilderView { model: None, system_prompt: None, tools: None, max_iterations: None }
    }

    /// The agent that the builder makes, if a model is set: with the settings of the
    /// builder, and with the default number of iterations where none is set.
    pub open spec fn built(self) -> Result<AgentView, AgentErrorView> {
        match self.model {
            Some(model) => Ok(
                AgentView {
                    model,
                    system_prompt: self.system_prompt,
                    tools: self.tools,
                    max_iterations: match self.max_iterations {
                        Some(max) => max,
                        None => DEFAULT_MAX_ITERATIONS as nat,
                    },
                },
            ),
            None => Err(AgentErrorView::InvalidConfiguration("Model must be specified"@)),
        }
    }
}

/// Collects the settings of an agent.
#[derive(Debug)]
pub struct AgentBuilder {
    model: Option<String>,
    system_prompt: Option<String>,
    tools: Option<ToolSet>,
    max_iterations: Option<usize>,
}

impl View for AgentBuilder {
    type V = AgentBuilderView;

    closed spec fn view(&self) -> AgentBuilderView {
        AgentBuilderView {
            model: text_view(self.model),
            system_prompt: text_view(self.system_prompt),
            tools: tools_view(self.tools),
            max_iterations: match self.max_iterations {
                Some(max) => Some(max as nat),
                None => None,
            },
        }
    }
}

/// The model of what a builder returned.
pub open spec fn built_view(r: Result<Agent, AgentError>) -> Result<AgentView, AgentErrorView> {
    match r {
        Ok(agent) => Ok(agent@),
        Err(e) => Err(e@),
    }
}

impl AgentBuilder {
    /// A builder in which nothing is set.
    pub fn new() -> (r: AgentBuilder)
        ensures
            r@ == AgentBuilderView::empty(),
    {
        AgentBuilder { model: None, system_prompt: None, tools: None, max_iterations: None }
    }

    /// Sets the model to ask.
    pub fn model(self, model: &str) -> (r: AgentBuilder)
        ensures
            r@ == (AgentBuilderView { model: Some(model@), ..self@ }),
    {
        let mut r = self;
        r.model = Some(model.to_owned());
        r
    }

    /// Sets the instructions that each fresh conversation begins with.
    pub fn system_prompt(self, prompt: &str) -> (r: AgentBuilder)
        ensures
            r@ == (AgentBuilderView { system_prompt: Some(prompt@), ..self@ }),
    {
        let mut r = self;
        r.system_prompt = Some(prompt.to_owned());
        r
    }

    /// Sets the tools that the agent offers.
    pub fn tools(self, tools: ToolSet) -> (r: AgentBuilder)
        ensures
            r@ == (AgentBuilderView { tools: Some(tools@), ..self@ }),
    {
        let mut r = self;
        r.tools = Some(tools);
        r
    }

    /// Sets how often the model is asked at most in one run.
    pub fn max_iterations(self, max: usize) -> (r: AgentBuilder)
        ensures
            r@ == (AgentBuilderView { max_iterations: Some(max as nat), ..self@ }),
    {
        let mut r = self;
        r.max_iterations = Some(max);
        r
    }

    /// Makes the agent, or fails with `InvalidConfiguration` where no model is set.
    pub fn build(self) -> (r: Result<Agent, AgentError>)
        ensures
            built_view(r) == self@.built(),
    {
        let model = match self.model {
            Some(model) => model,
            None => {
                return Err(
                    AgentError::InvalidConfiguration("Model must be specified".to_owned()),
                );
            },
        };
        let max_iterations = match self.max_iterations {
            Some(max) => max,
            None => DEFAULT_MAX_ITERATIONS,
        };
        Ok(Agent { model, system_prompt: self.system_prompt, tools: self.tools, max_iterations })
    }
}

impl Default for AgentBuilder {
    fn default() -> (r: AgentBuilder)
        ensures
            r@ == AgentBuilderView::empty(),
    {
        AgentBuilder::new()
    }
}

} // verus!

use aiform::{
    Agent, AgentBuilder, AgentError, AgentTool, ArgumentType, Conversation, Field, Invocation,
    Json, Message, ModelReply, Phase, Run, Step, ToolCall, ToolDefinition, ToolSet, TypeDesc,
    TypeTable,
};
use async_openai::error::OpenAIError;

type Event = Result<ModelReply, OpenAIError>;

fn add_tools() -> ToolSet {
    let mut tools = ToolSet::new(TypeTable::new());
    tools
        .register(ToolDefinition::new(
            "add",
            "Add two integers",
            ArgumentType::record(vec![
                Field::new("a", TypeDesc::Integer),
                Field::new("b", TypeDesc::Integer),
            ]),
        ))
        .unwrap();
    tools
}

fn add(invocation: &Invocation) -> Result<String, String> {
    assert_eq!(invocation.name, "add");
    let a = invocation.arguments.field("a").unwrap().as_integer().unwrap();
    let b = invocation.arguments.field("b").unwrap().as_integer().unwrap();
    Ok((a + b).to_string())
}

fn wants(id: &str, name: &str, arguments: &str) -> Event {
    Ok(ModelReply {
        content: None,
        tool_calls: Some(vec![ToolCall {
            id: id.to_string(),
            name: name.to_string(),
            arguments: arguments.to_string(),
        }]),
    })
}

fn says(text: &str) -> Event {
    Ok(ModelReply { content: Some(text.to_string()), tool_calls: None })
}

/// Runs the loop as a caller does: asks `model` where the step says so, runs `tool`
/// where the step says so. Returns how the run ended, its conversation, and how often
/// the model was asked.
fn drive(
    agent: &Agent,
    begun: (Run, Step),
    model: &mut dyn FnMut(&Conversation) -> Event,
    tool: &mut dyn FnMut(&Invocation) -> Result<String, String>,
) -> (Result<String, AgentError>, Conversation, usize) {
    let (mut run, mut step) = begun;
    let mut asked = 0;
    loop {
        step = match step {
            Step::CallModel => {
                assert_eq!(run.phase(), Phase::AwaitingModel);
                asked += 1;
                assert_eq!(run.iterations(), asked);
                let event = model(run.conversation());
                agent.on_model_event(&mut run, event)
            }
            Step::InvokeTool(invocation) => {
                assert_eq!(run.phase(), Phase::HandlingToolCalls);
                assert_eq!(run.current_call().unwrap().name, invocation.name);
                let outcome = tool(&invocation);
                agent.on_tool_outcome(&mut run, outcome)
            }
            Step::Done(text) => {
                assert_eq!(run.phase(), Phase::Done);
                return (Ok(text), run.into_conversation(), asked);
            }
            Step::Failed(e) => {
                assert_eq!(run.phase(), Phase::Failed);
                return (Err(e), run.into_conversation(), asked);
            }
        };
    }
}

#[test]
fn run_adds_with_a_tool_and_answers() {
    let agent = Agent::builder().model("gpt-4").tools(add_tools()).build().unwrap();
    let mut round = 0;
    let mut model = |conversation: &Conversation| {
        round += 1;
        if round == 1 {
            assert_eq!(conversation.len(), 1);
            wants("call_1", "add", "{\"a\":2,\"b\":2}")
        } else {
            assert_eq!(
                conversation.messages().last(),
                Some(&Message::Tool {
                    tool_call_id: "call_1".to_string(),
                    content: "4".to_string()
                })
            );
            says("The answer is 4")
        }
    };
    let (result, conversation, asked) =
        drive(&agent, agent.run("What is 2 + 2?"), &mut model, &mut add);
    assert_eq!(result.unwrap(), "The answer is 4");
    assert_eq!(asked, 2);
    assert_eq!(
        conversation.messages(),
        &[
            Message::User { content: "What is 2 + 2?".to_string() },
            Message::Assistant {
                text: None,
                tool_calls: Some(vec![ToolCall {
                    id: "call_1".to_string(),
                    name: "add".to_string(),
                    arguments: "{\"a\":2,\"b\":2}".to_string(),
                }]),
            },
            Message::Tool { tool_call_id: "call_1".to_string(), content: "4".to_string() },
        ]
    );
}

#[test]
fn run_stops_after_max_iterations() {
    let agent =
        Agent::builder().model("gpt-4").tools(add_tools()).max_iterations(1).build().unwrap();
    let mut model = |_: &Conversation| wants("call_1", "add", "{\"a\":2,\"b\":2}");
    let (result, conversation, asked) = drive(&agent, agent.run("again"), &mut model, &mut add);
    assert!(matches!(result, Err(AgentError::MaxIterationsExceeded { max: 1 })));
    assert_eq!(asked, 1);
    assert_eq!(conversation.len(), 3);
}

#[test]
fn run_asks_the_model_at_most_ten_times_by_default() {
    let agent = Agent::builder().model("gpt-4").tools(add_tools()).build().unwrap();
    assert_eq!(agent.max_iterations(), 10);
    let mut model = |_: &Conversation| wants("call_1", "add", "{\"a\":1,\"b\":1}");
    let (result, conversation, asked) = drive(&agent, agent.run("again"), &mut model, &mut add);
    assert!(matches!(result, Err(AgentError::MaxIterationsExceeded { max: 10 })));
    assert_eq!(asked, 10);
    assert_eq!(conversation.len(), 21);
}

#[test]
fn run_with_no_iterations_fails_at_once() {
    let agent = Agent::builder().model("gpt-4").max_iterations(0).build().unwrap();
    let (run, step) = agent.run("hello");
    assert!(matches!(step, Step::Failed(AgentError::MaxIterationsExceeded { max: 0 })));
    assert_eq!(run.phase(), Phase::Failed);
    assert_eq!(run.iterations(), 0);
}

#[test]
fn run_handles_the_calls_of_a_batch_in_order() {
    let agent = Agent::builder().model("gpt-4").tools(add_tools()).build().unwrap();
    let mut round = 0;
    let mut model = |_: &Conversation| {
        round += 1;
        if round == 1 {
            Ok(ModelReply {
                content: Some("Let me add".to_string()),
                tool_calls: Some(vec![
                    ToolCall {
                        id: "first".to_string(),
                        name: "add".to_string(),
                        arguments: "{\"a\":1,\"b\":2}".to_string(),
                    },
                    ToolCall {
                        id: "second".to_string(),
                        name: "add".to_string(),
                        arguments: "{\"a\":-3,\"b\":10}".to_string(),
                    },
                ]),
            })
        } else {
            says("3 and 7")
        }
    };
    let (result, conversation, asked) = drive(&agent, agent.run("add"), &mut model, &mut add);
    assert_eq!(result.unwrap(), "3 and 7");
    assert_eq!(asked, 2);
    let messages = conversation.messages();
    assert_eq!(messages.len(), 4);
    assert!(matches!(&messages[1], Message::Assistant { text: Some(t), tool_calls: Some(c) }
        if t == "Let me add" && c.len() == 2));
    assert_eq!(
        messages[2],
        Message::Tool { tool_call_id: "first".to_string(), content: "3".to_string() }
    );
    assert_eq!(
        messages[3],
        Message::Tool { tool_call_id: "second".to_string(), content: "7".to_string() }
    );
}

#[test]
fn upstream_failure_ends_the_run() {
    let agent = Agent::builder().model("gpt-4").build().unwrap();
    let mut model =
        |_: &Conversation| -> Event { Err(OpenAIError::InvalidArgument("no key".to_string())) };
    let (result, conversation, asked) = drive(&agent, agent.run("hello"), &mut model, &mut add);
    match result {
        Err(AgentError::UpstreamError(OpenAIError::InvalidArgument(what))) => {
            assert_eq!(what, "no key")
        }
        other => panic!("unexpected: {:?}", other),
    }
    assert_eq!(asked, 1);
    assert_eq!(conversation.len(), 1);
}

#[test]
fn empty_response_is_a_failure() {
    let agent = Agent::builder().model("gpt-4").build().unwrap();
    let mut model = |_: &Conversation| -> Event { Ok(ModelReply { content: None, tool_calls: None }) };
    let (result, _, _) = drive(&agent, agent.run("hello"), &mut model, &mut add);
    assert!(matches!(result, Err(AgentError::EmptyResponse)));
}

#[test]
fn empty_list_of_tool_calls_counts_as_none() {
    let agent = Agent::builder().model("gpt-4").build().unwrap();
    let mut model = |_: &Conversation| -> Event {
        Ok(ModelReply { content: Some("done".to_string()), tool_calls: Some(vec![]) })
    };
    let (result, conversation, _) = drive(&agent, agent.run("hello"), &mut model, &mut add);
    assert_eq!(result.unwrap(), "done");
    assert_eq!(conversation.len(), 1);
}

#[test]
fn tool_calls_without_tools_fail() {
    let agent = Agent::builder().model("gpt-4").build().unwrap();
    let mut model = |_: &Conversation| wants("call_1", "add", "{\"a\":2,\"b\":2}");
    let (result, conversation, _) = drive(&agent, agent.run("hello"), &mut model, &mut add);
    assert!(matches!(result, Err(AgentError::NoToolsConfigured)));
    assert_eq!(conversation.len(), 2);
}

#[test]
fn arguments_that_are_no_json_fail() {
    let agent = Agent::builder().model("gpt-4").tools(add_tools()).build().unwrap();
    let mut model = |_: &Conversation| wants("call_1", "add", "{\"a\":2,");
    let (result, _, _) = drive(&agent, agent.run("hello"), &mut model, &mut add);
    assert!(matches!(result, Err(AgentError::Json(_))));
}

#[test]
fn unknown_tool_fails_as_tool_execution() {
    let agent = Agent::builder().model("gpt-4").tools(add_tools()).build().unwrap();
    let mut model = |_: &Conversation| wants("call_1", "missing", "{}");
    let (result, _, _) = drive(&agent, agent.run("hello"), &mut model, &mut add);
    match result {
        Err(AgentError::ToolExecutionFailed { name, cause }) => {
            assert_eq!(name, "missing");
            assert_eq!(cause, "Tool not found: missing");
        }
        other => panic!("unexpected: {:?}", other),
    }
}

#[test]
fn arguments_of_the_wrong_shape_fail_as_tool_execution() {
    let agent = Agent::builder().model("gpt-4").tools(add_tools()).build().unwrap();
    let mut model = |_: &Conversation| wants("call_1", "add", "{\"a\":2,\"b\":\"two\"}");
    let (result, _, _) = drive(&agent, agent.run("hello"), &mut model, &mut add);
    match result {
        Err(AgentError::ToolExecutionFailed { name, cause }) => {
            assert_eq!(name, "add");
            assert_eq!(cause, "Invalid arguments for tool: add");
        }
        other => panic!("unexpected: {:?}", other),
    }
}

#[test]
fn failing_tool_ends_the_run_and_skips_the_rest() {
    let agent = Agent::builder().model("gpt-4").tools(add_tools()).build().unwrap();
    let mut model = |_: &Conversation| -> Event {
        Ok(ModelReply {
            content: None,
            tool_calls: Some(vec![
                ToolCall {
                    id: "first".to_string(),
                    name: "add".to_string(),
                    arguments: "{\"a\":1,\"b\":2}".to_string(),
                },
                ToolCall {
                    id: "second".to_string(),
                    name: "add".to_string(),
                    arguments: "{\"a\":1,\"b\":2}".to_string(),
                },
            ]),
        })
    };
    let mut ran = 0;
    let mut tool = |_: &Invocation| -> Result<String, String> {
        ran += 1;
        Err("overflow".to_string())
    };
    let (result, conversation, _) = drive(&agent, agent.run("hello"), &mut model, &mut tool);
    match result {
        Err(AgentError::ToolExecutionFailed { name, cause }) => {
            assert_eq!(name, "add");
            assert_eq!(cause, "overflow");
        }
        other => panic!("unexpected: {:?}", other),
    }
    assert_eq!(ran, 1);
    assert_eq!(conversation.len(), 2);
}

#[test]
fn run_begins_with_the_system_prompt() {
    let agent = Agent::builder()
        .model("gpt-4")
        .system_prompt("You are a helpful assistant")
        .build()
        .unwrap();
    let (run, step) = agent.run("Hello!");
    assert!(matches!(step, Step::CallModel));
    assert_eq!(
        run.conversation().messages(),
        &[
            Message::System { content: "You are a helpful assistant".to_string() },
            Message::User { content: "Hello!".to_string() },
        ]
    );
}

#[test]
fn run_conversation_goes_on_from_the_messages_it_is_given() {
    let agent = Agent::builder().model("gpt-4").build().unwrap();
    let mut conversation = Conversation::with_system("You are helpful");
    conversation.add_user_message("Hello!");
    let mut model = |seen: &Conversation| {
        assert_eq!(seen.len(), 2);
        says("Hi")
    };
    let (result, mut conversation, _) =
        drive(&agent, agent.run_conversation(conversation), &mut model, &mut add);
    let response = result.unwrap();
    conversation.add_assistant_message(&response);
    conversation.add_user_message("Tell me more");
    assert_eq!(conversation.len(), 4);
}

#[test]
fn private_call_has_a_conversation_of_its_own() {
    let analyst = Agent::builder()
        .model("gpt-4")
        .system_prompt("You analyze data and provide insights")
        .build()
        .unwrap();
    let mut mine = Conversation::with_system("You are the caller");
    mine.add_user_message("secret");
    let (run, step) = analyst.call_as_tool("Analyze this data");
    assert!(matches!(step, Step::CallModel));
    assert_eq!(
        run.conversation().messages(),
        &[
            Message::System { content: "You analyze data and provide insights".to_string() },
            Message::User { content: "Analyze this data".to_string() },
        ]
    );
    assert_eq!(
        mine.messages(),
        &[
            Message::System { content: "You are the caller".to_string() },
            Message::User { content: "secret".to_string() },
        ]
    );
}

#[test]
fn agent_tool_begins_a_private_run_on_the_message() {
    let analyst = Agent::builder().model("gpt-4").build().unwrap();
    let tool = AgentTool::new("analyst", "Ask the analyst agent to analyze data", analyst);
    assert_eq!(tool.name(), "analyst");
    assert_eq!(tool.description(), "Ask the analyst agent to analyze data");
    let definition = AgentTool::definition();
    assert_eq!(definition.name, "agent_call");
    assert_eq!(definition.description, "Call another agent");
    assert_eq!(definition.struct_name, "AgentCallTool");
    let args = Json::parse("{\"message\": \"Analyze this data\"}").unwrap();
    let (run, step) = tool.call(&args).unwrap();
    assert!(matches!(step, Step::CallModel));
    assert_eq!(
        run.conversation().messages(),
        &[Message::User { content: "Analyze this data".to_string() }]
    );
    let wrong = Json::parse("{\"text\": \"Analyze this data\"}").unwrap();
    assert!(matches!(tool.call(&wrong), Err(AgentError::InvalidArguments(name)) if name == "agent_call"));
}

#[test]
fn build_needs_a_model() {
    match AgentBuilder::new().system_prompt("x").build() {
        Err(AgentError::InvalidConfiguration(what)) => assert_eq!(what, "Model must be specified"),
        other => panic!("unexpected: {:?}", other),
    }
    match AgentBuilder::default().build() {
        Err(AgentError::InvalidConfiguration(what)) => assert_eq!(what, "Model must be specified"),
        other => panic!("unexpected: {:?}", other),
    }
}

#[test]
fn build_keeps_the_settings() {
    let agent = Agent::builder()
        .model("gpt-4")
        .system_prompt("You are a helpful coding assistant")
        .tools(add_tools())
        .max_iterations(15)
        .build()
        .unwrap();
    assert_eq!(agent.model(), "gpt-4");
    assert_eq!(agent.max_iterations(), 15);
    assert_eq!(agent.tools().unwrap().len(), 1);
}

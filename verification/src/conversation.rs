//! The messages that an agent and a model exchange.

use vstd::prelude::*;

verus! {

/// The model of a [`ToolCall`].
pub struct ToolCallView {
    pub id: Seq<char>,
    pub name: Seq<char>,
    pub arguments: Seq<char>,
}

/// A model's request to run a tool.
#[derive(Debug, PartialEq, Eq)]
pub struct ToolCall {
    /// What the result is to be filed under.
    pub id: String,
    /// The name of the tool.
    pub name: String,
    /// The arguments, as JSON text.
    pub arguments: String,
}

impl View for ToolCall {
    type V = ToolCallView;

    open spec fn view(&self) -> ToolCallView {
        ToolCallView { id: self.id@, name: self.name@, arguments: self.arguments@ }
    }
}

impl Clone for ToolCall {
    /// A copy of the request.
    fn clone(&self) -> (r: ToolCall)
        ensures
            r@ == self@,
    {
        ToolCall {
            id: self.id.clone(),
            name: self.name.clone(),
            arguments: self.arguments.clone(),
        }
    }
}

/// The models of a list of tool calls.
pub open spec fn tool_call_views(calls: Seq<ToolCall>) -> Seq<ToolCallView> {
    calls.map_values(|c: ToolCall| c@)
}

/// The model of a [`Message`].
pub enum MessageView {
    System { content: Seq<char> },
    User { content: Seq<char> },
    Assistant { text: Option<Seq<char>>, tool_calls: Option<Seq<ToolCallView>> },
    Tool { tool_call_id: Seq<char>, content: Seq<char> },
}

/// One entry of a conversation, by the role of its author.
#[derive(Clone, Debug, PartialEq, Eq)]
pub enum Message {
    /// Instructions to the model.
    System { content: String },
    /// What the user said.
    User { content: String },
    /// What the model said, and the tools it asked for.
    Assistant { text: Option<String>, tool_calls: Option<Vec<ToolCall>> },
    /// What a tool returned for the request `tool_call_id`.
    Tool { tool_call_id: String, content: String },
}

/// The model of an optional string.
pub open spec fn text_view(text: Option<String>) -> Option<Seq<char>> {
    match text {
        Some(s) => Some(s@),
        None => None,
    }
}

impl View for Message {
    type V = MessageView;

    open spec fn view(&self) -> MessageView {
        match self {
            Message::System { content } => MessageView::System { content: content@ },
            Message::User { content } => MessageView::User { content: content@ },
            Message::Assistant { text, tool_calls } => MessageView::Assistant {
                text: text_view(*text),
                tool_calls: match tool_calls {
                    Some(calls) => Some(tool_call_views(calls@)),
                    None => None,
                },
            },
            Message::Tool { tool_call_id, content } => MessageView::Tool {
                tool_call_id: tool_call_id@,
                content: content@,
            },
        }
    }
}

/// The models of a list of messages.
pub open spec fn message_views(messages: Seq<Message>) -> Seq<MessageView> {
    messages.map_values(|m: Message| m@)
}

/// An ordered log of messages. Messages are added at its end; none is changed or taken
/// out, but by `clear`, which takes out all.
#[derive(Clone, Debug, PartialEq, Eq)]
pub struct Conversation {
    messages: Vec<Message>,
}

impl View for Conversation {
    type V = Seq<MessageView>;

    closed spec fn view(&self) -> Seq<MessageView> {
        message_views(self.messages@)
    }
}

impl Default for Conversation {
    /// A conversation without messages.
    fn default() -> (r: Conversation)
        ensures
            r@ == Seq::<MessageView>::empty(),
    {
        Conversation::new()
    }
}

impl Conversation {
    /// A conversation without messages.
    pub fn new() -> (r: Conversation)
        ensures
            r@ == Seq::<MessageView>::empty(),
    {
        let r = Conversation { messages: Vec::new() };
        assert(r@ =~= Seq::<MessageView>::empty());
        r
    }

    /// A conversation that holds the one system message `system_prompt`.
    pub fn with_system(system_prompt: &str) -> (r: Conversation)
        ensures
            r@ == seq![MessageView::System { content: system_prompt@ }],
    {
        let mut r = Conversation::new();
        r.add_system_message(system_prompt);
        assert(r@ =~= seq![MessageView::System { content: system_prompt@ }]);
        r
    }

    /// Adds `message` at the end.
    fn add(&mut self, message: Message)
        ensures
            final(self)@ == old(self)@.push(message@),
    {
        self.messages.push(message);
        assert(self@ =~= old(self)@.push(message@));
    }

    /// Adds a system message.
    pub fn add_system_message(&mut self, content: &str)
        ensures
            final(self)@ == old(self)@.push(MessageView::System { content: content@ }),
    {
        self.add(Message::System { content: content.to_owned() });
    }

    /// Adds a user message.
    pub fn add_user_message(&mut self, content: &str)
        ensures
            final(self)@ == old(self)@.push(MessageView::User { content: content@ }),
    {
        self.add(Message::User { content: content.to_owned() });
    }

    /// Adds an assistant message that holds text only.
    pub fn add_assistant_message(&mut self, content: &str)
        ensures
            final(self)@ == old(self)@.push(
                MessageView::Assistant { text: Some(content@), tool_calls: None },
            ),
    {
        self.add(Message::Assistant { text: Some(content.to_owned()), tool_calls: None });
    }

    /// Adds an assistant message that asks for tools.
    pub fn add_assistant_message_with_tools(
        &mut self,
        content: Option<String>,
        tool_calls: Vec<ToolCall>,
    )
        ensures
            final(self)@ == old(self)@.push(
                MessageView::Assistant {
                    text: text_view(content),
                    tool_calls: Some(tool_call_views(tool_calls@)),
                },
            ),
    {
        self.add(Message::Assistant { text: content, tool_calls: Some(tool_calls) });
    }

    /// Adds the result of the tool call `tool_call_id`.
    pub fn add_tool_message(&mut self, tool_call_id: &str, content: &str)
        ensures
            final(self)@ == old(self)@.push(
                MessageView::Tool { tool_call_id: tool_call_id@, content: content@ },
            ),
    {
        self.add(
            Message::Tool { tool_call_id: tool_call_id.to_owned(), content: content.to_owned() },
        );
    }

    /// The messages, in order.
    pub fn messages(&self) -> (r: &[Message])
        ensures
            message_views(r@) == self@,
    {
        self.messages.as_slice()
    }

    /// How many messages the conversation holds.
    pub fn len(&self) -> (r: usize)
        ensures
            r == self@.len(),
    {
        self.messages.len()
    }

    /// Whether the conversation holds no message.
    pub fn is_empty(&self) -> (r: bool)
        ensures
            r == (self@.len() == 0),
    {
        self.messages.len() == 0
    }

    /// Takes out all messages.
    pub fn clear(&mut self)
        ensures
            final(self)@ == Seq::<MessageView>::empty(),
    {
        self.messages.clear();
        assert(self@ =~= Seq::<MessageView>::empty());
    }
}

} // verus!

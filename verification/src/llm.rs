//! The messages exchanged with an OpenAI-compatible chat-completions
//! service, and the request details that the library computes.

use vstd::prelude::*;

verus! {

/// A function invocation requested by the model.
#[derive(Clone, Debug)]
pub struct FunctionCall {
    pub name: String,
    pub arguments: String,
}

/// One tool call of an assistant message.
#[derive(Clone, Debug)]
pub struct ToolCall {
    pub id: String,
    pub call_type: String,
    pub function: FunctionCall,
}

/// The mathematical value of a [`ToolCall`].
pub struct ToolCallView {
    pub id: Seq<char>,
    pub call_type: Seq<char>,
    pub name: Seq<char>,
    pub arguments: Seq<char>,
}

impl View for ToolCall {
    type V = ToolCallView;

    open spec fn view(&self) -> ToolCallView {
        ToolCallView {
            id: self.id@,
            call_type: self.call_type@,
            name: self.function.name@,
            arguments: self.function.arguments@,
        }
    }
}

/// The views of a list of tool calls.
pub open spec fn call_views(calls: Seq<ToolCall>) -> Seq<ToolCallView> {
    calls.map_values(|c: ToolCall| c@)
}

/// The view of an optional string.
pub open spec fn opt_view(s: Option<String>) -> Option<Seq<char>> {
    match s {
        Some(t) => Some(t@),
        None => None,
    }
}

/// The view of an optional list of tool calls.
pub open spec fn opt_calls_view(c: Option<Vec<ToolCall>>) -> Option<Seq<ToolCallView>> {
    match c {
        Some(v) => Some(call_views(v@)),
        None => None,
    }
}

/// One message of a conversation.
#[derive(Clone, Debug)]
pub struct ChatMessage {
    pub role: String,
    pub content: Option<String>,
    pub tool_calls: Option<Vec<ToolCall>>,
    pub tool_call_id: Option<String>,
}

/// The mathematical value of a [`ChatMessage`].
pub struct MessageView {
    pub role: Seq<char>,
    pub content: Option<Seq<char>>,
    pub tool_calls: Option<Seq<ToolCallView>>,
    pub tool_call_id: Option<Seq<char>>,
}

impl View for ChatMessage {
    type V = MessageView;

    open spec fn view(&self) -> MessageView {
        MessageView {
            role: self.role@,
            content: opt_view(self.content),
            tool_calls: opt_calls_view(self.tool_calls),
            tool_call_id: opt_view(self.tool_call_id),
        }
    }
}

/// The views of a list of messages.
pub open spec fn message_views(msgs: Seq<ChatMessage>) -> Seq<MessageView> {
    msgs.map_values(|m: ChatMessage| m@)
}

/// The error object of a failed completion.
#[derive(Debug)]
pub struct ApiError {
    pub message: String,
}

/// The message of one completion choice.
#[derive(Debug)]
pub struct ResponseMessage {
    pub role: String,
    pub content: Option<String>,
    pub tool_calls: Option<Vec<ToolCall>>,
}

/// One completion choice.
#[derive(Debug)]
pub struct Choice {
    pub message: ResponseMessage,
    pub finish_reason: Option<String>,
}

/// The mathematical value of a [`Choice`].
pub struct ChoiceView {
    pub role: Seq<char>,
    pub content: Option<Seq<char>>,
    pub tool_calls: Option<Seq<ToolCallView>>,
    pub finish_reason: Option<Seq<char>>,
}

impl View for Choice {
    type V = ChoiceView;

    open spec fn view(&self) -> ChoiceView {
        ChoiceView {
            role: self.message.role@,
            content: opt_view(self.message.content),
            tool_calls: opt_calls_view(self.message.tool_calls),
            finish_reason: opt_view(self.finish_reason),
        }
    }
}

/// A chat-completions response body.
#[derive(Debug)]
pub struct ChatResponse {
    pub choices: Option<Vec<Choice>>,
    pub error: Option<ApiError>,
}

/// The mathematical value of a [`ChatResponse`].
pub struct ResponseView {
    pub choices: Option<Seq<ChoiceView>>,
    pub error: Option<Seq<char>>,
}

impl View for ChatResponse {
    type V = ResponseView;

    open spec fn view(&self) -> ResponseView {
        ResponseView {
            choices: match self.choices {
                Some(v) => Some(v@.map_values(|c: Choice| c@)),
                None => None,
            },
            error: match self.error {
                Some(e) => Some(e.message@),
                None => None,
            },
        }
    }
}

/// A copy of an optional string.
pub fn copy_opt_string(s: &Option<String>) -> (r: Option<String>)
    ensures
        opt_view(r) == opt_view(*s),
{
    match s {
        Some(t) => Some(t.clone()),
        None => None,
    }
}

impl ToolCall {
    /// A field-by-field copy.
    pub fn duplicate(&self) -> (r: ToolCall)
        ensures
            r@ == self@,
    {
        ToolCall {
            id: self.id.clone(),
            call_type: self.call_type.clone(),
            function: FunctionCall {
                name: self.function.name.clone(),
                arguments: self.function.arguments.clone(),
            },
        }
    }
}

/// A copy of a list of tool calls.
pub fn copy_calls(calls: &Vec<ToolCall>) -> (r: Vec<ToolCall>)
    ensures
        call_views(r@) == call_views(calls@),
{
    let mut r: Vec<ToolCall> = Vec::new();
    let mut i: usize = 0;
    while i < calls.len()
        invariant
            i <= calls.len(),
            call_views(r@) == call_views(calls@).take(i as int),
        decreases calls.len() - i,
    {
        let ghost before = r@;
        r.push(calls[i].duplicate());
        assert(call_views(r@) =~= call_views(before).push(calls@[i as int]@));
        assert(call_views(calls@).take(i + 1) =~= call_views(calls@).take(i as int).push(
            calls@[i as int]@,
        ));
        i = i + 1;
    }
    assert(call_views(calls@).take(calls.len() as int) =~= call_views(calls@));
    r
}

/// A copy of an optional list of tool calls.
pub fn copy_opt_calls(calls: &Option<Vec<ToolCall>>) -> (r: Option<Vec<ToolCall>>)
    ensures
        opt_calls_view(r) == opt_calls_view(*calls),
{
    match calls {
        Some(v) => Some(copy_calls(v)),
        None => None,
    }
}

impl ChatMessage {
    /// A field-by-field copy.
    pub fn duplicate(&self) -> (r: ChatMessage)
        ensures
            r@ == self@,
    {
        ChatMessage {
            role: self.role.clone(),
            content: copy_opt_string(&self.content),
            tool_calls: copy_opt_calls(&self.tool_calls),
            tool_call_id: copy_opt_string(&self.tool_call_id),
        }
    }

    /// A plain text message with the given role.
    pub fn text(role: &str, content: String) -> (m: ChatMessage)
        ensures
            m@ == (MessageView { role: role@, content: Some(content@), tool_calls: None, tool_call_id: None }),
    {
        ChatMessage { role: role.to_owned(), content: Some(content), tool_calls: None, tool_call_id: None }
    }
}

/// The chat-completions endpoint under `base_url`.
pub fn chat_completions_url(base_url: &str) -> (r: String)
    ensures
        r@ == base_url@ + "/chat/completions"@,
{
    let mut r = base_url.to_owned();
    r.append("/chat/completions");
    r
}

/// The value of the `Authorization` header for `api_key`.
pub fn authorization_value(api_key: &str) -> (r: String)
    ensures
        r@ == "Bearer "@ + api_key@,
{
    let mut r = "Bearer ".to_owned();
    r.append(api_key);
    r
}

} // verus!

//! What is sent to, and read from, a chat-completions endpoint (DeepSeek, or any
//! other that speaks the same protocol).

use crate::brain::error::{BrainErr, BrainErrView};
use crate::json::{json_view, json_views, opt_string, Json, JsonView};
use vstd::prelude::*;

verus! {

/// DeepSeek's endpoint root.
pub const DEFAULT_API_BASE: &'static str = "https://api.deepseek.com";

/// The model used unless overridden. `deepseek-chat` and `deepseek-reasoner` are
/// retired and must not reappear.
pub const DEFAULT_MODEL: &'static str = "deepseek-v4-flash";

/// One function call the model asked for.
#[derive(Debug, Clone, PartialEq, Eq)]
pub struct ToolCall {
    /// Provider-assigned id, echoed back on the matching tool result message.
    pub id: String,
    /// Which tool to run.
    pub name: String,
    /// The arguments, as the raw JSON string the model emitted. Left unparsed so
    /// that truncated JSON becomes a recoverable tool error.
    pub arguments: String,
}

/// What a [`ToolCall`] says.
pub struct CallView {
    pub id: Seq<char>,
    pub name: Seq<char>,
    pub arguments: Seq<char>,
}

impl View for ToolCall {
    type V = CallView;

    open spec fn view(&self) -> CallView {
        CallView { id: self.id@, name: self.name@, arguments: self.arguments@ }
    }
}

/// What a list of calls says.
pub open spec fn call_views(calls: Seq<ToolCall>) -> Seq<CallView> {
    calls.map_values(|c: ToolCall| c@)
}

impl ToolCall {
    /// The same call again.
    pub fn copy(&self) -> (r: ToolCall)
        ensures
            r@ == self@,
    {
        ToolCall {
            id: self.id.clone(),
            name: self.name.clone(),
            arguments: self.arguments.clone(),
        }
    }
}

/// The same calls again.
pub(crate) fn copy_calls(calls: &Vec<ToolCall>) -> (r: Vec<ToolCall>)
    ensures
        call_views(r@) == call_views(calls@),
{
    let mut out: Vec<ToolCall> = Vec::new();
    let mut i: usize = 0;
    while i < calls.len()
        invariant
            i <= calls@.len(),
            out@.len() == i,
            forall|k: int| 0 <= k < i ==> (#[trigger] out@[k])@ == calls@[k]@,
        decreases calls@.len() - i,
    {
        out.push(calls[i].copy());
        i += 1;
    }
    assert(call_views(out@) =~= call_views(calls@));
    out
}

/// A copy of an optional string.
pub(crate) fn copy_text(text: &Option<String>) -> (r: Option<String>)
    ensures
        opt_string(r) == opt_string(*text),
{
    match text {
        Some(s) => Some(s.clone()),
        None => None,
    }
}

/// One message in a conversation.
#[derive(Debug, Clone, PartialEq, Eq)]
pub enum ChatMessage {
    /// The standing instructions. Exactly one, first, by convention.
    System(String),
    /// Something the user said.
    User(String),
    /// What the model replied: prose, tool calls, or both.
    Assistant { content: Option<String>, tool_calls: Vec<ToolCall> },
    /// The result of running one [`ToolCall`], keyed back to it by id.
    Tool { tool_call_id: String, content: String },
}

/// What a [`ChatMessage`] says.
pub enum MessageView {
    System(Seq<char>),
    User(Seq<char>),
    Assistant { content: Option<Seq<char>>, tool_calls: Seq<CallView> },
    Tool { tool_call_id: Seq<char>, content: Seq<char> },
}

impl View for ChatMessage {
    type V = MessageView;

    open spec fn view(&self) -> MessageView {
        match *self {
            ChatMessage::System(text) => MessageView::System(text@),
            ChatMessage::User(text) => MessageView::User(text@),
            ChatMessage::Assistant { content, tool_calls } => MessageView::Assistant {
                content: opt_string(content),
                tool_calls: call_views(tool_calls@),
            },
            ChatMessage::Tool { tool_call_id, content } => MessageView::Tool {
                tool_call_id: tool_call_id@,
                content: content@,
            },
        }
    }
}

/// What a list of messages says.
pub open spec fn message_views(messages: Seq<ChatMessage>) -> Seq<MessageView> {
    messages.map_values(|m: ChatMessage| m@)
}

impl ChatMessage {
    pub fn system(content: &str) -> (r: Self)
        ensures
            r@ == MessageView::System(content@),
    {
        ChatMessage::System(content.to_owned())
    }

    pub fn user(content: &str) -> (r: Self)
        ensures
            r@ == MessageView::User(content@),
    {
        ChatMessage::User(content.to_owned())
    }

    /// A reply in prose.
    pub fn assistant(content: &str) -> (r: Self)
        ensures
            r@ == (MessageView::Assistant { content: Some(content@), tool_calls: Seq::empty() }),
    {
        let r = ChatMessage::Assistant {
            content: Some(content.to_owned()),
            tool_calls: Vec::new(),
        };
        assert(r@->tool_calls =~= Seq::<CallView>::empty());
        r
    }

    /// The result of the call `tool_call_id`.
    pub fn tool(tool_call_id: &str, content: &str) -> (r: Self)
        ensures
            r@ == (MessageView::Tool { tool_call_id: tool_call_id@, content: content@ }),
    {
        ChatMessage::Tool { tool_call_id: tool_call_id.to_owned(), content: content.to_owned() }
    }

    /// The same message again.
    pub fn copy(&self) -> (r: ChatMessage)
        ensures
            r@ == self@,
    {
        match self {
            ChatMessage::System(text) => ChatMessage::System(text.clone()),
            ChatMessage::User(text) => ChatMessage::User(text.clone()),
            ChatMessage::Assistant { content, tool_calls } => ChatMessage::Assistant {
                content: copy_text(content),
                tool_calls: copy_calls(tool_calls),
            },
            ChatMessage::Tool { tool_call_id, content } => ChatMessage::Tool {
                tool_call_id: tool_call_id.clone(),
                content: content.clone(),
            },
        }
    }
}

/// What came back from one completion request.
#[derive(Debug, Clone, PartialEq, Eq, Default)]
pub struct ChatResponse {
    /// The model's prose, if any.
    pub content: Option<String>,
    /// Tools the model wants run before it answers. Empty means the turn is done.
    pub tool_calls: Vec<ToolCall>,
}

/// What a [`ChatResponse`] says.
pub struct ResponseView {
    pub content: Option<Seq<char>>,
    pub tool_calls: Seq<CallView>,
}

impl View for ChatResponse {
    type V = ResponseView;

    open spec fn view(&self) -> ResponseView {
        ResponseView { content: opt_string(self.content), tool_calls: call_views(self.tool_calls@) }
    }
}

impl ResponseView {
    /// The prose, or nothing.
    pub open spec fn text(self) -> Seq<char> {
        match self.content {
            Some(text) => text,
            None => Seq::empty(),
        }
    }
}

impl ChatResponse {
    /// Whether the model is waiting on tool results.
    pub fn wants_tools(&self) -> (r: bool)
        ensures
            r == (self@.tool_calls.len() > 0),
    {
        self.tool_calls.len() > 0
    }

    /// The prose, or `""`.
    pub fn text(&self) -> (r: &str)
        ensures
            r@ == self@.text(),
    {
        match &self.content {
            Some(text) => text.as_str(),
            None => {
                proof {
                    reveal_strlit("");
                    assert(""@ =~= Seq::<char>::empty());
                }
                ""
            },
        }
    }
}

/// How to reach the model.
#[derive(Clone)]
pub struct ClientConfig {
    pub api_key: String,
    pub api_base: String,
    pub model: String,
    /// `None` leaves the provider default.
    pub max_tokens: Option<u32>,
}

/// A [`ClientConfig`] as it may be shown: the key is not in it.
#[derive(Debug, Clone)]
pub struct ConfigSummary {
    pub api_key: &'static str,
    pub api_base: String,
    pub model: String,
    pub max_tokens: Option<u32>,
}

impl ClientConfig {
    /// Defaults pointing at DeepSeek with [`DEFAULT_MODEL`].
    pub fn new(api_key: &str) -> (r: Self)
        ensures
            r.api_key@ == api_key@,
            r.api_base@ == DEFAULT_API_BASE@,
            r.model@ == DEFAULT_MODEL@,
            r.max_tokens is None,
    {
        Self {
            api_key: api_key.to_owned(),
            api_base: DEFAULT_API_BASE.to_owned(),
            model: DEFAULT_MODEL.to_owned(),
            max_tokens: None,
        }
    }

    /// Everything but the key, which must not reach a log line.
    pub fn summary(&self) -> (r: ConfigSummary)
        ensures
            r.api_key@ == "<redacted>"@,
            r.api_base@ == self.api_base@,
            r.model@ == self.model@,
            r.max_tokens == self.max_tokens,
    {
        ConfigSummary {
            api_key: "<redacted>",
            api_base: self.api_base.clone(),
            model: self.model.clone(),
            max_tokens: self.max_tokens,
        }
    }
}

/// One call in a message, as it goes over the wire. The arguments stay a string.
pub open spec fn call_wire(call: CallView) -> JsonView {
    JsonView::empty().with("id"@, JsonView::Str(call.id)).with(
        "type"@,
        JsonView::Str("function"@),
    ).with(
        "function"@,
        JsonView::empty().with("name"@, JsonView::Str(call.name)).with(
            "arguments"@,
            JsonView::Str(call.arguments),
        ),
    )
}

/// A message as it goes over the wire. Prose that is not there and an empty list
/// of calls are left out: some servers reject `tool_calls: []`.
pub open spec fn message_wire(message: MessageView) -> JsonView {
    match message {
        MessageView::System(text) => JsonView::empty().with(
            "role"@,
            JsonView::Str("system"@),
        ).with("content"@, JsonView::Str(text)),
        MessageView::User(text) => JsonView::empty().with("role"@, JsonView::Str("user"@)).with(
            "content"@,
            JsonView::Str(text),
        ),
        MessageView::Assistant { content, tool_calls } => {
            let base = JsonView::empty().with("role"@, JsonView::Str("assistant"@));
            let spoken = match content {
                Some(text) => base.with("content"@, JsonView::Str(text)),
                None => base,
            };
            if tool_calls.len() > 0 {
                spoken.with(
                    "tool_calls"@,
                    JsonView::Array(tool_calls.map_values(|c: CallView| call_wire(c))),
                )
            } else {
                spoken
            }
        },
        MessageView::Tool { tool_call_id, content } => JsonView::empty().with(
            "role"@,
            JsonView::Str("tool"@),
        ).with("content"@, JsonView::Str(content)).with(
            "tool_call_id"@,
            JsonView::Str(tool_call_id),
        ),
    }
}

/// A message as it goes over the wire.
pub fn to_openai_message(message: &ChatMessage) -> (r: Json)
    ensures
        r@ == message_wire(message@),
{
    match message {
        ChatMessage::System(text) => Json::empty().with("role", Json::string("system")).with(
            "content",
            Json::string(text.as_str()),
        ),
        ChatMessage::User(text) => Json::empty().with("role", Json::string("user")).with(
            "content",
            Json::string(text.as_str()),
        ),
        ChatMessage::Assistant { content, tool_calls } => {
            let mut out = Json::empty().with("role", Json::string("assistant"));
            match content {
                Some(text) => {
                    out = out.with("content", Json::string(text.as_str()));
                },
                None => {},
            }
            if tool_calls.len() > 0 {
                let mut calls: Vec<Json> = Vec::new();
                let mut i: usize = 0;
                while i < tool_calls.len()
                    invariant
                        i <= tool_calls@.len(),
                        calls@.len() == i,
                        forall|k: int|
                            0 <= k < i ==> json_view(#[trigger] calls@[k]) == call_wire(
                                tool_calls@[k]@,
                            ),
                    decreases tool_calls@.len() - i,
                {
                    let call = &tool_calls[i];
                    calls.push(
                        Json::empty().with("id", Json::string(call.id.as_str())).with(
                            "type",
                            Json::string("function"),
                        ).with(
                            "function",
                            Json::empty().with("name", Json::string(call.name.as_str())).with(
                                "arguments",
                                Json::string(call.arguments.as_str()),
                            ),
                        ),
                    );
                    i += 1;
                }
                assert(json_views(calls@) =~= call_views(tool_calls@).map_values(
                    |c: CallView| call_wire(c),
                ));
                out = out.with("tool_calls", Json::array(calls));
            }
            out
        },
        ChatMessage::Tool { tool_call_id, content } => Json::empty().with(
            "role",
            Json::string("tool"),
        ).with("content", Json::string(content.as_str())).with(
            "tool_call_id",
            Json::string(tool_call_id.as_str()),
        ),
    }
}

/// A tool schema with exactly the members the endpoint knows.
pub open spec fn tool_wire(tool: JsonView) -> Result<JsonView, BrainErrView> {
    match tool.get("function"@) {
        None => Err(
            BrainErrView::InvalidArguments("tool schema is missing a `function` object"@),
        ),
        Some(function) => match function.text_of("name"@) {
            None => Err(BrainErrView::InvalidArguments("tool schema is missing `function.name`"@)),
            Some(name) => {
                let named = JsonView::empty().with("name"@, JsonView::Str(name));
                let described = match function.text_of("description"@) {
                    Some(text) => named.with("description"@, JsonView::Str(text)),
                    None => named,
                };
                let full = match function.get("parameters"@) {
                    Some(schema) => described.with("parameters"@, schema),
                    None => described,
                };
                Ok(
                    JsonView::empty().with("type"@, JsonView::Str("function"@)).with(
                        "function"@,
                        full,
                    ),
                )
            },
        },
    }
}

/// What a document or an error says.
pub open spec fn json_outcome(r: Result<Json, BrainErr>) -> Result<JsonView, BrainErrView> {
    match r {
        Ok(doc) => Ok(doc@),
        Err(e) => Err(e@),
    }
}

/// A tool schema with exactly the members the endpoint knows, or what it lacks.
pub fn to_openai_tool(tool: &Json) -> (r: Result<Json, BrainErr>)
    ensures
        json_outcome(r) == tool_wire(tool@),
{
    let function = match tool.get("function") {
        Some(function) => function,
        None => {
            return Err(
                BrainErr::InvalidArguments(
                    "tool schema is missing a `function` object".to_owned(),
                ),
            );
        },
    };
    let name = match function.text_of("name") {
        Some(name) => name,
        None => {
            return Err(
                BrainErr::InvalidArguments("tool schema is missing `function.name`".to_owned()),
            );
        },
    };
    let mut out = Json::empty().with("name", Json::string(name));
    match function.text_of("description") {
        Some(text) => {
            out = out.with("description", Json::string(text));
        },
        None => {},
    }
    match function.get("parameters") {
        Some(schema) => {
            out = out.with("parameters", schema.copy());
        },
        None => {},
    }
    Ok(Json::empty().with("type", Json::string("function")).with("function", out))
}

/// The first error among the outcomes, or all the documents.
pub open spec fn tools_wire(tools: Seq<JsonView>) -> Result<Seq<JsonView>, BrainErrView>
    decreases tools.len(),
{
    if tools.len() == 0 {
        Ok(Seq::empty())
    } else {
        match tools_wire(tools.drop_last()) {
            Err(e) => Err(e),
            Ok(done) => match tool_wire(tools.last()) {
                Err(e) => Err(e),
                Ok(doc) => Ok(done.push(doc)),
            },
        }
    }
}

proof fn first_error_stays(tools: Seq<JsonView>, n: int)
    requires
        0 <= n <= tools.len(),
        tools_wire(tools.take(n)) is Err,
    ensures
        tools_wire(tools) == tools_wire(tools.take(n)),
    decreases tools.len() - n,
{
    if n == tools.len() {
        assert(tools.take(n) =~= tools);
    } else {
        assert(tools.take(n + 1).drop_last() =~= tools.take(n));
        first_error_stays(tools, n + 1);
    }
}

/// The body of a completion request. Without tools the key is left out; so is a
/// token limit that is not set.
pub open spec fn request_wire(
    model: Seq<char>,
    max_tokens: Option<u32>,
    messages: Seq<MessageView>,
    tools: Seq<JsonView>,
) -> Result<JsonView, BrainErrView> {
    let base = JsonView::empty().with(
        "messages"@,
        JsonView::Array(messages.map_values(|m: MessageView| message_wire(m))),
    ).with("model"@, JsonView::Str(model));
    let limited = match max_tokens {
        Some(n) => base.with("max_tokens"@, JsonView::Int(n as int)),
        None => base,
    };
    if tools.len() == 0 {
        Ok(limited)
    } else {
        match tools_wire(tools) {
            Ok(list) => Ok(limited.with("tools"@, JsonView::Array(list))),
            Err(e) => Err(e),
        }
    }
}

/// A tool call as the provider reports it: a function call, or the free-form
/// variant that is never advertised.
#[derive(Debug, Clone)]
pub enum ProviderCall {
    Function(ToolCall),
    Custom { id: String },
}

/// One choice of a completion.
#[derive(Debug, Clone)]
pub struct Choice {
    pub content: Option<String>,
    pub tool_calls: Option<Vec<ProviderCall>>,
}

/// The function calls among `calls`, in order.
pub open spec fn function_calls(calls: Seq<ProviderCall>) -> Seq<CallView>
    decreases calls.len(),
{
    if calls.len() == 0 {
        Seq::empty()
    } else {
        match calls.last() {
            ProviderCall::Function(call) => function_calls(calls.drop_last()).push(call@),
            ProviderCall::Custom { .. } => function_calls(calls.drop_last()),
        }
    }
}

/// What a list of choices answers: the first one counts.
pub open spec fn answer(choices: Seq<Choice>) -> Result<ResponseView, BrainErrView> {
    if choices.len() == 0 {
        Err(BrainErrView::Backend("model returned no choices"@))
    } else {
        Ok(
            ResponseView {
                content: opt_string(choices[0].content),
                tool_calls: match choices[0].tool_calls {
                    Some(calls) => function_calls(calls@),
                    None => Seq::empty(),
                },
            },
        )
    }
}

/// What a response or an error says.
pub open spec fn response_outcome(r: Result<ChatResponse, BrainErr>) -> Result<
    ResponseView,
    BrainErrView,
> {
    match r {
        Ok(response) => Ok(response@),
        Err(e) => Err(e@),
    }
}

/// The standing part of every completion request.
#[derive(Debug, Clone)]
pub struct LlmClient {
    model: String,
    max_tokens: Option<u32>,
}

impl LlmClient {
    /// The model every request names.
    pub closed spec fn model_name(&self) -> Seq<char> {
        self.model@
    }

    /// The token limit every request carries.
    pub closed spec fn token_limit(&self) -> Option<u32> {
        self.max_tokens
    }

    /// Talk to DeepSeek with the default model.
    pub fn new(api_key: &str) -> (r: Self)
        ensures
            r.model_name() == DEFAULT_MODEL@,
            r.token_limit() is None,
    {
        Self::with_config(&ClientConfig::new(api_key))
    }

    /// Talk to whatever `config` describes.
    pub fn with_config(config: &ClientConfig) -> (r: Self)
        ensures
            r.model_name() == config.model@,
            r.token_limit() == config.max_tokens,
    {
        Self { model: config.model.clone(), max_tokens: config.max_tokens }
    }

    /// The model id every request is sent with.
    pub fn model(&self) -> (r: &str)
        ensures
            r@ == self.model_name(),
    {
        self.model.as_str()
    }

    /// The body of one completion request. `tools` is the `tools` array; an empty
    /// one omits the key entirely.
    pub fn chat_request(&self, messages: &Vec<ChatMessage>, tools: &Vec<Json>) -> (r: Result<
        Json,
        BrainErr,
    >)
        ensures
            json_outcome(r) == request_wire(
                self.model_name(),
                self.token_limit(),
                message_views(messages@),
                json_views(tools@),
            ),
    {
        let mut wire: Vec<Json> = Vec::new();
        let mut i: usize = 0;
        while i < messages.len()
            invariant
                i <= messages@.len(),
                wire@.len() == i,
                forall|k: int|
                    0 <= k < i ==> json_view(#[trigger] wire@[k]) == message_wire(messages@[k]@),
            decreases messages@.len() - i,
        {
            wire.push(to_openai_message(&messages[i]));
            i += 1;
        }
        assert(json_views(wire@) =~= message_views(messages@).map_values(
            |m: MessageView| message_wire(m),
        ));
        let mut out = Json::empty().with("messages", Json::array(wire)).with(
            "model",
            Json::string(self.model.as_str()),
        );
        match self.max_tokens {
            Some(n) => {
                out = out.with("max_tokens", Json::Int(n as i64));
            },
            None => {},
        }
        if tools.len() == 0 {
            return Ok(out);
        }
        let ghost all = json_views(tools@);
        let mut list: Vec<Json> = Vec::new();
        let mut j: usize = 0;
        assert(json_views(list@) =~= Seq::<JsonView>::empty());
        while j < tools.len()
            invariant
                j <= tools@.len(),
                all == json_views(tools@),
                tools_wire(all.take(j as int)) == Ok::<Seq<JsonView>, BrainErrView>(
                    json_views(list@),
                ),
            decreases tools@.len() - j,
        {
            assert(all.take(j + 1).drop_last() =~= all.take(j as int));
            assert(all.take(j + 1).last() == tools@[j as int]@);
            match to_openai_tool(&tools[j]) {
                Ok(doc) => {
                    let ghost before = json_views(list@);
                    list.push(doc);
                    assert(json_views(list@) =~= before.push(doc@));
                },
                Err(e) => {
                    proof {
                        first_error_stays(all, j + 1);
                    }
                    return Err(e);
                },
            }
            j += 1;
        }
        assert(all.take(all.len() as int) =~= all);
        Ok(out.with("tools", Json::array(list)))
    }

    /// What the choices of a completion answer. Calls that are not function calls
    /// are dropped rather than failing the turn.
    pub fn chat_response(choices: Vec<Choice>) -> (r: Result<ChatResponse, BrainErr>)
        ensures
            response_outcome(r) == answer(choices@),
    {
        if choices.len() == 0 {
            return Err(BrainErr::Backend("model returned no choices".to_owned()));
        }
        let first = &choices[0];
        let mut calls: Vec<ToolCall> = Vec::new();
        assert(call_views(calls@) =~= Seq::<CallView>::empty());
        match &first.tool_calls {
            Some(list) => {
                let mut i: usize = 0;
                while i < list.len()
                    invariant
                        i <= list@.len(),
                        call_views(calls@) == function_calls(list@.take(i as int)),
                    decreases list@.len() - i,
                {
                    assert(list@.take(i + 1).drop_last() =~= list@.take(i as int));
                    match &list[i] {
                        ProviderCall::Function(call) => {
                            let ghost before = call_views(calls@);
                            calls.push(call.copy());
                            assert(call_views(calls@) =~= before.push(call@));
                        },
                        ProviderCall::Custom { .. } => {},
                    }
                    i += 1;
                }
                assert(list@.take(list@.len() as int) =~= list@);
            },
            None => {},
        }
        Ok(ChatResponse { content: copy_text(&first.content), tool_calls: calls })
    }
}

/// A call goes out under its own id, as a function call with its name and the very
/// arguments it came with.
pub proof fn a_call_goes_out_as_it_came(call: CallView)
    ensures
        call_wire(call).get("id"@) == Some(JsonView::Str(call.id)),
        call_wire(call).get("type"@) == Some(JsonView::Str("function"@)),
        call_wire(call).get("function"@) matches Some(function) && function.get("name"@) == Some(
            JsonView::Str(call.name),
        ) && function.get("arguments"@) == Some(JsonView::Str(call.arguments)),
{
    reveal_strlit("id");
    reveal_strlit("type");
    reveal_strlit("function");
    reveal_strlit("name");
    reveal_strlit("arguments");
    reveal_with_fuel(crate::json::member, 4);
    let function = call_wire(call).get("function"@)->0;
    assert("id"@.len() == 2 && "type"@.len() == 4 && "function"@.len() == 8);
    assert("name"@.len() == 4 && "arguments"@.len() == 9);
    assert(function.get("name"@) == Some(JsonView::Str(call.name)));
}

/// A message on the wire says who spoke and what was said. What was not said is left
/// out; the calls of an assistant's message are all there, in order, and a tool's result
/// names the call it answers.
pub proof fn a_message_says_who_spoke_and_what(message: MessageView)
    ensures
        match message {
            MessageView::System(text) => {
                &&& message_wire(message).get("role"@) == Some(JsonView::Str("system"@))
                &&& message_wire(message).get("content"@) == Some(JsonView::Str(text))
            },
            MessageView::User(text) => {
                &&& message_wire(message).get("role"@) == Some(JsonView::Str("user"@))
                &&& message_wire(message).get("content"@) == Some(JsonView::Str(text))
            },
            MessageView::Assistant { content, tool_calls } => {
                let wire = message_wire(message);
                &&& wire.get("role"@) == Some(JsonView::Str("assistant"@))
                &&& match content {
                    Some(text) => wire.get("content"@) == Some(JsonView::Str(text)),
                    None => wire.get("content"@) is None,
                }
                &&& match wire.get("tool_calls"@) {
                    Some(JsonView::Array(list)) => {
                        &&& tool_calls.len() > 0
                        &&& list.len() == tool_calls.len()
                        &&& forall|k: int|
                            0 <= k < list.len() ==> #[trigger] list[k] == call_wire(tool_calls[k])
                    },
                    Some(_) => false,
                    None => tool_calls.len() == 0,
                }
            },
            MessageView::Tool { tool_call_id, content } => {
                let wire = message_wire(message);
                &&& wire.get("role"@) == Some(JsonView::Str("tool"@))
                &&& wire.get("content"@) == Some(JsonView::Str(content))
                &&& wire.get("tool_call_id"@) == Some(JsonView::Str(tool_call_id))
            },
        },
{
    reveal_strlit("role");
    reveal_strlit("content");
    reveal_strlit("tool_calls");
    reveal_strlit("tool_call_id");
    reveal_with_fuel(crate::json::member, 4);
    assert("role"@.len() == 4 && "content"@.len() == 7);
    assert("tool_calls"@.len() == 10 && "tool_call_id"@.len() == 12);
}

/// A tool is offered as a function under its own name, with its description and its
/// parameters where it has them, and is refused only where it has no name to go by.
pub proof fn a_tool_is_offered_under_its_name(tool: JsonView)
    ensures
        tool_wire(tool) is Ok <==> (tool.get("function"@) matches Some(function)
            && function.get("name"@) matches Some(JsonView::Str(_))),
        tool_wire(tool) matches Ok(wire) ==> wire.get("type"@) == Some(JsonView::Str("function"@)),
        tool_wire(tool) matches Ok(wire) ==> match (
            tool.get("function"@),
            wire.get("function"@),
        ) {
            (Some(function), Some(sent)) => {
                &&& sent.get("name"@) == function.get("name"@)
                &&& sent.get("parameters"@) == function.get("parameters"@)
                &&& match function.get("description"@) {
                    Some(JsonView::Str(text)) => sent.get("description"@) == Some(
                        JsonView::Str(text),
                    ),
                    _ => sent.get("description"@) is None,
                }
            },
            _ => false,
        },
{
    reveal_strlit("type");
    reveal_strlit("function");
    reveal_strlit("name");
    reveal_strlit("description");
    reveal_strlit("parameters");
    reveal_with_fuel(crate::json::member, 4);
    assert("type"@.len() == 4 && "function"@.len() == 8);
    assert("name"@.len() == 4 && "description"@.len() == 11 && "parameters"@.len() == 10);
    if let Some(function) = tool.get("function"@) {
        if let Some(name) = function.text_of("name"@) {
            let wire = tool_wire(tool)->Ok_0;
            let sent = wire.get("function"@)->0;
            assert(sent.get("name"@) == Some(JsonView::Str(name)));
        }
    }
}

proof fn every_tool_is_listed(tools: Seq<JsonView>)
    ensures
        match tools_wire(tools) {
            Ok(list) => list.len() == tools.len() && forall|k: int|
                0 <= k < tools.len() ==> tool_wire(tools[k]) == Ok::<JsonView, BrainErrView>(
                    #[trigger] list[k],
                ),
            Err(e) => exists|k: int|
                0 <= k < tools.len() && tool_wire(#[trigger] tools[k]) == Err::<
                    JsonView,
                    BrainErrView,
                >(e) && forall|j: int| 0 <= j < k ==> tool_wire(#[trigger] tools[j]) is Ok,
        },
    decreases tools.len(),
{
    if tools.len() > 0 {
        let before = tools.drop_last();
        every_tool_is_listed(before);
        match tools_wire(before) {
            Ok(done) => {
                assert forall|j: int| 0 <= j < before.len() implies tool_wire(
                    #[trigger] tools[j],
                ) is Ok by {
                    assert(before[j] == tools[j]);
                    assert(tool_wire(before[j]) == Ok::<JsonView, BrainErrView>(done[j]));
                }
                match tool_wire(tools.last()) {
                    Ok(doc) => {
                        let list = done.push(doc);
                        assert forall|k: int| 0 <= k < tools.len() implies tool_wire(tools[k])
                            == Ok::<JsonView, BrainErrView>(#[trigger] list[k]) by {
                            if k < before.len() {
                                assert(before[k] == tools[k]);
                                assert(list[k] == done[k]);
                            }
                        }
                    },
                    Err(e) => {
                        assert(tool_wire(tools[tools.len() - 1]) == Err::<JsonView, BrainErrView>(
                            e,
                        ));
                    },
                }
            },
            Err(e) => {
                let k = choose|k: int|
                    0 <= k < before.len() && tool_wire(#[trigger] before[k]) == Err::<
                        JsonView,
                        BrainErrView,
                    >(e) && forall|j: int| 0 <= j < k ==> tool_wire(#[trigger] before[j]) is Ok;
                assert(tools[k] == before[k]);
                assert forall|j: int| 0 <= j < k implies tool_wire(#[trigger] tools[j]) is Ok by {
                    assert(before[j] == tools[j]);
                }
            },
        }
    }
}

/// A request carries the whole conversation: one entry per message, in order, down to
/// the newest. It names the model, caps the reply only where a cap is set, and offers
/// every tool, in order; without tools none are mentioned. It fails only where a tool
/// cannot be offered, with what the first such tool is refused for.
pub proof fn a_request_carries_the_whole_conversation(
    model: Seq<char>,
    max_tokens: Option<u32>,
    messages: Seq<MessageView>,
    tools: Seq<JsonView>,
)
    ensures
        request_wire(model, max_tokens, messages, tools) matches Ok(body) ==> {
            &&& body.get("messages"@) matches Some(JsonView::Array(list)) && list.len()
                == messages.len() && (forall|k: int|
                0 <= k < messages.len() ==> #[trigger] list[k] == message_wire(messages[k])) && (
            messages.len() > 0 ==> list.last() == message_wire(messages.last()))
            &&& body.get("model"@) == Some(JsonView::Str(model))
            &&& match max_tokens {
                Some(n) => body.get("max_tokens"@) == Some(JsonView::Int(n as int)),
                None => body.get("max_tokens"@) is None,
            }
            &&& match body.get("tools"@) {
                Some(JsonView::Array(list)) => {
                    &&& tools.len() > 0
                    &&& list.len() == tools.len()
                    &&& forall|k: int|
                        0 <= k < tools.len() ==> tool_wire(tools[k]) == Ok::<
                            JsonView,
                            BrainErrView,
                        >(#[trigger] list[k])
                },
                Some(_) => false,
                None => tools.len() == 0,
            }
        },
        request_wire(model, max_tokens, messages, tools) matches Err(e) ==> exists|k: int|
            0 <= k < tools.len() && tool_wire(#[trigger] tools[k]) == Err::<JsonView, BrainErrView>(
                e,
            ) && forall|j: int| 0 <= j < k ==> tool_wire(#[trigger] tools[j]) is Ok,
{
    reveal_strlit("messages");
    reveal_strlit("model");
    reveal_strlit("max_tokens");
    reveal_strlit("tools");
    reveal_with_fuel(crate::json::member, 6);
    assert("messages"@.len() == 8 && "model"@.len() == 5 && "max_tokens"@.len() == 10);
    assert("tools"@.len() == 5 && "model"@[0] != "tools"@[0]);
    every_tool_is_listed(tools);
}

/// The function calls of a reply are taken in the order in which they stand, call by
/// call; calls of another kind are passed over and displace nothing.
pub proof fn function_calls_are_taken_in_order(
    calls: Seq<ProviderCall>,
    more: Seq<ProviderCall>,
    call: ToolCall,
    id: String,
)
    ensures
        function_calls(calls + more) == function_calls(calls) + function_calls(more),
        function_calls(seq![ProviderCall::Function(call)]) == seq![call@],
        function_calls(seq![ProviderCall::Custom { id }]).len() == 0,
        function_calls(Seq::empty()).len() == 0,
    decreases more.len(),
{
    reveal_with_fuel(function_calls, 2);
    assert(seq![ProviderCall::Function(call)].drop_last() =~= Seq::empty());
    assert(seq![ProviderCall::Custom { id }].drop_last() =~= Seq::empty());
    assert(function_calls(seq![ProviderCall::Function(call)]) =~= seq![call@]);
    if more.len() == 0 {
        assert(calls + more =~= calls);
        assert(function_calls(calls) + function_calls(more) =~= function_calls(calls));
    } else {
        function_calls_are_taken_in_order(calls, more.drop_last(), call, id);
        assert((calls + more).drop_last() =~= calls + more.drop_last());
        assert((calls + more).last() == more.last());
        assert(function_calls(calls + more) =~= function_calls(calls) + function_calls(more));
    }
}

/// The first choice is the answer, with its text and its calls as they are; whatever
/// other choices there are changes nothing. Without choices there is no answer.
pub proof fn the_first_choice_is_the_answer(first: Choice, others: Seq<Choice>)
    ensures
        answer(seq![first] + others) matches Ok(response) && {
            &&& match first.content {
                Some(text) => response.content == Some(text@) && response.text() == text@,
                None => response.content is None && response.text().len() == 0,
            }
            &&& match first.tool_calls {
                Some(calls) => response.tool_calls == function_calls(calls@),
                None => response.tool_calls.len() == 0,
            }
        },
        answer(Seq::empty()) matches Err(BrainErrView::Backend(_)),
{
    assert((seq![first] + others)[0] == first);
}

/// What is said of a call, a message and a reply is what each holds, field by field, and a
/// list says what each of its items does, in order.
pub proof fn messages_show_their_fields(
    call: ToolCall,
    message: ChatMessage,
    response: ChatResponse,
    calls: Seq<ToolCall>,
    messages: Seq<ChatMessage>,
)
    ensures
        call@.id == call.id@,
        call@.name == call.name@,
        call@.arguments == call.arguments@,
        match message {
            ChatMessage::System(text) => message@ == MessageView::System(text@),
            ChatMessage::User(text) => message@ == MessageView::User(text@),
            ChatMessage::Assistant { content: said, tool_calls: wanted } => message@
                matches MessageView::Assistant { content, tool_calls } && tool_calls.len()
                == wanted@.len() && (forall|i: int|
                0 <= i < wanted@.len() ==> #[trigger] tool_calls[i] == wanted@[i]@) && (
            match said {
                Some(text) => content == Some(text@),
                None => content is None,
            }),
            ChatMessage::Tool { tool_call_id, content } => message@ == (MessageView::Tool {
                tool_call_id: tool_call_id@,
                content: content@,
            }),
        },
        match response.content {
            Some(text) => response@.content == Some(text@),
            None => response@.content is None,
        },
        response@.tool_calls.len() == response.tool_calls@.len(),
        forall|i: int|
            0 <= i < response.tool_calls@.len() ==> #[trigger] response@.tool_calls[i]
                == response.tool_calls@[i]@,
        call_views(calls).len() == calls.len(),
        forall|i: int| 0 <= i < calls.len() ==> #[trigger] call_views(calls)[i] == calls[i]@,
        message_views(messages).len() == messages.len(),
        forall|i: int|
            0 <= i < messages.len() ==> #[trigger] message_views(messages)[i] == messages[i]@,
{
}

} // verus!

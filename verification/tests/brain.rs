use std::sync::Arc;
use xiaoai_llm::brain::client::{
    to_openai_message, to_openai_tool, Choice, ProviderCall,
};
use xiaoai_llm::brain::registry::{Tool, ToolRegistry};
use xiaoai_llm::brain::run::{
    parse_arguments, read_arguments, render_result, run_tool_call, tool_answer, tool_schemas,
    to_say, worth_saying, Block, CallToolResult, RunEvent, RunStep, Step, ToolInfo, ToolRun,
};
use xiaoai_llm::brain::{
    Agent, AgentConfig, BrainErr, ChatMessage, ChatResponse, ClientConfig, LlmClient, ToolCall,
    Utterance, DEFAULT_SYSTEM_PROMPT,
};
use xiaoai_llm::json::Json;

fn item(doc: &Json, i: usize) -> &Json {
    match doc {
        Json::Array(items) => &items[i],
        other => panic!("{other:?}"),
    }
}

fn length(doc: &Json) -> usize {
    match doc {
        Json::Array(items) => items.len(),
        other => panic!("{other:?}"),
    }
}

#[test]
fn defaults_point_at_deepseek_and_a_current_model() {
    let config = ClientConfig::new("k");
    assert_eq!(config.api_base, "https://api.deepseek.com");
    assert_eq!(config.model, "deepseek-v4-flash");
    let shown = format!("{:?}", ClientConfig::new("sk-secret").summary());
    assert!(shown.contains("<redacted>"));
    assert!(!shown.contains("sk-secret"));
    assert_ne!(config.model, "deepseek-chat");
    assert_ne!(config.model, "deepseek-reasoner");
    assert_eq!(LlmClient::new("k").model(), "deepseek-v4-flash");
}

#[test]
fn the_base_url_is_overridable() {
    let client = LlmClient::with_config(&ClientConfig {
        api_key: "k".to_string(),
        api_base: "http://127.0.0.1:9/v1".to_string(),
        model: "mock".to_string(),
        max_tokens: None,
    });
    assert_eq!(client.model(), "mock");
}

fn calling() -> ChatMessage {
    ChatMessage::Assistant {
        content: None,
        tool_calls: vec![ToolCall {
            id: "call_1".into(),
            name: "play_music".into(),
            arguments: r#"{"query":"晴天"}"#.into(),
        }],
    }
}

#[test]
fn messages_serialise_to_the_openai_wire_shape() {
    let messages = [
        ChatMessage::system("你是小助手"),
        ChatMessage::user("放首歌"),
        calling(),
        ChatMessage::tool("call_1", "playing 晴天"),
    ];
    let wire: Vec<Json> = messages.iter().map(to_openai_message).collect();

    assert_eq!(wire[0].text_of("role"), Some("system"));
    assert_eq!(wire[0].text_of("content"), Some("你是小助手"));
    assert_eq!(wire[1].text_of("role"), Some("user"));
    assert_eq!(wire[2].text_of("role"), Some("assistant"));
    let call = item(wire[2].get("tool_calls").unwrap(), 0);
    assert_eq!(call.text_of("id"), Some("call_1"));
    assert_eq!(call.text_of("type"), Some("function"));
    let function = call.get("function").unwrap();
    assert_eq!(function.text_of("name"), Some("play_music"));
    assert_eq!(function.text_of("arguments"), Some(r#"{"query":"晴天"}"#));
    assert_eq!(wire[3].text_of("role"), Some("tool"));
    assert_eq!(wire[3].text_of("tool_call_id"), Some("call_1"));
}

#[test]
fn an_assistant_message_without_calls_omits_tool_calls() {
    let wire = to_openai_message(&ChatMessage::assistant("好的"));
    assert_eq!(wire.text_of("role"), Some("assistant"));
    assert!(wire.get("tool_calls").is_none());
}

#[test]
fn tool_schemas_round_trip_into_the_typed_form() {
    let schema = Json::parse(
        r#"{"type":"function","function":{"name":"play_music","description":"Play a song.",
            "parameters":{"type":"object","properties":{}}}}"#,
    )
    .unwrap();
    let wire = to_openai_tool(&schema).unwrap();
    assert_eq!(wire.text_of("type"), Some("function"));
    let function = wire.get("function").unwrap();
    assert_eq!(function.text_of("name"), Some("play_music"));
    assert_eq!(function.text_of("description"), Some("Play a song."));
    assert_eq!(function.get("parameters").unwrap().text_of("type"), Some("object"));
}

#[test]
fn a_malformed_tool_schema_is_an_error_not_a_panic() {
    assert_eq!(
        to_openai_tool(&Json::parse(r#"{"type":"function"}"#).unwrap()).unwrap_err().message(),
        "invalid arguments: tool schema is missing a `function` object"
    );
    assert_eq!(
        to_openai_tool(&Json::parse(r#"{"function":{"description":"no name"}}"#).unwrap())
            .unwrap_err()
            .message(),
        "invalid arguments: tool schema is missing `function.name`"
    );
}

#[test]
fn a_request_carries_the_model_the_messages_and_the_tools() {
    let client = LlmClient::with_config(&ClientConfig {
        max_tokens: Some(100),
        ..ClientConfig::new("k")
    });
    let messages = vec![ChatMessage::user("hi")];
    let bare = client.chat_request(&messages, &vec![]).unwrap();
    assert_eq!(bare.text_of("model"), Some("deepseek-v4-flash"));
    assert_eq!(bare.get("max_tokens").unwrap().as_i64(), Some(100));
    assert!(bare.get("tools").is_none());

    let good = Json::parse(r#"{"function":{"name":"a"}}"#).unwrap();
    let bad = Json::parse("{}").unwrap();
    let full = client.chat_request(&messages, &vec![good.copy()]).unwrap();
    assert_eq!(length(full.get("tools").unwrap()), 1);
    assert!(client.chat_request(&messages, &vec![good, bad]).is_err());
}

#[test]
fn the_first_choice_counts_and_custom_calls_are_dropped() {
    let call = ToolCall { id: "1".into(), name: "n".into(), arguments: "{}".into() };
    let response = LlmClient::chat_response(vec![
        Choice {
            content: Some("hi".to_string()),
            tool_calls: Some(vec![
                ProviderCall::Custom { id: "x".to_string() },
                ProviderCall::Function(call.clone()),
            ]),
        },
        Choice { content: Some("second".to_string()), tool_calls: None },
    ])
    .unwrap();
    assert_eq!(response.text(), "hi");
    assert_eq!(response.tool_calls, vec![call]);
    assert!(response.wants_tools());
    assert_eq!(
        LlmClient::chat_response(vec![]),
        Err(BrainErr::Backend("model returned no choices".to_string()))
    );
    assert_eq!(ChatResponse::default().text(), "");
}

/// Echoes its `text` argument, or fails when told to.
struct Echo {
    name: &'static str,
}

impl Tool for Echo {
    fn name(&self) -> &str {
        self.name
    }
    fn description(&self) -> &str {
        "Echo the given text back."
    }
    fn parameters(&self) -> Json {
        Json::parse(
            r#"{"type":"object","properties":{"text":{"type":"string"}},"required":["text"]}"#,
        )
        .unwrap()
    }
}

impl Echo {
    fn call(&self, args: &Json) -> Result<String, BrainErr> {
        match args.text_of("text") {
            Some("boom") => Err(BrainErr::Backend("exploded".into())),
            Some(text) => Ok(text.to_string()),
            None => Err(BrainErr::InvalidArguments("`text` is required".into())),
        }
    }
}

fn said(text: &str) -> Json {
    Json::empty().with("text", Json::string(text))
}

#[test]
fn schemas_are_openai_shaped_and_ordered() {
    let registry = ToolRegistry::new()
        .with(Echo { name: "zebra" })
        .with(Echo { name: "alpha" });
    let schemas = registry.schemas();
    assert_eq!(schemas.len(), 2);
    let first = schemas[0].get("function").unwrap();
    assert_eq!(first.text_of("name"), Some("alpha"));
    assert_eq!(schemas[1].get("function").unwrap().text_of("name"), Some("zebra"));
    assert_eq!(schemas[0].text_of("type"), Some("function"));
    assert_eq!(first.text_of("description"), Some("Echo the given text back."));
    assert_eq!(first.get("parameters").unwrap().text_of("type"), Some("object"));
}

#[test]
fn dispatch_routes_by_name() {
    let registry = ToolRegistry::new().with(Echo { name: "echo" });
    let out = registry.dispatch("echo").unwrap().call(&said("hi")).unwrap();
    assert_eq!(out, "hi");
}

#[test]
fn an_unknown_tool_errors_cleanly_and_names_the_alternatives() {
    let registry = ToolRegistry::new().with(Echo { name: "echo" }).with(Echo { name: "beep" });
    match registry.dispatch("nope") {
        Ok(_) => panic!("there is no such tool"),
        Err(err) => {
            assert!(matches!(err, BrainErr::NotFound(_)));
            assert_eq!(
                err.message(),
                "not found: no tool named `nope`; available tools: [beep, echo]"
            );
        }
    }
}

#[test]
fn a_failing_tool_surfaces_its_error() {
    let registry = ToolRegistry::new().with(Echo { name: "echo" });
    let err = registry.dispatch("echo").unwrap().call(&said("boom")).unwrap_err();
    assert_eq!(err.message(), "exploded");
}

#[test]
fn re_registering_a_name_replaces_rather_than_duplicating() {
    let registry = ToolRegistry::new()
        .with(Echo { name: "echo" })
        .with(Echo { name: "echo" });
    assert_eq!(registry.len(), 1);
    assert!(registry.get("echo").is_some());
    assert!(!registry.is_empty());
}

#[test]
fn a_registry_can_be_collected_from_shared_tools() {
    let tools: Vec<Arc<Echo>> = vec![Arc::new(Echo { name: "a" }), Arc::new(Echo { name: "b" })];
    let registry = ToolRegistry::from_tools(tools);
    assert_eq!(registry.names(), ["a", "b"]);
    let registry = ToolRegistry::new().with_arc(Arc::new(Echo { name: "c" }));
    assert_eq!(registry.names(), ["c"]);
}

#[test]
fn a_registry_does_not_depend_on_the_order_of_registration() {
    let names = ["d", "b", "a", "c", "b"];
    let forward = ToolRegistry::from_tools(names.iter().map(|n| Echo { name: n }).collect());
    let backward = ToolRegistry::from_tools(names.iter().rev().map(|n| Echo { name: n }).collect());
    assert_eq!(forward.names(), ["a", "b", "c", "d"]);
    assert_eq!(backward.names(), forward.names());
    assert!(forward.get("e").is_none());
}

// ---------------------------------------------------------------- the loop

fn text_reply(content: &str) -> ChatResponse {
    ChatResponse { content: Some(content.to_string()), tool_calls: vec![] }
}

fn tool_call_reply(id: &str, name: &str, arguments: &str) -> ChatResponse {
    ChatResponse {
        content: None,
        tool_calls: vec![ToolCall {
            id: id.to_string(),
            name: name.to_string(),
            arguments: arguments.to_string(),
        }],
    }
}

struct Run {
    agent: Agent,
    replies: Vec<ChatResponse>,
    requests: Vec<Vec<ChatMessage>>,
    calls: Vec<(String, String)>,
    said: Vec<String>,
}

impl Run {
    fn new(replies: Vec<ChatResponse>, config: AgentConfig) -> Self {
        Self {
            agent: Agent::new(config),
            replies,
            requests: Vec::new(),
            calls: Vec::new(),
            said: Vec::new(),
        }
    }

    fn handle(&mut self, text: &str) -> Result<String, BrainErr> {
        let mut turn = self.agent.handle(&Utterance::new("1", text, 0));
        loop {
            match turn.step() {
                Step::Ask => {
                    self.requests.push(turn.messages().clone());
                    let reply = if self.replies.len() > 1 {
                        self.replies.remove(0)
                    } else {
                        self.replies[0].clone()
                    };
                    turn.on_response(reply);
                }
                Step::Call(call) => {
                    let result = match run_tool_call(call) {
                        ToolRun::Answer(text) => text,
                        ToolRun::Request { name, arguments } => {
                            if name == "play_music" {
                                let args = arguments.unwrap();
                                let query = args.text_of("query").unwrap().to_string();
                                let text = format!("now playing {query}");
                                self.calls.push((name, query));
                                tool_answer(Ok(CallToolResult {
                                    content: vec![Block::Text(text)],
                                    is_error: None,
                                }))
                            } else {
                                tool_answer(Err("tool not found".to_string()))
                            }
                        }
                    };
                    turn.on_tool_result(&result);
                }
                Step::Reply(_) | Step::Fail(_) => break,
            }
        }
        self.agent.finish(turn)
    }

    fn run(&mut self, texts: &[&str]) {
        let mut left = texts.iter();
        let mut step = RunStep::Listen;
        loop {
            let event = match step {
                RunStep::Listen => {
                    RunEvent::Heard(left.next().map(|text| Utterance::new("1", text, 0)))
                }
                RunStep::Handle(utterance) => RunEvent::Handled(self.handle(&utterance.text)),
                RunStep::Say(text) => {
                    self.said.push(text);
                    RunEvent::Said(Ok(()))
                }
                RunStep::Stop => return,
            };
            step = Agent::run(event);
        }
    }
}

fn tool_messages(request: &[ChatMessage]) -> Vec<String> {
    request
        .iter()
        .filter_map(|m| match m {
            ChatMessage::Tool { content, .. } => Some(content.clone()),
            _ => None,
        })
        .collect()
}

#[test]
fn a_plain_text_reply_is_spoken() {
    let mut run = Run::new(vec![text_reply("从前有座山")], AgentConfig::default());
    run.run(&["讲个故事"]);
    assert_eq!(run.said, ["从前有座山"]);
}

#[test]
fn a_tool_call_is_dispatched_and_its_result_fed_back() {
    let mut run = Run::new(
        vec![
            tool_call_reply("call_1", "play_music", r#"{"query":"晴天"}"#),
            text_reply("好的，播放晴天"),
        ],
        AgentConfig::default(),
    );
    run.run(&["放晴天"]);
    assert_eq!(run.calls, [("play_music".to_string(), "晴天".to_string())]);
    assert_eq!(run.said, ["好的，播放晴天"]);
    assert_eq!(run.requests.len(), 2);
    assert_eq!(tool_messages(&run.requests[1]), ["now playing 晴天"]);
    match &run.requests[1][2] {
        ChatMessage::Assistant { tool_calls, .. } => assert_eq!(tool_calls[0].id, "call_1"),
        other => panic!("{other:?}"),
    }
}

#[test]
fn malformed_arguments_are_reported_to_the_model_not_panicked_on() {
    let mut run = Run::new(
        vec![
            tool_call_reply("call_1", "play_music", r#"{"query":"晴天"#),
            text_reply("抱歉，我没听清"),
        ],
        AgentConfig::default(),
    );
    run.run(&["放晴天"]);
    assert!(run.calls.is_empty());
    let messages = tool_messages(&run.requests[1]);
    assert_eq!(messages.len(), 1);
    assert!(messages[0].starts_with("error:"), "{}", messages[0]);
    assert!(messages[0].contains("not valid JSON"), "{}", messages[0]);
    assert_eq!(run.said, ["抱歉，我没听清"]);
}

#[test]
fn non_object_arguments_are_rejected_with_an_explanation() {
    assert!(parse_arguments("[1,2]").unwrap_err().contains("JSON object"));
    assert!(parse_arguments("\"晴天\"").unwrap_err().contains("JSON object"));
    assert!(parse_arguments("").unwrap().is_none());
    assert!(parse_arguments("  ").unwrap().is_none());
    assert!(parse_arguments("null").unwrap().is_none());
    let parsed = parse_arguments(r#"{"a":1}"#).unwrap().unwrap();
    assert_eq!(parsed.get("a").unwrap().as_i64(), Some(1));
    assert_eq!(
        read_arguments(Ok(Json::Bool(true))).unwrap_err(),
        "tool arguments must be a JSON object, got true; re-send them as a JSON object"
    );
}

#[test]
fn an_unknown_tool_name_errors_cleanly_back_to_the_model() {
    let mut run = Run::new(
        vec![tool_call_reply("call_1", "launch_missiles", "{}"), text_reply("我做不到")],
        AgentConfig::default(),
    );
    run.run(&["发射导弹"]);
    let messages = tool_messages(&run.requests[1]);
    assert!(messages[0].starts_with("error:"), "{}", messages[0]);
    assert_eq!(run.said, ["我做不到"]);
}

#[test]
fn the_iteration_cap_stops_a_model_that_loops() {
    let mut run = Run::new(
        vec![tool_call_reply("call_1", "play_music", r#"{"query":"晴天"}"#)],
        AgentConfig { max_tool_iterations: 2, ..AgentConfig::default() },
    );
    let err = run.handle("放晴天").unwrap_err();
    assert_eq!(
        err.message(),
        "model still requesting tools after 2 rounds; giving up on this turn"
    );
    assert_eq!(run.calls.len(), 2);
    assert_eq!(run.requests.len(), 3);

    run.run(&["放晴天"]);
    assert!(run.said.is_empty());
}

#[test]
fn history_carries_context_into_the_next_turn_and_stays_bounded() {
    let mut run = Run::new(
        vec![text_reply("好")],
        AgentConfig { max_history_messages: 2, ..AgentConfig::default() },
    );
    run.run(&["第一句", "第二句", "第三句"]);
    let second = &run.requests[1];
    assert!(second.contains(&ChatMessage::user("第一句")));
    assert!(second.contains(&ChatMessage::user("第二句")));

    let third = &run.requests[2];
    assert_eq!(third.len(), 4);
    assert!(matches!(third[0], ChatMessage::System(_)));
    assert_eq!(third[1], ChatMessage::user("第二句"));
    assert_eq!(third[2], ChatMessage::assistant("好"));
    assert_eq!(third[3], ChatMessage::user("第三句"));
}

#[test]
fn an_odd_history_limit_keeps_whole_exchanges() {
    for (max, kept) in [(0, 2), (1, 2), (3, 4), (4, 6)] {
        let mut run = Run::new(
            vec![text_reply("好")],
            AgentConfig { max_history_messages: max, ..AgentConfig::default() },
        );
        run.run(&["一", "二", "三", "四"]);
        assert_eq!(run.requests[3].len(), kept, "{max}");
    }
}

#[test]
fn an_empty_reply_is_not_spoken() {
    let mut run = Run::new(vec![text_reply("   ")], AgentConfig::default());
    run.run(&["放歌"]);
    assert!(run.said.is_empty());
}

#[test]
fn the_default_system_prompt_leads_every_request() {
    let mut run = Run::new(vec![text_reply("好")], AgentConfig::default());
    run.run(&["你好"]);
    assert_eq!(run.requests[0][0], ChatMessage::system(DEFAULT_SYSTEM_PROMPT));
    assert!(DEFAULT_SYSTEM_PROMPT.starts_with("你是一台智能音箱的助手。"));
}

#[test]
fn a_failed_turn_is_forgotten() {
    let mut agent = Agent::new(AgentConfig::default());
    let mut turn = agent.handle(&Utterance::new("1", "你好", 0));
    turn.on_model_failed(BrainErr::Auth("expired".to_string()));
    assert_eq!(agent.finish(turn), Err(BrainErr::Auth("expired".to_string())));
    assert_eq!(agent.handle(&Utterance::new("2", "在吗", 1)).messages().len(), 2);
}

#[test]
fn only_an_exhausted_source_ends_the_conversation() {
    let offline = || BrainErr::Backend("offline".to_string());
    let heard = Utterance::new("1", "在吗", 0);
    assert_eq!(Agent::run(RunEvent::Heard(Some(heard.clone()))), RunStep::Handle(heard));
    assert_eq!(
        Agent::run(RunEvent::Handled(Ok("在".to_string()))),
        RunStep::Say("在".to_string())
    );
    assert_eq!(Agent::run(RunEvent::Handled(Ok(" \n".to_string()))), RunStep::Listen);
    assert_eq!(Agent::run(RunEvent::Handled(Err(offline()))), RunStep::Listen);
    assert_eq!(Agent::run(RunEvent::Said(Ok(()))), RunStep::Listen);
    assert_eq!(Agent::run(RunEvent::Said(Err(offline()))), RunStep::Listen);
    assert_eq!(Agent::run(RunEvent::Heard(None)), RunStep::Stop);
}

#[test]
fn only_an_answer_worth_saying_is_said() {
    assert_eq!(to_say(&Ok(" 好 ".to_string())), Some(" 好 "));
    assert_eq!(to_say(&Ok(" \n".to_string())), None);
    assert_eq!(to_say(&Err(BrainErr::Backend("x".to_string()))), None);
    assert!(worth_saying("好"));
    assert!(!worth_saying("\u{3000}"));
}

#[test]
fn a_tool_result_is_its_lines_of_text() {
    let content = vec![
        Block::Text("a".to_string()),
        Block::Other,
        Block::Text("b".to_string()),
    ];
    let mut result = CallToolResult { content, is_error: None };
    assert_eq!(render_result(&result), "a\nb");
    result.is_error = Some(true);
    assert_eq!(render_result(&result), "error: a\nb");
}

#[test]
fn listed_tools_become_schemas() {
    let tools = vec![ToolInfo {
        name: "stop".to_string(),
        description: None,
        input_schema: Json::empty(),
    }];
    let schemas = tool_schemas(&tools);
    assert_eq!(
        schemas[0].render(),
        r#"{"function":{"description":null,"name":"stop","parameters":{}},"type":"function"}"#
    );
}

#[test]
fn every_error_has_its_words() {
    let s = || "x".to_string();
    assert_eq!(BrainErr::backend("x").message(), "x");
    assert_eq!(BrainErr::Unsupported(s()).message(), "unsupported: x");
    assert_eq!(BrainErr::InvalidArguments(s()).message(), "invalid arguments: x");
    assert_eq!(BrainErr::NotFound(s()).message(), "not found: x");
    assert_eq!(BrainErr::Auth(s()).message(), "not authenticated: x");
    assert_eq!(BrainErr::Json(s()).message(), "json error: x");
}

#[test]
fn documents_are_read_and_written() {
    let doc = Json::parse(r#"{"a":[1,-2,18446744073709551615,1.5,true,null,"x"]}"#).unwrap();
    let items = doc.get("a").unwrap();
    assert_eq!(item(items, 1).as_i64(), Some(-2));
    assert_eq!(item(items, 2).as_i64(), None);
    assert_eq!(item(items, 4).as_bool(), Some(true));
    assert!(item(items, 5).is_null());
    assert_eq!(item(items, 6).as_str(), Some("x"));
    assert_eq!(
        doc.copy().render(),
        r#"{"a":[1,-2,18446744073709551615,1.5,true,null,"x"]}"#
    );
    assert!(Json::parse("{").is_err());
}

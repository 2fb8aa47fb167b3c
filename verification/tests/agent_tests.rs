use rust_system_agent::agent::{describe_system, system_prompt, tool_progress_line, truncate_str, AgentRun, AgentStep};
use rust_system_agent::llm::{
    authorization_value, chat_completions_url, ApiError, ChatMessage, ChatResponse, Choice, FunctionCall,
    ResponseMessage, ToolCall,
};

fn call(id: &str, name: &str, args: &str) -> ToolCall {
    ToolCall {
        id: id.to_string(),
        call_type: "function".to_string(),
        function: FunctionCall { name: name.to_string(), arguments: args.to_string() },
    }
}

fn reply(content: Option<&str>, calls: Option<Vec<ToolCall>>) -> ChatResponse {
    ChatResponse {
        choices: Some(vec![Choice {
            message: ResponseMessage {
                role: "assistant".to_string(),
                content: content.map(|s| s.to_string()),
                tool_calls: calls,
            },
            finish_reason: None,
        }]),
        error: None,
    }
}

fn finished(step: AgentStep) -> Result<String, String> {
    match step {
        AgentStep::Finished { outcome } => outcome,
        _ => panic!("run not finished"),
    }
}

#[test]
fn truncate_short_and_long() {
    assert_eq!(truncate_str("hello", 10), "hello");
    assert_eq!(truncate_str("hello", 5), "hello");
    assert_eq!(truncate_str("hello world", 5), "hello...");
    assert_eq!(truncate_str("héllo", 3), "hé...");
}

#[test]
fn progress_line_shows_round_and_short_arguments() {
    let c = call("1", "terminal", "{\"command\":\"ls\"}");
    assert_eq!(tool_progress_line(0, 15, &c), "  [1/15] Tool: terminal ({\"command\":\"ls\"})");
    let long = "a".repeat(100);
    let c = call("2", "read_file", &long);
    assert_eq!(tool_progress_line(2, 15, &c), format!("  [3/15] Tool: read_file ({}...)", "a".repeat(80)));
}

#[test]
fn system_description_defaults() {
    assert_eq!(
        describe_system(Some("Ubuntu".into()), Some("24.04".into()), Some("6.8.0".into())),
        "Ubuntu 24.04 (kernel 6.8.0), Bash environment"
    );
    assert_eq!(describe_system(None, None, None), "Unknown  (kernel ), Bash environment");
}

#[test]
fn prompt_contains_info_and_memory() {
    let p = system_prompt("Linux", "No memory content yet.");
    assert!(p.starts_with("You are a helpful system agent running on Linux. You have access to tools"));
    assert!(p.contains("\n\nPersistent Memory:\nNo memory content yet.\n\nRules:\n- Use the terminal tool"));
    assert!(p.ends_with("- When the user asks you to remember something, use the remember_info tool."));
}

#[test]
fn request_details() {
    assert_eq!(chat_completions_url("https://openrouter.ai/api/v1"), "https://openrouter.ai/api/v1/chat/completions");
    assert_eq!(authorization_value("sk-1"), "Bearer sk-1");
}

#[test]
fn plain_reply_is_final_answer() {
    let (mut run, step) = AgentRun::start("SYS".to_string(), None, "hi", 15);
    assert!(matches!(step, AgentStep::QueryModel));
    assert_eq!(run.messages().len(), 2);
    assert_eq!(run.messages()[0].role, "system");
    assert_eq!(run.messages()[1].content.as_deref(), Some("hi"));
    let step = run.on_model_reply(Ok(reply(Some("Hello!"), None)));
    assert_eq!(finished(step), Ok("Hello!".to_string()));
    assert!(run.is_finished());
}

#[test]
fn missing_content_gives_placeholder() {
    let (mut run, _) = AgentRun::start("S".to_string(), None, "q", 3);
    let step = run.on_model_reply(Ok(reply(None, Some(vec![]))));
    assert_eq!(finished(step), Ok("(no response)".to_string()));
}

#[test]
fn history_goes_between_system_and_query() {
    let history = vec![
        ChatMessage { role: "user".into(), content: Some("a".into()), tool_calls: None, tool_call_id: None },
        ChatMessage { role: "assistant".into(), content: Some("b".into()), tool_calls: None, tool_call_id: None },
    ];
    let (run, _) = AgentRun::start("S".to_string(), Some(&history), "c", 15);
    let roles: Vec<&str> = run.messages().iter().map(|m| m.role.as_str()).collect();
    assert_eq!(roles, vec!["system", "user", "assistant", "user"]);
    assert_eq!(run.messages()[3].content.as_deref(), Some("c"));
}

#[test]
fn tool_calls_run_in_order_then_model_again() {
    let (mut run, _) = AgentRun::start("S".to_string(), None, "q", 15);
    let step = run.on_model_reply(Ok(reply(Some("thinking"), Some(vec![call("c1", "terminal", "ls"), call("c2", "memory_stats", "{}")]))));
    match step {
        AgentStep::RunTool { call } => assert_eq!(call.id, "c1"),
        _ => panic!("expected a tool"),
    }
    assert!(run.is_awaiting_tool());
    assert_eq!(run.messages().last().unwrap().role, "assistant");
    assert_eq!(run.messages().last().unwrap().tool_calls.as_ref().unwrap().len(), 2);
    let step = run.on_tool_output("out1".to_string());
    match step {
        AgentStep::RunTool { call } => assert_eq!(call.function.name, "memory_stats"),
        _ => panic!("expected second tool"),
    }
    let step = run.on_tool_output("out2".to_string());
    assert!(matches!(step, AgentStep::QueryModel));
    assert_eq!(run.iteration(), 1);
    let msgs = run.messages();
    assert_eq!(msgs.len(), 5);
    assert_eq!(msgs[3].role, "tool");
    assert_eq!(msgs[3].tool_call_id.as_deref(), Some("c1"));
    assert_eq!(msgs[3].content.as_deref(), Some("out1"));
    assert_eq!(msgs[4].tool_call_id.as_deref(), Some("c2"));
    let step = run.on_model_reply(Ok(reply(Some("done"), None)));
    assert_eq!(finished(step), Ok("done".to_string()));
}

#[test]
fn round_limit_ends_run() {
    let (mut run, _) = AgentRun::start("S".to_string(), None, "q", 1);
    run.on_model_reply(Ok(reply(None, Some(vec![call("c", "terminal", "ls")]))));
    let step = run.on_tool_output("x".to_string());
    assert_eq!(finished(step), Err("Agent reached maximum iterations without a final response.".to_string()));
    let (_, step) = AgentRun::start("S".to_string(), None, "q", 0);
    assert_eq!(finished(step), Err("Agent reached maximum iterations without a final response.".to_string()));
}

#[test]
fn errors_end_run() {
    let (mut run, _) = AgentRun::start("S".to_string(), None, "q", 15);
    assert_eq!(finished(run.on_model_reply(Err("HTTP request failed: x".to_string()))), Err("HTTP request failed: x".to_string()));
    let (mut run, _) = AgentRun::start("S".to_string(), None, "q", 15);
    let resp = ChatResponse { choices: None, error: Some(ApiError { message: "quota".into() }) };
    assert_eq!(finished(run.on_model_reply(Ok(resp))), Err("API error: quota".to_string()));
    let (mut run, _) = AgentRun::start("S".to_string(), None, "q", 15);
    let resp = ChatResponse { choices: Some(vec![]), error: None };
    assert_eq!(finished(run.on_model_reply(Ok(resp))), Err("No choices in API response".to_string()));
    let (mut run, _) = AgentRun::start("S".to_string(), None, "q", 15);
    let resp = ChatResponse { choices: None, error: None };
    assert_eq!(finished(run.on_model_reply(Ok(resp))), Err("No choices in API response".to_string()));
}

#[test]
fn endless_tool_calls_ask_the_model_fifteen_times() {
    let (mut run, mut step) = AgentRun::start("S".to_string(), None, "q", 15);
    let mut questions = 0;
    loop {
        match step {
            AgentStep::QueryModel => {
                questions += 1;
                step = run.on_model_reply(Ok(reply(None, Some(vec![call("c", "terminal", "ls")]))));
            }
            AgentStep::RunTool { .. } => step = run.on_tool_output("out".to_string()),
            AgentStep::Finished { outcome } => {
                assert_eq!(outcome, Err("Agent reached maximum iterations without a final response.".to_string()));
                break;
            }
        }
    }
    assert_eq!(questions, 15);
}

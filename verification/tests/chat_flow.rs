use lasada::chat::{ChatAction, ChatEvent, InterpreterState, MAX_TURNS};
use lasada::types::{LlmResponseChunk, Message, ToolCall};

fn call(id: &str, name: &str, args: &str) -> ToolCall {
    ToolCall { id: id.to_string(), name: name.to_string(), arguments: args.to_string() }
}

fn text(t: &str) -> ChatEvent {
    ChatEvent::Chunk(LlmResponseChunk::Text(t.to_string()))
}

fn roles(h: &Vec<Message>) -> Vec<String> {
    h.iter().map(|m| m.role.clone()).collect()
}

#[test]
fn plain_answer_ends_the_exchange() {
    let mut s = InterpreterState::new("sys".to_string());
    assert!(matches!(s.step(ChatEvent::UserInput("hi".into())), ChatAction::RequestCompletion));
    assert!(matches!(s.step(text("Hel")), ChatAction::Continue));
    assert!(matches!(s.step(text("lo")), ChatAction::Continue));
    assert!(matches!(s.step(ChatEvent::StreamEnded), ChatAction::Finished));
    let h = s.history();
    assert_eq!(roles(h), vec!["user", "assistant"]);
    assert_eq!(h[1].content, "Hello");
    assert!(h[1].tool_calls.is_none());
}

#[test]
fn auto_run_executes_tool_calls_without_asking() {
    let mut s = InterpreterState::new("sys".to_string());
    s.set_auto_run(true);
    s.step(ChatEvent::UserInput("list".into()));
    s.step(ChatEvent::Chunk(LlmResponseChunk::ToolCall(call("c1", "execute_bash", "{\"command\":\"ls -F\"}"))));
    match s.step(ChatEvent::StreamEnded) {
        ChatAction::Execute { call, language, code } => {
            assert_eq!(call.id, "c1");
            assert_eq!(language, "bash");
            assert_eq!(code, "ls -F");
        }
        _ => panic!("expected execution"),
    }
    assert!(matches!(s.step(ChatEvent::ToolOutput("a.txt".into())), ChatAction::RequestCompletion));
    let h = s.history();
    assert_eq!(roles(h), vec!["user", "assistant", "tool"]);
    assert_eq!(h[2].tool_call_id.as_deref(), Some("c1"));
    assert_eq!(h[2].content, "a.txt");
    assert_eq!(h[1].tool_calls.as_ref().unwrap()[0].name, "execute_bash");
}

#[test]
fn declined_tool_call_is_recorded_as_skipped() {
    let mut s = InterpreterState::new("sys".to_string());
    s.step(ChatEvent::UserInput("search".into()));
    s.step(ChatEvent::Chunk(LlmResponseChunk::ToolCall(call("a", "web_search", "{\"query\":\"rust\"}"))));
    s.step(ChatEvent::Chunk(LlmResponseChunk::ToolCall(call("b", "execute_python", "{\"code\":\"1+1\"}"))));
    match s.step(ChatEvent::StreamEnded) {
        ChatAction::AskApproval(c) => assert_eq!(c.id, "a"),
        _ => panic!("expected approval request"),
    }
    match s.step(ChatEvent::Approval(false)) {
        ChatAction::AskApproval(c) => assert_eq!(c.id, "b"),
        _ => panic!("expected approval request"),
    }
    match s.step(ChatEvent::Approval(true)) {
        ChatAction::Execute { language, code, .. } => {
            assert_eq!(language, "python");
            assert_eq!(code, "1+1");
        }
        _ => panic!("expected execution"),
    }
    assert!(matches!(s.step(ChatEvent::ToolOutput("2".into())), ChatAction::RequestCompletion));
    let h = s.history();
    assert_eq!(h[2].content, "Skipped by user.");
    assert_eq!(h[2].tool_call_id.as_deref(), Some("a"));
    assert_eq!(h[3].content, "2");
    assert_eq!(h[3].tool_call_id.as_deref(), Some("b"));
}

#[test]
fn tool_call_fragment_without_id_updates_last_call() {
    let mut s = InterpreterState::new("sys".to_string());
    s.set_auto_run(true);
    s.step(ChatEvent::UserInput("x".into()));
    s.step(ChatEvent::Chunk(LlmResponseChunk::ToolCall(call("c1", "execute_bash", "{\"comm"))));
    s.step(ChatEvent::Chunk(LlmResponseChunk::ToolCall(call("", "execute_bash", "{\"command\":\"pwd\"}"))));
    match s.step(ChatEvent::StreamEnded) {
        ChatAction::Execute { code, .. } => assert_eq!(code, "pwd"),
        _ => panic!("expected execution"),
    }
    assert_eq!(s.history()[1].tool_calls.as_ref().unwrap().len(), 1);
    assert_eq!(s.history()[1].tool_calls.as_ref().unwrap()[0].id, "c1");
}

#[test]
fn named_session_is_saved_before_each_request_and_at_the_end() {
    let mut s = InterpreterState::new("sys".to_string());
    s.set_session_name("work".to_string());
    assert!(matches!(s.step(ChatEvent::UserInput("hi".into())), ChatAction::Save));
    assert!(matches!(s.step(ChatEvent::Saved), ChatAction::RequestCompletion));
    s.step(text("ok"));
    assert!(matches!(s.step(ChatEvent::StreamEnded), ChatAction::Save));
    assert!(matches!(s.step(ChatEvent::Saved), ChatAction::Finished));
}

#[test]
fn exchange_stops_after_max_turns() {
    let mut s = InterpreterState::new("sys".to_string());
    s.set_auto_run(true);
    let mut requests = 0;
    let mut action = s.step(ChatEvent::UserInput("loop".into()));
    loop {
        match action {
            ChatAction::RequestCompletion => {
                requests += 1;
                s.step(ChatEvent::Chunk(LlmResponseChunk::ToolCall(call("id", "execute_bash", "{\"command\":\"true\"}"))));
                action = s.step(ChatEvent::StreamEnded);
            }
            ChatAction::Execute { .. } => action = s.step(ChatEvent::ToolOutput(String::new())),
            ChatAction::Finished => break,
            _ => panic!("unexpected action"),
        }
    }
    assert_eq!(requests, MAX_TURNS);
    assert_eq!(s.history().len(), 1 + 2 * MAX_TURNS);
}

#[test]
fn unexpected_events_are_ignored() {
    let mut s = InterpreterState::new("sys".to_string());
    assert!(matches!(s.step(ChatEvent::StreamEnded), ChatAction::Ignored));
    assert!(matches!(s.step(ChatEvent::Approval(true)), ChatAction::Ignored));
    assert!(s.history().is_empty());
}

#[test]
fn system_prompt_is_installed_once() {
    let mut s = InterpreterState::new("Be brief.".to_string());
    s.install_system_prompt("OS: Linux");
    s.install_system_prompt("OS: Other");
    let h = s.history();
    assert_eq!(h.len(), 1);
    assert_eq!(h[0].role, "system");
    assert!(h[0].content.starts_with("Be brief.\n\n@CTX:[DOM:SYSTEM_ROOT|GOAL:INITIALIZED]\n"));
    assert!(h[0].content.ends_with("--- Runtime Specs ---\nOS: Linux\n--------------------\n"));
}

#[test]
fn long_history_is_compacted_through_a_summary() {
    let mut s = InterpreterState::new("sys".to_string());
    s.set_auto_run(true);
    let big = "word ".repeat(3000);
    let mut msgs = vec![Message::plain("system", "sys".to_string())];
    for i in 0..8 {
        msgs.push(Message::plain(if i % 2 == 0 { "user" } else { "assistant" }, format!("{} {}", i, big)));
    }
    s.restore_history(msgs);
    match s.step(ChatEvent::UserInput("next".into())) {
        ChatAction::Summarize(req) => {
            assert_eq!(req.len(), 2);
            assert_eq!(req[0].content, "Summarize concisely.");
            assert!(req[1].content.starts_with("user: 0 word"));
            assert_eq!(req[1].content.matches('\n').count(), 3);
        }
        _ => panic!("expected a summary request"),
    }
    s.step(text("  short "));
    s.step(ChatEvent::Chunk(LlmResponseChunk::ToolCall(call("x", "y", "z"))));
    s.step(text("summary  "));
    assert!(matches!(s.step(ChatEvent::StreamEnded), ChatAction::RequestCompletion));
    let h = s.history();
    assert_eq!(h.len(), 7);
    assert_eq!(h[0].content, "sys");
    assert_eq!(h[1].role, "system");
    assert_eq!(h[1].content, "short summary");
    assert_eq!(h[6].content, "next");
    assert!(h[2].content.starts_with("4 "));
}

#[test]
fn failed_summary_leaves_only_the_recent_messages() {
    let mut s = InterpreterState::new("sys".to_string());
    let big = "word ".repeat(3000);
    let mut msgs = vec![Message::plain("system", "sys".to_string())];
    for i in 0..8 {
        msgs.push(Message::plain(if i % 2 == 0 { "user" } else { "assistant" }, format!("{} {}", i, big)));
    }
    s.restore_history(msgs);
    assert!(matches!(s.step(ChatEvent::UserInput("next".into())), ChatAction::Summarize(_)));
    s.step(text("partial"));
    assert!(matches!(s.step(ChatEvent::Failed), ChatAction::Finished));
    let h = s.history();
    assert_eq!(h.len(), 5);
    assert!(h[0].content.starts_with("4 "));
    assert_eq!(h[4].content, "next");
}

#[test]
fn failure_while_streaming_keeps_the_history() {
    let mut s = InterpreterState::new("sys".to_string());
    s.set_session_name("work".to_string());
    assert!(matches!(s.step(ChatEvent::UserInput("hi".into())), ChatAction::Save));
    assert!(matches!(s.step(ChatEvent::Saved), ChatAction::RequestCompletion));
    s.step(text("Hel"));
    assert!(matches!(s.step(ChatEvent::Failed), ChatAction::Finished));
    assert_eq!(roles(s.history()), vec!["user"]);
    assert!(matches!(s.step(ChatEvent::StreamEnded), ChatAction::Ignored));
}

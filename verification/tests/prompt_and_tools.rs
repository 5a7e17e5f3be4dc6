use lasada::context::{build_summary_request, compact_history, exceeds_token_budget};
use lasada::prompt::{attach_files, attach_recalled, build_system_content, describe_runtime, file_mentions, render_report, Attachment};
use lasada::tools::{invocation_of, tool_specs};
use lasada::types::{AppError, Message, ToolCall};
use lasada::web::{parse_web_command, WebCommand};

fn msg(role: &str, content: &str) -> Message {
    Message::plain(role, content.to_string())
}

#[test]
fn offered_tools_and_their_parameters() {
    let specs = tool_specs();
    let names: Vec<&str> = specs.iter().map(|t| t.name.as_str()).collect();
    assert_eq!(names, vec!["execute_bash", "execute_python", "web_search"]);
    let params: Vec<&str> = specs.iter().map(|t| t.parameter.as_str()).collect();
    assert_eq!(params, vec!["command", "code", "query"]);
    assert_eq!(specs[0].description, "Execute a bash command on the host system.");
}

#[test]
fn tool_calls_become_code_for_an_executor() {
    let c = |n: &str, a: &str| ToolCall { id: "1".into(), name: n.into(), arguments: a.into() };
    assert_eq!(invocation_of(&c("execute_bash", "{\"command\": \"ls\"}")), ("bash".to_string(), "ls".to_string()));
    assert_eq!(invocation_of(&c("execute_python", "{\"code\":\"print(1)\"}")), ("python".to_string(), "print(1)".to_string()));
    assert_eq!(invocation_of(&c("web_search", "{\"query\":\"verus\"}")), ("web".to_string(), "search verus".to_string()));
    assert_eq!(invocation_of(&c("execute_bash", "not json")), ("bash".to_string(), String::new()));
    assert_eq!(invocation_of(&c("execute_bash", "{\"command\": 5}")), ("bash".to_string(), String::new()));
    assert_eq!(invocation_of(&c("execute_bash", "[1]")), ("bash".to_string(), String::new()));
    assert_eq!(invocation_of(&c("draw", "{}")), ("unknown".to_string(), String::new()));
}

#[test]
fn token_budget_uses_cl100k_counts() {
    let h = vec![msg("user", "hello world")];
    assert!(exceeds_token_budget(&h, 1));
    assert!(!exceeds_token_budget(&h, 2));
    assert!(!exceeds_token_budget(&Vec::new(), 0));
}

#[test]
fn summary_request_lists_role_and_content() {
    let h = vec![msg("system", "s"), msg("user", "a"), msg("assistant", "b"), msg("user", "c")];
    let r = build_summary_request(&h, 1, 3);
    assert_eq!(r[0].role, "system");
    assert_eq!(r[0].content, "Summarize concisely.");
    assert_eq!(r[1].role, "user");
    assert_eq!(r[1].content, "user: a\nassistant: b");
}

#[test]
fn compaction_keeps_first_and_last_five() {
    let mut h: Vec<Message> = (0..9).map(|i| msg("user", &i.to_string())).collect();
    compact_history(&mut h, "sum".to_string());
    let contents: Vec<&str> = h.iter().map(|m| m.content.as_str()).collect();
    assert_eq!(contents, vec!["0", "sum", "4", "5", "6", "7", "8"]);
    assert_eq!(h[1].role, "system");
}

#[test]
fn system_content_layout() {
    let c = build_system_content("P", "R");
    assert_eq!(
        c,
        "P\n\n@CTX:[DOM:SYSTEM_ROOT|GOAL:INITIALIZED]\n@BIAS:{P:1.0, M:1.0, S:1.0, D:1.0, C:1.0}\nCONCEPT: [[READY]] [[ENV_LOADED]]\n--- Runtime Specs ---\nR\n--------------------\n"
    );
}

#[test]
fn runtime_description_format() {
    let d = describe_runtime(&Some("Linux".into()), &None, &Some("box".into()), 8, 3 * 1024 * 1024 * 1024 + 5, &Some("/tmp".into()));
    assert_eq!(d, "OS: Linux\nKernel: Unknown\nHostname: box\nCPU Cores: 8\nTotal Memory: 3072 MB\nWorking Directory: /tmp");
}

#[test]
fn file_mentions_follow_the_at_pattern() {
    assert_eq!(file_mentions("see @a.txt and @b/c.rs, @ x a@"), vec!["a.txt", "b/c.rs,"]);
    assert_eq!(file_mentions("@@x mail@host"), vec!["@x", "host"]);
    assert!(file_mentions("no mentions").is_empty());
}

#[test]
fn attached_files_are_quoted_after_the_text() {
    let files = vec![Attachment { path: "a.txt".into(), content: "A".into() }];
    assert_eq!(attach_files("read @a.txt", &files), "read @a.txt\n\n--- a.txt ---\nA\n---\n");
    assert_eq!(attach_files("x", &Vec::new()), "x");
}

#[test]
fn recalled_entries_are_excerpted() {
    assert_eq!(attach_recalled("q", &Vec::new()), "q");
    let long = format!("line1\nline2{}", "z".repeat(300));
    let r = attach_recalled("q", &vec!["a\nb".to_string(), long]);
    let expected_long: String = format!("line1 line2{}", "z".repeat(189));
    assert_eq!(r, format!("q\n\n@RAG_CONTEXT:[[[a b]] [[{}]] ]\n", expected_long));
}

#[test]
fn session_report_skips_system_messages() {
    let h = vec![msg("system", "s"), msg("user", "u"), msg("assistant", "a"), msg("tool", "t")];
    assert_eq!(
        render_report(&h),
        "# Lasada Session Report\n\n## 👤 User\n\nu\n\n## 🤖 AI\n\na\n\n### 🛠 Tool Result\n\n```\nt\n```\n\n"
    );
}

#[test]
fn error_messages() {
    assert_eq!(AppError::LlmError("x".into()).message(), "Llm error: x");
    assert_eq!(AppError::ExecutionError("y".into()).message(), "Execution error: y");
    assert_eq!(AppError::ConfigError("z".into()).message(), "Configuration error: z");
    assert_eq!(AppError::Timeout.message(), "Timeout error");
}

#[test]
fn web_search_tool_call_reaches_the_search_command() {
    let call = ToolCall { id: "w".into(), name: "web_search".into(), arguments: "{\"query\":\"rust verus\"}".into() };
    let (lang, code) = invocation_of(&call);
    assert_eq!(lang, "web");
    match parse_web_command(&code) {
        Ok(WebCommand::Search(q)) => assert_eq!(q, "rust verus"),
        _ => panic!("expected a search command"),
    }
}

use lasada::llm::{after_reply, attempt_request, all_formats_failed, RequestStep, auth_header, mask_key, remember_format, reports_usage, request_formats, sse_payloads, MockLlm, StreamDecoder, StreamDelta, ToolCallDelta};
use lasada::ranking::rank_entries;
use lasada::types::{AppError, LlmResponseChunk, Message};

#[test]
fn mock_model_answers_by_keyword() {
    let m = MockLlm;
    let h = |t: &str| vec![Message::plain("user", t.to_string())];
    assert_eq!(m.answer(&h("please ls")).ok().unwrap(), "I will check the directory for you.\n\n```bash\nls -F\n```");
    assert_eq!(m.answer(&h("what date")).ok().unwrap(), "Let me check the current date.\n\n```bash\ndate\n```");
    assert_eq!(m.answer(&h("hello")).ok().unwrap(), "How can I help you today?");
    match m.answer(&Vec::new()) {
        Err(AppError::LlmError(e)) => assert_eq!(e, "No history"),
        _ => panic!(),
    }
    assert_eq!(MockLlm::chunks("hé!"), vec!["h", "é", "!"]);
}

#[test]
fn api_keys_are_masked() {
    assert_eq!(mask_key("abcd"), "****");
    assert_eq!(mask_key(""), "****");
    assert_eq!(mask_key("sk-1234567890"), "sk...90 (13 chars)");
    assert_eq!(mask_key("ééé"), "éé... (6 chars)");
}

#[test]
fn request_variants() {
    assert_eq!(request_formats(None), vec![(0, 0), (0, 1), (1, 0), (1, 1)]);
    assert_eq!(request_formats(Some((1, 0))), vec![(1, 0)]);
    assert_eq!(remember_format(None, (0, 1)), Some((0, 1)));
    assert_eq!(remember_format(Some((1, 1)), (0, 1)), Some((1, 1)));
    assert!(reports_usage(1) && !reports_usage(0));
    assert_eq!(auth_header(0, "k"), ("Authorization".to_string(), "Bearer k".to_string()));
    assert_eq!(auth_header(1, "k"), ("api-key".to_string(), "k".to_string()));
    match all_formats_failed() {
        AppError::LlmError(m) => assert_eq!(m, "All request patterns failed."),
        _ => panic!(),
    }
}

#[test]
fn event_stream_payloads() {
    let text = "data: {\"a\":1}\r\n\r\n  data:{\"b\":2}\nevent: x data:   y\nplain\ndata: [DONE]\n";
    assert_eq!(sse_payloads(text), vec!["{\"a\":1}", "{\"b\":2}", "y", "plain"]);
    assert!(sse_payloads("\n\n").is_empty());
}

fn delta(index: Option<usize>, id: Option<&str>, name: Option<&str>, args: Option<&str>) -> ToolCallDelta {
    ToolCallDelta { index, id: id.map(String::from), name: name.map(String::from), arguments: args.map(String::from) }
}

#[test]
fn tool_call_fragments_are_put_together() {
    let mut d = StreamDecoder::new();
    let out = d.absorb(StreamDelta { content: Some("Hi".into()), tool_calls: vec![delta(Some(0), Some("c0"), Some("execute_"), Some("{\"com"))] });
    assert_eq!(out.len(), 2);
    assert!(matches!(&out[0], LlmResponseChunk::Text(t) if t == "Hi"));
    let out = d.absorb(StreamDelta { content: None, tool_calls: vec![delta(None, None, Some("bash"), Some("mand\":\"ls\"}")), delta(Some(2), Some("c2"), None, None)] });
    assert_eq!(out.len(), 2);
    match &out[0] {
        LlmResponseChunk::ToolCall(c) => {
            assert_eq!(c.id, "c0");
            assert_eq!(c.name, "execute_bash");
            assert_eq!(c.arguments, "{\"command\":\"ls\"}");
        }
        _ => panic!(),
    }
    match &out[1] {
        LlmResponseChunk::ToolCall(c) => {
            assert_eq!(c.id, "c2");
            assert_eq!(c.name, "");
        }
        _ => panic!(),
    }
    assert!(d.absorb(StreamDelta { content: None, tool_calls: Vec::new() }).is_empty());
}

#[test]
fn recall_ranks_by_score_and_applies_threshold() {
    let scores = vec![10, 90, 60, 90, 70, 80];
    assert_eq!(rank_entries(&scores, 3, 50), vec![1, 3, 5]);
    assert_eq!(rank_entries(&scores, 10, 65), vec![1, 3, 5, 4]);
    assert_eq!(rank_entries(&scores, 3, 85), vec![1, 3]);
    assert!(rank_entries(&Vec::new(), 3, 0).is_empty());
    assert!(rank_entries(&scores, 0, 0).is_empty());
}

#[test]
fn request_variants_are_tried_until_one_is_accepted() {
    assert!(matches!(attempt_request(None, 0), RequestStep::Send { body: 0, auth: 0 }));
    assert!(matches!(after_reply(None, 0, false), RequestStep::Send { body: 0, auth: 1 }));
    assert!(matches!(after_reply(None, 2, false), RequestStep::Send { body: 1, auth: 1 }));
    assert!(matches!(after_reply(None, 2, true), RequestStep::Stream { format: (1, 0) }));
    match after_reply(None, 3, false) {
        RequestStep::GiveUp(AppError::LlmError(m)) => assert_eq!(m, "All request patterns failed."),
        _ => panic!("expected to give up"),
    }
    assert!(matches!(attempt_request(Some((1, 1)), 0), RequestStep::Send { body: 1, auth: 1 }));
    assert!(matches!(after_reply(Some((1, 1)), 0, true), RequestStep::Stream { format: (1, 1) }));
    assert!(matches!(after_reply(Some((1, 1)), 0, false), RequestStep::GiveUp(_)));
}

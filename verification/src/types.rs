//! The values that flow between the interpreter, the language model and the
//! executors: errors, tool calls, chat messages and streamed chunks.
use vstd::prelude::*;
use crate::text::append;

verus! {

/// The library's error kinds.
pub enum AppError {
    LlmError(String),
    ExecutionError(String),
    ConfigError(String),
    Timeout,
}

/// The text an `AppError` displays as.
pub open spec fn error_text(e: AppError) -> Seq<char> {
    match e {
        AppError::LlmError(m) => "Llm error: "@ + m@,
        AppError::ExecutionError(m) => "Execution error: "@ + m@,
        AppError::ConfigError(m) => "Configuration error: "@ + m@,
        AppError::Timeout => "Timeout error"@,
    }
}

impl AppError {
    /// The message this error displays.
    pub fn message(&self) -> (r: String)
        ensures
            r@ == error_text(*self),
    {
        match self {
            AppError::LlmError(m) => {
                let mut s = String::from_str("Llm error: ");
                append(&mut s, m.as_str());
                s
            },
            AppError::ExecutionError(m) => {
                let mut s = String::from_str("Execution error: ");
                append(&mut s, m.as_str());
                s
            },
            AppError::ConfigError(m) => {
                let mut s = String::from_str("Configuration error: ");
                append(&mut s, m.as_str());
                s
            },
            AppError::Timeout => String::from_str("Timeout error"),
        }
    }
}

/// A function call requested by the language model.
pub struct ToolCall {
    pub id: String,
    pub name: String,
    pub arguments: String,
}

#[verifier::ext_equal]
pub struct ToolCallView {
    pub id: Seq<char>,
    pub name: Seq<char>,
    pub arguments: Seq<char>,
}

impl View for ToolCall {
    type V = ToolCallView;

    open spec fn view(&self) -> ToolCallView {
        ToolCallView { id: self.id@, name: self.name@, arguments: self.arguments@ }
    }
}

impl Clone for ToolCall {
    fn clone(&self) -> (r: Self)
        ensures
            r@ == self@,
    {
        ToolCall { id: self.id.clone(), name: self.name.clone(), arguments: self.arguments.clone() }
    }
}

/// The views of a sequence of tool calls.
pub open spec fn calls_view(v: Seq<ToolCall>) -> Seq<ToolCallView> {
    v.map_values(|c: ToolCall| c@)
}

/// Copies a list of tool calls.
pub fn copy_calls(v: &Vec<ToolCall>) -> (r: Vec<ToolCall>)
    ensures
        calls_view(r@) == calls_view(v@),
{
    let mut r: Vec<ToolCall> = Vec::new();
    let mut i: usize = 0;
    while i < v.len()
        invariant
            i <= v@.len(),
            calls_view(r@) == calls_view(v@.subrange(0, i as int)),
        decreases v@.len() - i,
    {
        let ghost before = r@;
        let c = v[i].clone();
        assert(c@ == v@[i as int]@);
        r.push(c);
        proof {
            assert(calls_view(before) == calls_view(v@.subrange(0, i as int)));
            assert forall|k: int| 0 <= k < i + 1 implies #[trigger] calls_view(r@)[k] == calls_view(
                v@.subrange(0, i + 1),
            )[k] by {
                if k < i {
                    assert(calls_view(before)[k] == calls_view(v@.subrange(0, i as int))[k]);
                }
            }
        }
        i = i + 1;
        proof {
            assert(calls_view(r@) =~= calls_view(v@.subrange(0, i as int)));
        }
    }
    proof {
        assert(v@.subrange(0, v@.len() as int) =~= v@);
    }
    r
}

/// One entry of the conversation history.
pub struct Message {
    pub role: String,
    pub content: String,
    pub image_base64: Option<String>,
    pub tool_calls: Option<Vec<ToolCall>>,
    pub tool_call_id: Option<String>,
}

#[verifier::ext_equal]
pub struct MessageView {
    pub role: Seq<char>,
    pub content: Seq<char>,
    pub image_base64: Option<Seq<char>>,
    pub tool_calls: Option<Seq<ToolCallView>>,
    pub tool_call_id: Option<Seq<char>>,
}

pub open spec fn opt_str_view(o: Option<String>) -> Option<Seq<char>> {
    match o {
        Some(s) => Some(s@),
        None => None,
    }
}

impl View for Message {
    type V = MessageView;

    open spec fn view(&self) -> MessageView {
        MessageView {
            role: self.role@,
            content: self.content@,
            image_base64: opt_str_view(self.image_base64),
            tool_calls: match self.tool_calls {
                Some(v) => Some(calls_view(v@)),
                None => None,
            },
            tool_call_id: opt_str_view(self.tool_call_id),
        }
    }
}

pub fn copy_opt_str(o: &Option<String>) -> (r: Option<String>)
    ensures
        opt_str_view(r) == opt_str_view(*o),
{
    match o {
        Some(s) => Some(s.clone()),
        None => None,
    }
}

impl Clone for Message {
    fn clone(&self) -> (r: Self)
        ensures
            r@ == self@,
    {
        Message {
            role: self.role.clone(),
            content: self.content.clone(),
            image_base64: copy_opt_str(&self.image_base64),
            tool_calls: match &self.tool_calls {
                Some(v) => Some(copy_calls(v)),
                None => None,
            },
            tool_call_id: copy_opt_str(&self.tool_call_id),
        }
    }
}

/// A plain message with the given role and content and nothing attached.
pub open spec fn plain(role: Seq<char>, content: Seq<char>) -> MessageView {
    MessageView {
        role,
        content,
        image_base64: None,
        tool_calls: None,
        tool_call_id: None,
    }
}

impl Message {
    /// A message with the given role and content and nothing attached.
    pub fn plain(role: &str, content: String) -> (m: Message)
        ensures
            m@ == plain(role@, content@),
    {
        Message {
            role: String::from_str(role),
            content,
            image_base64: None,
            tool_calls: None,
            tool_call_id: None,
        }
    }
}

/// The views of a sequence of messages.
pub open spec fn history_view(v: Seq<Message>) -> Seq<MessageView> {
    v.map_values(|m: Message| m@)
}

/// Copies a list of messages.
pub fn copy_messages(v: &Vec<Message>) -> (r: Vec<Message>)
    ensures
        history_view(r@) == history_view(v@),
{
    let mut r: Vec<Message> = Vec::new();
    let mut i: usize = 0;
    while i < v.len()
        invariant
            i <= v@.len(),
            history_view(r@) == history_view(v@.subrange(0, i as int)),
        decreases v@.len() - i,
    {
        let ghost before = r@;
        let m = v[i].clone();
        assert(m@ == v@[i as int]@);
        r.push(m);
        proof {
            assert(history_view(before) == history_view(v@.subrange(0, i as int)));
            assert forall|k: int| 0 <= k < i + 1 implies #[trigger] history_view(r@)[k]
                == history_view(v@.subrange(0, i + 1))[k] by {
                if k < i {
                    assert(history_view(before)[k] == history_view(v@.subrange(0, i as int))[k]);
                }
            }
        }
        i = i + 1;
        proof {
            assert(history_view(r@) =~= history_view(v@.subrange(0, i as int)));
        }
    }
    proof {
        assert(v@.subrange(0, v@.len() as int) =~= v@);
    }
    r
}

/// One item of a streamed model response.
pub enum LlmResponseChunk {
    Text(String),
    ToolCall(ToolCall),
}

#[verifier::ext_equal]
pub enum ChunkView {
    Text(Seq<char>),
    ToolCall(ToolCallView),
}

impl View for LlmResponseChunk {
    type V = ChunkView;

    open spec fn view(&self) -> ChunkView {
        match self {
            LlmResponseChunk::Text(t) => ChunkView::Text(t@),
            LlmResponseChunk::ToolCall(c) => ChunkView::ToolCall(c@),
        }
    }
}

} // verus!

//! The interpreter's conversation state and the decisions of a chat exchange,
//! as a state machine: the caller performs each action (ask the model, save the
//! session, ask the user, run a tool) and feeds back what happened as an event.
use vstd::prelude::*;
use crate::context::{
    build_summary_request, compact_history, compacted, exceeds_token_budget, keep_recent,
    needs_compaction, recent_messages, summary_request, to_summarize, KEEP_RECENT,
};
use crate::prompt::{build_system_content, system_content};
use crate::text::{append, trim, trim_str};
use crate::tools::{invocation_of, tool_invocation};
use crate::types::{
    calls_view, copy_calls, history_view, opt_str_view, plain, LlmResponseChunk, Message,
    MessageView, ToolCall, ToolCallView, ChunkView,
};

verus! {

/// Most model requests one chat exchange makes (summaries not counted).
pub const MAX_TURNS: usize = 10;

/// Token budget of the history before it is compacted.
pub const DEFAULT_MAX_TOKENS: usize = 8000;

/// Where a chat exchange stands.
pub enum ChatPhase {
    /// No exchange under way.
    Idle,
    /// Waiting for the summary of the older messages (collected from text chunks).
    Summarizing { turn: usize, text: String },
    /// Waiting for the session to be saved before asking the model.
    Saving { turn: usize },
    /// Receiving the model's answer for `turn`.
    Streaming { turn: usize, response: String, calls: Vec<ToolCall> },
    /// Waiting for the user to approve `calls[next]`.
    Approving { turn: usize, calls: Vec<ToolCall>, next: usize },
    /// Waiting for the output of `calls[next]`.
    Running { turn: usize, calls: Vec<ToolCall>, next: usize },
    /// Waiting for the final save of the exchange.
    FinalSaving,
}

#[verifier::ext_equal]
pub enum PhaseView {
    Idle,
    Summarizing { turn: nat, text: Seq<char> },
    Saving { turn: nat },
    Streaming { turn: nat, response: Seq<char>, calls: Seq<ToolCallView> },
    Approving { turn: nat, calls: Seq<ToolCallView>, next: nat },
    Running { turn: nat, calls: Seq<ToolCallView>, next: nat },
    FinalSaving,
}

impl View for ChatPhase {
    type V = PhaseView;

    open spec fn view(&self) -> PhaseView {
        match self {
            ChatPhase::Idle => PhaseView::Idle,
            ChatPhase::Summarizing { turn, text } => PhaseView::Summarizing {
                turn: *turn as nat,
                text: text@,
            },
            ChatPhase::Saving { turn } => PhaseView::Saving { turn: *turn as nat },
            ChatPhase::Streaming { turn, response, calls } => PhaseView::Streaming {
                turn: *turn as nat,
                response: response@,
                calls: calls_view(calls@),
            },
            ChatPhase::Approving { turn, calls, next } => PhaseView::Approving {
                turn: *turn as nat,
                calls: calls_view(calls@),
                next: *next as nat,
            },
            ChatPhase::Running { turn, calls, next } => PhaseView::Running {
                turn: *turn as nat,
                calls: calls_view(calls@),
                next: *next as nat,
            },
            ChatPhase::FinalSaving => PhaseView::FinalSaving,
        }
    }
}

/// What the caller reports back.
pub enum ChatEvent {
    /// The user's input, with attached files and recalled context already added.
    UserInput(String),
    /// One chunk of the model's streamed answer.
    Chunk(LlmResponseChunk),
    /// The model's stream has ended.
    StreamEnded,
    /// The session has been saved.
    Saved,
    /// The user's answer to an approval request.
    Approval(bool),
    /// The output of the tool that was run.
    ToolOutput(String),
    /// The action asked for could not be performed (the model, the session file or
    /// the executor failed); the exchange is abandoned.
    Failed,
}

#[verifier::ext_equal]
pub enum EventView {
    UserInput(Seq<char>),
    Chunk(ChunkView),
    StreamEnded,
    Saved,
    Approval(bool),
    ToolOutput(Seq<char>),
    Failed,
}

impl View for ChatEvent {
    type V = EventView;

    open spec fn view(&self) -> EventView {
        match self {
            ChatEvent::UserInput(s) => EventView::UserInput(s@),
            ChatEvent::Chunk(c) => EventView::Chunk(c@),
            ChatEvent::StreamEnded => EventView::StreamEnded,
            ChatEvent::Saved => EventView::Saved,
            ChatEvent::Approval(b) => EventView::Approval(*b),
            ChatEvent::ToolOutput(s) => EventView::ToolOutput(s@),
            ChatEvent::Failed => EventView::Failed,
        }
    }
}

/// What the caller must do next.
pub enum ChatAction {
    /// Stream a completion for these messages (no tools) and report its chunks.
    Summarize(Vec<Message>),
    /// Save the history under the session name, then report `Saved`.
    Save,
    /// Stream a completion for the history, with the tools, and report its chunks.
    RequestCompletion,
    /// Keep reporting chunks of the current stream.
    Continue,
    /// Ask the user whether to run this tool call.
    AskApproval(ToolCall),
    /// Run `code` with the executor for `language` (what `call` asks for) and report
    /// its output.
    Execute { call: ToolCall, language: String, code: String },
    /// The exchange is over (completed, or abandoned after a failure).
    Finished,
    /// The event did not fit the phase; nothing changed.
    Ignored,
}

#[verifier::ext_equal]
pub enum ActionView {
    Summarize(Seq<MessageView>),
    Save,
    RequestCompletion,
    Continue,
    AskApproval(ToolCallView),
    Execute { call: ToolCallView, language: Seq<char>, code: Seq<char> },
    Finished,
    Ignored,
}

impl View for ChatAction {
    type V = ActionView;

    open spec fn view(&self) -> ActionView {
        match self {
            ChatAction::Summarize(v) => ActionView::Summarize(history_view(v@)),
            ChatAction::Save => ActionView::Save,
            ChatAction::RequestCompletion => ActionView::RequestCompletion,
            ChatAction::Continue => ActionView::Continue,
            ChatAction::AskApproval(c) => ActionView::AskApproval(c@),
            ChatAction::Execute { call, language, code } => ActionView::Execute {
                call: call@,
                language: language@,
                code: code@,
            },
            ChatAction::Finished => ActionView::Finished,
            ChatAction::Ignored => ActionView::Ignored,
        }
    }
}

/// The interpreter's conversation state.
pub struct InterpreterState {
    history: Vec<Message>,
    system_prompt: String,
    max_tokens: usize,
    auto_run: bool,
    session_name: Option<String>,
    phase: ChatPhase,
}

#[verifier::ext_equal]
pub struct StateView {
    pub history: Seq<MessageView>,
    pub system_prompt: Seq<char>,
    pub max_tokens: nat,
    pub auto_run: bool,
    pub session_name: Option<Seq<char>>,
    pub phase: PhaseView,
}

impl View for InterpreterState {
    type V = StateView;

    closed spec fn view(&self) -> StateView {
        StateView {
            history: history_view(self.history@),
            system_prompt: self.system_prompt@,
            max_tokens: self.max_tokens as nat,
            auto_run: self.auto_run,
            session_name: opt_str_view(self.session_name),
            phase: self.phase@,
        }
    }
}

pub open spec fn with_phase(s: StateView, p: PhaseView) -> StateView {
    StateView { phase: p, ..s }
}

pub open spec fn with_history(s: StateView, h: Seq<MessageView>) -> StateView {
    StateView { history: h, ..s }
}

/// The assistant's message for a finished answer.
pub open spec fn assistant_message(response: Seq<char>, calls: Seq<ToolCallView>) -> MessageView {
    MessageView {
        role: "assistant"@,
        content: response,
        image_base64: None,
        tool_calls: if calls.len() == 0 {
            None
        } else {
            Some(calls)
        },
        tool_call_id: None,
    }
}

/// The message that answers tool call `id` with `content`.
pub open spec fn tool_message(id: Seq<char>, content: Seq<char>) -> MessageView {
    MessageView {
        role: "tool"@,
        content,
        image_base64: None,
        tool_calls: None,
        tool_call_id: Some(id),
    }
}

/// The text recorded for a tool call the user declined.
pub open spec fn skipped_text() -> Seq<char> {
    "Skipped by user."@
}

/// The answer so far after one more chunk: text is appended; a tool call with an id
/// is a new call; one without an id updates the name and arguments of the last call.
pub open spec fn absorb(response: Seq<char>, calls: Seq<ToolCallView>, chunk: ChunkView) -> (
    Seq<char>,
    Seq<ToolCallView>,
) {
    match chunk {
        ChunkView::Text(t) => (response + t, calls),
        ChunkView::ToolCall(c) => if c.id.len() > 0 {
            (response, calls.push(c))
        } else if calls.len() > 0 {
            (
                response,
                calls.update(
                    calls.len() - 1,
                    ToolCallView { id: calls.last().id, name: c.name, arguments: c.arguments },
                ),
            )
        } else {
            (response, calls)
        },
    }
}

/// Ends the exchange: a final save when the session is named.
pub open spec fn finish(s: StateView) -> (StateView, ActionView) {
    if s.session_name is Some {
        (with_phase(s, PhaseView::FinalSaving), ActionView::Save)
    } else {
        (with_phase(s, PhaseView::Idle), ActionView::Finished)
    }
}

/// Asks the model for `turn`, saving the session first when it is named.
pub open spec fn request_turn(s: StateView, turn: nat) -> (StateView, ActionView) {
    if s.session_name is Some {
        (with_phase(s, PhaseView::Saving { turn }), ActionView::Save)
    } else {
        (
            with_phase(s, PhaseView::Streaming { turn, response: Seq::empty(), calls: Seq::empty() }),
            ActionView::RequestCompletion,
        )
    }
}

/// Starts `turn`: compacts the history first when it is over budget.
pub open spec fn begin_turn(s: StateView, turn: nat) -> (StateView, ActionView) {
    if needs_compaction(s.history, s.max_tokens) {
        (
            with_phase(s, PhaseView::Summarizing { turn, text: Seq::empty() }),
            ActionView::Summarize(summary_request(to_summarize(s.history))),
        )
    } else {
        request_turn(s, turn)
    }
}

/// Moves on to `calls[next]`, or past the last call to the next turn or the end.
pub open spec fn advance(s: StateView, turn: nat, calls: Seq<ToolCallView>, next: nat) -> (
    StateView,
    ActionView,
) {
    if next >= calls.len() {
        if turn + 1 < MAX_TURNS {
            begin_turn(s, turn + 1)
        } else {
            finish(s)
        }
    } else if s.auto_run {
        (
            with_phase(s, PhaseView::Running { turn, calls, next }),
            ActionView::Execute {
                call: calls[next as int],
                language: tool_invocation(calls[next as int]).0,
                code: tool_invocation(calls[next as int]).1,
            },
        )
    } else {
        (
            with_phase(s, PhaseView::Approving { turn, calls, next }),
            ActionView::AskApproval(calls[next as int]),
        )
    }
}

/// The next state and action for an event.
pub open spec fn step_spec(s: StateView, e: EventView) -> (StateView, ActionView) {
    match e {
        EventView::UserInput(text) => begin_turn(
            with_history(s, s.history.push(plain("user"@, text))),
            0,
        ),
        EventView::Chunk(c) => match s.phase {
            PhaseView::Summarizing { turn, text } => (
                with_phase(
                    s,
                    PhaseView::Summarizing {
                        turn,
                        text: match c {
                            ChunkView::Text(t) => text + t,
                            ChunkView::ToolCall(_) => text,
                        },
                    },
                ),
                ActionView::Continue,
            ),
            PhaseView::Streaming { turn, response, calls } => (
                with_phase(
                    s,
                    PhaseView::Streaming {
                        turn,
                        response: absorb(response, calls, c).0,
                        calls: absorb(response, calls, c).1,
                    },
                ),
                ActionView::Continue,
            ),
            _ => (s, ActionView::Ignored),
        },
        EventView::StreamEnded => match s.phase {
            PhaseView::Summarizing { turn, text } => request_turn(
                with_history(s, compacted(s.history, trim(text))),
                turn,
            ),
            PhaseView::Streaming { turn, response, calls } => {
                let s2 = with_history(s, s.history.push(assistant_message(response, calls)));
                if calls.len() == 0 {
                    finish(s2)
                } else {
                    advance(s2, turn, calls, 0)
                }
            },
            _ => (s, ActionView::Ignored),
        },
        EventView::Saved => match s.phase {
            PhaseView::Saving { turn } => (
                with_phase(
                    s,
                    PhaseView::Streaming { turn, response: Seq::empty(), calls: Seq::empty() },
                ),
                ActionView::RequestCompletion,
            ),
            PhaseView::FinalSaving => (with_phase(s, PhaseView::Idle), ActionView::Finished),
            _ => (s, ActionView::Ignored),
        },
        EventView::Approval(yes) => match s.phase {
            PhaseView::Approving { turn, calls, next } => if yes {
                (
                    with_phase(s, PhaseView::Running { turn, calls, next }),
                    ActionView::Execute {
                        call: calls[next as int],
                        language: tool_invocation(calls[next as int]).0,
                        code: tool_invocation(calls[next as int]).1,
                    },
                )
            } else {
                advance(
                    with_history(s, s.history.push(tool_message(calls[next as int].id, skipped_text()))),
                    turn,
                    calls,
                    next + 1,
                )
            },
            _ => (s, ActionView::Ignored),
        },
        EventView::Failed => match s.phase {
            PhaseView::Summarizing { turn, text } => (
                with_phase(with_history(s, recent_messages(s.history)), PhaseView::Idle),
                ActionView::Finished,
            ),
            _ => (with_phase(s, PhaseView::Idle), ActionView::Finished),
        },
        EventView::ToolOutput(out) => match s.phase {
            PhaseView::Running { turn, calls, next } => advance(
                with_history(s, s.history.push(tool_message(calls[next as int].id, out))),
                turn,
                calls,
                next + 1,
            ),
            _ => (s, ActionView::Ignored),
        },
    }
}

/// The state is consistent: turns stay below `MAX_TURNS`, the call awaited exists,
/// and a summary is only awaited for a history long enough to compact.
pub open spec fn wf(s: StateView) -> bool {
    match s.phase {
        PhaseView::Idle => true,
        PhaseView::Summarizing { turn, text } => turn < MAX_TURNS && s.history.len() > KEEP_RECENT
            + 1,
        PhaseView::Saving { turn } => turn < MAX_TURNS,
        PhaseView::Streaming { turn, response, calls } => turn < MAX_TURNS,
        PhaseView::Approving { turn, calls, next } => turn < MAX_TURNS && next < calls.len(),
        PhaseView::Running { turn, calls, next } => turn < MAX_TURNS && next < calls.len(),
        PhaseView::FinalSaving => true,
    }
}

impl InterpreterState {
    /// A fresh state: empty history, the default token budget, no auto-run, no session.
    pub fn new(system_prompt: String) -> (r: InterpreterState)
        ensures
            r@.history == Seq::<MessageView>::empty(),
            r@.system_prompt == system_prompt@,
            r@.max_tokens == DEFAULT_MAX_TOKENS,
            !r@.auto_run,
            r@.session_name is None,
            r@.phase == PhaseView::Idle,
            wf(r@),
    {
        let r = InterpreterState {
            history: Vec::new(),
            system_prompt,
            max_tokens: DEFAULT_MAX_TOKENS,
            auto_run: false,
            session_name: None,
            phase: ChatPhase::Idle,
        };
        assert(r@.history =~= Seq::<MessageView>::empty());
        r
    }

    /// Whether tool calls run without asking.
    pub fn set_auto_run(&mut self, auto_run: bool)
        requires
            wf(old(self)@),
        ensures
            final(self)@ == (StateView { auto_run, ..old(self)@ }),
            wf(final(self)@),
    {
        self.auto_run = auto_run;
    }

    pub fn auto_run(&self) -> (r: bool)
        ensures
            r == self@.auto_run,
    {
        self.auto_run
    }

    /// The conversation so far.
    pub fn history(&self) -> (r: &Vec<Message>)
        ensures
            history_view(r@) == self@.history,
    {
        &self.history
    }

    /// The session name, if the conversation is persisted.
    pub fn session_name(&self) -> (r: Option<String>)
        ensures
            opt_str_view(r) == self@.session_name,
    {
        match &self.session_name {
            Some(n) => Some(n.clone()),
            None => None,
        }
    }

    /// Names the session the conversation is persisted under.
    pub fn set_session_name(&mut self, name: String)
        requires
            wf(old(self)@),
        ensures
            final(self)@ == (StateView { session_name: Some(name@), ..old(self)@ }),
            wf(final(self)@),
    {
        self.session_name = Some(name);
    }

    /// Replaces the conversation by a loaded one; any exchange under way is dropped.
    pub fn restore_history(&mut self, history: Vec<Message>)
        ensures
            final(self)@ == (StateView {
                history: history_view(history@),
                phase: PhaseView::Idle,
                ..old(self)@
            }),
            wf(final(self)@),
    {
        self.history = history;
        self.phase = ChatPhase::Idle;
    }

    /// On a fresh conversation, adds the system message made of the system prompt and
    /// the runtime description; a conversation that already has messages is kept.
    pub fn install_system_prompt(&mut self, runtime: &str)
        requires
            wf(old(self)@),
        ensures
            old(self)@.history.len() == 0 ==> final(self)@ == with_history(
                old(self)@,
                seq![plain("system"@, system_content(old(self)@.system_prompt, runtime@))],
            ),
            old(self)@.history.len() != 0 ==> final(self)@ == old(self)@,
            wf(final(self)@),
    {
        if self.history.len() == 0 {
            let content = build_system_content(self.system_prompt.as_str(), runtime);
            let m = Message::plain("system", content);
            self.history.push(m);
            assert(history_view(self.history@) =~= seq![m@]);
        }
    }

    fn finish(&mut self) -> (a: ChatAction)
        ensures
            final(self)@ == finish(old(self)@).0,
            a@ == finish(old(self)@).1,
    {
        if self.session_name.is_some() {
            self.phase = ChatPhase::FinalSaving;
            ChatAction::Save
        } else {
            self.phase = ChatPhase::Idle;
            ChatAction::Finished
        }
    }

    fn request_turn(&mut self, turn: usize) -> (a: ChatAction)
        ensures
            final(self)@ == request_turn(old(self)@, turn as nat).0,
            a@ == request_turn(old(self)@, turn as nat).1,
    {
        if self.session_name.is_some() {
            self.phase = ChatPhase::Saving { turn };
            ChatAction::Save
        } else {
            let calls: Vec<ToolCall> = Vec::new();
            assert(calls_view(calls@) =~= Seq::<ToolCallView>::empty());
            self.phase = ChatPhase::Streaming { turn, response: String::new(), calls };
            ChatAction::RequestCompletion
        }
    }

    fn begin_turn(&mut self, turn: usize) -> (a: ChatAction)
        ensures
            final(self)@ == begin_turn(old(self)@, turn as nat).0,
            a@ == begin_turn(old(self)@, turn as nat).1,
    {
        let n = self.history.len();
        if n > KEEP_RECENT + 1 && exceeds_token_budget(&self.history, self.max_tokens) {
            let request = build_summary_request(&self.history, 1, n - KEEP_RECENT);
            self.phase = ChatPhase::Summarizing { turn, text: String::new() };
            ChatAction::Summarize(request)
        } else {
            self.request_turn(turn)
        }
    }

    fn advance(&mut self, turn: usize, calls: Vec<ToolCall>, next: usize) -> (a: ChatAction)
        requires
            turn < MAX_TURNS,
            next <= calls@.len(),
        ensures
            final(self)@ == advance(old(self)@, turn as nat, calls_view(calls@), next as nat).0,
            a@ == advance(old(self)@, turn as nat, calls_view(calls@), next as nat).1,
    {
        if next >= calls.len() {
            if turn + 1 < MAX_TURNS {
                self.begin_turn(turn + 1)
            } else {
                self.finish()
            }
        } else if self.auto_run {
            let (language, code) = invocation_of(&calls[next]);
            let call = calls[next].clone();
            self.phase = ChatPhase::Running { turn, calls, next };
            ChatAction::Execute { call, language, code }
        } else {
            let call = calls[next].clone();
            self.phase = ChatPhase::Approving { turn, calls, next };
            ChatAction::AskApproval(call)
        }
    }

    fn on_user_input(&mut self, text: String) -> (a: ChatAction)
        requires
            wf(old(self)@),
        ensures
            final(self)@ == step_spec(old(self)@, EventView::UserInput(text@)).0,
            a@ == step_spec(old(self)@, EventView::UserInput(text@)).1,
    {
        let ghost before = self.history@;
        let m = Message::plain("user", text);
        self.history.push(m);
        assert(history_view(self.history@) =~= history_view(before).push(m@));
        assert(self@ == with_history(old(self)@, old(self)@.history.push(m@)));
        self.begin_turn(0)
    }

    fn on_chunk(&mut self, chunk: LlmResponseChunk) -> (a: ChatAction)
        requires
            wf(old(self)@),
        ensures
            final(self)@ == step_spec(old(self)@, EventView::Chunk(chunk@)).0,
            a@ == step_spec(old(self)@, EventView::Chunk(chunk@)).1,
    {
        let mut phase = ChatPhase::Idle;
        std::mem::swap(&mut phase, &mut self.phase);
        match phase {
            ChatPhase::Summarizing { turn, mut text } => {
                if let LlmResponseChunk::Text(t) = &chunk {
                    append(&mut text, t.as_str());
                }
                self.phase = ChatPhase::Summarizing { turn, text };
                ChatAction::Continue
            },
            ChatPhase::Streaming { turn, mut response, mut calls } => {
                absorb_chunk(&mut response, &mut calls, chunk);
                self.phase = ChatPhase::Streaming { turn, response, calls };
                ChatAction::Continue
            },
            other => {
                self.phase = other;
                ChatAction::Ignored
            },
        }
    }

    fn on_stream_ended(&mut self) -> (a: ChatAction)
        requires
            wf(old(self)@),
        ensures
            final(self)@ == step_spec(old(self)@, EventView::StreamEnded).0,
            a@ == step_spec(old(self)@, EventView::StreamEnded).1,
    {
        let mut phase = ChatPhase::Idle;
        std::mem::swap(&mut phase, &mut self.phase);
        match phase {
            ChatPhase::Summarizing { turn, text } => {
                let summary = trim_str(text.as_str());
                compact_history(&mut self.history, summary);
                self.request_turn(turn)
            },
            ChatPhase::Streaming { turn, response, calls } => {
                let ghost before = self.history@;
                if calls.len() == 0 {
                    let m = Message {
                        role: String::from_str("assistant"),
                        content: response,
                        image_base64: None,
                        tool_calls: None,
                        tool_call_id: None,
                    };
                    self.history.push(m);
                    assert(history_view(self.history@) =~= history_view(before).push(m@));
                    self.finish()
                } else {
                    let recorded = copy_calls(&calls);
                    let m = Message {
                        role: String::from_str("assistant"),
                        content: response,
                        image_base64: None,
                        tool_calls: Some(recorded),
                        tool_call_id: None,
                    };
                    self.history.push(m);
                    assert(history_view(self.history@) =~= history_view(before).push(m@));
                    self.advance(turn, calls, 0)
                }
            },
            other => {
                self.phase = other;
                ChatAction::Ignored
            },
        }
    }

    fn on_saved(&mut self) -> (a: ChatAction)
        requires
            wf(old(self)@),
        ensures
            final(self)@ == step_spec(old(self)@, EventView::Saved).0,
            a@ == step_spec(old(self)@, EventView::Saved).1,
    {
        let mut phase = ChatPhase::Idle;
        std::mem::swap(&mut phase, &mut self.phase);
        match phase {
            ChatPhase::Saving { turn } => {
                let calls: Vec<ToolCall> = Vec::new();
                assert(calls_view(calls@) =~= Seq::<ToolCallView>::empty());
                self.phase = ChatPhase::Streaming { turn, response: String::new(), calls };
                ChatAction::RequestCompletion
            },
            ChatPhase::FinalSaving => {
                self.phase = ChatPhase::Idle;
                ChatAction::Finished
            },
            other => {
                self.phase = other;
                ChatAction::Ignored
            },
        }
    }

    fn on_approval(&mut self, yes: bool) -> (a: ChatAction)
        requires
            wf(old(self)@),
        ensures
            final(self)@ == step_spec(old(self)@, EventView::Approval(yes)).0,
            a@ == step_spec(old(self)@, EventView::Approval(yes)).1,
    {
        let mut phase = ChatPhase::Idle;
        std::mem::swap(&mut phase, &mut self.phase);
        match phase {
            ChatPhase::Approving { turn, calls, next } => {
                let total = calls.len();
                assert(next < total);
                if yes {
                    let (language, code) = invocation_of(&calls[next]);
                    let call = calls[next].clone();
                    self.phase = ChatPhase::Running { turn, calls, next };
                    ChatAction::Execute { call, language, code }
                } else {
                    let id = calls[next].id.clone();
                    let ghost before = self.history@;
                    let m = tool_reply(id, String::from_str("Skipped by user."));
                    self.history.push(m);
                    assert(history_view(self.history@) =~= history_view(before).push(m@));
                    self.advance(turn, calls, next + 1)
                }
            },
            other => {
                self.phase = other;
                ChatAction::Ignored
            },
        }
    }

    fn on_tool_output(&mut self, out: String) -> (a: ChatAction)
        requires
            wf(old(self)@),
        ensures
            final(self)@ == step_spec(old(self)@, EventView::ToolOutput(out@)).0,
            a@ == step_spec(old(self)@, EventView::ToolOutput(out@)).1,
    {
        let mut phase = ChatPhase::Idle;
        std::mem::swap(&mut phase, &mut self.phase);
        match phase {
            ChatPhase::Running { turn, calls, next } => {
                let total = calls.len();
                assert(next < total);
                let id = calls[next].id.clone();
                let ghost before = self.history@;
                let m = tool_reply(id, out);
                self.history.push(m);
                assert(history_view(self.history@) =~= history_view(before).push(m@));
                self.advance(turn, calls, next + 1)
            },
            other => {
                self.phase = other;
                ChatAction::Ignored
            },
        }
    }

    /// A failure abandons the exchange. A failed summary leaves only the recent
    /// messages: the older ones were already taken out to be summarized.
    fn on_failed(&mut self) -> (a: ChatAction)
        requires
            wf(old(self)@),
        ensures
            final(self)@ == step_spec(old(self)@, EventView::Failed).0,
            a@ == step_spec(old(self)@, EventView::Failed).1,
    {
        let mut phase = ChatPhase::Idle;
        std::mem::swap(&mut phase, &mut self.phase);
        match phase {
            ChatPhase::Summarizing { .. } => {
                keep_recent(&mut self.history);
            },
            _ => {},
        }
        ChatAction::Finished
    }

    /// Takes one event and returns what the caller must do next.
    pub fn step(&mut self, event: ChatEvent) -> (a: ChatAction)
        requires
            wf(old(self)@),
        ensures
            final(self)@ == step_spec(old(self)@, event@).0,
            a@ == step_spec(old(self)@, event@).1,
            wf(final(self)@),
    {
        let a = match event {
            ChatEvent::UserInput(text) => self.on_user_input(text),
            ChatEvent::Chunk(chunk) => self.on_chunk(chunk),
            ChatEvent::StreamEnded => self.on_stream_ended(),
            ChatEvent::Saved => self.on_saved(),
            ChatEvent::Approval(yes) => self.on_approval(yes),
            ChatEvent::ToolOutput(out) => self.on_tool_output(out),
            ChatEvent::Failed => self.on_failed(),
        };
        proof {
            lemma_step_keeps_wf(old(self)@, event@);
        }
        a
    }
}

/// Every step keeps the state consistent.
pub proof fn lemma_step_keeps_wf(s: StateView, e: EventView)
    requires
        wf(s),
    ensures
        wf(step_spec(s, e).0),
{
}

fn tool_reply(id: String, content: String) -> (m: Message)
    ensures
        m@ == tool_message(id@, content@),
{
    Message {
        role: String::from_str("tool"),
        content,
        image_base64: None,
        tool_calls: None,
        tool_call_id: Some(id),
    }
}

/// Adds one streamed chunk to the answer being received (see `absorb`).
pub fn absorb_chunk(response: &mut String, calls: &mut Vec<ToolCall>, chunk: LlmResponseChunk)
    ensures
        (final(response)@, calls_view(final(calls)@)) == absorb(
            old(response)@,
            calls_view(old(calls)@),
            chunk@,
        ),
{
    match chunk {
        LlmResponseChunk::Text(t) => {
            append(response, t.as_str());
        },
        LlmResponseChunk::ToolCall(c) => {
            if c.id.unicode_len() > 0 {
                let ghost before = calls@;
                calls.push(c);
                proof {
                    assert(calls_view(calls@) =~= calls_view(before).push(c@));
                }
            } else if calls.len() > 0 {
                let last = calls.len() - 1;
                let id = calls[last].id.clone();
                let ghost before = calls@;
                let updated = ToolCall { id, name: c.name, arguments: c.arguments };
                calls.set(last, updated);
                proof {
                    assert(calls_view(calls@) =~= calls_view(before).update(
                        last as int,
                        ToolCallView {
                            id: calls_view(before).last().id,
                            name: c@.name,
                            arguments: c@.arguments,
                        },
                    ));
                }
            }
        },
    }
}

} // verus!

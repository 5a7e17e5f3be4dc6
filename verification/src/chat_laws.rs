//! Properties of the chat exchange that hold over every step.
use vstd::prelude::*;
use crate::chat::{advance, begin_turn, step_spec, wf, EventView, PhaseView, StateView, MAX_TURNS};
use crate::types::{MessageView, ToolCallView};

verus! {

/// How many more model requests the exchange may still make from this phase.
pub open spec fn requests_left(p: PhaseView) -> int {
    match p {
        PhaseView::Idle => 0,
        PhaseView::FinalSaving => 0,
        PhaseView::Summarizing { turn, text } => MAX_TURNS - turn,
        PhaseView::Saving { turn } => MAX_TURNS - turn,
        PhaseView::Streaming { turn, response, calls } => MAX_TURNS - turn - 1,
        PhaseView::Approving { turn, calls, next } => MAX_TURNS - turn - 1,
        PhaseView::Running { turn, calls, next } => MAX_TURNS - turn - 1,
    }
}

proof fn lemma_begin_turn_budget(s: StateView, turn: nat)
    requires
        turn < MAX_TURNS,
    ensures
        ({
            let (s2, a) = begin_turn(s, turn);
            &&& a is RequestCompletion ==> requests_left(s2.phase) + 1 == MAX_TURNS - turn
            &&& !(a is RequestCompletion) ==> requests_left(s2.phase) == MAX_TURNS - turn
        }),
{
}

proof fn lemma_advance_budget(s: StateView, turn: nat, calls: Seq<ToolCallView>, next: nat)
    requires
        turn < MAX_TURNS,
    ensures
        ({
            let (s2, a) = advance(s, turn, calls, next);
            &&& a is RequestCompletion ==> requests_left(s2.phase) + 1 == MAX_TURNS - turn - 1
            &&& !(a is RequestCompletion) ==> requests_left(s2.phase) <= MAX_TURNS - turn - 1
        }),
{
    if next >= calls.len() && turn + 1 < MAX_TURNS {
        lemma_begin_turn_budget(s, turn + 1);
    }
}

/// A chat exchange asks the model for at most `MAX_TURNS` answers: a new user input
/// grants `MAX_TURNS` requests (counting the one it may make at once), and every
/// other step either makes one request and uses one up, or makes none and uses none.
pub proof fn law_model_requests_bounded(s: StateView, e: EventView)
    requires
        wf(s),
    ensures
        ({
            let (s2, a) = step_spec(s, e);
            let used: int = if a is RequestCompletion {
                1
            } else {
                0
            };
            &&& e is UserInput ==> requests_left(s2.phase) + used == MAX_TURNS
            &&& !(e is UserInput) ==> requests_left(s2.phase) + used <= requests_left(s.phase)
            &&& requests_left(s2.phase) >= 0
        }),
{
    match e {
        EventView::UserInput(text) => {
            lemma_begin_turn_budget(
                StateView { history: s.history.push(crate::types::plain("user"@, text)), ..s },
                0,
            );
        },
        EventView::StreamEnded => {
            match s.phase {
                PhaseView::Streaming { turn, response, calls } => {
                    let s2 = StateView {
                        history: s.history.push(crate::chat::assistant_message(response, calls)),
                        ..s
                    };
                    if calls.len() > 0 {
                        lemma_advance_budget(s2, turn, calls, 0);
                    }
                },
                _ => {},
            }
        },
        EventView::Approval(yes) => {
            match s.phase {
                PhaseView::Approving { turn, calls, next } => {
                    if !yes {
                        lemma_advance_budget(
                            StateView {
                                history: s.history.push(
                                    crate::chat::tool_message(
                                        calls[next as int].id,
                                        crate::chat::skipped_text(),
                                    ),
                                ),
                                ..s
                            },
                            turn,
                            calls,
                            next + 1,
                        );
                    }
                },
                _ => {},
            }
        },
        EventView::ToolOutput(out) => {
            match s.phase {
                PhaseView::Running { turn, calls, next } => {
                    lemma_advance_budget(
                        StateView {
                            history: s.history.push(
                                crate::chat::tool_message(calls[next as int].id, out),
                            ),
                            ..s
                        },
                        turn,
                        calls,
                        next + 1,
                    );
                },
                _ => {},
            }
        },
        _ => {},
    }
}

/// The history ends with an assistant message requesting `calls`, followed by one
/// tool message for each of the first `next` calls, in order, carrying its id.
pub open spec fn answers_in_order(h: Seq<MessageView>, calls: Seq<ToolCallView>, next: nat) -> bool {
    let base = h.len() - next - 1;
    &&& h.len() >= next + 1
    &&& h[base].role == "assistant"@
    &&& h[base].tool_calls == Some(calls)
    &&& forall|j: int|
        0 <= j < next ==> (#[trigger] h[base + 1 + j]).role == "tool"@ && h[base + 1
            + j].tool_call_id == Some(calls[j].id)
}

/// While tool calls are handled, the history records the request and the answers so far.
pub open spec fn replies_recorded(s: StateView) -> bool {
    match s.phase {
        PhaseView::Approving { turn, calls, next } => answers_in_order(s.history, calls, next),
        PhaseView::Running { turn, calls, next } => answers_in_order(s.history, calls, next),
        _ => true,
    }
}

proof fn lemma_answers_push(h: Seq<MessageView>, calls: Seq<ToolCallView>, next: nat, reply: MessageView)
    requires
        answers_in_order(h, calls, next),
        next < calls.len(),
        reply.role == "tool"@,
        reply.tool_call_id == Some(calls[next as int].id),
    ensures
        answers_in_order(h.push(reply), calls, next + 1),
{
    let h2 = h.push(reply);
    let base = h.len() - next - 1;
    assert(h2.len() - (next + 1) - 1 == base);
    assert forall|j: int| 0 <= j < next + 1 implies (#[trigger] h2[base + 1 + j]).role == "tool"@
        && h2[base + 1 + j].tool_call_id == Some(calls[j].id) by {
        if j < next {
            assert(h2[base + 1 + j] == h[base + 1 + j]);
        }
    }
}

proof fn lemma_advance_replies(s: StateView, turn: nat, calls: Seq<ToolCallView>, next: nat)
    requires
        next <= calls.len(),
        answers_in_order(s.history, calls, next),
    ensures
        replies_recorded(advance(s, turn, calls, next).0),
{
}

/// Every tool call the model requests is answered by exactly one tool message, in
/// the order of the calls and carrying the call's id, while the calls are handled.
pub proof fn law_tool_replies_in_order(s: StateView, e: EventView)
    requires
        wf(s),
        replies_recorded(s),
    ensures
        replies_recorded(step_spec(s, e).0),
{
    match e {
        EventView::StreamEnded => {
            match s.phase {
                PhaseView::Streaming { turn, response, calls } => {
                    let h = s.history.push(crate::chat::assistant_message(response, calls));
                    if calls.len() > 0 {
                        assert(answers_in_order(h, calls, 0));
                        lemma_advance_replies(StateView { history: h, ..s }, turn, calls, 0);
                    }
                },
                _ => {},
            }
        },
        EventView::Approval(yes) => {
            match s.phase {
                PhaseView::Approving { turn, calls, next } => {
                    if !yes {
                        let reply = crate::chat::tool_message(
                            calls[next as int].id,
                            crate::chat::skipped_text(),
                        );
                        lemma_answers_push(s.history, calls, next, reply);
                        lemma_advance_replies(
                            StateView { history: s.history.push(reply), ..s },
                            turn,
                            calls,
                            next + 1,
                        );
                    }
                },
                _ => {},
            }
        },
        EventView::ToolOutput(out) => {
            match s.phase {
                PhaseView::Running { turn, calls, next } => {
                    let reply = crate::chat::tool_message(calls[next as int].id, out);
                    lemma_answers_push(s.history, calls, next, reply);
                    lemma_advance_replies(
                        StateView { history: s.history.push(reply), ..s },
                        turn,
                        calls,
                        next + 1,
                    );
                },
                _ => {},
            }
        },
        _ => {},
    }
}

/// When the last tool call of an answer is done (run or declined), every call of
/// that answer has its tool message, in order, right after the assistant message.
pub proof fn law_last_reply_completes_calls(s: StateView, e: EventView)
    requires
        wf(s),
        replies_recorded(s),
        match s.phase {
            PhaseView::Running { turn, calls, next } => next + 1 == calls.len() && e is ToolOutput,
            PhaseView::Approving { turn, calls, next } => next + 1 == calls.len() && e
                == EventView::Approval(false),
            _ => false,
        },
    ensures
        match s.phase {
            PhaseView::Running { turn, calls, next } => answers_in_order(
                step_spec(s, e).0.history,
                calls,
                calls.len(),
            ),
            PhaseView::Approving { turn, calls, next } => answers_in_order(
                step_spec(s, e).0.history,
                calls,
                calls.len(),
            ),
            _ => false,
        },
{
    match s.phase {
        PhaseView::Running { turn, calls, next } => {
            let out = e->ToolOutput_0;
            let reply = crate::chat::tool_message(calls[next as int].id, out);
            lemma_answers_push(s.history, calls, next, reply);
        },
        PhaseView::Approving { turn, calls, next } => {
            let reply = crate::chat::tool_message(calls[next as int].id, crate::chat::skipped_text());
            lemma_answers_push(s.history, calls, next, reply);
        },
        _ => {},
    }
}

/// Without auto-run, a tool runs only right after the user approved it.
pub proof fn law_runs_only_when_approved(s: StateView, e: EventView)
    requires
        wf(s),
        !s.auto_run,
        step_spec(s, e).1 is Execute,
    ensures
        s.phase is Approving,
        e == EventView::Approval(true),
{
}

/// With auto-run on, the user is never asked.
pub proof fn law_auto_run_never_asks(s: StateView, e: EventView)
    requires
        wf(s),
        s.auto_run,
    ensures
        !(step_spec(s, e).1 is AskApproval),
{
}

/// A named session is saved right before every model request, and once more
/// before the exchange is over (unless it is abandoned after a failure).
pub proof fn law_named_session_saved_before_requests(s: StateView, e: EventView)
    requires
        wf(s),
        s.session_name is Some,
    ensures
        step_spec(s, e).1 is RequestCompletion ==> s.phase is Saving && e == EventView::Saved,
        step_spec(s, e).1 is Finished && e != EventView::Failed ==> s.phase is FinalSaving && e
            == EventView::Saved,
{
}

/// When the model's answer ends, it is recorded as one assistant message after the
/// history so far: its content is the whole streamed text, whether or not tool calls
/// follow, and it carries the calls (none when there are none).
pub proof fn law_answer_recorded_whole(s: StateView)
    requires
        wf(s),
        s.phase is Streaming,
    ensures
        ({
            let s2 = step_spec(s, EventView::StreamEnded).0;
            let response = s.phase->Streaming_response;
            let calls = s.phase->Streaming_calls;
            &&& s2.history.len() == s.history.len() + 1
            &&& s2.history.subrange(0, s.history.len() as int) == s.history
            &&& s2.history.last().role == "assistant"@
            &&& s2.history.last().content == response
            &&& s2.history.last().tool_calls == if calls.len() == 0 {
                None
            } else {
                Some(calls)
            }
            &&& s2.history.last().tool_call_id is None
        }),
{
    let s2 = step_spec(s, EventView::StreamEnded).0;
    assert(s2.history.subrange(0, s.history.len() as int) =~= s.history);
}

/// The output of the last tool call of an answer is fed back to the model: it is
/// recorded as the call's tool message, and the next turn begins (unless the turn
/// limit is reached).
pub proof fn law_tool_output_fed_back(s: StateView, out: Seq<char>)
    requires
        wf(s),
        s.phase matches PhaseView::Running { turn, calls, next } && next + 1 == calls.len() && turn
            + 1 < MAX_TURNS,
    ensures
        ({
            let (s2, a) = step_spec(s, EventView::ToolOutput(out));
            let turn = s.phase->Running_turn;
            let calls = s.phase->Running_calls;
            let next = s.phase->Running_next;
            &&& s2.history.last() == crate::chat::tool_message(calls[next as int].id, out)
            &&& s2.history.len() == s.history.len() + 1
            &&& {
                ||| s2.phase == PhaseView::Summarizing { turn: turn + 1, text: Seq::empty() }
                ||| s2.phase == PhaseView::Saving { turn: turn + 1 }
                ||| s2.phase == PhaseView::Streaming {
                    turn: turn + 1,
                    response: Seq::empty(),
                    calls: Seq::empty(),
                }
            }
        }),
{
}

} // verus!

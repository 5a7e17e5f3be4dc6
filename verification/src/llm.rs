//! The language-model side: the scripted mock model, and the protocol of
//! OpenAI-compatible endpoints (request variants, key masking, the event stream
//! and how streamed tool-call fragments are put together).
use vstd::prelude::*;
use crate::text::{
    append, byte_count, chars_of, contains_seq, contains_str, decimal, decimal_string, find_seq,
    is_white_space, keep_nonblank, nonblank_lines, nonblank_lines_of, occurs_at, same_text,
    string_of_range, trim_start, utf8_len, white_space, lemma_trim_start,
};
use crate::types::{
    calls_view, history_view, AppError, ChunkView, LlmResponseChunk, Message, MessageView, ToolCall,
    ToolCallView,
};

verus! {

/// The scripted model used when no real backend is configured.
pub struct MockLlm;

pub open spec fn mock_answer(history: Seq<MessageView>) -> Option<Seq<char>> {
    if history.len() == 0 {
        None
    } else if contains_seq(history.last().content, "ls"@) {
        Some("I will check the directory for you.\n\n```bash\nls -F\n```"@)
    } else if contains_seq(history.last().content, "date"@) {
        Some("Let me check the current date.\n\n```bash\ndate\n```"@)
    } else {
        Some("How can I help you today?"@)
    }
}

impl MockLlm {
    /// The scripted answer to the last message: it looks at `ls`, then `date`, in
    /// the message; an empty history is an error.
    pub fn answer(&self, history: &Vec<Message>) -> (r: Result<String, AppError>)
        ensures
            match r {
                Ok(t) => mock_answer(history_view(history@)) == Some(t@),
                Err(e) => mock_answer(history_view(history@)) is None && (e matches AppError::LlmError(m)
                    && m@ == "No history"@),
            },
    {
        let n = history.len();
        if n == 0 {
            return Err(AppError::LlmError(String::from_str("No history")));
        }
        let last = &history[n - 1];
        proof {
            assert(history_view(history@).last() == last@);
        }
        if contains_str(last.content.as_str(), "ls") {
            Ok(String::from_str("I will check the directory for you.\n\n```bash\nls -F\n```"))
        } else if contains_str(last.content.as_str(), "date") {
            Ok(String::from_str("Let me check the current date.\n\n```bash\ndate\n```"))
        } else {
            Ok(String::from_str("How can I help you today?"))
        }
    }

    /// The answer as it is streamed: one chunk per character.
    pub fn chunks(text: &str) -> (r: Vec<String>)
        ensures
            r@.len() == text@.len(),
            forall|i: int| 0 <= i < r@.len() ==> #[trigger] r@[i]@ == seq![text@[i]],
    {
        let v = chars_of(text);
        let mut r: Vec<String> = Vec::new();
        let mut i: usize = 0;
        while i < v.len()
            invariant
                i <= v@.len(),
                v@ == text@,
                r@.len() == i,
                forall|k: int| 0 <= k < i ==> #[trigger] r@[k]@ == seq![text@[k]],
            decreases v@.len() - i,
        {
            let mut s = String::new();
            s.push(v[i]);
            assert(s@ =~= seq![text@[i as int]]);
            r.push(s);
            i = i + 1;
        }
        r
    }
}

/// How an API key is shown: keys of at most four bytes as `****`; longer ones as
/// the first two characters, `...`, the characters after the first `len - 2` (with
/// `len` the key's length in bytes), and the length.
pub open spec fn masked_key(key: Seq<char>) -> Seq<char> {
    let n = utf8_len(key);
    if n <= 4 {
        "****"@
    } else {
        let prefix = if key.len() <= 2 {
            key
        } else {
            key.subrange(0, 2)
        };
        let skip = n - 2;
        let suffix = if skip >= key.len() {
            Seq::<char>::empty()
        } else {
            key.subrange(skip, key.len() as int)
        };
        prefix + "..."@ + suffix + " ("@ + decimal(n) + " chars)"@
    }
}

/// Masks an API key for display (see `masked_key`).
pub fn mask_key(key: &str) -> (r: String)
    ensures
        r@ == masked_key(key@),
{
    let v = chars_of(key);
    let n = byte_count(&v);
    if n <= 4 {
        return String::from_str("****");
    }
    let p = if v.len() <= 2 {
        v.len()
    } else {
        2
    };
    let mut r = string_of_range(&v, 0, p);
    proof {
        if v@.len() <= 2 {
            assert(v@.subrange(0, p as int) =~= v@);
        }
    }
    append(&mut r, "...");
    let skip = n - 2;
    if skip < v.len() as u128 {
        let s = string_of_range(&v, skip as usize, v.len());
        append(&mut r, s.as_str());
    }
    append(&mut r, " (");
    let d = decimal_string(n);
    append(&mut r, d.as_str());
    append(&mut r, " chars)");
    r
}

/// Number of request body variants (plain, and with usage reporting).
pub const BODY_VARIANTS: usize = 2;

/// Number of authentication header variants (`Authorization: Bearer`, `api-key`).
pub const AUTH_VARIANTS: usize = 2;

/// The request variants to try, in order: every body variant with every header
/// variant until one is known to work; then only that one.
pub open spec fn format_candidates(known: Option<(usize, usize)>) -> Seq<(usize, usize)> {
    match known {
        Some(f) => seq![f],
        None => seq![(0usize, 0usize), (0usize, 1usize), (1usize, 0usize), (1usize, 1usize)],
    }
}

/// The request variants to try (see `format_candidates`).
pub fn request_formats(known: Option<(usize, usize)>) -> (r: Vec<(usize, usize)>)
    ensures
        r@ == format_candidates(known),
{
    let mut r: Vec<(usize, usize)> = Vec::new();
    match known {
        Some(f) => {
            r.push(f);
        },
        None => {
            r.push((0, 0));
            r.push((0, 1));
            r.push((1, 0));
            r.push((1, 1));
        },
    }
    assert(r@ =~= format_candidates(known));
    r
}

/// After a successful request with variant `used`, the variant to keep using: the
/// first one that ever worked.
pub fn remember_format(known: Option<(usize, usize)>, used: (usize, usize)) -> (r: Option<(usize, usize)>)
    ensures
        r == (match known {
            Some(f) => Some(f),
            None => Some(used),
        }),
{
    match known {
        Some(f) => Some(f),
        None => Some(used),
    }
}

/// Whether body variant `body` asks for usage reporting (`stream_options.include_usage`).
pub fn reports_usage(body: usize) -> (r: bool)
    ensures
        r == (body == 1),
{
    body == 1
}

/// The authentication header of variant `auth` for `api_key`:
/// `Authorization: Bearer <key>` or `api-key: <key>`.
pub fn auth_header(auth: usize, api_key: &str) -> (r: (String, String))
    requires
        auth < AUTH_VARIANTS,
    ensures
        auth == 0 ==> r.0@ == "Authorization"@ && r.1@ == "Bearer "@ + api_key@,
        auth == 1 ==> r.0@ == "api-key"@ && r.1@ == api_key@,
{
    if auth == 0 {
        let mut v = String::from_str("Bearer ");
        append(&mut v, api_key);
        (String::from_str("Authorization"), v)
    } else {
        (String::from_str("api-key"), String::from_str(api_key))
    }
}

/// The error when no request variant was accepted.
pub fn all_formats_failed() -> (e: AppError)
    ensures
        e matches AppError::LlmError(m) && m@ == "All request patterns failed."@,
{
    AppError::LlmError(String::from_str("All request patterns failed."))
}

/// What to do next while looking for a request variant the endpoint accepts.
pub enum RequestStep {
    /// Send the request with body variant `body` and header variant `auth`.
    Send { body: usize, auth: usize },
    /// The reply was accepted: stream it, and keep using variant `format`.
    Stream { format: (usize, usize) },
    /// No variant was accepted.
    GiveUp(AppError),
}

/// `e` is the error reported when no request variant was accepted.
pub open spec fn gives_up_message(e: AppError) -> bool {
    e matches AppError::LlmError(m) && m@ == "All request patterns failed."@
}

/// The step for attempt number `attempt` (counting from zero): the candidate at that
/// position (see `format_candidates`), or giving up once they are all tried.
pub fn attempt_request(known: Option<(usize, usize)>, attempt: usize) -> (r: RequestStep)
    ensures
        attempt < format_candidates(known).len() ==> (r matches RequestStep::Send { body, auth }
            && (body, auth) == format_candidates(known)[attempt as int]),
        attempt >= format_candidates(known).len() ==> (r matches RequestStep::GiveUp(e)
            && gives_up_message(e)),
{
    let candidates = request_formats(known);
    if attempt < candidates.len() {
        let (body, auth) = candidates[attempt];
        RequestStep::Send { body, auth }
    } else {
        RequestStep::GiveUp(all_formats_failed())
    }
}

/// The step after the reply to attempt `attempt`: an accepted reply is streamed and
/// its variant remembered (the known one stays when there is one); otherwise the next
/// candidate is tried.
pub fn after_reply(known: Option<(usize, usize)>, attempt: usize, accepted: bool) -> (r: RequestStep)
    requires
        attempt < format_candidates(known).len(),
    ensures
        accepted ==> (r matches RequestStep::Stream { format } && Some(format) == (match known {
            Some(f) => Some(f),
            None => Some(format_candidates(known)[attempt as int]),
        })),
        !accepted && attempt + 1 < format_candidates(known).len() ==> (r matches RequestStep::Send {
            body,
            auth,
        } && (body, auth) == format_candidates(known)[attempt + 1]),
        !accepted && attempt + 1 >= format_candidates(known).len() ==> (r matches RequestStep::GiveUp(e)
            && gives_up_message(e)),
{
    if accepted {
        let candidates = request_formats(known);
        match remember_format(known, candidates[attempt]) {
            Some(format) => RequestStep::Stream { format },
            None => RequestStep::Stream { format: candidates[attempt] },
        }
    } else {
        attempt_request(known, attempt + 1)
    }
}

/// The payload of one event-stream line: what follows the first `data:` and the
/// whitespace after it, or the whole line when it has no `data:`.
pub open spec fn line_payload(line: Seq<char>) -> Seq<char> {
    if contains_seq(line, "data:"@) {
        let i = choose|i: int|
            occurs_at(line, "data:"@, i) && forall|k: int| 0 <= k < i ==> !occurs_at(line, "data:"@, k);
        trim_start(line.subrange(i + 5, line.len() as int))
    } else {
        line
    }
}

/// The payloads of `lines[0..k]`, skipping the `data: [DONE]` terminator.
pub open spec fn payloads_of(lines: Seq<Seq<char>>, k: int) -> Seq<Seq<char>>
    decreases k,
{
    if k <= 0 {
        seq![]
    } else if lines[k - 1] == "data: [DONE]"@ {
        payloads_of(lines, k - 1)
    } else {
        payloads_of(lines, k - 1).push(line_payload(lines[k - 1]))
    }
}

/// The payloads carried by a piece of the event stream: one per non-blank line
/// (trimmed), the terminator excepted.
pub open spec fn stream_payloads(text: Seq<char>) -> Seq<Seq<char>> {
    payloads_of(nonblank_lines(text), nonblank_lines(text).len() as int)
}

fn payload_of_line(line: &str) -> (r: String)
    ensures
        r@ == line_payload(line@),
{
    let v = chars_of(line);
    let marker = chars_of("data:");
    proof {
        reveal_strlit("data:");
    }
    match find_seq(&v, &marker) {
        Some(i) => {
            let n = v.len();
            let mut j = i + 5;
            while j < n && white_space(v[j])
                invariant
                    i + 5 <= j <= n,
                    n == v@.len(),
                    forall|k: int| i + 5 <= k < j ==> is_white_space(#[trigger] v@[k]),
                decreases n - j,
            {
                j = j + 1;
            }
            proof {
                let c = choose|c: int|
                    occurs_at(v@, "data:"@, c) && forall|k: int|
                        0 <= k < c ==> !occurs_at(v@, "data:"@, k);
                assert(occurs_at(v@, "data:"@, i as int));
                if c < i {
                } else if c > i {
                }
                assert(c == i);
                let t = v@.subrange(i + 5, n as int);
                assert forall|k: int| 0 <= k < j - (i + 5) implies is_white_space(#[trigger] t[k]) by {
                    assert(t[k] == v@[k + i + 5]);
                }
                if j < n {
                    assert(t[j - (i + 5)] == v@[j as int]);
                }
                lemma_trim_start(t, j - (i + 5));
                assert(t.subrange(j - (i + 5), t.len() as int) =~= v@.subrange(j as int, n as int));
            }
            string_of_range(&v, j, n)
        },
        None => String::from_str(line),
    }
}

/// The payloads of a piece of the event stream (see `stream_payloads`).
pub fn sse_payloads(text: &str) -> (r: Vec<String>)
    ensures
        r@.map_values(|x: String| x@) == stream_payloads(text@),
{
    let lines = nonblank_lines_of(text);
    let ghost ls = lines@.map_values(|x: String| x@);
    let mut r: Vec<String> = Vec::new();
    let mut k: usize = 0;
    while k < lines.len()
        invariant
            k <= lines@.len(),
            ls == lines@.map_values(|x: String| x@),
            ls == nonblank_lines(text@),
            r@.map_values(|x: String| x@) == payloads_of(ls, k as int),
        decreases lines@.len() - k,
    {
        let line = lines[k].as_str();
        proof {
            assert(ls[k as int] == line@);
        }
        if !same_text(line, "data: [DONE]") {
            let p = payload_of_line(line);
            let ghost before = r@;
            r.push(p);
            proof {
                assert(r@.map_values(|x: String| x@) =~= before.map_values(|x: String| x@).push(p@));
            }
        }
        k = k + 1;
    }
    r
}

/// One streamed fragment of a tool call, as the endpoint sends it.
pub struct ToolCallDelta {
    pub index: Option<usize>,
    pub id: Option<String>,
    pub name: Option<String>,
    pub arguments: Option<String>,
}

#[verifier::ext_equal]
pub struct DeltaView {
    pub index: Option<usize>,
    pub id: Option<Seq<char>>,
    pub name: Option<Seq<char>>,
    pub arguments: Option<Seq<char>>,
}

impl View for ToolCallDelta {
    type V = DeltaView;

    open spec fn view(&self) -> DeltaView {
        DeltaView {
            index: self.index,
            id: crate::types::opt_str_view(self.id),
            name: crate::types::opt_str_view(self.name),
            arguments: crate::types::opt_str_view(self.arguments),
        }
    }
}

/// The delta of the first choice of one streamed event: text and tool-call fragments.
pub struct StreamDelta {
    pub content: Option<String>,
    pub tool_calls: Vec<ToolCallDelta>,
}

pub open spec fn empty_call() -> ToolCallView {
    ToolCallView { id: Seq::empty(), name: Seq::empty(), arguments: Seq::empty() }
}

/// `calls` extended with empty calls up to length `n`.
pub open spec fn padded(calls: Seq<ToolCallView>, n: nat) -> Seq<ToolCallView>
    decreases n - calls.len(),
{
    if calls.len() >= n {
        calls
    } else {
        padded(calls.push(empty_call()), n)
    }
}

pub open spec fn delta_index(d: DeltaView) -> nat {
    match d.index {
        Some(i) => i as nat,
        None => 0,
    }
}

pub open spec fn or_empty(o: Option<Seq<char>>) -> Seq<char> {
    match o {
        Some(s) => s,
        None => Seq::empty(),
    }
}

/// The calls after one fragment: the call at the fragment's index (0 by default;
/// empty calls are added up to it) takes the fragment's id if it has one, and the
/// fragment's name and argument pieces are appended to its own.
pub open spec fn apply_delta(calls: Seq<ToolCallView>, d: DeltaView) -> Seq<ToolCallView> {
    let i = delta_index(d);
    let p = padded(calls, i + 1);
    let c = p[i as int];
    p.update(
        i as int,
        ToolCallView {
            id: match d.id {
                Some(id) => id,
                None => c.id,
            },
            name: c.name + or_empty(d.name),
            arguments: c.arguments + or_empty(d.arguments),
        },
    )
}

/// The calls after `ds[0..k]`, and the chunks reported on the way: after each
/// fragment, the call it touched as it now stands.
pub open spec fn apply_deltas(calls: Seq<ToolCallView>, ds: Seq<DeltaView>, k: int) -> (
    Seq<ToolCallView>,
    Seq<ChunkView>,
)
    decreases k,
{
    if k <= 0 {
        (calls, seq![])
    } else {
        let (c1, out) = apply_deltas(calls, ds, k - 1);
        let c2 = apply_delta(c1, ds[k - 1]);
        (c2, out.push(ChunkView::ToolCall(c2[delta_index(ds[k - 1]) as int])))
    }
}

/// Puts together the tool calls of one streamed answer from their fragments.
pub struct StreamDecoder {
    calls: Vec<ToolCall>,
}

impl View for StreamDecoder {
    type V = Seq<ToolCallView>;

    closed spec fn view(&self) -> Seq<ToolCallView> {
        calls_view(self.calls@)
    }
}

proof fn lemma_padded(calls: Seq<ToolCallView>, n: nat)
    ensures
        padded(calls, n).len() == if calls.len() >= n {
            calls.len()
        } else {
            n
        },
        forall|k: int| 0 <= k < calls.len() ==> #[trigger] padded(calls, n)[k] == calls[k],
        forall|k: int|
            calls.len() <= k < padded(calls, n).len() ==> #[trigger] padded(calls, n)[k] == empty_call(),
    decreases n - calls.len(),
{
    if calls.len() < n {
        lemma_padded(calls.push(empty_call()), n);
        assert forall|k: int| 0 <= k < calls.len() implies #[trigger] padded(calls, n)[k] == calls[k] by {
            assert(calls.push(empty_call())[k] == calls[k]);
        }
    }
}

fn empty_tool_call() -> (c: ToolCall)
    ensures
        c@ == empty_call(),
{
    ToolCall { id: String::new(), name: String::new(), arguments: String::new() }
}

impl StreamDecoder {
    pub fn new() -> (d: StreamDecoder)
        ensures
            d@ == Seq::<ToolCallView>::empty(),
    {
        let d = StreamDecoder { calls: Vec::new() };
        assert(d@ =~= Seq::<ToolCallView>::empty());
        d
    }

    fn apply(&mut self, delta: ToolCallDelta) -> (c: ToolCall)
        ensures
            final(self)@ == apply_delta(old(self)@, delta@),
            c@ == apply_delta(old(self)@, delta@)[delta_index(delta@) as int],
    {
        let idx = match delta.index {
            Some(i) => i,
            None => 0,
        };
        let ghost start = self@;
        proof {
            lemma_padded(start, idx as nat + 1);
        }
        while self.calls.len() <= idx
            invariant
                padded(calls_view(self.calls@), idx as nat + 1) == padded(start, idx as nat + 1),
            decreases idx as int + 1 - self.calls@.len(),
        {
            let ghost before = self.calls@;
            self.calls.push(empty_tool_call());
            proof {
                assert(calls_view(self.calls@) =~= calls_view(before).push(empty_call()));
            }
        }
        proof {
            assert(calls_view(self.calls@) == padded(start, idx as nat + 1));
        }
        let mut c = self.calls[idx].clone();
        if let Some(id) = delta.id {
            c.id = id;
        }
        if let Some(name) = delta.name {
            append(&mut c.name, name.as_str());
        }
        if let Some(args) = delta.arguments {
            append(&mut c.arguments, args.as_str());
        }
        let ghost before = self.calls@;
        let snapshot = c.clone();
        self.calls.set(idx, c);
        proof {
            assert(calls_view(self.calls@) =~= calls_view(before).update(idx as int, snapshot@));
        }
        snapshot
    }

    /// The chunks one streamed event yields: its text, if any, then, for each tool-call
    /// fragment, the call it touched as it now stands.
    pub fn absorb(&mut self, delta: StreamDelta) -> (r: Vec<LlmResponseChunk>)
        ensures
            final(self)@ == apply_deltas(
                old(self)@,
                delta.tool_calls@.map_values(|d: ToolCallDelta| d@),
                delta.tool_calls@.len() as int,
            ).0,
            r@.map_values(|c: LlmResponseChunk| c@) == (match delta.content {
                Some(t) => seq![ChunkView::Text(t@)],
                None => Seq::<ChunkView>::empty(),
            }) + apply_deltas(
                old(self)@,
                delta.tool_calls@.map_values(|d: ToolCallDelta| d@),
                delta.tool_calls@.len() as int,
            ).1,
    {
        let ghost ds = delta.tool_calls@.map_values(|d: ToolCallDelta| d@);
        let ghost start = self@;
        let mut r: Vec<LlmResponseChunk> = Vec::new();
        let StreamDelta { content, tool_calls } = delta;
        let ghost head = match &content {
            Some(t) => seq![ChunkView::Text(t@)],
            None => Seq::<ChunkView>::empty(),
        };
        match content {
            Some(t) => {
                r.push(LlmResponseChunk::Text(t));
            },
            None => {},
        }
        proof {
            assert(r@.map_values(|c: LlmResponseChunk| c@) =~= head);
        }
        let mut k: usize = 0;
        let n = tool_calls.len();
        let mut rest = tool_calls;
        while k < n
            invariant
                n == ds.len(),
                k <= n,
                rest@.len() == n - k,
                forall|j: int| 0 <= j < n - k ==> #[trigger] rest@[j]@ == ds[k + j],
                self@ == apply_deltas(start, ds, k as int).0,
                r@.map_values(|c: LlmResponseChunk| c@) == head + apply_deltas(start, ds, k as int).1,
            decreases n - k,
        {
            let d = rest.remove(0);
            proof {
                assert(d@ == ds[k as int]);
            }
            let ghost before = r@;
            let snapshot = self.apply(d);
            r.push(LlmResponseChunk::ToolCall(snapshot));
            proof {
                assert(r@.map_values(|c: LlmResponseChunk| c@) =~= before.map_values(
                    |c: LlmResponseChunk| c@,
                ).push(ChunkView::ToolCall(snapshot@)));
            }
            k = k + 1;
        }
        r
    }
}

} // verus!

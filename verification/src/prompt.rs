//! Text the interpreter composes: the system prompt, the runtime description,
//! file mentions and attachments, recalled context, and the session report.
use vstd::prelude::*;
use crate::text::{
    append, chars_of, decimal, decimal_string, is_white_space, string_of_range, white_space,
};
use crate::types::{history_view, Message, MessageView};

verus! {

/// The system message content: the configured prompt, the symbolic state header,
/// then the runtime description framed by rulers.
pub open spec fn system_content(prompt: Seq<char>, runtime: Seq<char>) -> Seq<char> {
    prompt + "\n\n@CTX:[DOM:SYSTEM_ROOT|GOAL:INITIALIZED]\n"@
        + "@BIAS:{P:1.0, M:1.0, S:1.0, D:1.0, C:1.0}\n"@ + "CONCEPT: [[READY]] [[ENV_LOADED]]\n"@
        + "--- Runtime Specs ---\n"@ + runtime + "\n--------------------\n"@
}

/// Builds the system message content.
pub fn build_system_content(prompt: &str, runtime: &str) -> (r: String)
    ensures
        r@ == system_content(prompt@, runtime@),
{
    let mut r = String::from_str(prompt);
    append(&mut r, "\n\n@CTX:[DOM:SYSTEM_ROOT|GOAL:INITIALIZED]\n");
    append(&mut r, "@BIAS:{P:1.0, M:1.0, S:1.0, D:1.0, C:1.0}\n");
    append(&mut r, "CONCEPT: [[READY]] [[ENV_LOADED]]\n");
    append(&mut r, "--- Runtime Specs ---\n");
    append(&mut r, runtime);
    append(&mut r, "\n--------------------\n");
    r
}

/// A value that may be missing, shown as `Unknown` then.
pub open spec fn or_unknown(v: Option<Seq<char>>) -> Seq<char> {
    match v {
        Some(s) => s,
        None => "Unknown"@,
    }
}

/// The runtime description given to the model.
pub open spec fn runtime_description(
    os: Option<Seq<char>>,
    kernel: Option<Seq<char>>,
    host: Option<Seq<char>>,
    cpu_cores: nat,
    memory_bytes: nat,
    working_dir: Option<Seq<char>>,
) -> Seq<char> {
    "OS: "@ + or_unknown(os) + "\nKernel: "@ + or_unknown(kernel) + "\nHostname: "@ + or_unknown(
        host,
    ) + "\nCPU Cores: "@ + decimal(cpu_cores) + "\nTotal Memory: "@ + decimal(
        memory_bytes / 1024 / 1024,
    ) + " MB\nWorking Directory: "@ + or_unknown(working_dir)
}

fn push_or_unknown(r: &mut String, v: &Option<String>)
    ensures
        final(r)@ == old(r)@ + or_unknown(crate::types::opt_str_view(*v)),
{
    match v {
        Some(s) => append(r, s.as_str()),
        None => append(r, "Unknown"),
    }
}

/// Describes the machine the interpreter runs on (memory given in bytes, shown in MB).
pub fn describe_runtime(
    os: &Option<String>,
    kernel: &Option<String>,
    host: &Option<String>,
    cpu_cores: u64,
    memory_bytes: u64,
    working_dir: &Option<String>,
) -> (r: String)
    ensures
        r@ == runtime_description(
            crate::types::opt_str_view(*os),
            crate::types::opt_str_view(*kernel),
            crate::types::opt_str_view(*host),
            cpu_cores as nat,
            memory_bytes as nat,
            crate::types::opt_str_view(*working_dir),
        ),
{
    let mut r = String::from_str("OS: ");
    push_or_unknown(&mut r, os);
    append(&mut r, "\nKernel: ");
    push_or_unknown(&mut r, kernel);
    append(&mut r, "\nHostname: ");
    push_or_unknown(&mut r, host);
    append(&mut r, "\nCPU Cores: ");
    let cores = decimal_string(cpu_cores as u128);
    append(&mut r, cores.as_str());
    append(&mut r, "\nTotal Memory: ");
    let mb = decimal_string((memory_bytes / 1024 / 1024) as u128);
    append(&mut r, mb.as_str());
    append(&mut r, " MB\nWorking Directory: ");
    push_or_unknown(&mut r, working_dir);
    r
}

/// The end of the run of non-whitespace characters of `s` that starts at `j`.
pub open spec fn run_end(s: Seq<char>, j: int) -> int
    decreases s.len() - j,
{
    if j < 0 || j >= s.len() || is_white_space(s[j]) {
        j
    } else {
        run_end(s, j + 1)
    }
}

/// The paths mentioned as `@path` in `s` from index `i` on: each `@` followed by a
/// non-whitespace character starts a mention that runs to the next whitespace,
/// and the search resumes after it (the matches of the pattern `@([^\s]+)`).
pub open spec fn mentions_from(s: Seq<char>, i: int) -> Seq<Seq<char>>
    decreases s.len() - i, 1int,
{
    if i < 0 || i >= s.len() {
        seq![]
    } else if s[i] == '@' && i + 1 < s.len() && !is_white_space(s[i + 1]) {
        mention_then_rest(s, i)
    } else {
        mentions_from(s, i + 1)
    }
}

pub open spec fn mention_then_rest(s: Seq<char>, i: int) -> Seq<Seq<char>>
    decreases s.len() - i, 0int,
{
    if 0 <= i && i + 1 < s.len() {
        let e = run_end(s, i + 1);
        if i < e && e <= s.len() {
            seq![s.subrange(i + 1, e)] + mentions_from(s, e)
        } else {
            seq![]
        }
    } else {
        seq![]
    }
}

proof fn lemma_run_end(s: Seq<char>, j: int)
    requires
        0 <= j <= s.len(),
    ensures
        j <= run_end(s, j) <= s.len(),
        forall|k: int| j <= k < run_end(s, j) ==> !is_white_space(#[trigger] s[k]),
        run_end(s, j) < s.len() ==> is_white_space(s[run_end(s, j)]),
    decreases s.len() - j,
{
    if j < s.len() && !is_white_space(s[j]) {
        lemma_run_end(s, j + 1);
    }
}

proof fn lemma_mentions_words(s: Seq<char>, i: int)
    ensures
        forall|k: int|
            0 <= k < mentions_from(s, i).len() ==> {
                let m = #[trigger] mentions_from(s, i)[k];
                &&& m.len() > 0
                &&& forall|c: int| 0 <= c < m.len() ==> !is_white_space(m[c])
                &&& exists|p: int|
                    0 <= p && p + 1 + m.len() <= s.len() && s[p] == '@' && s.subrange(
                        p + 1,
                        p + 1 + m.len(),
                    ) == m
            },
    decreases s.len() - i,
{
    if i < 0 || i >= s.len() {
    } else if s[i] == '@' && i + 1 < s.len() && !is_white_space(s[i + 1]) {
        lemma_run_end(s, i + 1);
        lemma_run_end(s, i + 2);
        let e = run_end(s, i + 1);
        assert(e == run_end(s, i + 2));
        assert(i < e && e <= s.len());
        lemma_mentions_words(s, e);
        let head = s.subrange(i + 1, e);
        let all = mentions_from(s, i);
        assert(all == mention_then_rest(s, i));
        assert(mention_then_rest(s, i) == seq![head] + mentions_from(s, e));
        assert forall|k: int| 0 <= k < all.len() implies {
            let m = #[trigger] all[k];
            &&& m.len() > 0
            &&& forall|c: int| 0 <= c < m.len() ==> !is_white_space(m[c])
            &&& exists|p: int|
                0 <= p && p + 1 + m.len() <= s.len() && s[p] == '@' && s.subrange(p + 1, p + 1 + m.len())
                    == m
        } by {
            if k == 0 {
                assert(all[0] == head);
                assert(forall|c: int| 0 <= c < head.len() ==> head[c] == s[i + 1 + c]);
                assert(s.subrange(i + 1, i + 1 + head.len()) == head);
            } else {
                assert(all[k] == mentions_from(s, e)[k - 1]);
            }
        }
    } else {
        lemma_mentions_words(s, i + 1);
        assert(mentions_from(s, i) == mentions_from(s, i + 1));
    }
}

/// Every path mentioned in a text is a non-empty run of non-whitespace characters
/// that stands in the text right after an `@`.
pub proof fn law_mentions_are_paths_after_at(s: Seq<char>)
    ensures
        forall|k: int|
            0 <= k < mentions_from(s, 0).len() ==> {
                let m = #[trigger] mentions_from(s, 0)[k];
                &&& m.len() > 0
                &&& forall|c: int| 0 <= c < m.len() ==> !is_white_space(m[c])
                &&& exists|p: int|
                    0 <= p && p + 1 + m.len() <= s.len() && s[p] == '@' && s.subrange(
                        p + 1,
                        p + 1 + m.len(),
                    ) == m
            },
{
    lemma_mentions_words(s, 0);
}

/// The paths mentioned in `text` (see `mentions_from`), in order.
pub fn file_mentions(text: &str) -> (r: Vec<String>)
    ensures
        r@.map_values(|x: String| x@) == mentions_from(text@, 0),
{
    let v = chars_of(text);
    let n = v.len();
    let mut r: Vec<String> = Vec::new();
    let mut i: usize = 0;
    while i < n
        invariant
            n == v@.len(),
            i <= n,
            v@ == text@,
            mentions_from(v@, 0) == r@.map_values(|x: String| x@) + mentions_from(v@, i as int),
        decreases n - i,
    {
        if v[i] == '@' && i + 1 < n && !white_space(v[i + 1]) {
            let mut e = i + 1;
            while e < n && !white_space(v[e])
                invariant
                    i + 1 <= e <= n,
                    n == v@.len(),
                    run_end(v@, i + 1) == run_end(v@, e as int),
                decreases n - e,
            {
                e = e + 1;
            }
            let ghost before = r@;
            let m = string_of_range(&v, i + 1, e);
            r.push(m);
            proof {
                lemma_run_end(v@, i + 1);
                assert(run_end(v@, e as int) == e);
                assert(mention_then_rest(v@, i as int) == seq![v@.subrange(i + 1, e as int)]
                    + mentions_from(v@, e as int));
                assert(r@.map_values(|x: String| x@) =~= before.map_values(|x: String| x@).push(m@));
                assert(mentions_from(v@, i as int) == seq![v@.subrange(i + 1, e as int)]
                    + mentions_from(v@, e as int));
                assert(before.map_values(|x: String| x@) + (seq![m@] + mentions_from(v@, e as int))
                    =~= before.map_values(|x: String| x@).push(m@) + mentions_from(v@, e as int));
            }
            i = e;
        } else {
            i = i + 1;
        }
    }
    proof {
        assert(r@.map_values(|x: String| x@) + mentions_from(v@, n as int) =~= r@.map_values(
            |x: String| x@,
        ));
    }
    r
}

/// A file attached to a message: its path and contents.
pub struct Attachment {
    pub path: String,
    pub content: String,
}

/// How an attached file is quoted after the user's text.
pub open spec fn attachment_block(path: Seq<char>, content: Seq<char>) -> Seq<char> {
    "\n\n--- "@ + path + " ---\n"@ + content + "\n---\n"@
}

/// The user's text followed by the blocks of `files[0..k]`.
pub open spec fn with_attachments(text: Seq<char>, files: Seq<Attachment>, k: int) -> Seq<char>
    decreases k,
{
    if k <= 0 {
        text
    } else {
        with_attachments(text, files, k - 1) + attachment_block(files[k - 1].path@, files[k - 1].content@)
    }
}

/// Total length of the blocks of `files[0..k]`: each is its path and content plus
/// sixteen characters of framing.
pub open spec fn blocks_len(files: Seq<Attachment>, k: int) -> int
    decreases k,
{
    if k <= 0 {
        0
    } else {
        blocks_len(files, k - 1) + 16 + files[k - 1].path@.len() + files[k - 1].content@.len()
    }
}

proof fn lemma_attachments(text: Seq<char>, files: Seq<Attachment>, k: int)
    requires
        0 <= k <= files.len(),
    ensures
        with_attachments(text, files, k).len() == text.len() + blocks_len(files, k),
        with_attachments(text, files, k).subrange(0, text.len() as int) == text,
        forall|j: int|
            0 <= j < k ==> #[trigger] with_attachments(text, files, k).subrange(
                text.len() + blocks_len(files, j),
                text.len() + blocks_len(files, j + 1),
            ) == "\n\n--- "@ + files[j].path@ + " ---\n"@ + files[j].content@ + "\n---\n"@,
    decreases k,
{
    reveal_strlit("\n\n--- ");
    reveal_strlit(" ---\n");
    reveal_strlit("\n---\n");
    if k == 0 {
        assert(text.subrange(0, text.len() as int) =~= text);
    } else {
        lemma_attachments(text, files, k - 1);
        let w0 = with_attachments(text, files, k - 1);
        let b = attachment_block(files[k - 1].path@, files[k - 1].content@);
        let w = with_attachments(text, files, k);
        lemma_blocks_len_monotone(files, k - 1, k - 1);
        assert(w == w0 + b);
        assert(w.subrange(0, text.len() as int) =~= w0.subrange(0, text.len() as int));
        assert forall|j: int| 0 <= j < k implies #[trigger] w.subrange(
            text.len() + blocks_len(files, j),
            text.len() + blocks_len(files, j + 1),
        ) == "\n\n--- "@ + files[j].path@ + " ---\n"@ + files[j].content@ + "\n---\n"@ by {
            lemma_blocks_len_monotone(files, j, j);
            if j < k - 1 {
                lemma_blocks_len_monotone(files, j + 1, k - 1);
                assert(w.subrange(text.len() + blocks_len(files, j), text.len() + blocks_len(files, j + 1))
                    =~= w0.subrange(text.len() + blocks_len(files, j), text.len() + blocks_len(files, j + 1)));
            } else {
                assert(w.subrange(text.len() + blocks_len(files, j), text.len() + blocks_len(files, j + 1))
                    =~= b);
            }
        }
    }
}

proof fn lemma_blocks_len_monotone(files: Seq<Attachment>, a: int, b: int)
    requires
        0 <= a <= b,
    ensures
        0 <= blocks_len(files, a) <= blocks_len(files, b),
    decreases b,
{
    if a < b {
        lemma_blocks_len_monotone(files, a, b - 1);
    } else if a > 0 {
        lemma_blocks_len_monotone(files, a - 1, a - 1);
    }
}

/// Attaching files keeps the text and appends exactly one block per file, in order:
/// `\n\n--- path ---\ncontent\n---\n`; nothing else is added.
pub proof fn law_every_file_attached_in_order(text: Seq<char>, files: Seq<Attachment>)
    ensures
        ({
            let r = with_attachments(text, files, files.len() as int);
            &&& r.len() == text.len() + blocks_len(files, files.len() as int)
            &&& r.subrange(0, text.len() as int) == text
            &&& forall|j: int|
                0 <= j < files.len() ==> #[trigger] r.subrange(
                    text.len() + blocks_len(files, j),
                    text.len() + blocks_len(files, j + 1),
                ) == "\n\n--- "@ + files[j].path@ + " ---\n"@ + files[j].content@ + "\n---\n"@
        }),
{
    lemma_attachments(text, files, files.len() as int);
}

/// The user's text with the files it mentions (those that could be read) quoted after it.
pub fn attach_files(text: &str, files: &Vec<Attachment>) -> (r: String)
    ensures
        r@ == with_attachments(text@, files@, files@.len() as int),
{
    let mut r = String::from_str(text);
    let mut k: usize = 0;
    while k < files.len()
        invariant
            k <= files@.len(),
            r@ == with_attachments(text@, files@, k as int),
        decreases files@.len() - k,
    {
        append(&mut r, "\n\n--- ");
        append(&mut r, files[k].path.as_str());
        append(&mut r, " ---\n");
        append(&mut r, files[k].content.as_str());
        append(&mut r, "\n---\n");
        k = k + 1;
    }
    r
}

/// Longest excerpt of a recalled entry that goes into the prompt, in characters.
pub const RAG_EXCERPT_CHARS: usize = 200;

/// The first 200 characters of `t`, with line breaks turned into spaces.
pub open spec fn excerpt(t: Seq<char>) -> Seq<char> {
    let p = if t.len() <= RAG_EXCERPT_CHARS {
        t
    } else {
        t.subrange(0, RAG_EXCERPT_CHARS as int)
    };
    p.map_values(|c: char| if c == '\n' { ' ' } else { c })
}

/// A recalled excerpt is at most 200 characters and has no line break.
pub proof fn law_excerpt_short_single_line(t: Seq<char>)
    ensures
        excerpt(t).len() <= RAG_EXCERPT_CHARS,
        forall|i: int| 0 <= i < excerpt(t).len() ==> #[trigger] excerpt(t)[i] != '\n',
{
}

/// The excerpts of `entries[0..k]`, each as `[[excerpt]] `.
pub open spec fn excerpt_list(entries: Seq<Seq<char>>, k: int) -> Seq<char>
    decreases k,
{
    if k <= 0 {
        Seq::empty()
    } else {
        excerpt_list(entries, k - 1) + "[["@ + excerpt(entries[k - 1]) + "]] "@
    }
}

/// The input with the recalled entries appended as a `@RAG_CONTEXT` block (unchanged
/// when nothing was recalled).
pub open spec fn with_recalled(input: Seq<char>, entries: Seq<Seq<char>>) -> Seq<char> {
    if entries.len() == 0 {
        input
    } else {
        input + "\n\n@RAG_CONTEXT:["@ + excerpt_list(entries, entries.len() as int) + "]\n"@
    }
}

fn push_excerpt(r: &mut String, t: &str)
    ensures
        final(r)@ == old(r)@ + excerpt(t@),
{
    let v = chars_of(t);
    let n = if v.len() <= RAG_EXCERPT_CHARS {
        v.len()
    } else {
        RAG_EXCERPT_CHARS
    };
    let ghost p = if t@.len() <= RAG_EXCERPT_CHARS {
        t@
    } else {
        t@.subrange(0, RAG_EXCERPT_CHARS as int)
    };
    let ghost start = r@;
    let mut i: usize = 0;
    while i < n
        invariant
            i <= n,
            n == p.len(),
            v@ == t@,
            p == (if t@.len() <= RAG_EXCERPT_CHARS {
                t@
            } else {
                t@.subrange(0, RAG_EXCERPT_CHARS as int)
            }),
            r@ == start + p.subrange(0, i as int).map_values(
                |c: char|
                    if c == '\n' {
                        ' '
                    } else {
                        c
                    },
            ),
        decreases n - i,
    {
        let c = v[i];
        if c == '\n' {
            r.push(' ');
        } else {
            r.push(c);
        }
        proof {
            assert(p[i as int] == c);
        }
        i = i + 1;
        proof {
            assert(p.subrange(0, i as int).map_values(
                |c: char|
                    if c == '\n' {
                        ' '
                    } else {
                        c
                    },
            ) =~= p.subrange(0, i - 1).map_values(
                |c: char|
                    if c == '\n' {
                        ' '
                    } else {
                        c
                    },
            ).push(if c == '\n' { ' ' } else { c }));
        }
    }
    proof {
        assert(p.subrange(0, n as int) =~= p);
    }
}

/// The input with the recalled entries (most relevant first) appended.
pub fn attach_recalled(input: &str, entries: &Vec<String>) -> (r: String)
    ensures
        r@ == with_recalled(input@, entries@.map_values(|x: String| x@)),
{
    let ghost es = entries@.map_values(|x: String| x@);
    let mut r = String::from_str(input);
    if entries.len() == 0 {
        return r;
    }
    append(&mut r, "\n\n@RAG_CONTEXT:[");
    let ghost head = r@;
    let mut k: usize = 0;
    while k < entries.len()
        invariant
            k <= entries@.len(),
            es == entries@.map_values(|x: String| x@),
            r@ == head + excerpt_list(es, k as int),
        decreases entries@.len() - k,
    {
        append(&mut r, "[[");
        push_excerpt(&mut r, entries[k].as_str());
        append(&mut r, "]] ");
        proof {
            assert(es[k as int] == entries@[k as int]@);
            assert(r@ =~= head + excerpt_list(es, k + 1));
        }
        k = k + 1;
    }
    append(&mut r, "]\n");
    proof {
        assert(r@ =~= input@ + "\n\n@RAG_CONTEXT:["@ + excerpt_list(es, es.len() as int) + "]\n"@);
    }
    r
}

/// How one message appears in the session report (system messages do not appear).
pub open spec fn report_section(m: MessageView) -> Seq<char> {
    if m.role == "user"@ {
        "## 👤 User\n\n"@ + m.content + "\n\n"@
    } else if m.role == "assistant"@ {
        "## 🤖 AI\n\n"@ + m.content + "\n\n"@
    } else if m.role == "tool"@ {
        "### 🛠 Tool Result\n\n```\n"@ + m.content + "\n```\n\n"@
    } else {
        Seq::empty()
    }
}

/// The sections of `h[0..k]`.
pub open spec fn report_body(h: Seq<MessageView>, k: int) -> Seq<char>
    decreases k,
{
    if k <= 0 {
        Seq::empty()
    } else {
        report_body(h, k - 1) + report_section(h[k - 1])
    }
}

/// The Markdown report of a session.
pub open spec fn session_report(h: Seq<MessageView>) -> Seq<char> {
    "# Lasada Session Report\n\n"@ + report_body(h, h.len() as int)
}

/// Renders the session as a Markdown report.
pub fn render_report(history: &Vec<Message>) -> (r: String)
    ensures
        r@ == session_report(history_view(history@)),
{
    let ghost h = history_view(history@);
    let mut r = String::from_str("# Lasada Session Report\n\n");
    let mut k: usize = 0;
    while k < history.len()
        invariant
            k <= history@.len(),
            h == history_view(history@),
            r@ == "# Lasada Session Report\n\n"@ + report_body(h, k as int),
        decreases history@.len() - k,
    {
        let m = &history[k];
        let role = m.role.as_str();
        let ghost before = r@;
        proof {
            assert(h[k as int] == m@);
        }
        if crate::text::same_text(role, "user") {
            append(&mut r, "## 👤 User\n\n");
            append(&mut r, m.content.as_str());
            append(&mut r, "\n\n");
        } else if crate::text::same_text(role, "assistant") {
            append(&mut r, "## 🤖 AI\n\n");
            append(&mut r, m.content.as_str());
            append(&mut r, "\n\n");
        } else if crate::text::same_text(role, "tool") {
            append(&mut r, "### 🛠 Tool Result\n\n```\n");
            append(&mut r, m.content.as_str());
            append(&mut r, "\n```\n\n");
        }
        proof {
            assert(r@ =~= before + report_section(h[k as int]));
        }
        k = k + 1;
    }
    r
}

} // verus!

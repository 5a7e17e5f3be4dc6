//! Context management: token budget of the history, and how an over-long
//! history is compacted into a summary.
use vstd::prelude::*;
use crate::text::append;
use crate::types::{history_view, plain, Message, MessageView};

verus! {

/// Number of `cl100k_base` tokens of `text` (special tokens allowed).
pub uninterp spec fn token_count(text: Seq<char>) -> nat;

/// Counts tokens with tiktoken's `cl100k_base` encoding:
/// `CoreBPE::encode_with_special_tokens` on the shared `cl100k_base_singleton()`.
/// Claimed: the count is `token_count` of the text, a function of the text alone.
#[verifier::external_body]
fn count_tokens(text: &str) -> (n: usize)
    ensures
        n == token_count(text@),
{
    tiktoken_rs::cl100k_base_singleton().encode_with_special_tokens(text).len()
}

/// Token count of all message contents of `h`.
pub open spec fn total_tokens(h: Seq<MessageView>) -> nat
    decreases h.len(),
{
    if h.len() == 0 {
        0
    } else {
        total_tokens(h.drop_last()) + token_count(h.last().content)
    }
}

/// The token total of a history is the sum of the token counts of all message
/// contents, whatever their role: nothing for no messages, each added message adds
/// its own count, and the totals of two parts add up.
pub proof fn law_token_total_adds_up(h: Seq<MessageView>, m: MessageView, g: Seq<MessageView>)
    ensures
        total_tokens(Seq::<MessageView>::empty()) == 0,
        total_tokens(h.push(m)) == total_tokens(h) + token_count(m.content),
        total_tokens(h + g) == total_tokens(h) + total_tokens(g),
    decreases g.len(),
{
    assert(h.push(m).drop_last() =~= h);
    if g.len() == 0 {
        assert(h + g =~= h);
    } else {
        law_token_total_adds_up(h, m, g.drop_last());
        assert((h + g).drop_last() =~= h + g.drop_last());
        assert((h + g).last() == g.last());
    }
}

/// Number of most recent messages a compaction keeps verbatim.
pub const KEEP_RECENT: usize = 5;

/// A history is compacted when its contents exceed the token budget and it holds
/// more than the system message and the recent messages (more than six messages).
pub open spec fn needs_compaction(h: Seq<MessageView>, max_tokens: nat) -> bool {
    total_tokens(h) > max_tokens && h.len() > KEEP_RECENT + 1
}

/// The messages that a compaction replaces by a summary: all but the first and the last five.
pub open spec fn to_summarize(h: Seq<MessageView>) -> Seq<MessageView> {
    h.subrange(1, h.len() - KEEP_RECENT)
}

/// The history after compaction: the first message, a system message holding the
/// summary, then the last five messages.
pub open spec fn compacted(h: Seq<MessageView>, summary: Seq<char>) -> Seq<MessageView> {
    seq![h[0], plain("system"@, summary)] + h.subrange(h.len() - KEEP_RECENT, h.len() as int)
}

/// Whether the history's contents exceed `max_tokens` tokens.
pub fn exceeds_token_budget(history: &Vec<Message>, max_tokens: usize) -> (r: bool)
    ensures
        r == (total_tokens(history_view(history@)) > max_tokens),
{
    let ghost h = history_view(history@);
    let mut sum: usize = 0;
    let mut i: usize = 0;
    while i < history.len()
        invariant
            i <= history@.len(),
            h == history_view(history@),
            sum == total_tokens(h.subrange(0, i as int)),
            sum <= max_tokens,
        decreases history@.len() - i,
    {
        let n = count_tokens(history[i].content.as_str());
        proof {
            assert(h.subrange(0, i + 1).drop_last() =~= h.subrange(0, i as int));
            assert(h[i as int] == history@[i as int]@);
        }
        if n > max_tokens - sum {
            proof {
                lemma_total_tokens_monotone(h, i + 1);
            }
            return true;
        }
        sum = sum + n;
        i = i + 1;
    }
    proof {
        assert(h.subrange(0, i as int) =~= h);
    }
    false
}

proof fn lemma_total_tokens_monotone(h: Seq<MessageView>, k: int)
    requires
        0 <= k <= h.len(),
    ensures
        total_tokens(h.subrange(0, k)) <= total_tokens(h),
    decreases h.len() - k,
{
    if k < h.len() {
        lemma_total_tokens_monotone(h, k + 1);
        assert(h.subrange(0, k + 1).drop_last() =~= h.subrange(0, k));
    } else {
        assert(h.subrange(0, k) =~= h);
    }
}

/// One line of the text handed to the summarizer: `role: content`.
pub open spec fn summary_line(m: MessageView) -> Seq<char> {
    m.role + ": "@ + m.content
}

/// The lines of `ms` joined with newlines.
pub open spec fn summary_text(ms: Seq<MessageView>) -> Seq<char>
    decreases ms.len(),
{
    if ms.len() == 0 {
        Seq::empty()
    } else if ms.len() == 1 {
        summary_line(ms[0])
    } else {
        summary_text(ms.drop_last()) + "\n"@ + summary_line(ms.last())
    }
}

/// The request that asks the model to summarize `ms`.
pub open spec fn summary_request(ms: Seq<MessageView>) -> Seq<MessageView> {
    seq![plain("system"@, "Summarize concisely."@), plain("user"@, summary_text(ms))]
}

/// Builds the request that asks the model to summarize `history[lo..hi]`.
pub fn build_summary_request(history: &Vec<Message>, lo: usize, hi: usize) -> (r: Vec<Message>)
    requires
        lo <= hi <= history@.len(),
    ensures
        history_view(r@) == summary_request(history_view(history@).subrange(lo as int, hi as int)),
{
    let ghost h = history_view(history@);
    let mut text = String::new();
    let mut i = lo;
    while i < hi
        invariant
            lo <= i <= hi <= history@.len(),
            h == history_view(history@),
            text@ == summary_text(h.subrange(lo as int, i as int)),
        decreases hi - i,
    {
        let ghost before = text@;
        proof {
            let ms = h.subrange(lo as int, i + 1);
            assert(ms.drop_last() =~= h.subrange(lo as int, i as int));
            assert(ms.last() == history@[i as int]@);
            if i == lo {
                assert(ms.len() == 1);
            }
        }
        if i > lo {
            append(&mut text, "\n");
        }
        append(&mut text, history[i].role.as_str());
        append(&mut text, ": ");
        append(&mut text, history[i].content.as_str());
        proof {
            let ms = h.subrange(lo as int, i + 1);
            if i == lo {
                assert(before =~= Seq::<char>::empty());
                assert(text@ =~= summary_line(ms[0]));
            } else {
                assert(text@ =~= summary_text(ms.drop_last()) + "\n"@ + summary_line(ms.last()));
            }
        }
        i = i + 1;
    }
    let mut r: Vec<Message> = Vec::new();
    r.push(Message::plain("system", String::from_str("Summarize concisely.")));
    r.push(Message::plain("user", text));
    proof {
        assert(history_view(r@) =~= summary_request(h.subrange(lo as int, hi as int)));
    }
    r
}

/// Replaces the messages between the first one and the last five by a system
/// message holding `summary`.
pub fn compact_history(history: &mut Vec<Message>, summary: String)
    requires
        old(history)@.len() > KEEP_RECENT + 1,
    ensures
        history_view(final(history)@) == compacted(history_view(old(history)@), summary@),
{
    let ghost h = history_view(history@);
    let n = history.len();
    let mut r: Vec<Message> = Vec::new();
    r.push(history[0].clone());
    r.push(Message::plain("system", summary));
    let mut i = n - KEEP_RECENT;
    while i < n
        invariant
            n == history@.len(),
            n > KEEP_RECENT + 1,
            n - KEEP_RECENT <= i <= n,
            h == history_view(history@),
            history_view(r@) == seq![h[0], plain("system"@, summary@)] + h.subrange(
                n - KEEP_RECENT,
                i as int,
            ),
        decreases n - i,
    {
        let ghost before = r@;
        let m = history[i].clone();
        assert(m@ == h[i as int]);
        r.push(m);
        proof {
            let prev = seq![h[0], plain("system"@, summary@)] + h.subrange(n - KEEP_RECENT, i as int);
            let next = seq![h[0], plain("system"@, summary@)] + h.subrange(n - KEEP_RECENT, i + 1);
            assert(next =~= prev.push(h[i as int]));
            assert(history_view(before) == prev);
            assert(history_view(r@) =~= history_view(before).push(m@));
        }
        i = i + 1;
        proof {
            assert(history_view(r@) =~= seq![h[0], plain("system"@, summary@)] + h.subrange(
                n - KEEP_RECENT,
                i as int,
            ));
        }
    }
    *history = r;
}

/// The last five messages of `h`.
pub open spec fn recent_messages(h: Seq<MessageView>) -> Seq<MessageView> {
    h.subrange(h.len() - KEEP_RECENT, h.len() as int)
}

/// Keeps only the last five messages.
pub fn keep_recent(history: &mut Vec<Message>)
    requires
        old(history)@.len() > KEEP_RECENT,
    ensures
        history_view(final(history)@) == recent_messages(history_view(old(history)@)),
{
    let n = history.len();
    let ghost before = history@;
    let recent = history.split_off(n - KEEP_RECENT);
    assert(history_view(recent@) =~= recent_messages(history_view(before)));
    *history = recent;
}

/// Compaction keeps the first message and the last five, puts the summary right
/// after the first one, and leaves seven messages.
pub proof fn law_compaction_keeps_frame(h: Seq<MessageView>, summary: Seq<char>)
    requires
        h.len() > KEEP_RECENT + 1,
    ensures
        compacted(h, summary).len() == KEEP_RECENT + 2,
        compacted(h, summary)[0] == h[0],
        compacted(h, summary)[1] == plain("system"@, summary),
        forall|k: int|
            0 <= k < KEEP_RECENT ==> #[trigger] compacted(h, summary)[2 + k] == h[h.len()
                - KEEP_RECENT + k],
        seq![h[0]] + to_summarize(h) + h.subrange(h.len() - KEEP_RECENT, h.len() as int) == h,
{
    assert(seq![h[0]] + to_summarize(h) + h.subrange(h.len() - KEEP_RECENT, h.len() as int) =~= h);
}

} // verus!

//! Web access: the `search`/`browse` commands, the search URL, and the reports
//! made from fetched pages.
use vstd::prelude::*;
use crate::text::{
    append, byte_count, byte_count_prefix, chars_of, decimal, decimal_string, has_prefix, starts_with,
    string_of, string_of_range, trim, trim_str, utf8_len, lemma_utf8_len_concat, lemma_utf8_len_trim,
};
use crate::types::AppError;
use scraper::{Html, Selector};

verus! {

/// The web executor (requests are sent by the caller).
pub struct WebExecutor;

impl WebExecutor {
    pub fn new() -> (r: WebExecutor) {
        WebExecutor
    }
}

/// A web command.
pub enum WebCommand {
    Search(String),
    Browse(String),
}

#[verifier::ext_equal]
pub enum WebCommandView {
    Search(Seq<char>),
    Browse(Seq<char>),
}

impl View for WebCommand {
    type V = WebCommandView;

    open spec fn view(&self) -> WebCommandView {
        match self {
            WebCommand::Search(q) => WebCommandView::Search(q@),
            WebCommand::Browse(u) => WebCommandView::Browse(u@),
        }
    }
}

pub open spec fn unknown_web_command() -> Seq<char> {
    "Unknown web command. Use 'search <query>' or 'browse <url>'."@
}

/// The command a piece of web code asks for: after trimming, `search <query>` or
/// `browse <url>` (the rest of the line after the seven-character keyword).
pub open spec fn web_command(code: Seq<char>) -> Option<WebCommandView> {
    let t = trim(code);
    if has_prefix(t, "search "@) {
        Some(WebCommandView::Search(t.subrange(7, t.len() as int)))
    } else if has_prefix(t, "browse "@) {
        Some(WebCommandView::Browse(t.subrange(7, t.len() as int)))
    } else {
        None
    }
}

/// Reads a web command; anything else is an execution error.
pub fn parse_web_command(code: &str) -> (r: Result<WebCommand, AppError>)
    ensures
        match r {
            Ok(c) => web_command(code@) == Some(c@),
            Err(e) => web_command(code@) is None && (e matches AppError::ExecutionError(m) && m@
                == unknown_web_command()),
        },
{
    let t = trim_str(code);
    let v = chars_of(t.as_str());
    let search = chars_of("search ");
    let browse = chars_of("browse ");
    proof {
        reveal_strlit("search ");
        reveal_strlit("browse ");
    }
    if starts_with(&v, &search) {
        Ok(WebCommand::Search(string_of_range(&v, 7, v.len())))
    } else if starts_with(&v, &browse) {
        Ok(WebCommand::Browse(string_of_range(&v, 7, v.len())))
    } else {
        Err(
            AppError::ExecutionError(
                String::from_str("Unknown web command. Use 'search <query>' or 'browse <url>'."),
            ),
        )
    }
}

/// A byte that percent-encoding leaves as it is: ASCII letters, digits and `-._~`.
pub open spec fn is_unreserved(b: u8) -> bool {
    (48 <= b <= 57) || (65 <= b <= 90) || (97 <= b <= 122) || b == 45 || b == 46 || b == 95 || b
        == 126
}

/// Upper-case hexadecimal digit for `d < 16`.
pub open spec fn hex_digit(d: u8) -> char {
    if d < 10 {
        ((48 + d) as u8) as char
    } else {
        ((55 + d) as u8) as char
    }
}

/// Percent-encoding of `bytes`: unreserved bytes kept, every other byte as `%XY`.
pub open spec fn percent_encoded(bytes: Seq<u8>) -> Seq<char>
    decreases bytes.len(),
{
    if bytes.len() == 0 {
        Seq::empty()
    } else {
        let b = bytes.last();
        percent_encoded(bytes.drop_last()) + if is_unreserved(b) {
            seq![b as char]
        } else {
            seq!['%', hex_digit(b / 16), hex_digit(b % 16)]
        }
    }
}

/// `urlencoding::encode` of a string: percent-encodes its UTF-8 bytes, keeping
/// ASCII alphanumerics and `-`, `.`, `_`, `~`, with upper-case hex digits.
#[verifier::external_body]
fn url_encode(text: &str) -> (r: String)
    ensures
        r@ == percent_encoded(vstd::utf8::encode_utf8(text@)),
{
    urlencoding::encode(text).into_owned()
}

/// The search page URL for a query.
pub open spec fn search_url(query: Seq<char>) -> Seq<char> {
    "https://html.duckduckgo.com/html/?q="@ + percent_encoded(vstd::utf8::encode_utf8(query))
}

/// The search page URL for a query.
pub fn build_search_url(query: &str) -> (r: String)
    ensures
        r@ == search_url(query@),
{
    let mut r = String::from_str("https://html.duckduckgo.com/html/?q=");
    let q = url_encode(query);
    append(&mut r, q.as_str());
    r
}

/// One search result as found on the results page.
pub struct SearchHit {
    pub title: String,
    pub link: String,
    pub snippet: String,
}

pub open spec fn hit_view(h: SearchHit) -> (Seq<char>, Seq<char>, Seq<char>) {
    (h.title@, h.link@, h.snippet@)
}

/// The results in `html`: for each element matching the `item` selector, in document
/// order, the text of its first `title` match, that match's `href`, and the text of
/// its first `snippet` match (each empty when missing); none when a selector is invalid.
pub uninterp spec fn html_hits(html: Seq<char>, item: Seq<char>, title: Seq<char>, snippet: Seq<char>) -> Seq<(Seq<char>, Seq<char>, Seq<char>)>;

/// Extracts search results with scraper (`Html::parse_document`, `Selector::parse`,
/// `select`, `text`, `attr("href")`). Claimed: the result is `html_hits` of the arguments.
#[verifier::external_body]
fn select_hits(html: &str, item: &str, title: &str, snippet: &str) -> (r: Vec<SearchHit>)
    ensures
        r@.map_values(|h: SearchHit| hit_view(h)) == html_hits(html@, item@, title@, snippet@),
{
    let (Ok(item), Ok(title), Ok(snippet)) = (Selector::parse(item), Selector::parse(title), Selector::parse(snippet)) else {
        return Vec::new();
    };
    let document = Html::parse_document(html);
    document.select(&item).map(|e| SearchHit {
        title: e.select(&title).next().map(|t| t.text().collect::<String>()).unwrap_or_default(),
        link: e.select(&title).next().and_then(|t| t.value().attr("href")).unwrap_or_default().to_string(),
        snippet: e.select(&snippet).next().map(|t| t.text().collect::<String>()).unwrap_or_default(),
    }).collect()
}

/// Most search results reported.
pub const MAX_HITS: usize = 5;

/// The report line of result number `n` (counting from one).
pub open spec fn hit_entry(n: nat, h: (Seq<char>, Seq<char>, Seq<char>)) -> Seq<char> {
    decimal(n) + ". "@ + trim(h.0) + "\n   URL: "@ + h.1 + "\n   Snippet: "@ + trim(h.2) + "\n\n"@
}

/// The entries of `hits[0..k]`.
pub open spec fn hit_entries(hits: Seq<(Seq<char>, Seq<char>, Seq<char>)>, k: int) -> Seq<char>
    decreases k,
{
    if k <= 0 {
        Seq::empty()
    } else {
        hit_entries(hits, k - 1) + hit_entry(k as nat, hits[k - 1])
    }
}

/// The search report: a header, the first five results, and a notice when the
/// report is shorter than 50 bytes (nothing found or access blocked).
pub open spec fn search_report(query: Seq<char>, hits: Seq<(Seq<char>, Seq<char>, Seq<char>)>) -> Seq<char> {
    let k = if hits.len() < MAX_HITS {
        hits.len() as int
    } else {
        MAX_HITS as int
    };
    let body = "Search results for: "@ + query + "\n\n"@ + hit_entries(hits, k);
    if utf8_len(body) < 50 {
        body + "(No results found or access blocked by provider.)"@
    } else {
        body
    }
}

/// Writes the search report for `hits`.
pub fn format_search_results(query: &str, hits: &Vec<SearchHit>) -> (r: String)
    ensures
        r@ == search_report(query@, hits@.map_values(|h: SearchHit| hit_view(h))),
{
    let ghost hs = hits@.map_values(|h: SearchHit| hit_view(h));
    let k = if hits.len() < MAX_HITS {
        hits.len()
    } else {
        MAX_HITS
    };
    let mut r = String::from_str("Search results for: ");
    append(&mut r, query);
    append(&mut r, "\n\n");
    let ghost head = r@;
    let mut i: usize = 0;
    while i < k
        invariant
            i <= k <= hits@.len(),
            k <= MAX_HITS,
            hs == hits@.map_values(|h: SearchHit| hit_view(h)),
            r@ == head + hit_entries(hs, i as int),
        decreases k - i,
    {
        let h = &hits[i];
        let num = decimal_string((i + 1) as u128);
        append(&mut r, num.as_str());
        append(&mut r, ". ");
        let t = trim_str(h.title.as_str());
        append(&mut r, t.as_str());
        append(&mut r, "\n   URL: ");
        append(&mut r, h.link.as_str());
        append(&mut r, "\n   Snippet: ");
        let s = trim_str(h.snippet.as_str());
        append(&mut r, s.as_str());
        append(&mut r, "\n\n");
        proof {
            assert(hs[i as int] == hit_view(*h));
            assert(r@ =~= head + hit_entries(hs, i + 1));
        }
        i = i + 1;
    }
    let v = chars_of(r.as_str());
    if byte_count(&v) < 50 {
        append(&mut r, "(No results found or access blocked by provider.)");
    }
    r
}

/// The search report for the results page `html` of `query`.
pub fn search_results_report(query: &str, html: &str) -> (r: String)
    ensures
        r@ == search_report(
            query@,
            html_hits(html@, ".result__body"@, ".result__a"@, ".result__snippet"@),
        ),
{
    let hits = select_hits(html, ".result__body", ".result__a", ".result__snippet");
    format_search_results(query, &hits)
}

/// The text nodes of the first element of `html` matching `selector`, in document
/// order (none when nothing matches or the selector is invalid).
pub uninterp spec fn html_text_nodes(html: Seq<char>, selector: Seq<char>) -> Seq<Seq<char>>;

/// Collects text nodes with scraper (`Html::parse_document`, `Selector::parse`,
/// `select`, `text`). Claimed: the result is `html_text_nodes` of the arguments.
#[verifier::external_body]
fn select_text_nodes(html: &str, selector: &str) -> (r: Vec<String>)
    ensures
        r@.map_values(|s: String| s@) == html_text_nodes(html@, selector@),
{
    let Ok(selector) = Selector::parse(selector) else {
        return Vec::new();
    };
    let document = Html::parse_document(html);
    match document.select(&selector).next() {
        Some(e) => e.text().map(|t| t.to_string()).collect(),
        None => Vec::new(),
    }
}

/// Longest page text kept, in bytes.
pub const PAGE_TEXT_LIMIT: usize = 5000;

/// The non-blank nodes of `nodes[0..k]`, each trimmed and followed by a space.
pub open spec fn joined_nodes(nodes: Seq<Seq<char>>, k: int) -> Seq<char>
    decreases k,
{
    if k <= 0 {
        Seq::empty()
    } else {
        let t = trim(nodes[k - 1]);
        if t.len() == 0 {
            joined_nodes(nodes, k - 1)
        } else {
            joined_nodes(nodes, k - 1) + t + " "@
        }
    }
}

/// `m` characters of `s` are the longest prefix within `limit` bytes.
pub open spec fn is_cut(s: Seq<char>, limit: nat, m: int) -> bool {
    &&& 0 <= m <= s.len()
    &&& utf8_len(s.subrange(0, m)) <= limit
    &&& m < s.len() ==> utf8_len(s.subrange(0, m + 1)) > limit
}

/// What marks a page text that was cut.
pub open spec fn truncation_marker() -> Seq<char> {
    "... (Content truncated)"@
}

/// The page text made of `nodes`: kept whole up to 5000 bytes; past that, cut at
/// 5000 bytes and marked as truncated, when byte 5000 starts a character (no text
/// otherwise: the page cannot be cut there). Trimmed in the end.
pub open spec fn page_text(nodes: Seq<Seq<char>>) -> Option<Seq<char>> {
    let j = joined_nodes(nodes, nodes.len() as int);
    if utf8_len(j) <= PAGE_TEXT_LIMIT {
        Some(trim(j))
    } else {
        let m = choose|m: int| is_cut(j, PAGE_TEXT_LIMIT as nat, m);
        if utf8_len(j.subrange(0, m)) == PAGE_TEXT_LIMIT {
            Some(trim(j.subrange(0, m) + truncation_marker()))
        } else {
            None
        }
    }
}

proof fn lemma_prefix_len_monotone(s: Seq<char>, a: int, b: int)
    requires
        0 <= a <= b <= s.len(),
    ensures
        utf8_len(s.subrange(0, a)) + (b - a) <= utf8_len(s.subrange(0, b)),
{
    lemma_utf8_len_concat(s.subrange(0, a), s.subrange(a, b));
    assert(s.subrange(0, a) + s.subrange(a, b) =~= s.subrange(0, b));
    crate::text::lemma_utf8_len_bounds(s.subrange(a, b));
}

proof fn lemma_cut_unique(s: Seq<char>, limit: nat, m1: int, m2: int)
    requires
        is_cut(s, limit, m1),
        is_cut(s, limit, m2),
    ensures
        m1 == m2,
{
    if m1 < m2 {
        lemma_prefix_len_monotone(s, m1 + 1, m2);
    } else if m2 < m1 {
        lemma_prefix_len_monotone(s, m2 + 1, m1);
    }
}

/// Assembles the page text from its text nodes (see `page_text`); `None` exactly
/// when the text is longer than 5000 bytes and byte 5000 falls inside a character.
pub fn assemble_page_text(nodes: &Vec<String>) -> (r: Option<String>)
    ensures
        opt_view(r) == page_text(nodes@.map_values(|s: String| s@)),
{
    let ghost ns = nodes@.map_values(|s: String| s@);
    let mut joined = String::new();
    let mut k: usize = 0;
    while k < nodes.len()
        invariant
            k <= nodes@.len(),
            ns == nodes@.map_values(|s: String| s@),
            joined@ == joined_nodes(ns, k as int),
        decreases nodes@.len() - k,
    {
        let t = trim_str(nodes[k].as_str());
        proof {
            assert(ns[k as int] == nodes@[k as int]@);
        }
        if t.unicode_len() > 0 {
            append(&mut joined, t.as_str());
            append(&mut joined, " ");
        }
        k = k + 1;
    }
    proof {
        assert(ns.len() == nodes@.len());
    }
    let v = chars_of(joined.as_str());
    if byte_count(&v) <= PAGE_TEXT_LIMIT as u128 {
        return Some(trim_str(joined.as_str()));
    }
    let mut m: usize = 0;
    let mut total: u128 = 0;
    while m < v.len() && total + crate::text::width_of(v[m]) as u128 <= PAGE_TEXT_LIMIT as u128
        invariant
            m <= v@.len(),
            total == utf8_len(v@.subrange(0, m as int)),
            total <= PAGE_TEXT_LIMIT,
        decreases v@.len() - m,
    {
        proof {
            assert(v@.subrange(0, m + 1).drop_last() =~= v@.subrange(0, m as int));
        }
        total = total + crate::text::width_of(v[m]) as u128;
        m = m + 1;
    }
    proof {
        if m < v@.len() {
            assert(v@.subrange(0, m + 1).drop_last() =~= v@.subrange(0, m as int));
        }
        assert(is_cut(v@, PAGE_TEXT_LIMIT as nat, m as int));
        let c = choose|c: int| is_cut(v@, PAGE_TEXT_LIMIT as nat, c);
        lemma_cut_unique(v@, PAGE_TEXT_LIMIT as nat, m as int, c);
    }
    if total == PAGE_TEXT_LIMIT as u128 {
        let mut cut = string_of_range(&v, 0, m);
        append(&mut cut, "... (Content truncated)");
        Some(trim_str(cut.as_str()))
    } else {
        None
    }
}

/// A web search the model asks for reaches the web executor as a search for its
/// query (a query that neither starts nor ends with whitespace).
pub proof fn law_web_search_tool_searches_its_query(id: Seq<char>, arguments: Seq<char>)
    requires
        crate::tools::json_string_member(arguments, "query"@).len() > 0,
        !crate::text::is_white_space(crate::tools::json_string_member(arguments, "query"@)[0]),
        !crate::text::is_white_space(crate::tools::json_string_member(arguments, "query"@).last()),
    ensures
        ({
            let q = crate::tools::json_string_member(arguments, "query"@);
            let (lang, code) = crate::tools::tool_invocation(
                crate::types::ToolCallView { id, name: "web_search"@, arguments },
            );
            &&& lang == "web"@
            &&& code == "search "@ + q
            &&& web_command(code) == Some(WebCommandView::Search(q))
        }),
{
    let q = crate::tools::json_string_member(arguments, "query"@);
    reveal_strlit("search ");
    reveal_strlit("browse ");
    reveal_strlit("web_search");
    reveal_strlit("execute_bash");
    reveal_strlit("execute_python");
    assert("web_search"@ != "execute_bash"@) by {
        assert("web_search"@.len() != "execute_bash"@.len());
    }
    assert("web_search"@ != "execute_python"@) by {
        assert("web_search"@.len() != "execute_python"@.len());
    }
    let code = "search "@ + q;
    assert(code[0] == 's');
    assert(!crate::text::is_white_space(code[0]));
    assert(code.last() == q.last());
    crate::text::lemma_trim_start(code, 0);
    assert(code.subrange(0, code.len() as int) =~= code);
    crate::text::lemma_trim_end(code, code.len() as int);
    assert(trim(code) == code);
    assert(code.subrange(0, 7) =~= "search "@);
    assert(code.subrange(7, code.len() as int) =~= q);
}

/// A page text is at most 5000 bytes, plus the truncation marker when it was cut.
pub proof fn law_page_text_bounded(nodes: Seq<Seq<char>>)
    ensures
        page_text(nodes) matches Some(t) ==> utf8_len(t) <= PAGE_TEXT_LIMIT + utf8_len(
            truncation_marker(),
        ),
{
    let j = joined_nodes(nodes, nodes.len() as int);
    if utf8_len(j) <= PAGE_TEXT_LIMIT {
        lemma_utf8_len_trim(j);
    } else {
        let m = choose|m: int| is_cut(j, PAGE_TEXT_LIMIT as nat, m);
        if utf8_len(j.subrange(0, m)) == PAGE_TEXT_LIMIT {
            lemma_utf8_len_trim(j.subrange(0, m) + truncation_marker());
            lemma_utf8_len_concat(j.subrange(0, m), truncation_marker());
        }
    }
}

pub open spec fn opt_view(o: Option<String>) -> Option<Seq<char>> {
    match o {
        Some(s) => Some(s@),
        None => None,
    }
}

/// The text of the page `html`: its `body`'s text nodes assembled as `page_text` says.
pub fn page_text_of(html: &str) -> (r: Option<String>)
    ensures
        opt_view(r) == page_text(html_text_nodes(html@, "body"@)),
{
    let nodes = select_text_nodes(html, "body");
    assemble_page_text(&nodes)
}

} // verus!

//! Reading the results page of a DuckDuckGo Lite search: result links,
//! snippets, redirect addresses and advertisements, and the search report.

use vstd::prelude::*;
use vstd::utf8::{decode_utf8, encode_utf8, valid_utf8};
use crate::pattern::{
    first_capture, first_group, group_of, group_text, match_spans, matches_well_formed,
    regex_matches, regex_replaced, replace_lit, replace_literal, replace_matches, spans_view, texts,
};
use crate::text::{
    chars_of, contains, decimal, join, join_strings, matches_at, push_decimal, starts_with,
    str_contains, str_starts_with, trim, trim_str, views,
};

verus! {

/// Results beyond this many are not reported.
pub open spec fn result_limit() -> nat {
    5
}

/// The text of an HTML snippet: a few entities decoded, tags removed,
/// trimmed.
pub open spec fn stripped(html: Seq<char>) -> Seq<char> {
    let s = replace_lit(html, "&amp;"@, "&"@);
    let s = replace_lit(s, "&lt;"@, "<"@);
    let s = replace_lit(s, "&gt;"@, ">"@);
    let s = replace_lit(s, "&quot;"@, "\""@);
    let s = replace_lit(s, "&#39;"@, "'"@);
    let s = replace_lit(s, "&nbsp;"@, " "@);
    trim(regex_replaced(s, "<[^>]*>"@, ""@))
}

/// Strips an HTML snippet down to its text.
pub fn strip_html(html: &str) -> (r: String)
    ensures
        r@ == stripped(html@),
{
    let s = replace_literal(html, "&amp;", "&");
    let s = replace_literal(s.as_str(), "&lt;", "<");
    let s = replace_literal(s.as_str(), "&gt;", ">");
    let s = replace_literal(s.as_str(), "&quot;", "\"");
    let s = replace_literal(s.as_str(), "&#39;", "'");
    let s = replace_literal(s.as_str(), "&nbsp;", " ");
    let s = replace_matches(s.as_str(), "<[^>]*>", "");
    trim_str(s.as_str())
}

/// The value of a hexadecimal digit byte, either case.
pub open spec fn hex_value(b: u8) -> Option<u8> {
    if 0x30 <= b <= 0x39 {
        Some((b - 0x30) as u8)
    } else if 0x41 <= b <= 0x46 {
        Some((b - 0x41 + 10) as u8)
    } else if 0x61 <= b <= 0x66 {
        Some((b - 0x61 + 10) as u8)
    } else {
        None
    }
}

/// Percent-decoding of bytes: `%` followed by two hexadecimal digits stands
/// for the byte they spell; every other byte, `%` included, stays as it is.
pub open spec fn percent_decode_bytes(b: Seq<u8>) -> Seq<u8>
    decreases b.len(),
{
    if b.len() == 0 {
        seq![]
    } else if b[0] == 0x25 && b.len() >= 3 && hex_value(b[1]) is Some && hex_value(b[2]) is Some {
        seq![(hex_value(b[1])->0 * 16 + hex_value(b[2])->0) as u8] + percent_decode_bytes(
            b.subrange(3, b.len() as int),
        )
    } else {
        seq![b[0]] + percent_decode_bytes(b.subrange(1, b.len() as int))
    }
}

/// What `urlencoding::decode` yields for `s`: the text whose UTF-8 bytes are
/// the percent-decoded bytes of `s`, or `None` when those are not UTF-8.
pub open spec fn percent_decoded(s: Seq<char>) -> Option<Seq<char>> {
    let d = percent_decode_bytes(encode_utf8(s));
    if valid_utf8(d) {
        Some(decode_utf8(d))
    } else {
        None
    }
}

/// `urlencoding::decode`.  Claimed: the result is [`percent_decoded`] of
/// `s` (the crate's `decode_binary`, then `String::from_utf8`), and a text
/// without `%` comes back unchanged (the crate returns its input as is when
/// it finds no `%`).
#[verifier::external_body]
fn url_decode(s: &str) -> (r: Option<String>)
    ensures
        match r {
            Some(d) => percent_decoded(s@) == Some(d@),
            None => percent_decoded(s@) is None,
        },
        !s@.contains('%') ==> r is Some && r->0@ == s@,
{
    urlencoding::decode(s).ok().map(|d| d.into_owned())
}

/// Whether a byte is left as it is by URL encoding: an ASCII letter or
/// digit, or one of `-`, `.`, `_`, `~`.
pub open spec fn is_unreserved(b: u8) -> bool {
    ||| 0x30 <= b <= 0x39
    ||| 0x41 <= b <= 0x5A
    ||| 0x61 <= b <= 0x7A
    ||| b == 0x2D || b == 0x2E || b == 0x5F || b == 0x7E
}

/// The upper-case hexadecimal digit for `d` below sixteen.
pub open spec fn hex_digit(d: u8) -> char {
    if d < 10 {
        (0x30 + d) as char
    } else {
        (0x41 - 10 + d) as char
    }
}

/// The URL encoding of one byte: itself when unreserved, else `%XX`.
pub open spec fn encode_byte(b: u8) -> Seq<char> {
    if is_unreserved(b) {
        seq![b as char]
    } else {
        seq!['%', hex_digit(b / 16), hex_digit(b % 16)]
    }
}

/// The URL encoding of a byte sequence, byte by byte.
pub open spec fn percent_encode_bytes(b: Seq<u8>) -> Seq<char>
    decreases b.len(),
{
    if b.len() == 0 {
        seq![]
    } else {
        encode_byte(b[0]) + percent_encode_bytes(b.subrange(1, b.len() as int))
    }
}

/// What `urlencoding::encode` yields for `s`: its UTF-8 bytes, each
/// unreserved one kept and every other written as `%XX`.
pub open spec fn percent_encoded(s: Seq<char>) -> Seq<char> {
    percent_encode_bytes(encode_utf8(s))
}

/// `urlencoding::encode`.  Claimed: the result is [`percent_encoded`] of `s`,
/// as the crate's `encode_into` writes it.
#[verifier::external_body]
fn url_encode(s: &str) -> (r: String)
    ensures
        r@ == percent_encoded(s@),
{
    urlencoding::encode(s).into_owned()
}

/// The address a DuckDuckGo redirect link points to: its decoded `uddg`
/// parameter, or the link itself.
pub open spec fn real_url(link: Seq<char>) -> Seq<char> {
    match first_capture(link, "uddg=([^&]+)"@, 1) {
        Some(g) => match percent_decoded(g) {
            Some(d) => d,
            None => link,
        },
        None => link,
    }
}

/// Extracts the target of a DuckDuckGo redirect link.
pub fn extract_real_url(ddg_url: &str) -> (r: String)
    ensures
        r@ == real_url(ddg_url@),
{
    if let Some(g) = first_group(ddg_url, "uddg=([^&]+)", 1) {
        if let Some(d) = url_decode(g.as_str()) {
            return d;
        }
    }
    ddg_url.to_owned()
}

/// Whether a result link is an advertisement.
pub open spec fn advertisement(raw_url: Seq<char>) -> bool {
    contains(raw_url, "/y.js?"@) || contains(raw_url, "ad_provider"@) || contains(
        raw_url,
        "ad_domain"@,
    )
}

/// Whether a result link is an advertisement.
pub fn is_ad(raw_url: &str) -> (r: bool)
    ensures
        r == advertisement(raw_url@),
{
    str_contains(raw_url, "/y.js?") || str_contains(raw_url, "ad_provider") || str_contains(
        raw_url,
        "ad_domain",
    )
}

/// One search result.
pub struct SearchResult {
    pub title: String,
    pub snippet: String,
    pub url: String,
}

/// The mathematical value of a [`SearchResult`].
pub struct ResultView {
    pub title: Seq<char>,
    pub snippet: Seq<char>,
    pub url: Seq<char>,
}

impl View for SearchResult {
    type V = ResultView;

    open spec fn view(&self) -> ResultView {
        ResultView { title: self.title@, snippet: self.snippet@, url: self.url@ }
    }
}

/// The views of a list of results.
pub open spec fn result_views(v: Seq<SearchResult>) -> Seq<ResultView> {
    v.map_values(|r: SearchResult| r@)
}

/// The result-link pattern: the address and the title of a result.
pub open spec fn link_pattern() -> Seq<char> {
    "<a[^>]*href=\"([^\"]*)\"[^>]*class='result-link'[^>]*>([\\s\\S]*?)</a>"@
}

/// The snippet pattern.
pub open spec fn snippet_pattern() -> Seq<char> {
    "<td\\s+class='result-snippet'>([\\s\\S]*?)</td>"@
}

/// The result links of a page: the raw address and the stripped title of
/// each match, in order (empty when a group did not take part).
pub open spec fn result_links(html: Seq<char>) -> Seq<(Seq<char>, Seq<char>)> {
    match regex_matches(link_pattern(), html) {
        Some(ms) => Seq::new(
            ms.len(),
            |k: int|
                (
                    match group_text(html, ms, k, 1) {
                        Some(u) => u,
                        None => ""@,
                    },
                    match group_text(html, ms, k, 2) {
                        Some(t) => stripped(t),
                        None => ""@,
                    },
                ),
        ),
        None => seq![],
    }
}

/// Whether `s` ends with `suffix`.
pub open spec fn ends_with(s: Seq<char>, suffix: Seq<char>) -> bool {
    suffix.len() <= s.len() && s.subrange(s.len() - suffix.len(), s.len() as int) == suffix
}

/// The inside of a snippet cell: without the exact opening and closing tag
/// when both are there, else the whole match.
pub open spec fn snippet_inside(cell: Seq<char>) -> Seq<char> {
    let open = "<td class='result-snippet'>"@;
    let close = "</td>"@;
    if starts_with(cell, open) && ends_with(cell.subrange(open.len() as int, cell.len() as int), close) {
        cell.subrange(open.len() as int, cell.len() - close.len())
    } else {
        cell
    }
}

/// The snippets of a page, in order.
pub open spec fn result_snippets(html: Seq<char>) -> Seq<Seq<char>> {
    match regex_matches(snippet_pattern(), html) {
        Some(ms) => Seq::new(
            ms.len(),
            |k: int|
                stripped(
                    snippet_inside(
                        match group_text(html, ms, k, 0) {
                            Some(c) => c,
                            None => ""@,
                        },
                    ),
                ),
        ),
        None => seq![],
    }
}

/// A result address with a scheme: `https:` is put before one that starts
/// with `//`.
pub open spec fn with_scheme(url: Seq<char>) -> Seq<char> {
    if starts_with(url, "//"@) {
        "https:"@ + url
    } else {
        url
    }
}

/// The results taken from the first `n` links: advertisements are
/// skipped, at most five are kept, and the `i`-th link gets the `i`-th
/// snippet (or none).
pub open spec fn collected(links: Seq<(Seq<char>, Seq<char>)>, snippets: Seq<Seq<char>>, n: int) -> Seq<ResultView>
    decreases n,
{
    if n <= 0 {
        seq![]
    } else {
        let acc = collected(links, snippets, n - 1);
        let (raw, title) = links[n - 1];
        if acc.len() >= result_limit() || advertisement(raw) {
            acc
        } else {
            acc.push(
                ResultView {
                    title,
                    snippet: if n - 1 < snippets.len() {
                        snippets[n - 1]
                    } else {
                        ""@
                    },
                    url: with_scheme(real_url(raw)),
                },
            )
        }
    }
}

/// The positions, in page order, of the links that are not advertisements.
pub open spec fn non_ad_positions(links: Seq<(Seq<char>, Seq<char>)>) -> Seq<int> {
    Seq::new(links.len(), |i: int| i).filter(|i: int| !advertisement(links[i].0))
}

/// The result made of link `i`: its title, the `i`-th snippet (or none) and
/// its real address with a scheme.
pub open spec fn result_of(links: Seq<(Seq<char>, Seq<char>)>, snippets: Seq<Seq<char>>, i: int) -> ResultView {
    ResultView {
        title: links[i].1,
        snippet: if i < snippets.len() {
            snippets[i]
        } else {
            ""@
        },
        url: with_scheme(real_url(links[i].0)),
    }
}

proof fn lemma_collected_first_non_ads(
    links: Seq<(Seq<char>, Seq<char>)>,
    snippets: Seq<Seq<char>>,
    n: int,
)
    requires
        0 <= n <= links.len(),
    ensures
        ({
            let out = collected(links, snippets, n);
            let pos = Seq::new(n as nat, |i: int| i).filter(|i: int| !advertisement(links[i].0));
            &&& out.len() == if pos.len() < result_limit() {
                pos.len()
            } else {
                result_limit()
            }
            &&& forall|j: int| 0 <= j < out.len() ==> out[j] == result_of(links, snippets, #[trigger] pos[j])
        }),
    decreases n,
{
    reveal(Seq::filter);
    let pred = |i: int| !advertisement(links[i].0);
    if n > 0 {
        lemma_collected_first_non_ads(links, snippets, n - 1);
        let all = Seq::new(n as nat, |i: int| i);
        let before = Seq::new((n - 1) as nat, |i: int| i);
        assert(all.drop_last() =~= before);
        assert(all.last() == n - 1);
        let p0 = before.filter(pred);
        let p1 = all.filter(pred);
        assert(p1 == if pred(n - 1) { p0.push(n - 1) } else { p0 });
        let acc = collected(links, snippets, n - 1);
        let out = collected(links, snippets, n);
        if acc.len() >= result_limit() || advertisement(links[n - 1].0) {
            assert forall|j: int| 0 <= j < out.len() implies out[j] == result_of(links, snippets, #[trigger] p1[j]) by {
                assert(out[j] == acc[j]);
                if pred(n - 1) {
                    assert(p1[j] == p0[j]);
                }
            }
        } else {
            assert forall|j: int| 0 <= j < out.len() implies out[j] == result_of(links, snippets, #[trigger] p1[j]) by {
                if j < acc.len() {
                    assert(out[j] == acc[j]);
                    assert(p1[j] == p0[j]);
                }
            }
        }
    } else {
        assert(Seq::new(0nat, |i: int| i).filter(pred) =~= Seq::<int>::empty());
    }
}

/// The results are the first five links that are not advertisements, in
/// page order (all of them when there are fewer): advertisements take no
/// place among the five, and each result is made of its own link and
/// snippet.
pub proof fn law_results_are_first_five_non_ads(html: Seq<char>)
    ensures
        ({
            let links = result_links(html);
            let pos = non_ad_positions(links);
            let out = page_results(html);
            &&& out.len() == if pos.len() < 5 {
                pos.len()
            } else {
                5
            }
            &&& forall|j: int|
                0 <= j < out.len() ==> out[j] == result_of(links, result_snippets(html), #[trigger] pos[j])
        }),
{
    let links = result_links(html);
    lemma_collected_first_non_ads(links, result_snippets(html), links.len() as int);
}

/// The results of a results page.
pub open spec fn page_results(html: Seq<char>) -> Seq<ResultView> {
    let links = result_links(html);
    collected(links, result_snippets(html), links.len() as int)
}

fn str_ends_with(s: &str, suffix: &str) -> (b: bool)
    ensures
        b == ends_with(s@, suffix@),
{
    let hay = chars_of(s);
    let needle = chars_of(suffix);
    if needle.len() > hay.len() {
        return false;
    }
    matches_at(&hay, &needle, hay.len() - needle.len())
}

fn cell_inside(cell: &str) -> (r: String)
    ensures
        r@ == snippet_inside(cell@),
{
    let cs = chars_of(cell);
    let open = "<td class='result-snippet'>";
    let close = "</td>";
    let oc = chars_of(open);
    let cc = chars_of(close);
    if matches_at(&cs, &oc, 0) {
        let rest = crate::text::string_of(&cs, oc.len(), cs.len());
        assert(cs@.subrange(0, oc@.len() as int) == oc@);
        if str_ends_with(rest.as_str(), close) {
            return crate::text::string_of(&cs, oc.len(), cs.len() - cc.len());
        }
    }
    cell.to_owned()
}

fn collect_links(html: &str) -> (r: Vec<(String, String)>)
    ensures
        r@.map_values(|p: (String, String)| (p.0@, p.1@)) == result_links(html@),
{
    let mut out: Vec<(String, String)> = Vec::new();
    let ms = match match_spans(
        "<a[^>]*href=\"([^\"]*)\"[^>]*class='result-link'[^>]*>([\\s\\S]*?)</a>",
        html,
    ) {
        Some(ms) => ms,
        None => {
            assert(out@.map_values(|p: (String, String)| (p.0@, p.1@)) =~= seq![]);
            return out;
        },
    };
    let ghost sv = spans_view(ms);
    let ghost target = result_links(html@);
    let mut k: usize = 0;
    while k < ms.len()
        invariant
            k <= ms.len(),
            sv == spans_view(ms),
            matches_well_formed(html@, sv),
            regex_matches(link_pattern(), html@) == Some(sv),
            target == result_links(html@),
            out@.map_values(|p: (String, String)| (p.0@, p.1@)) == target.take(k as int),
        decreases ms.len() - k,
    {
        let raw = match group_of(html, &ms, k, 1) {
            Some(u) => u,
            None => "".to_owned(),
        };
        let title = match group_of(html, &ms, k, 2) {
            Some(t) => strip_html(t.as_str()),
            None => "".to_owned(),
        };
        let ghost before = out@;
        let ghost pair = (raw@, title@);
        out.push((raw, title));
        proof {
            assert(target[k as int] == pair);
            assert(out@.map_values(|p: (String, String)| (p.0@, p.1@)) =~= before.map_values(
                |p: (String, String)| (p.0@, p.1@),
            ).push(pair));
            assert(target.take(k + 1) =~= target.take(k as int).push(pair));
        }
        k = k + 1;
    }
    assert(target.take(ms.len() as int) =~= target);
    out
}

fn collect_snippets(html: &str) -> (r: Vec<String>)
    ensures
        views(r@) == result_snippets(html@),
{
    let mut out: Vec<String> = Vec::new();
    let ms = match match_spans("<td\\s+class='result-snippet'>([\\s\\S]*?)</td>", html) {
        Some(ms) => ms,
        None => {
            assert(views(out@) =~= seq![]);
            return out;
        },
    };
    let ghost sv = spans_view(ms);
    let ghost target = result_snippets(html@);
    let mut k: usize = 0;
    while k < ms.len()
        invariant
            k <= ms.len(),
            sv == spans_view(ms),
            matches_well_formed(html@, sv),
            regex_matches(snippet_pattern(), html@) == Some(sv),
            target == result_snippets(html@),
            views(out@) == target.take(k as int),
        decreases ms.len() - k,
    {
        let cell = match group_of(html, &ms, k, 0) {
            Some(c) => c,
            None => "".to_owned(),
        };
        let inside = cell_inside(cell.as_str());
        let text = strip_html(inside.as_str());
        let ghost before = out@;
        out.push(text);
        proof {
            assert(target[k as int] == text@);
            assert(views(out@) =~= views(before).push(text@));
            assert(target.take(k + 1) =~= target.take(k as int).push(text@));
        }
        k = k + 1;
    }
    assert(target.take(ms.len() as int) =~= target);
    out
}

/// Reads the results from a results page.
pub fn parse_results(html: &str) -> (r: Vec<SearchResult>)
    ensures
        result_views(r@) == page_results(html@),
{
    let links = collect_links(html);
    let snippets = collect_snippets(html);
    let ghost lv = links@.map_values(|p: (String, String)| (p.0@, p.1@));
    let mut results: Vec<SearchResult> = Vec::new();
    let mut i: usize = 0;
    while i < links.len()
        invariant
            i <= links.len(),
            lv == links@.map_values(|p: (String, String)| (p.0@, p.1@)),
            lv == result_links(html@),
            views(snippets@) == result_snippets(html@),
            result_views(results@) == collected(lv, views(snippets@), i as int),
        decreases links.len() - i,
    {
        let ghost acc = result_views(results@);
        let raw = &links[i].0;
        let title = &links[i].1;
        assert(lv[i as int] == (raw@, title@));
        if results.len() < 5 && !is_ad(raw.as_str()) {
            let target_url = extract_real_url(raw.as_str());
            let url = if str_starts_with(target_url.as_str(), "//") {
                let mut u = "https:".to_owned();
                u.append(target_url.as_str());
                u
            } else {
                target_url
            };
            let snippet = if i < snippets.len() {
                snippets[i].clone()
            } else {
                "".to_owned()
            };
            proof {
                if (i as int) < views(snippets@).len() {
                    assert(views(snippets@)[i as int] == snippets@[i as int]@);
                }
            }
            let item = SearchResult { title: title.clone(), snippet, url };
            results.push(item);
            assert(result_views(results@) =~= acc.push(item@));
        }
        i = i + 1;
    }
    results
}

/// The query of a search request, or the error for a blank one.
pub open spec fn search_query(query: Seq<char>) -> Result<Seq<char>, Seq<char>> {
    if trim(query).len() == 0 {
        Err("搜索关键词不能为空。"@)
    } else {
        Ok(trim(query))
    }
}

/// Checks a search request: the trimmed query, or the error answer.
pub fn check_query(query: &str) -> (r: Result<String, String>)
    ensures
        match r {
            Ok(q) => search_query(query@) == Ok::<Seq<char>, Seq<char>>(q@),
            Err(e) => search_query(query@) == Err::<Seq<char>, Seq<char>>(e@),
        },
{
    let q = trim_str(query);
    if q.as_str().is_empty() {
        Err("搜索关键词不能为空。".to_owned())
    } else {
        Ok(q)
    }
}

/// The results-page address for a query.
pub fn search_url(query: &str) -> (r: String)
    ensures
        r@ == "https://lite.duckduckgo.com/lite/?q="@ + percent_encoded(query@),
{
    let mut r = "https://lite.duckduckgo.com/lite/?q=".to_owned();
    let e = url_encode(query);
    r.append(e.as_str());
    r
}

/// The block that shows the `i`-th (from zero) result.
pub open spec fn result_block(i: int, r: ResultView) -> Seq<char> {
    "["@ + decimal((i + 1) as nat) + "] "@ + r.title + "\n    摘要: "@ + r.snippet + "\n    链接: "@
        + r.url
}

/// The answer of the search tool.
pub open spec fn search_report(query: Seq<char>, results: Seq<ResultView>) -> Seq<char> {
    if results.len() == 0 {
        "未找到相关搜索结果，请尝试更换关键词。"@
    } else {
        "搜索 \""@ + query + "\" 的结果 (共 "@ + decimal(results.len()) + " 条):\n\n"@ + join(
            Seq::new(results.len(), |i: int| result_block(i, results[i])),
            "\n\n"@,
        )
    }
}

/// Formats the results of a search for `query`.
pub fn search_results_report(query: &str, results: &Vec<SearchResult>) -> (r: String)
    ensures
        r@ == search_report(query@, result_views(results@)),
{
    if results.len() == 0 {
        return "未找到相关搜索结果，请尝试更换关键词。".to_owned();
    }
    let ghost rv = result_views(results@);
    let ghost target = Seq::new(rv.len(), |i: int| result_block(i, rv[i]));
    let mut blocks: Vec<String> = Vec::new();
    let mut i: usize = 0;
    while i < results.len()
        invariant
            i <= results.len(),
            rv == result_views(results@),
            target == Seq::new(rv.len(), |i: int| result_block(i, rv[i])),
            views(blocks@) == target.take(i as int),
        decreases results.len() - i,
    {
        let item = &results[i];
        let mut b = "[".to_owned();
        push_decimal(&mut b, i as u64 + 1);
        b.append("] ");
        b.append(item.title.as_str());
        b.append("\n    摘要: ");
        b.append(item.snippet.as_str());
        b.append("\n    链接: ");
        b.append(item.url.as_str());
        let ghost before = blocks@;
        blocks.push(b);
        proof {
            assert(rv[i as int] == item@);
            assert(b@ =~= result_block(i as int, rv[i as int]));
            assert(views(blocks@) =~= views(before).push(b@));
            assert(target.take(i + 1) =~= target.take(i as int).push(b@));
        }
        i = i + 1;
    }
    assert(target.take(results.len() as int) =~= target);
    let mut r = "搜索 \"".to_owned();
    r.append(query);
    r.append("\" 的结果 (共 ");
    push_decimal(&mut r, results.len() as u64);
    r.append(" 条):\n\n");
    let body = join_strings(&blocks, "\n\n");
    r.append(body.as_str());
    r
}

} // verus!

//! Turning a fetched web page into readable text: entity decoding, title
//! and main-content extraction, tag removal and whitespace clean-up, and
//! the report of a fetch.

use vstd::prelude::*;
use crate::pattern::{
    group_of, group_text, match_spans, matches_well_formed, piece, raw_lines, rebuild, rebuilt,
    regex_matches, replace_lit, replace_literal, lines_of, spans_view, texts, GroupSpans,
    first_capture, first_group, regex_replaced, replace_matches,
};
use crate::text::{
    byte_len, contains, contains_chars, chars_of, decimal, is_boundary, join, join_strings,
    push_char, push_decimal, starts_with, str_contains, str_starts_with, trim, trim_str, views,
};

verus! {

/// The largest character boundary of `s` at or below byte `n`.
pub open spec fn floor_boundary(s: Seq<char>, n: nat) -> nat
    decreases n,
{
    if n == 0 || is_boundary(s, n as int) {
        n
    } else {
        floor_boundary(s, (n - 1) as nat)
    }
}

proof fn lemma_floor_boundary(s: Seq<char>, n: nat)
    ensures
        floor_boundary(s, n) <= n,
        is_boundary(s, floor_boundary(s, n) as int),
    decreases n,
{
    if n == 0 {
        vstd::utf8::encode_utf8_valid_utf8(s);
        vstd::utf8::is_char_boundary_start_end_of_seq(vstd::utf8::encode_utf8(s));
    } else if !is_boundary(s, n as int) {
        lemma_floor_boundary(s, (n - 1) as nat);
    }
}

/// `s` cut to at most `max` bytes without splitting a character.
pub open spec fn cut_at_boundary(s: Seq<char>, max: nat) -> Seq<char> {
    if byte_len(s) <= max {
        s
    } else {
        piece(s, 0, floor_boundary(s, max) as int)
    }
}

/// The longest prefix of `s` of at most `max_bytes` bytes that does not
/// split a character.
pub fn truncate_at_char_boundary(s: &str, max_bytes: usize) -> (r: &str)
    ensures
        r@ == cut_at_boundary(s@, max_bytes as nat),
{
    if s.as_bytes().len() <= max_bytes {
        return s;
    }
    let mut end = max_bytes;
    while end > 0 && !s.is_char_boundary(end)
        invariant
            end <= max_bytes,
            floor_boundary(s@, max_bytes as nat) == floor_boundary(s@, end as nat),
        decreases end,
    {
        end = end - 1;
    }
    proof {
        lemma_floor_boundary(s@, max_bytes as nat);
        vstd::utf8::encode_utf8_valid_utf8(s@);
        vstd::utf8::valid_utf8_split(vstd::utf8::encode_utf8(s@), end as int);
        vstd::utf8::encode_utf8_decode_utf8(s@);
    }
    let (head, _rest) = s.split_at(end);
    proof {
        vstd::utf8::encode_utf8_decode_utf8(head@);
        assert(vstd::utf8::encode_utf8(head@) =~= vstd::utf8::encode_utf8(s@).subrange(0, end as int));
    }
    head
}

/// The value of digit `c` in base `radix` (`char::to_digit`).
pub open spec fn digit_value(c: char, radix: nat) -> Option<nat> {
    let d: int = if '0' <= c <= '9' {
        (c as u32) - ('0' as u32)
    } else if 'a' <= c <= 'z' {
        (c as u32) - ('a' as u32) + 10
    } else if 'A' <= c <= 'Z' {
        (c as u32) - ('A' as u32) + 10
    } else {
        99
    };
    if d < radix {
        Some(d as nat)
    } else {
        None
    }
}

/// The value of the digits `s` in base `radix`, if all are digits.
pub open spec fn digits_value(s: Seq<char>, radix: nat) -> Option<nat>
    decreases s.len(),
{
    if s.len() == 0 {
        Some(0)
    } else {
        match (digits_value(s.drop_last(), radix), digit_value(s.last(), radix)) {
            (Some(v), Some(d)) => Some(v * radix + d),
            _ => None,
        }
    }
}

/// `s` without a leading `+`.
pub open spec fn unsigned_body(s: Seq<char>) -> Seq<char> {
    if s.len() > 0 && s[0] == '+' {
        s.drop_first()
    } else {
        s
    }
}

proof fn lemma_parse_fails(s: Seq<char>, radix: nat)
    requires
        unsigned_body(s).len() > 0,
        digits_value(unsigned_body(s), radix) is None,
    ensures
        parse_u32(s, radix) is None,
{
}

/// `u32::from_str_radix(s, radix)`: an optional `+`, then one or more digits,
/// with a value that fits in a `u32`.
pub open spec fn parse_u32(s: Seq<char>, radix: nat) -> Option<u32> {
    let body = unsigned_body(s);
    if body.len() == 0 {
        None
    } else {
        match digits_value(body, radix) {
            Some(v) => if v <= u32::MAX {
                Some(v as u32)
            } else {
                None
            },
            None => None,
        }
    }
}

fn digit_of(c: char, radix: u32) -> (r: Option<u32>)
    requires
        radix == 10 || radix == 16,
    ensures
        match r {
            Some(d) => digit_value(c, radix as nat) == Some(d as nat),
            None => digit_value(c, radix as nat) is None,
        },
{
    let d: u32 = if '0' <= c && c <= '9' {
        (c as u32) - ('0' as u32)
    } else if 'a' <= c && c <= 'z' {
        (c as u32) - ('a' as u32) + 10
    } else if 'A' <= c && c <= 'Z' {
        (c as u32) - ('A' as u32) + 10
    } else {
        99
    };
    if d < radix {
        Some(d)
    } else {
        None
    }
}

proof fn lemma_digits_grow(s: Seq<char>, radix: nat, i: int)
    requires
        radix >= 1,
        0 <= i <= s.len(),
        digits_value(s, radix) is Some,
    ensures
        digits_value(s.take(i), radix) is Some,
        digits_value(s.take(i), radix)->0 <= digits_value(s, radix)->0,
    decreases s.len(),
{
    if i < s.len() {
        assert(s.drop_last().take(i) =~= s.take(i));
        lemma_digits_grow(s.drop_last(), radix, i);
        let v = digits_value(s.drop_last(), radix)->0;
        let d = digit_value(s.last(), radix)->0;
        assert(v * radix + d >= v) by (nonlinear_arith)
            requires
                radix >= 1,
        ;
    } else {
        assert(s.take(i) =~= s);
    }
}

/// Parses `s` as `u32::from_str_radix` does, for base 10 or 16.
pub fn parse_number(s: &str, radix: u32) -> (r: Option<u32>)
    requires
        radix == 10 || radix == 16,
    ensures
        r == parse_u32(s@, radix as nat),
{
    let cs = chars_of(s);
    let mut start: usize = 0;
    if cs.len() > 0 && cs[0] == '+' {
        start = 1;
    }
    let ghost body = unsigned_body(s@);
    assert(body =~= cs@.subrange(start as int, cs.len() as int));
    if start >= cs.len() {
        return None;
    }
    let mut acc: u64 = 0;
    let mut over = false;
    let mut i = start;
    assert(body.take(0) =~= seq![]);
    while i < cs.len()
        invariant
            start <= i <= cs.len(),
            radix == 10 || radix == 16,
            body == cs@.subrange(start as int, cs.len() as int),
            body == unsigned_body(s@),
            body.len() > 0,
            digits_value(body.take(i - start), radix as nat) is Some,
            !over ==> acc <= u32::MAX && digits_value(body.take(i - start), radix as nat) == Some(acc as nat),
            over ==> digits_value(body.take(i - start), radix as nat)->0 > u32::MAX,
        decreases cs.len() - i,
    {
        let ghost k = i - start;
        assert(body.take(k + 1).drop_last() =~= body.take(k));
        assert(body.take(k + 1).last() == cs@[i as int]);
        match digit_of(cs[i], radix) {
            None => {
                proof {
                    assert(digit_value(cs@[i as int], radix as nat) is None);
                    assert(digits_value(body.take(k + 1), radix as nat) is None);
                    if digits_value(body, radix as nat) is Some {
                        lemma_digits_grow(body, radix as nat, k + 1);
                    }
                    assert(digits_value(body, radix as nat) is None);
                    lemma_parse_fails(s@, radix as nat);
                }
                return None;
            },
            Some(d) => {
                let ghost v = digits_value(body.take(k), radix as nat)->0;
                if !over {
                    let next = acc * (radix as u64) + (d as u64);
                    if next > 4294967295 {
                        over = true;
                    } else {
                        acc = next;
                    }
                } else {
                    assert(v * radix + d > u32::MAX) by (nonlinear_arith)
                        requires
                            v > u32::MAX,
                            radix >= 10,
                    ;
                }
            },
        }
        i = i + 1;
    }
    assert(body.take(cs.len() - start) =~= body);
    if over {
        None
    } else {
        Some(acc as u32)
    }
}

/// Whether `n` is a Unicode scalar value (`char::from_u32` succeeds).
pub open spec fn is_scalar_value(n: u32) -> bool {
    n < 0xD800 || (0xE000 <= n && n <= 0x10FFFF)
}

/// `char::from_u32`: the character with code point `n`, or `None` when `n`
/// is a surrogate or above U+10FFFF, as its documentation states.
#[verifier::external_body]
fn char_from_u32(n: u32) -> (r: Option<char>)
    ensures
        r is Some <==> is_scalar_value(n),
        r matches Some(c) ==> c as u32 == n,
{
    char::from_u32(n)
}

/// The character a numeric entity stands for: its code point, or NUL when
/// the digits do not parse or name no character.
pub open spec fn entity_char(digits: Option<Seq<char>>, radix: nat) -> char {
    let n: u32 = match digits {
        Some(t) => match parse_u32(t, radix) {
            Some(v) => v,
            None => 0,
        },
        None => 0,
    };
    if is_scalar_value(n) {
        n as char
    } else {
        '\0'
    }
}

/// The replacements of the numeric-entity matches `ms` of `text`.
pub open spec fn entity_replacements(text: Seq<char>, ms: Seq<Seq<Option<(usize, usize)>>>, radix: nat) -> Seq<Seq<char>> {
    Seq::new(ms.len(), |k: int| seq![entity_char(group_text(text, ms, k, 1), radix)])
}

/// `text` with the matches of the entity pattern replaced by the
/// characters they name (unchanged if the pattern were not valid).
pub open spec fn numeric_entities_decoded(text: Seq<char>, pattern: Seq<char>, radix: nat) -> Seq<char> {
    match regex_matches(pattern, text) {
        Some(ms) => rebuilt(text, ms, entity_replacements(text, ms, radix)),
        None => text,
    }
}

fn decode_numeric(text: &str, pattern: &str, radix: u32) -> (r: String)
    requires
        radix == 10 || radix == 16,
    ensures
        r@ == numeric_entities_decoded(text@, pattern@, radix as nat),
{
    let ms = match match_spans(pattern, text) {
        Some(ms) => ms,
        None => {
            return text.to_owned();
        },
    };
    let ghost sv = spans_view(ms);
    let mut reps: Vec<String> = Vec::new();
    let mut k: usize = 0;
    while k < ms.len()
        invariant
            k <= ms.len(),
            sv == spans_view(ms),
            matches_well_formed(text@, sv),
            radix == 10 || radix == 16,
            texts(reps@) == entity_replacements(text@, sv, radix as nat).take(k as int),
        decreases ms.len() - k,
    {
        let n: u32 = match group_of(text, &ms, k, 1) {
            Some(g) => match parse_number(g.as_str(), radix) {
                Some(v) => v,
                None => 0,
            },
            None => 0,
        };
        let c = match char_from_u32(n) {
            Some(c) => c,
            None => '\0',
        };
        let mut rep = String::new();
        push_char(&mut rep, c);
        proof {
            if is_scalar_value(n) {
                vstd::utf8::char_u32_cast(c, n);
            }
        }
        let ghost before = reps@;
        reps.push(rep);
        proof {
            assert(rep@ =~= seq![entity_char(group_text(text@, sv, k as int, 1), radix as nat)]);
            assert(texts(reps@) =~= texts(before).push(rep@));
            assert(entity_replacements(text@, sv, radix as nat).take(k + 1) =~= entity_replacements(
                text@,
                sv,
                radix as nat,
            ).take(k as int).push(rep@));
        }
        k = k + 1;
    }
    assert(entity_replacements(text@, sv, radix as nat).take(ms.len() as int) =~= entity_replacements(
        text@,
        sv,
        radix as nat,
    ));
    rebuild(text, &ms, &reps)
}

/// The named entities replaced, in order.
pub open spec fn named_entities_decoded(t: Seq<char>) -> Seq<char> {
    replace_lit(
        replace_lit(
            replace_lit(
                replace_lit(
                    replace_lit(
                        replace_lit(replace_lit(t, "&amp;"@, "&"@), "&lt;"@, "<"@),
                        "&gt;"@,
                        ">"@,
                    ),
                    "&quot;"@,
                    "\""@,
                ),
                "&#39;"@,
                "'"@,
            ),
            "&apos;"@,
            "'"@,
        ),
        "&nbsp;"@,
        " "@,
    )
}

/// The HTML entities of `t` decoded: the named ones, then decimal and
/// hexadecimal character references.
pub open spec fn entities_decoded(t: Seq<char>) -> Seq<char> {
    numeric_entities_decoded(
        numeric_entities_decoded(named_entities_decoded(t), "&#(\\d+);"@, 10),
        "&#x([0-9a-fA-F]+);"@,
        16,
    )
}

/// Decodes the HTML entities of `text`.
pub fn decode_entities(text: &str) -> (r: String)
    ensures
        r@ == entities_decoded(text@),
{
    let s = replace_literal(text, "&amp;", "&");
    let s = replace_literal(s.as_str(), "&lt;", "<");
    let s = replace_literal(s.as_str(), "&gt;", ">");
    let s = replace_literal(s.as_str(), "&quot;", "\"");
    let s = replace_literal(s.as_str(), "&#39;", "'");
    let s = replace_literal(s.as_str(), "&apos;", "'");
    let s = replace_literal(s.as_str(), "&nbsp;", " ");
    let s = decode_numeric(s.as_str(), "&#(\\d+);", 10);
    decode_numeric(s.as_str(), "&#x([0-9a-fA-F]+);", 16)
}


/// The title pattern.
pub open spec fn title_pattern() -> Seq<char> {
    "(?i)<title[^>]*>([\\s\\S]*?)</title>"@
}

/// The page title: the first `<title>` element's text, entities decoded
/// and trimmed; empty when there is none.
pub open spec fn page_title(html: Seq<char>) -> Seq<char> {
    match first_capture(html, title_pattern(), 1) {
        Some(t) => trim(entities_decoded(t)),
        None => ""@,
    }
}

/// Extracts the page title.
pub fn extract_title(html: &str) -> (r: String)
    ensures
        r@ == page_title(html@),
{
    match first_group(html, "(?i)<title[^>]*>([\\s\\S]*?)</title>", 1) {
        Some(t) => {
            let d = decode_entities(t.as_str());
            trim_str(d.as_str())
        },
        None => "".to_owned(),
    }
}

/// The page with scripts, styles, frames, graphics, navigation, headers,
/// footers, asides and comments each replaced by a space.
pub open spec fn without_unwanted_tags(html: Seq<char>) -> Seq<char> {
    let s = regex_replaced(html, "(?is)<script[^>]*>[\\s\\S]*?</script>"@, " "@);
    let s = regex_replaced(s, "(?is)<style[^>]*>[\\s\\S]*?</style>"@, " "@);
    let s = regex_replaced(s, "(?is)<noscript[^>]*>[\\s\\S]*?</noscript>"@, " "@);
    let s = regex_replaced(s, "(?is)<iframe[^>]*>[\\s\\S]*?</iframe>"@, " "@);
    let s = regex_replaced(s, "(?is)<svg[^>]*>[\\s\\S]*?</svg>"@, " "@);
    let s = regex_replaced(s, "(?is)<nav[^>]*>[\\s\\S]*?</nav>"@, " "@);
    let s = regex_replaced(s, "(?is)<footer[^>]*>[\\s\\S]*?</footer>"@, " "@);
    let s = regex_replaced(s, "(?is)<header[^>]*>[\\s\\S]*?</header>"@, " "@);
    let s = regex_replaced(s, "(?is)<aside[^>]*>[\\s\\S]*?</aside>"@, " "@);
    regex_replaced(s, "<!--[\\s\\S]*?-->"@, " "@)
}

/// Removes the elements that carry no main content, and comments.
pub fn remove_unwanted_tags(html: &str) -> (r: String)
    ensures
        r@ == without_unwanted_tags(html@),
{
    let s = replace_matches(html, "(?is)<script[^>]*>[\\s\\S]*?</script>", " ");
    let s = replace_matches(s.as_str(), "(?is)<style[^>]*>[\\s\\S]*?</style>", " ");
    let s = replace_matches(s.as_str(), "(?is)<noscript[^>]*>[\\s\\S]*?</noscript>", " ");
    let s = replace_matches(s.as_str(), "(?is)<iframe[^>]*>[\\s\\S]*?</iframe>", " ");
    let s = replace_matches(s.as_str(), "(?is)<svg[^>]*>[\\s\\S]*?</svg>", " ");
    let s = replace_matches(s.as_str(), "(?is)<nav[^>]*>[\\s\\S]*?</nav>", " ");
    let s = replace_matches(s.as_str(), "(?is)<footer[^>]*>[\\s\\S]*?</footer>", " ");
    let s = replace_matches(s.as_str(), "(?is)<header[^>]*>[\\s\\S]*?</header>", " ");
    let s = replace_matches(s.as_str(), "(?is)<aside[^>]*>[\\s\\S]*?</aside>", " ");
    replace_matches(s.as_str(), "<!--[\\s\\S]*?-->", " ")
}

/// A candidate's content counts as main content when it is longer than
/// this many bytes.
pub open spec fn main_content_minimum() -> nat {
    200
}

/// The main content of a page: the first `<article>`, `<main>` or element
/// with `role="main"` whose content exceeds 200 bytes, else the `<body>`,
/// else the whole page.
pub open spec fn main_content(html: Seq<char>) -> Seq<char> {
    let a = first_capture(html, "(?is)<article[^>]*>([\\s\\S]*?)</article>"@, 1);
    let m = first_capture(html, "(?is)<main[^>]*>([\\s\\S]*?)</main>"@, 1);
    let r = first_capture(html, "(?is)<[^>]*role=[\"']main[\"'][^>]*>([\\s\\S]*?)</\\w+>"@, 1);
    let b = first_capture(html, "(?is)<body[^>]*>([\\s\\S]*?)</body>"@, 1);
    if a is Some && byte_len(a->0) > main_content_minimum() {
        a->0
    } else if m is Some && byte_len(m->0) > main_content_minimum() {
        m->0
    } else if r is Some && byte_len(r->0) > main_content_minimum() {
        r->0
    } else if b is Some {
        b->0
    } else {
        html
    }
}

/// Extracts the main content of a page.
pub fn extract_main_content(html: &str) -> (r: String)
    ensures
        r@ == main_content(html@),
{
    if let Some(inner) = first_group(html, "(?is)<article[^>]*>([\\s\\S]*?)</article>", 1) {
        if inner.as_str().as_bytes().len() > 200 {
            return inner;
        }
    }
    if let Some(inner) = first_group(html, "(?is)<main[^>]*>([\\s\\S]*?)</main>", 1) {
        if inner.as_str().as_bytes().len() > 200 {
            return inner;
        }
    }
    if let Some(inner) = first_group(
        html,
        "(?is)<[^>]*role=[\"']main[\"'][^>]*>([\\s\\S]*?)</\\w+>",
        1,
    ) {
        if inner.as_str().as_bytes().len() > 200 {
            return inner;
        }
    }
    if let Some(inner) = first_group(html, "(?is)<body[^>]*>([\\s\\S]*?)</body>", 1) {
        return inner;
    }
    html.to_owned()
}

/// Line breaks put in for breaking and block-closing tags.
pub open spec fn with_block_breaks(t: Seq<char>) -> Seq<char> {
    let s = replace_lit(t, "<br>"@, "\n"@);
    let s = replace_lit(s, "<br/>"@, "\n"@);
    let s = replace_lit(s, "<br />"@, "\n"@);
    let s = replace_lit(s, "<hr>"@, "\n"@);
    let s = replace_lit(s, "<hr/>"@, "\n"@);
    let s = replace_lit(s, "</p>"@, "\n\n"@);
    let s = replace_lit(s, "</div>"@, "\n\n"@);
    let s = replace_lit(s, "</h1>"@, "\n\n"@);
    let s = replace_lit(s, "</h2>"@, "\n\n"@);
    let s = replace_lit(s, "</h3>"@, "\n\n"@);
    let s = replace_lit(s, "</h4>"@, "\n\n"@);
    let s = replace_lit(s, "</h5>"@, "\n\n"@);
    let s = replace_lit(s, "</h6>"@, "\n\n"@);
    let s = replace_lit(s, "</li>"@, "\n\n"@);
    let s = replace_lit(s, "</tr>"@, "\n\n"@);
    let s = replace_lit(s, "</blockquote>"@, "\n\n"@);
    let s = replace_lit(s, "</pre>"@, "\n\n"@);
    replace_lit(s, "</section>"@, "\n\n"@)
}

fn insert_block_breaks(t: &str) -> (r: String)
    ensures
        r@ == with_block_breaks(t@),
{
    let s = replace_literal(t, "<br>", "\n");
    let s = replace_literal(s.as_str(), "<br/>", "\n");
    let s = replace_literal(s.as_str(), "<br />", "\n");
    let s = replace_literal(s.as_str(), "<hr>", "\n");
    let s = replace_literal(s.as_str(), "<hr/>", "\n");
    let s = replace_literal(s.as_str(), "</p>", "\n\n");
    let s = replace_literal(s.as_str(), "</div>", "\n\n");
    let s = replace_literal(s.as_str(), "</h1>", "\n\n");
    let s = replace_literal(s.as_str(), "</h2>", "\n\n");
    let s = replace_literal(s.as_str(), "</h3>", "\n\n");
    let s = replace_literal(s.as_str(), "</h4>", "\n\n");
    let s = replace_literal(s.as_str(), "</h5>", "\n\n");
    let s = replace_literal(s.as_str(), "</h6>", "\n\n");
    let s = replace_literal(s.as_str(), "</li>", "\n\n");
    let s = replace_literal(s.as_str(), "</tr>", "\n\n");
    let s = replace_literal(s.as_str(), "</blockquote>", "\n\n");
    let s = replace_literal(s.as_str(), "</pre>", "\n\n");
    replace_literal(s.as_str(), "</section>", "\n\n")
}

/// The link pattern: the address and the text of an `<a href>` element.
pub open spec fn link_pattern() -> Seq<char> {
    "<a[^>]*href=[\"']([^\"']*)[\"'][^>]*>([\\s\\S]*?)</a>"@
}

/// The text a link is rendered as: its text without tags, trimmed, and
/// followed by the address in parentheses when the address is absolute
/// (`http...`) and the text is not empty.
pub open spec fn link_rendering(url: Option<Seq<char>>, text: Option<Seq<char>>) -> Seq<char> {
    let u = match url {
        Some(x) => x,
        None => ""@,
    };
    let t = match text {
        Some(x) => x,
        None => ""@,
    };
    let clean = trim(regex_replaced(t, "<[^>]*>"@, ""@));
    if starts_with(u, "http"@) && clean.len() > 0 {
        clean + " ("@ + u + ")"@
    } else {
        clean
    }
}

/// The replacements of the link matches `ms` of `text`.
pub open spec fn link_replacements(text: Seq<char>, ms: Seq<Seq<Option<(usize, usize)>>>) -> Seq<Seq<char>> {
    Seq::new(ms.len(), |k: int| link_rendering(group_text(text, ms, k, 1), group_text(text, ms, k, 2)))
}

/// `text` with its links rendered as text.
pub open spec fn links_rendered(text: Seq<char>) -> Seq<char> {
    match regex_matches(link_pattern(), text) {
        Some(ms) => rebuilt(text, ms, link_replacements(text, ms)),
        None => text,
    }
}

fn render_link(url: Option<String>, text: Option<String>) -> (r: String)
    ensures
        r@ == link_rendering(
            match url {
                Some(x) => Some(x@),
                None => None,
            },
            match text {
                Some(x) => Some(x@),
                None => None,
            },
        ),
{
    let u = match url {
        Some(x) => x,
        None => "".to_owned(),
    };
    let t = match text {
        Some(x) => x,
        None => "".to_owned(),
    };
    let stripped = replace_matches(t.as_str(), "<[^>]*>", "");
    let clean = trim_str(stripped.as_str());
    if str_starts_with(u.as_str(), "http") && !clean.as_str().is_empty() {
        let mut r = clean;
        r.append(" (");
        r.append(u.as_str());
        r.append(")");
        r
    } else {
        clean
    }
}

fn render_links(text: &str) -> (r: String)
    ensures
        r@ == links_rendered(text@),
{
    let ms = match match_spans("<a[^>]*href=[\"']([^\"']*)[\"'][^>]*>([\\s\\S]*?)</a>", text) {
        Some(ms) => ms,
        None => {
            return text.to_owned();
        },
    };
    let ghost sv = spans_view(ms);
    let mut reps: Vec<String> = Vec::new();
    let mut k: usize = 0;
    while k < ms.len()
        invariant
            k <= ms.len(),
            sv == spans_view(ms),
            matches_well_formed(text@, sv),
            texts(reps@) == link_replacements(text@, sv).take(k as int),
        decreases ms.len() - k,
    {
        let url = group_of(text, &ms, k, 1);
        let label = group_of(text, &ms, k, 2);
        let rep = render_link(url, label);
        let ghost before = reps@;
        reps.push(rep);
        proof {
            assert(texts(reps@) =~= texts(before).push(rep@));
            assert(link_replacements(text@, sv).take(k + 1) =~= link_replacements(text@, sv).take(
                k as int,
            ).push(rep@));
        }
        k = k + 1;
    }
    assert(link_replacements(text@, sv).take(ms.len() as int) =~= link_replacements(text@, sv));
    rebuild(text, &ms, &reps)
}

/// The readable text of an HTML fragment: block ends become line breaks,
/// links become their text (with the address), remaining tags become
/// spaces, entities are decoded, runs of spaces and tabs shrink to one
/// space, three or more line breaks (with white space between) shrink to
/// two, every line is trimmed, and the whole is trimmed.  (`str::lines`
/// also drops a `\r` before each line break; the trimming of the lines
/// removes it in any case.)
pub open spec fn readable_text(html: Seq<char>) -> Seq<char> {
    let s = with_block_breaks(html);
    let s = links_rendered(s);
    let s = regex_replaced(s, "<[^>]*>"@, " "@);
    tidy_text(entities_decoded(s))
}

/// The white-space tidying that ends the conversion: runs of spaces and
/// tabs shrink to one space, three or more line breaks (with white space
/// between) shrink to two, every line is trimmed, and the whole is trimmed.
pub open spec fn tidy_text(s: Seq<char>) -> Seq<char> {
    let s = regex_replaced(s, "[ \\t]+"@, " "@);
    let s = regex_replaced(s, "\\n\\s*\\n\\s*\\n"@, "\n\n"@);
    trim(join(raw_lines(s).map_values(|l: Seq<char>| trim(l)), "\n"@))
}

proof fn lemma_no_lt_no_replacement(s: Seq<char>, from: Seq<char>, to: Seq<char>)
    requires
        from.len() > 0,
        from[0] == '<',
        !s.contains('<'),
    ensures
        replace_lit(s, from, to) == s,
    decreases s.len(),
{
    if s.len() > 0 {
        assert(s[0] != '<') by {
            if s[0] == '<' {
                assert(s.contains('<'));
            }
        }
        if starts_with(s, from) {
            assert(s.subrange(0, from.len() as int)[0] == s[0]);
        }
        let rest = s.drop_first();
        assert forall|c: char| rest.contains(c) implies s.contains(c) by {
            let i = choose|i: int| 0 <= i < rest.len() && rest[i] == c;
            assert(s[i + 1] == c);
        }
        lemma_no_lt_no_replacement(rest, from, to);
        assert(seq![s[0]] + rest =~= s);
    }
}

proof fn lemma_no_match_keeps_text(text: Seq<char>, reps: Seq<Seq<char>>)
    ensures
        rebuilt(text, Seq::<Seq<Option<(usize, usize)>>>::empty(), reps) == text,
{
    broadcast use vstd::utf8::encode_utf8_decode_utf8;
    let bytes = vstd::utf8::encode_utf8(text);
    assert(bytes.subrange(0, bytes.len() as int) =~= bytes);
    assert(rebuilt(text, Seq::<Seq<Option<(usize, usize)>>>::empty(), reps) =~= seq![] + piece(
        text,
        0,
        byte_len(text) as int,
    ));
}

proof fn lemma_no_lt_no_breaks(t: Seq<char>)
    requires
        !t.contains('<'),
    ensures
        with_block_breaks(t) == t,
{
    reveal_strlit("<br>");
    reveal_strlit("<br/>");
    reveal_strlit("<br />");
    reveal_strlit("<hr>");
    reveal_strlit("<hr/>");
    reveal_strlit("</p>");
    reveal_strlit("</div>");
    reveal_strlit("</h1>");
    reveal_strlit("</h2>");
    reveal_strlit("</h3>");
    reveal_strlit("</h4>");
    reveal_strlit("</h5>");
    reveal_strlit("</h6>");
    reveal_strlit("</li>");
    reveal_strlit("</tr>");
    reveal_strlit("</blockquote>");
    reveal_strlit("</pre>");
    reveal_strlit("</section>");
    lemma_no_lt_no_replacement(t, "<br>"@, "\n"@);
    lemma_no_lt_no_replacement(t, "<br/>"@, "\n"@);
    lemma_no_lt_no_replacement(t, "<br />"@, "\n"@);
    lemma_no_lt_no_replacement(t, "<hr>"@, "\n"@);
    lemma_no_lt_no_replacement(t, "<hr/>"@, "\n"@);
    lemma_no_lt_no_replacement(t, "</p>"@, "\n\n"@);
    lemma_no_lt_no_replacement(t, "</div>"@, "\n\n"@);
    lemma_no_lt_no_replacement(t, "</h1>"@, "\n\n"@);
    lemma_no_lt_no_replacement(t, "</h2>"@, "\n\n"@);
    lemma_no_lt_no_replacement(t, "</h3>"@, "\n\n"@);
    lemma_no_lt_no_replacement(t, "</h4>"@, "\n\n"@);
    lemma_no_lt_no_replacement(t, "</h5>"@, "\n\n"@);
    lemma_no_lt_no_replacement(t, "</h6>"@, "\n\n"@);
    lemma_no_lt_no_replacement(t, "</li>"@, "\n\n"@);
    lemma_no_lt_no_replacement(t, "</tr>"@, "\n\n"@);
    lemma_no_lt_no_replacement(t, "</blockquote>"@, "\n\n"@);
    lemma_no_lt_no_replacement(t, "</pre>"@, "\n\n"@);
    lemma_no_lt_no_replacement(t, "</section>"@, "\n\n"@);
}

/// Text without markup is only decoded and tidied: for a fragment with no
/// `<` (so that neither the link pattern nor the tag pattern, both of which
/// begin with `<`, matches in it), the readable text is the fragment with
/// its entities decoded and its white space tidied.  Escaped markup such as
/// `&lt;table&gt;` therefore comes out as literal text: decoding comes after
/// the tags are removed.
pub proof fn law_text_without_tags_is_only_decoded(html: Seq<char>)
    requires
        !html.contains('<'),
        regex_matches(link_pattern(), html) == Some(Seq::<Seq<Option<(usize, usize)>>>::empty()),
        regex_matches("<[^>]*>"@, html) == Some(Seq::<Seq<Option<(usize, usize)>>>::empty()),
    ensures
        readable_text(html) == tidy_text(entities_decoded(html)),
{
    lemma_no_lt_no_breaks(html);
    let e = Seq::<Seq<Option<(usize, usize)>>>::empty();
    lemma_no_match_keeps_text(html, link_replacements(html, e));
    assert(links_rendered(html) == html);
    lemma_no_match_keeps_text(html, Seq::new(0, |k: int| " "@));
    assert(regex_replaced(html, "<[^>]*>"@, " "@) == html);
}

/// Converts an HTML fragment into readable text.
pub fn html_to_text(html: &str) -> (r: String)
    ensures
        r@ == readable_text(html@),
{
    let s = insert_block_breaks(html);
    let s = render_links(s.as_str());
    let s = replace_matches(s.as_str(), "<[^>]*>", " ");
    let s = decode_entities(s.as_str());
    let s = replace_matches(s.as_str(), "[ \\t]+", " ");
    let s = replace_matches(s.as_str(), "\\n\\s*\\n\\s*\\n", "\n\n");
    let lines = lines_of(s.as_str());
    let ghost target = raw_lines(s@).map_values(|l: Seq<char>| trim(l));
    let mut trimmed: Vec<String> = Vec::new();
    let mut i: usize = 0;
    while i < lines.len()
        invariant
            i <= lines.len(),
            texts(lines@) == raw_lines(s@),
            target == raw_lines(s@).map_values(|l: Seq<char>| trim(l)),
            views(trimmed@) == target.take(i as int),
        decreases lines.len() - i,
    {
        let t = trim_str(lines[i].as_str());
        let ghost before = trimmed@;
        trimmed.push(t);
        proof {
            assert(texts(lines@)[i as int] == lines@[i as int]@);
            assert(views(trimmed@) =~= views(before).push(t@));
            assert(target.take(i + 1) =~= target.take(i as int).push(target[i as int]));
        }
        i = i + 1;
    }
    assert(target.take(lines.len() as int) =~= target);
    let joined = join_strings(&trimmed, "\n");
    trim_str(joined.as_str())
}

/// The address to fetch: the trimmed URL with `https://` added when it has
/// no scheme; an error message for an empty URL.
pub open spec fn fetch_address(url: Seq<char>) -> Result<Seq<char>, Seq<char>> {
    let u = trim(url);
    if u.len() == 0 {
        Err("URL 不能为空。"@)
    } else if !starts_with(u, "http://"@) && !starts_with(u, "https://"@) {
        Ok("https://"@ + u)
    } else {
        Ok(u)
    }
}

/// Normalises the URL of a fetch request.
pub fn normalize_url(url: &str) -> (r: Result<String, String>)
    ensures
        match r {
            Ok(u) => fetch_address(url@) == Ok::<Seq<char>, Seq<char>>(u@),
            Err(e) => fetch_address(url@) == Err::<Seq<char>, Seq<char>>(e@),
        },
{
    let u = trim_str(url);
    if u.as_str().is_empty() {
        return Err("URL 不能为空。".to_owned());
    }
    if !str_starts_with(u.as_str(), "http://") && !str_starts_with(u.as_str(), "https://") {
        let mut r = "https://".to_owned();
        r.append(u.as_str());
        Ok(r)
    } else {
        Ok(u)
    }
}

/// Fetched content longer than this many bytes is cut.
pub open spec fn fetch_limit() -> nat {
    8000
}

/// Whether a content type is rendered as a page.
pub open spec fn is_page_type(content_type: Seq<char>) -> bool {
    contains(content_type, "text/html"@) || contains(content_type, "text/plain"@) || contains(
        content_type,
        "application/xhtml"@,
    )
}

/// The text shown for a page: its readable main text, cut to 8000 bytes
/// with a note of the full length when longer.
pub open spec fn shown_page_text(body: Seq<char>) -> Seq<char> {
    let text = readable_text(main_content(without_unwanted_tags(body)));
    if byte_len(text) > fetch_limit() {
        cut_at_boundary(text, fetch_limit()) + "\n\n...[内容已截断，共 "@ + decimal(byte_len(text))
            + " 字符]"@
    } else {
        text
    }
}

/// The answer of the fetch tool for a successful response.
pub open spec fn fetch_report(url: Seq<char>, content_type: Seq<char>, body: Seq<char>) -> Seq<char> {
    if !is_page_type(content_type) {
        let shown = if byte_len(body) > fetch_limit() {
            cut_at_boundary(body, fetch_limit()) + "..."@
        } else {
            body
        };
        "网页内容 ("@ + url + "):\n类型: "@ + content_type + "\n\n"@ + shown
    } else {
        "网页内容 ("@ + url + "):\n标题: "@ + page_title(body) + "\n\n"@ + shown_page_text(body)
    }
}

/// The readable main text of a page, cut to 8000 bytes.
pub fn page_text(body: &str) -> (r: String)
    ensures
        r@ == shown_page_text(body@),
{
    let cleaned = remove_unwanted_tags(body);
    let main = extract_main_content(cleaned.as_str());
    let text = html_to_text(main.as_str());
    let total = text.as_str().as_bytes().len();
    if total > 8000 {
        let mut r = truncate_at_char_boundary(text.as_str(), 8000).to_owned();
        r.append("\n\n...[内容已截断，共 ");
        push_decimal(&mut r, total as u64);
        r.append(" 字符]");
        r
    } else {
        text
    }
}

/// Whether a content type is rendered as a page.
pub fn is_page_content_type(content_type: &str) -> (r: bool)
    ensures
        r == is_page_type(content_type@),
{
    str_contains(content_type, "text/html") || str_contains(content_type, "text/plain") || str_contains(
        content_type,
        "application/xhtml",
    )
}

/// Reports a fetched page: for a page type its title and readable main
/// text, otherwise the raw body; either cut to 8000 bytes.
pub fn page_report(url: &str, content_type: &str, body: &str) -> (r: String)
    ensures
        r@ == fetch_report(url@, content_type@, body@),
{
    let page = is_page_content_type(content_type);
    let mut r = "网页内容 (".to_owned();
    r.append(url);
    if !page {
        r.append("):\n类型: ");
        r.append(content_type);
        r.append("\n\n");
        if body.as_bytes().len() > 8000 {
            let head = truncate_at_char_boundary(body, 8000);
            r.append(head);
            r.append("...");
        } else {
            r.append(body);
        }
        return r;
    }
    let title = extract_title(body);
    let text = page_text(body);
    r.append("):\n标题: ");
    r.append(title.as_str());
    r.append("\n\n");
    r.append(text.as_str());
    r
}

} // verus!

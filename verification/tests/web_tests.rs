use rust_system_agent::tools::web_fetch::{
    decode_entities, extract_main_content, extract_title, html_to_text, normalize_url, page_report, parse_number,
    remove_unwanted_tags, truncate_at_char_boundary,
};
use rust_system_agent::tools::web_search::{
    check_query, extract_real_url, is_ad, parse_results, search_results_report, search_url, strip_html,
};

#[test]
fn cut_at_character_boundary() {
    assert_eq!(truncate_at_char_boundary("abc", 5), "abc");
    assert_eq!(truncate_at_char_boundary("abc", 3), "abc");
    assert_eq!(truncate_at_char_boundary("abcdef", 3), "abc");
    assert_eq!(truncate_at_char_boundary("héllo", 2), "h");
    assert_eq!(truncate_at_char_boundary("日本", 1), "");
}

#[test]
fn number_parsing() {
    assert_eq!(parse_number("123", 10), Some(123));
    assert_eq!(parse_number("+7", 10), Some(7));
    assert_eq!(parse_number("", 10), None);
    assert_eq!(parse_number("+", 10), None);
    assert_eq!(parse_number("-1", 10), None);
    assert_eq!(parse_number("4294967295", 10), Some(u32::MAX));
    assert_eq!(parse_number("4294967296", 10), None);
    assert_eq!(parse_number("ff", 16), Some(255));
    assert_eq!(parse_number("1F600", 16), Some(0x1F600));
    assert_eq!(parse_number("g", 16), None);
}

#[test]
fn entities() {
    assert_eq!(
        decode_entities("a &amp; b &lt;c&gt; &quot;q&quot; &#39;s &apos;t&nbsp;u &#65;&#x42;&#x1F600;"),
        "a & b <c> \"q\" 's 't u AB\u{1F600}"
    );
    assert_eq!(decode_entities("&amp;lt;"), "<");
    assert_eq!(decode_entities("&#55296;|&#99999999999;"), "\0|\0");
    assert_eq!(decode_entities("plain"), "plain");
}

#[test]
fn titles() {
    assert_eq!(extract_title("<html><head><TITLE id=x> Hello &amp; bye </TITLE></head>"), "Hello & bye");
    assert_eq!(extract_title("<p>none</p>"), "");
}

#[test]
fn unwanted_tags_removed() {
    assert_eq!(remove_unwanted_tags("a<script>x</script>b<!-- c -->d"), "a b d");
    assert_eq!(remove_unwanted_tags("<NAV class=n>menu\n</nav>text"), " text");
}

#[test]
fn main_content_choice() {
    assert_eq!(extract_main_content("<body><article>short</article></body>"), "<article>short</article>");
    let long = "x".repeat(250);
    let page = format!("<body><main>{long}</main></body>");
    assert_eq!(extract_main_content(&page), long);
    assert_eq!(extract_main_content("no body"), "no body");
}

#[test]
fn text_of_html() {
    assert_eq!(
        html_to_text("<p>Hello <b>World</b></p><a href=\"http://x.com\">Link <i>here</i></a><br>Tab\t\tsep"),
        "Hello World\n\nLink here (http://x.com)\nTab sep"
    );
    assert_eq!(html_to_text("<a href='/x'>Rel</a> &amp; more"), "Rel & more");
    assert_eq!(html_to_text("a</p>\n \n</div>b"), "a\n\nb");
}

#[test]
fn urls_for_fetching() {
    assert_eq!(normalize_url(" example.com "), Ok("https://example.com".to_string()));
    assert_eq!(normalize_url("http://a"), Ok("http://a".to_string()));
    assert_eq!(normalize_url("   "), Err("URL 不能为空。".to_string()));
}

#[test]
fn fetch_reports() {
    assert_eq!(
        page_report("https://e.com", "application/json", "{\"a\":1}"),
        "网页内容 (https://e.com):\n类型: application/json\n\n{\"a\":1}"
    );
    assert_eq!(
        page_report("u", "text/html; charset=utf-8", "<html><head><title>T</title></head><body><p>Hi</p></body></html>"),
        "网页内容 (u):\n标题: T\n\nHi"
    );
    let big = "z".repeat(9000);
    assert_eq!(
        page_report("u", "image/png", &big),
        format!("网页内容 (u):\n类型: image/png\n\n{}...", "z".repeat(8000))
    );
}

#[test]
fn snippets_and_links() {
    assert_eq!(strip_html("<b>A &amp; B</b> "), "A & B");
    assert_eq!(
        extract_real_url("//duckduckgo.com/l/?uddg=https%3A%2F%2Fexample.com%2Fpage&rut=abc"),
        "https://example.com/page"
    );
    assert_eq!(extract_real_url("https://x.com"), "https://x.com");
    assert!(is_ad("https://duckduckgo.com/y.js?ad_domain=x"));
    assert!(is_ad("a?ad_provider=b"));
    assert!(!is_ad("https://x.com"));
}

#[test]
fn results_page() {
    let html = "<a rel=\"nofollow\" href=\"//duckduckgo.com/l/?uddg=https%3A%2F%2Fa.com&rut=1\" class='result-link'>A <b>site</b></a>\n\
<td class='result-snippet'>First &amp; best</td>\n\
<a rel=\"nofollow\" href=\"https://duckduckgo.com/y.js?ad_provider=x\" class='result-link'>Ad</a>\n\
<td class='result-snippet'>ad snippet</td>\n\
<a rel=\"nofollow\" href=\"//b.com/x\" class='result-link'>B</a>";
    let results = parse_results(html);
    assert_eq!(results.len(), 2);
    assert_eq!(results[0].title, "A site");
    assert_eq!(results[0].snippet, "First & best");
    assert_eq!(results[0].url, "https://a.com");
    assert_eq!(results[1].title, "B");
    assert_eq!(results[1].snippet, "");
    assert_eq!(results[1].url, "https://b.com/x");
    assert_eq!(
        search_results_report("rust", &results),
        "搜索 \"rust\" 的结果 (共 2 条):\n\n[1] A site\n    摘要: First & best\n    链接: https://a.com\n\n[2] B\n    摘要: \n    链接: https://b.com/x"
    );
    assert_eq!(search_results_report("q", &vec![]), "未找到相关搜索结果，请尝试更换关键词。");
}

#[test]
fn at_most_five_results() {
    let mut html = String::new();
    for i in 0..7 {
        html.push_str(&format!("<a href=\"https://s{i}.com\" class='result-link'>S{i}</a>\n"));
    }
    let results = parse_results(&html);
    assert_eq!(results.len(), 5);
    assert_eq!(results[4].url, "https://s4.com");
}

#[test]
fn search_requests() {
    assert_eq!(search_url("rust lang"), "https://lite.duckduckgo.com/lite/?q=rust%20lang");
    assert_eq!(check_query("  "), Err("搜索关键词不能为空。".to_string()));
    assert_eq!(check_query(" rust "), Ok("rust".to_string()));
}

#[test]
fn url_encoding_and_decoding_edges() {
    assert_eq!(search_url("a-b_c.d~e/é+"), "https://lite.duckduckgo.com/lite/?q=a-b_c.d~e%2F%C3%A9%2B");
    assert_eq!(extract_real_url("/l/?uddg=%E4%BD%A0%zz%4"), "你%zz%4");
    assert_eq!(extract_real_url("/l/?uddg=%FF"), "/l/?uddg=%FF");
}

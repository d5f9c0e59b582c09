//! Web search: pages, addresses, the sweep.

use research_mcp::http::HttpReply;
use research_mcp::search::{
    attach_snippets, base64url_decode, bing_url, ddg_url, decoded_text, is_bot_gated, parse_bing, parse_brave,
    parse_ddg, percent_decode, pick, read_reply, readable, strip_html, urlencoding_decode, Backend, SearchError,
    SearchResult, Sweep,
};

fn found(url: &str) -> SearchResult {
    SearchResult { title: format!("t {}", url), url: url.to_string(), snippet: String::new() }
}

fn page(html: &str) -> HttpReply {
    HttpReply::Answer {
        status: 200,
        status_text: "200 OK".to_string(),
        content_type: "text/html".to_string(),
        body: Ok(html.to_string()),
    }
}

const BRAVE_PAGE: &str = r#"
        <div class="snippet svelte-jmfu5f" data-pos="1" data-type="web">
          <div class="result-content svelte-1rq4ngz">
            <a href="https://example.com/page" target="_self" class="svelte-14r20fy l1">
              <div class="title search-snippet-title line-clamp-1 svelte-14r20fy" title="Example Page">Example Page</div>
            </a>
            <div class="generic-snippet svelte-1cwdgg3">
              <div class="content desktop-default-regular t-primary line-clamp-dynamic svelte-1cwdgg3">
                This is the <strong>snippet</strong> text.
              </div>
            </div>
          </div>
        </div>"#;

#[test]
fn parse_brave_sample() {
    let results = parse_brave(BRAVE_PAGE, 5).unwrap();
    assert_eq!(results.len(), 1);
    assert_eq!(results[0].title, "Example Page");
    assert_eq!(results[0].url, "https://example.com/page");
    assert!(results[0].snippet.contains("snippet text"));
}

#[test]
fn parse_bing_sample() {
    // Bing uses `b_algo` blocks with a `ck/a` redirect carrying the real
    // URL base64url in its `u=` param.
    let html = r#"<ol id="b_results"><li class="b_algo">
            <h2 class=""><a target="_blank" href="https://www.bing.com/ck/a?!&amp;&amp;p=abc&amp;u=aHR0cHM6Ly9leGFtcGxlLmNvbS9wYWdl&amp;ntb=1">Example Page</a></h2>
            <p class="b_lineclamp">Here is the <strong>snippet</strong> text.</p>
        </li></ol>"#;
    let results = parse_bing(html, 5).unwrap();
    assert_eq!(results.len(), 1);
    assert_eq!(results[0].title, "Example Page");
    assert_eq!(results[0].url, "https://example.com/page");
    assert!(results[0].snippet.contains("snippet text"));
}

#[test]
fn base64url_decode_handles_missing_padding_and_a1_prefix() {
    // No padding: aHR0cHM6Ly9leGFtcGxlLmNvbS9wYWdl == "https://example.com/page"
    assert_eq!(
        base64url_decode("aHR0cHM6Ly9leGFtcGxlLmNvbS9wYWdl").as_deref(),
        Some("https://example.com/page")
    );
    // A value with the leading "a1" marker:
    // a1aHR0cHM6Ly9uaWxlcG9zdC5jby51Zy8 == "https://nilepost.co.ug/"
    assert_eq!(
        base64url_decode("a1aHR0cHM6Ly9uaWxlcG9zdC5jby51Zy8").as_deref(),
        Some("https://nilepost.co.ug/")
    );
}

#[test]
fn bot_gating_detection() {
    assert!(is_bot_gated("<html>anomaly detected</html>", &["anomaly", "challenge-form"]));
    assert!(is_bot_gated("<html>Complete CAPTCHA to continue</html>", &["captcha", "challenge"]));
    assert!(!is_bot_gated("<html>normal results here</html>", &["captcha", "anomaly"]));
}

#[test]
fn gating_ignores_case_on_both_sides() {
    assert!(is_bot_gated("unusual TRAFFIC", &["Unusual Traffic"]));
    assert!(!is_bot_gated("anything", &[]));
}

#[test]
fn padding_is_optional() {
    for value in ["aGk", "aGk=", "a1aGk", "a1aGk="] {
        assert_eq!(base64url_decode(value).as_deref(), Some("hi"));
    }
    assert_eq!(base64url_decode("aA==").as_deref(), Some("h"));
    assert_eq!(base64url_decode("=").as_deref(), Some(""));
    assert_eq!(base64url_decode("a=Gk"), None);
}

#[test]
fn bad_base64_is_no_address() {
    assert_eq!(base64url_decode("***"), None);
    // Bytes that are no UTF-8.
    assert_eq!(base64url_decode("_w"), None);
    assert_eq!(decoded_text(Some(vec![0xff])), None);
    assert_eq!(decoded_text(Some(vec![104, 105])).as_deref(), Some("hi"));
    assert_eq!(decoded_text(None), None);
}

#[test]
fn percent_signs_are_decoded() {
    assert_eq!(urlencoding_decode("https%3A%2F%2Fa.b%2Fc%20d"), "https://a.b/c d");
    assert_eq!(urlencoding_decode("100%"), "100%");
    assert_eq!(urlencoding_decode("%4"), "%4");
    assert_eq!(urlencoding_decode("%zz%41"), "%zzA");
    assert_eq!(urlencoding_decode("%+f"), "\u{f}");
    assert_eq!(urlencoding_decode("%c3%a1"), "á");
    assert_eq!(urlencoding_decode("%ff"), "\u{fffd}");
    assert_eq!(urlencoding_decode("plain"), "plain");
    assert_eq!(percent_decode(b"%41%42"), b"AB".to_vec());
}

#[test]
fn markup_is_stripped() {
    assert_eq!(strip_html("<b>a</b> <!-- x > y -->&amp; b&nbsp;&lt;c&gt;"), "a & b <c>");
    assert_eq!(readable("&quot;it&#x27;s&#39;&quot;"), "\"it's'\"");
}

#[test]
fn candidates_are_picked_once() {
    let all = vec![found("a"), found("b"), found("a"), found("c"), found("d")];
    let urls: Vec<String> = pick(&all, 3).into_iter().map(|r| r.url).collect();
    assert_eq!(urls, vec!["a", "b", "c"]);
    assert!(pick(&all, 0).is_empty());
    assert_eq!(pick(&all, 9).len(), 4);
}

#[test]
fn snippets_go_by_position() {
    let with = attach_snippets(&vec![found("a"), found("b")], &vec!["one".to_string()]);
    assert_eq!(with[0].snippet, "one");
    assert_eq!(with[1].snippet, "");
}

#[test]
fn addresses_behind_redirections() {
    assert_eq!(ddg_url("//duckduckgo.com/l/?uddg=x", &Some("https%3A%2F%2Fa.b".to_string())), "https://a.b");
    assert_eq!(ddg_url("//a.b/c", &None), "a.b/c");
    assert_eq!(bing_url(" https://a.b ", &None), "https://a.b");
    assert_eq!(bing_url("https://bing.com/ck", &Some("***".to_string())), "https://bing.com/ck");
    assert_eq!(bing_url("x", &Some("a1aHR0cHM6Ly9leGFtcGxlLmNvbS9wYWdl".to_string())), "https://example.com/page");
}

#[test]
fn parse_ddg_page() {
    let html = r##"
      <a class="result__a" href="//duckduckgo.com/l/?uddg=https%3A%2F%2Fone.org%2F&rut=1">One &amp; only</a>
      <a class="result__snippet" href="#">First <b>snippet</b></a>
      <a class="result__a" href="//duckduckgo.com/y.js?ad=1">Ad</a>
      <a class="result__a" href="//duckduckgo.com/l/?uddg=https%3A%2F%2Fone.org%2F&rut=2">Again</a>
      <a class="result__a" href="//two.org/">Two</a>
      <a class="result__snippet" href="#">Second</a>"##;
    let results = parse_ddg(html, 5).unwrap();
    assert_eq!(results.len(), 2);
    assert_eq!(results[0].title, "One & only");
    assert_eq!(results[0].url, "https://one.org/");
    assert_eq!(results[0].snippet, "First snippet");
    assert_eq!(results[1].url, "two.org/");
    assert_eq!(results[1].snippet, "Second");
    assert_eq!(parse_ddg(html, 1).unwrap().len(), 1);
}

#[test]
fn results_are_never_thrown_away_for_a_challenge() {
    let html = r#"<a class="result__a" href="//one.org/">One</a> anomaly challenge-form"#;
    let reading = read_reply(Backend::DuckDuckGo, page(html), 5).unwrap();
    assert_eq!(reading.results.len(), 1);
    assert!(!reading.gated);
    let reading = read_reply(Backend::DuckDuckGo, page("<p>Anomaly</p>"), 5).unwrap();
    assert!(reading.results.is_empty());
    assert!(reading.gated);
    assert!(!read_reply(Backend::Bing, page("<p>nothing</p>"), 5).unwrap().gated);
    assert!(read_reply(Backend::Bing, page("Unusual traffic"), 5).unwrap().gated);
    assert!(read_reply(Backend::Brave, page("captcha"), 5).unwrap().gated);
    assert_eq!(read_reply(Backend::Brave, page(BRAVE_PAGE), 5).unwrap().results.len(), 1);
}

#[test]
fn transport_errors_are_passed_on() {
    let failed = read_reply(Backend::Bing, HttpReply::Failed("no route".to_string()), 5);
    assert!(matches!(failed, Err(SearchError::Transport(m)) if m == "no route"));
    let torn = HttpReply::Answer {
        status: 200,
        status_text: String::new(),
        content_type: String::new(),
        body: Err("torn".to_string()),
    };
    assert!(matches!(read_reply(Backend::Brave, torn, 5), Err(SearchError::Transport(m)) if m == "torn"));
}

#[test]
fn backends_are_asked_politely() {
    let ddg = Backend::DuckDuckGo.request("a b");
    assert_eq!(ddg.url, "https://html.duckduckgo.com/html/");
    assert_eq!(ddg.query, vec![("q".to_string(), "a b".to_string())]);
    let bing = Backend::Bing.request("a");
    assert_eq!(bing.query[1], ("count".to_string(), "10".to_string()));
    assert_eq!(bing.headers[1], ("Accept-Language".to_string(), "en-US,en;q=0.9".to_string()));
    assert_eq!(Backend::Brave.request("a").url, "https://search.brave.com/search");
    assert_eq!(Backend::Brave.warmup().unwrap().url, "https://search.brave.com/");
    assert!(Backend::Bing.warmup().is_none());
}

fn sweep_of(answers: &[usize]) -> Sweep {
    let mut sweep = Sweep::start();
    for n in answers {
        sweep = sweep.answered((0..*n).map(|i| found(&format!("u{}", i))).collect());
    }
    sweep
}

#[test]
fn empty_backends_yield_to_the_next() {
    assert!(matches!(sweep_of(&[]), Sweep::Asking { sweep: 0, backend: Backend::DuckDuckGo }));
    assert!(matches!(sweep_of(&[0]), Sweep::Asking { sweep: 0, backend: Backend::Bing }));
    assert!(matches!(sweep_of(&[0, 0]), Sweep::Asking { sweep: 0, backend: Backend::Brave }));
    assert!(matches!(sweep_of(&[0, 0, 0]), Sweep::Asking { sweep: 1, backend: Backend::DuckDuckGo }));
    assert!(sweep_of(&[0, 0, 0]).pauses());
    assert!(!sweep_of(&[0, 0]).pauses());
    assert!(!sweep_of(&[]).pauses());
    assert!(matches!(sweep_of(&[0; 8]), Sweep::Asking { sweep: 2, backend: Backend::Brave }));
    assert!(matches!(sweep_of(&[0; 9]), Sweep::Done { results } if results.is_empty()));
}

#[test]
fn the_first_results_are_kept() {
    assert!(matches!(sweep_of(&[0, 2, 3]), Sweep::Done { results } if results.len() == 2));
    assert!(matches!(sweep_of(&[0, 0, 0, 0, 0, 1]), Sweep::Done { results } if results.len() == 1));
}

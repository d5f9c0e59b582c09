//! The outside sources: arXiv, PubMed, Scopus, web pages, the language model.

use research_mcp::arxiv;
use research_mcp::fetch::{cap_for_url, fetch_reply, html_to_text, page_request, truncate, unescape};
use research_mcp::http::HttpReply;
use research_mcp::llm::{endpoint, reply_text, retry_delay, ChatMessage, Prompt};
use research_mcp::pubmed;
use research_mcp::scopus::{self, ScopusEntry, ScopusSearchResponse};
use research_mcp::xml::XmlEvent;

fn answer(status: u16, status_text: &str, content_type: &str, body: &str) -> HttpReply {
    HttpReply::Answer {
        status,
        status_text: status_text.to_string(),
        content_type: content_type.to_string(),
        body: Ok(body.to_string()),
    }
}

fn ok(body: &str) -> HttpReply {
    answer(200, "200 OK", "", body)
}

const FEED: &str = r#"<?xml version="1.0"?>
<feed>
  <title>arXiv query</title>
  <entry>
    <id>http://arxiv.org/abs/2607.12631v2</id>
    <published>2026-07-01T00:00:00Z</published>
    <title>Emotion &amp;
      decision</title>
    <summary> An abstract
       over lines. </summary>
    <author><name>Ada Lovelace</name></author>
    <author><name>Alan Turing</name></author>
    <category term="cs.AI" scheme="x"/>
    <category scheme="x"/>
  </entry>
  <entry><title>No identifier</title></entry>
</feed>"#;

#[test]
fn arxiv_feed_is_read() {
    let papers = arxiv::parse_feed(FEED).unwrap();
    assert_eq!(papers.len(), 1);
    let p = &papers[0];
    assert_eq!(p.arxiv_id, "2607.12631");
    assert_eq!(p.url, "https://arxiv.org/abs/2607.12631");
    assert_eq!(p.title, "Emotion & decision");
    assert_eq!(p.abstract_text, "An abstract over lines.");
    assert_eq!(p.authors, vec!["Ada Lovelace", "Alan Turing"]);
    assert_eq!(p.published.as_deref(), Some("2026-07-01T00:00:00Z"));
    assert_eq!(p.categories, vec!["cs.AI", ""]);
}

#[test]
fn arxiv_replies() {
    assert_eq!(arxiv::search_reply(ok(FEED)).unwrap().len(), 1);
    assert_eq!(arxiv::by_id_reply(ok(FEED)).unwrap().unwrap().arxiv_id, "2607.12631");
    assert!(arxiv::by_id_reply(ok("<feed></feed>")).unwrap().is_none());
    assert_eq!(arxiv::search_reply(HttpReply::Failed("x".into())).unwrap_err(), "arXiv search request failed");
    assert_eq!(arxiv::by_id_reply(HttpReply::Failed("x".into())).unwrap_err(), "arXiv id fetch failed");
    assert_eq!(
        arxiv::search_reply(answer(429, "429 Too Many Requests", "", "")).unwrap_err(),
        "arXiv API error 429 Too Many Requests"
    );
    let torn = HttpReply::Answer { status: 200, status_text: "".into(), content_type: "".into(), body: Err("x".into()) };
    assert_eq!(arxiv::search_reply(torn).unwrap_err(), "arXiv response read failed");
    assert!(arxiv::parse_feed("<feed><entry></feed>").unwrap_err().starts_with("arXiv XML parse error: "));
}

#[test]
fn arxiv_events_make_papers() {
    let events = vec![
        XmlEvent::Start("entry".into()),
        XmlEvent::Start("id".into()),
        XmlEvent::Text(Some("1234.56789".into())),
        XmlEvent::End("id".into()),
        XmlEvent::Text(Some("stray".into())),
        XmlEvent::Start("name".into()),
        XmlEvent::Text(Some("no author".into())),
        XmlEvent::Empty("category".into(), None),
        XmlEvent::Empty("category".into(), Some(Some("q-bio".into()))),
        XmlEvent::Other,
        XmlEvent::End("entry".into()),
        XmlEvent::Text(Some("outside".into())),
    ];
    let papers = arxiv::papers_of(&events);
    assert_eq!(papers.len(), 1);
    assert_eq!(papers[0].arxiv_id, "1234.56789");
    assert_eq!(papers[0].categories, vec!["q-bio"]);
    assert!(papers[0].authors.is_empty());
}

#[test]
fn arxiv_requests() {
    let r = arxiv::search_request("llm", 4);
    assert_eq!(r.url, "http://export.arxiv.org/api/query");
    assert_eq!(r.query[0], ("search_query".to_string(), "all:llm".to_string()));
    assert_eq!(r.query[2], ("max_results".to_string(), "4".to_string()));
    assert_eq!(r.query.len(), 5);
    assert_eq!(r.headers[0].1, "research_mcp/0.1 (Rust deepresearch tool)");
    assert_eq!(arxiv::by_id_request("2607.12631").query, vec![("id_list".to_string(), "2607.12631".to_string())]);
    assert_eq!(arxiv::clean_text(" a\n b "), "a b");
}

const RECORDS: &str = r#"<PubmedArticleSet>
  <PubmedArticle>
    <MedlineCitation>
      <PMID Version="1">11504948</PMID>
      <Article>
        <Journal><JournalIssue><PubDate><Year>2001</Year></PubDate></JournalIssue><Title>Brain</Title></Journal>
        <ArticleTitle>Deciding  advantageously</ArticleTitle>
        <ELocationID>10.1/x</ELocationID>
        <ELocationID>second</ELocationID>
        <Abstract><AbstractText>Part one.</AbstractText><AbstractText>Part
          two.</AbstractText></Abstract>
        <AuthorList>
          <Author><LastName>Bechara</LastName><ForeName>Antoine</ForeName></Author>
          <Author><LastName>Damasio</LastName></Author>
        </AuthorList>
      </Article>
      <Title>Other</Title>
    </MedlineCitation>
  </PubmedArticle>
  <PubmedArticle><ArticleTitle>No identifier</ArticleTitle></PubmedArticle>
</PubmedArticleSet>"#;

#[test]
fn pubmed_records_are_read() {
    let papers = pubmed::parse_records(RECORDS).unwrap();
    assert_eq!(papers.len(), 1);
    let p = &papers[0];
    assert_eq!(p.pmid, "11504948");
    assert_eq!(p.url, "https://pubmed.ncbi.nlm.nih.gov/11504948/");
    assert_eq!(p.title, "Deciding advantageously");
    assert_eq!(p.abstract_text, "Part one. Part two.");
    assert_eq!(p.authors, vec!["Antoine Bechara", "Damasio"]);
    assert_eq!(p.journal.as_deref(), Some("Brain"));
    assert_eq!(p.published.as_deref(), Some("2001"));
    assert_eq!(p.doi.as_deref(), Some("10.1/x"));
}

#[test]
fn a_record_keeps_its_own_identifier() {
    let records = "<PubmedArticleSet><PubmedArticle><MedlineCitation><PMID>11</PMID>\
        <CommentsCorrections><PMID>22</PMID></CommentsCorrections></MedlineCitation></PubmedArticle>\
        <PubmedArticle><PMID>33</PMID></PubmedArticle></PubmedArticleSet>";
    let p = pubmed::by_id_reply(ok(records)).unwrap().unwrap();
    assert_eq!((p.pmid.as_str(), p.url.as_str()), ("11", "https://pubmed.ncbi.nlm.nih.gov/11/"));
    assert_eq!(pubmed::parse_records(records).unwrap()[1].pmid, "33");
}

#[test]
fn pubmed_replies() {
    assert_eq!(pubmed::efetch_reply(ok(RECORDS)).unwrap().len(), 1);
    assert_eq!(pubmed::by_id_reply(ok(RECORDS)).unwrap().unwrap().pmid, "11504948");
    assert!(pubmed::by_id_reply(ok("<a></a>")).unwrap().is_none());
    assert_eq!(pubmed::efetch_reply(HttpReply::Failed("x".into())).unwrap_err(), "PubMed efetch request failed");
    assert_eq!(pubmed::efetch_reply(answer(500, "500 Oops", "", "")).unwrap_err(), "PubMed efetch error 500 Oops");
    let torn = HttpReply::Answer { status: 200, status_text: "".into(), content_type: "".into(), body: Err("x".into()) };
    assert_eq!(pubmed::efetch_reply(torn).unwrap_err(), "PubMed efetch read failed");
    assert!(pubmed::parse_records("<a></b>").unwrap_err().starts_with("PubMed XML parse error: "));
    let ids = vec!["1".to_string(), "2".to_string()];
    assert_eq!(pubmed::esearch_reply(&ok("{}"), Some(ids.clone())).unwrap(), ids);
    assert_eq!(pubmed::esearch_reply(&ok("{}"), None).unwrap_err(), "PubMed esearch parse failed");
    assert_eq!(
        pubmed::esearch_reply(&HttpReply::Failed("x".into()), None).unwrap_err(),
        "PubMed esearch request failed"
    );
    assert_eq!(pubmed::esearch_reply(&answer(404, "404 Not Found", "", ""), None).unwrap_err(), "PubMed esearch error 404 Not Found");
}

#[test]
fn pubmed_events_make_papers() {
    let events = vec![
        XmlEvent::Start("PubmedArticle".into()),
        XmlEvent::Start("PMID".into()),
        XmlEvent::Text(Some(" 7 ".into())),
        XmlEvent::End("PMID".into()),
        XmlEvent::Start("Author".into()),
        XmlEvent::Start("ForeName".into()),
        XmlEvent::Text(Some("First".into())),
        XmlEvent::End("ForeName".into()),
        XmlEvent::Start("LastName".into()),
        XmlEvent::Text(Some("Last".into())),
        XmlEvent::End("LastName".into()),
        XmlEvent::End("Author".into()),
        XmlEvent::Start("LastName".into()),
        XmlEvent::Text(Some("Nobody".into())),
        XmlEvent::Text(None),
        XmlEvent::End("PubmedArticle".into()),
    ];
    let papers = pubmed::papers_of(&events);
    assert_eq!(papers[0].pmid, "7");
    assert_eq!(papers[0].authors, vec!["Last"]);
}

#[test]
fn pubmed_requests() {
    let r = pubmed::esearch_request("q", 4);
    assert_eq!(r.query[1], ("term".to_string(), "q".to_string()));
    assert_eq!(r.query[2], ("retmax".to_string(), "4".to_string()));
    let r = pubmed::efetch_request(&vec!["1".to_string(), "2".to_string()]).unwrap();
    assert_eq!(r.query[1], ("id".to_string(), "1,2".to_string()));
    assert!(pubmed::efetch_request(&vec![]).is_none());
    assert_eq!(pubmed::clean_text("a  b"), "a b");
}

fn entry() -> ScopusEntry {
    ScopusEntry {
        title: " A  title ".into(),
        creator: "Doe J.; ; Roe  R.".into(),
        doi: Some("10.1/abc".into()),
        eid: "2-s2.0-1".into(),
        dc_identifier: "SCOPUS_ID:SCOPUS_ID:77".into(),
        journal: Some("J.  of X".into()),
        cover_date: Some("2024-05-01".into()),
        citedby_count: Some("12".into()),
    }
}

#[test]
fn scopus_entries_become_papers() {
    let mut bare = entry();
    bare.doi = None;
    bare.cover_date = Some("2023".into());
    bare.citedby_count = Some("many".into());
    let mut blank = entry();
    blank.title = String::new();
    blank.doi = None;
    let papers = ScopusSearchResponse { search_results: Some(vec![entry(), bare, blank]) }.into_papers();
    assert_eq!(papers.len(), 2);
    assert_eq!(papers[0].title, "A title");
    assert_eq!(papers[0].creators, vec!["Doe J.", "Roe R."]);
    assert_eq!(papers[0].scopus_id, "77");
    assert_eq!(papers[0].journal.as_deref(), Some("J. of X"));
    assert_eq!(papers[0].year.as_deref(), Some("2024"));
    assert_eq!(papers[0].citedby, 12);
    assert_eq!(papers[0].url, "https://doi.org/10.1/abc");
    assert_eq!(papers[0].abstract_text, "");
    assert_eq!(papers[1].url, "https://www.scopus.com/inward/record.uri?scp=2-s2.0-1");
    assert_eq!(papers[1].year.as_deref(), Some("2023"));
    assert_eq!(papers[1].citedby, 0);
    assert!(ScopusSearchResponse { search_results: None }.into_papers().is_empty());
    assert_eq!(scopus::clean(" a  b "), "a b");
}

#[test]
fn scopus_replies() {
    let parsed = ScopusSearchResponse { search_results: Some(vec![entry()]) };
    assert_eq!(scopus::search_reply(&ok(""), Some(parsed)).unwrap().len(), 1);
    assert_eq!(scopus::search_reply(&ok(""), None).unwrap_err(), "Scopus search parse failed");
    assert_eq!(
        scopus::search_reply(&HttpReply::Failed("x".into()), None).unwrap_err(),
        "Scopus search request failed"
    );
    let long = "é".repeat(150);
    let error = scopus::search_reply(&answer(401, "401 Unauthorized", "", &long), None).unwrap_err();
    assert_eq!(error, format!("Scopus API error 401 Unauthorized: {}", "é".repeat(100)));
    assert_eq!(scopus::fit("aé", 2), "a");
    assert_eq!(scopus::fit("aé", 3), "aé");
}

#[test]
fn crossref_abstracts_lose_their_markup() {
    let marked = "<jats:sec><jats:title>Aim</jats:title><jats:p>Text.</jats:p></jats:sec>";
    assert_eq!(scopus::abstract_reply(&ok(""), Some(Some(marked.into()))).unwrap(), "Aim\n Text.");
    assert_eq!(scopus::abstract_reply(&ok(""), Some(None)).unwrap(), "");
    assert_eq!(scopus::abstract_reply(&ok(""), None).unwrap_err(), "CrossRef parse failed");
    assert_eq!(scopus::abstract_reply(&answer(404, "", "", ""), None).unwrap(), "");
    assert_eq!(scopus::abstract_reply(&HttpReply::Failed("x".into()), None).unwrap_err(), "CrossRef request failed");
    assert_eq!(scopus::abstract_request("10.1/x").url, "https://api.crossref.org/works/10.1/x");
    let r = scopus::search_request("key", "q", 4);
    assert_eq!(r.headers[0], ("X-ELS-APIKey".to_string(), "key".to_string()));
    assert_eq!(r.query[1], ("count".to_string(), "4".to_string()));
}

#[test]
fn pages_become_text() {
    let html = "<html><head><style>x{}</style><script>bad()</script></head><body><nav>menu</nav>\
        <h1>Title</h1><p>One &amp; two.  </p><p>Three&nbsp;four</p><div></div><div></div><div></div></body></html>";
    let text = html_to_text(html);
    assert!(text.starts_with("Title\n"));
    assert!(text.contains("One & two.\n"));
    assert!(text.contains("Three four"));
    assert!(!text.contains("bad()"));
    assert!(!text.contains("menu"));
    assert!(!text.contains("\n\n\n"));
    assert_eq!(unescape("&lt;a&gt; &quot;b&quot; &#39;c&apos;"), "<a> \"b\" 'c'");
}

#[test]
fn fetched_pages() {
    let url = "https://a.b";
    assert_eq!(fetch_reply(url, answer(200, "", "text/plain", "  hello "), 100).unwrap(), "hello");
    assert_eq!(fetch_reply(url, answer(200, "", "text/plain", "hello"), 2).unwrap(), "he[...TRUNCATED...]");
    assert_eq!(fetch_reply(url, answer(200, "", "TEXT/HTML", "<p>x</p>"), 100).unwrap(), "x");
    assert_eq!(fetch_reply(url, answer(200, "", "", " <p>x</p>"), 100).unwrap(), "x");
    assert_eq!(
        fetch_reply(url, answer(200, "", "application/PDF", "x"), 100).unwrap_err(),
        "PDF content not supported: https://a.b"
    );
    assert_eq!(
        fetch_reply(url, answer(404, "404 Not Found", "", "x"), 100).unwrap_err(),
        "HTTP 404 Not Found for https://a.b"
    );
    assert_eq!(fetch_reply(url, HttpReply::Failed("dns".into()), 100).unwrap_err(), "dns");
    let torn = HttpReply::Answer { status: 200, status_text: "".into(), content_type: "pdf".into(), body: Err("torn".into()) };
    assert_eq!(fetch_reply(url, torn, 100).unwrap_err(), "torn");
    assert_eq!(truncate("abc", 3), "abc");
    assert_eq!(cap_for_url("https://arxiv.org/html/2607.1"), 250_000);
    assert_eq!(cap_for_url("https://arxiv.org/abs/2607.1"), 12_000);
    let r = page_request(url);
    assert_eq!(r.headers[1], ("Accept".to_string(), "text/html,application/xhtml+xml,text/plain".to_string()));
}

#[test]
fn chat_messages_have_roles() {
    let s = ChatMessage::system("rules");
    assert_eq!((s.role.as_str(), s.content.as_str()), ("system", "rules"));
    let u = ChatMessage::user("question");
    assert_eq!((u.role.as_str(), u.content.as_str()), ("user", "question"));
    let p = Prompt::new("a", "b", true);
    assert_eq!((p.system.role.as_str(), p.user.content.as_str(), p.json), ("system", "b", true));
    assert_eq!(endpoint("https://x/v1"), "https://x/v1/chat/completions");
}

#[test]
fn model_replies() {
    let said = |t: &str| Some(vec![Some(t.to_string())]);
    assert_eq!(reply_text(&ok(""), &said(" hi ")).unwrap(), " hi ");
    assert_eq!(reply_text(&ok(""), &said(" \n")).unwrap_err(), "LLM returned empty response");
    assert_eq!(reply_text(&ok(""), &Some(vec![None, Some("x".into())])).unwrap_err(), "LLM returned empty response");
    assert_eq!(reply_text(&ok(""), &Some(vec![])).unwrap_err(), "LLM returned empty response");
    assert_eq!(reply_text(&ok(""), &None).unwrap_err(), "LLM response parse failed");
    assert_eq!(
        reply_text(&answer(401, "401 Unauthorized", "", "Invalid API key"), &None).unwrap_err(),
        "LLM API error 401 Unauthorized: Invalid API key"
    );
    assert_eq!(reply_text(&HttpReply::Failed("x".into()), &None).unwrap_err(), "LLM request failed");
}

#[test]
fn model_requests_are_retried() {
    let failed = HttpReply::Failed("x".into());
    assert_eq!(retry_delay(1, &failed), Some(1));
    assert_eq!(retry_delay(2, &failed), Some(2));
    assert_eq!(retry_delay(3, &failed), None);
    assert_eq!(retry_delay(1, &answer(429, "", "", "")), Some(1));
    assert_eq!(retry_delay(1, &answer(503, "", "", "")), Some(1));
    assert_eq!(retry_delay(1, &answer(401, "", "", "")), None);
    assert_eq!(retry_delay(1, &ok("")), None);
}

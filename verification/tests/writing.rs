//! The workflow: plans, evidence, sources, reports.

use research_mcp::arxiv::ArxivPaper;
use research_mcp::debate::{AgentPosition, ConsensusSummary, DebateAgent, DebateResult, InterviewAnswer, Measure};
use research_mcp::fence::unfence;
use research_mcp::pubmed::PubmedPaper;
use research_mcp::scopus::ScopusPaper;
use research_mcp::search::SearchResult;
use research_mcp::workflow::evidence::{build_evidence_block, build_research_notes, source_lines_of, EvidenceItem};
use research_mcp::workflow::gather::{
    extract_arxiv_ids, extract_pubmed_ids, first_groups, gather_tasks, plan_gathering, Find, GatherTask, Gathered, Haul,
};
use research_mcp::workflow::plan::{
    default_download_budget, default_web_per_query, effective_max_sources, format_plan, judge, plan_prompt,
    results_per_query, Plan, PlanFields, PlanVerdict, Planning,
};
use research_mcp::workflow::report::{
    append_debate_summary, build_provenance, build_provenance_on, cite_prompt, draft_prompt, join_path, rel,
    review_prompt, split_review,
};
use research_mcp::workflow::sources::{full_text_url, full_texts_allowed, paper_evidence, wanted_doi, PageFetch};

fn measure(value: f32) -> Measure {
    Measure { bits: value.to_bits(), text: format!("{:.2}", value) }
}

fn signed(value: f32) -> Measure {
    Measure { bits: value.to_bits(), text: format!("{:+.2}", value) }
}

fn agent(id: &str, name: &str, position: f32, confidence: f32) -> DebateAgent {
    DebateAgent {
        id: id.into(),
        name: name.into(),
        stance: "s".into(),
        position: measure(position),
        confidence: measure(confidence),
    }
}

fn positions(agents: &[DebateAgent]) -> Vec<AgentPosition> {
    agents
        .iter()
        .map(|a| AgentPosition { agent: a.name.clone(), position: a.position.clone(), confidence: a.confidence.clone() })
        .collect()
}

fn sample_debate() -> DebateResult {
    let agents = vec![agent("A1", "The Skeptic", -0.9, 0.8), agent("A2", "The Advocate", -0.5, 0.6)];
    let final_positions = positions(&agents);
    DebateResult {
        agents,
        rounds: vec![],
        consensus: ConsensusSummary {
            final_positions,
            mean_position: measure(-0.7),
            spread: measure(0.4),
            convergence: signed(0.25),
            consensus_points: vec!["Point A".into()],
            dissensus_points: vec!["Point B".into()],
            summary: "sum".into(),
        },
        interviews: vec![],
    }
}

#[test]
fn appends_section_with_positions() {
    let md = "# Report\n\nBody.";
    let out = append_debate_summary(md, &sample_debate());
    assert!(out.contains("## Agent Debate Summary"));
    assert!(out.contains("The Skeptic"));
    assert!(out.contains("-0.90"));
    assert!(out.contains("Point A"));
    assert!(out.contains("Point B"));
    assert!(out.contains("spread **0.40**"));
}

#[test]
fn idempotent_when_marker_present() {
    let md = "# Report\n\n## Agent Debate Summary\n\nAlready here.";
    let out = append_debate_summary(md, &sample_debate());
    assert_eq!(out, md);
}

#[test]
fn appends_interviews_section() {
    let agents = vec![agent("A1", "The Skeptic", -0.9, 0.8)];
    let final_positions = positions(&agents);
    let debate = DebateResult {
        agents,
        rounds: vec![],
        consensus: ConsensusSummary {
            final_positions,
            mean_position: measure(-0.9),
            spread: measure(0.0),
            convergence: signed(0.1),
            consensus_points: vec![],
            dissensus_points: vec!["Open point X".into()],
            summary: "sum".into(),
        },
        interviews: vec![InterviewAnswer {
            agent: "The Skeptic".into(),
            question: "Open point X".into(),
            answer: "I need more evidence on Y.".into(),
        }],
    };
    let md = "# Report";
    let out = append_debate_summary(md, &debate);
    assert!(out.contains("Agent interviews"));
    assert!(out.contains("Open point X"));
    assert!(out.contains("I need more evidence on Y."));
}

#[test]
fn debate_sections_read_in_full_and_come_once() {
    let once = append_debate_summary("R", &sample_debate());
    assert_eq!(
        once,
        "R\n\n---\n\n## Agent Debate Summary\n\n\
         Five expert agents with distinct beliefs debated this brief before review. \
         Final positions: mean **-0.70**, spread **0.40**, convergence **+0.25** (positive = converged).\n\n\
         | Agent | Position | Confidence |\n|---|---|---|\n\
         | The Skeptic | -0.90 | 0.80 |\n| The Advocate | -0.50 | 0.60 |\n\
         \n**Agents agreed on:**\n- Point A\n\n**Agents disagreed on:**\n- Point B\n\
         \n*Debate findings were advisory inputs to the review pass; each was verified against sources before inclusion.*\n"
    );
    assert_eq!(append_debate_summary(&once, &sample_debate()), once);
}

#[test]
fn extract_arxiv_ids_matches_prefixed_and_url_forms() {
    // The capital A and colon separator.
    let t1 = "Deep research on arXiv:2607.29378 — analyze the paper's full content";
    // URL form.
    let t2 = "Paper at https://arxiv.org/abs/2608.03893 here";
    // Bare ID with version suffix.
    let t3 = "see 2106.09685v2 for details";
    // Lowercase arxiv with space, and arXiv with space before colon.
    let t4 = "arxiv 2607.29378 and arXiv : 2608.03893";
    // No ID → empty.
    let t5 = "no identifiers here at all";

    assert_eq!(extract_arxiv_ids(t1), vec!["2607.29378"]);
    assert_eq!(extract_arxiv_ids(t2), vec!["2608.03893"]);
    // Version suffix is kept by extraction.
    assert_eq!(extract_arxiv_ids(t3), vec!["2106.09685v2"]);
    assert_eq!(extract_arxiv_ids(t4), vec!["2607.29378", "2608.03893"]);
    assert!(extract_arxiv_ids(t5).is_empty());
}

#[test]
fn extract_pubmed_ids_matches_forms() {
    let t1 = "PMID:11504948 is the paper";
    let t2 = "see https://pubmed.ncbi.nlm.nih.gov/30262254/";
    let t3 = "PMID 22212839 also";
    let t4 = "no ids";
    assert_eq!(extract_pubmed_ids(t1), vec!["11504948"]);
    assert_eq!(extract_pubmed_ids(t2), vec!["30262254"]);
    assert_eq!(extract_pubmed_ids(t3), vec!["22212839"]);
    assert!(extract_pubmed_ids(t4).is_empty());
}

#[test]
fn identifiers_are_listed_once() {
    assert_eq!(extract_arxiv_ids("arXiv:2607.29378 and arxiv 2607.29378"), vec!["2607.29378"]);
    let row = |id: Option<&str>| vec![Some("all".to_string()), id.map(|s| s.to_string())];
    assert_eq!(first_groups(&vec![row(Some("b")), row(None), row(Some("a")), row(Some("b")), vec![]]), vec!["b", "a"]);
}

fn item(id: &str, title: &str, url: &str, text: String) -> EvidenceItem {
    EvidenceItem { id: id.into(), title: title.into(), url: url.into(), snippet: String::new(), text }
}

#[test]
fn arxiv_fulltext_gets_large_excerpt() {
    // arXiv full-text evidence: >20k chars with FULL TEXT marker.
    let big: String = "--- FULL TEXT (arxiv.org/html) ---\n".to_string() + &"METHODOLOGY ".repeat(5000); // ~50k chars
    let small: String = "brief abstract".to_string();

    let ev = vec![
        item("S1", "arXiv big", "https://arxiv.org/html/x", big),
        item("S2", "generic", "https://web.com", small),
    ];
    let block = build_evidence_block(&ev);
    // The big arXiv one should appear with far more than 3000 chars.
    let big_idx = block.find("METHODOLOGY").unwrap();
    let methods_len = block[big_idx..].chars().count();
    assert!(methods_len > 3000, "arXiv full-text excerpt should exceed 3000, got {methods_len}");
    // The generic one stays capped.
    assert!(block.contains("brief abstract"));
    assert!(block.len() >= 5000, "block should contain the large excerpt");
    assert!(block.chars().count() < 70000, "still bounded");
}

#[test]
fn generic_stays_3000() {
    let long: String = "word ".repeat(4000); // 20k chars
    let ev = vec![item("S1", "web", "https://web.com", long)];
    let block = build_evidence_block(&ev);
    // Content excerpt capped at 3000: find the CONTENT marker start.
    let content_start = block.find("CONTENT:").unwrap() + "CONTENT:".len();
    let excerpt_len = block[content_start..].chars().count();
    assert!(excerpt_len <= 3100, "generic excerpt should stay ~3000, got {excerpt_len}");
}

#[test]
fn excerpts_have_limits() {
    let huge = format!("--- FULL TEXT{}", "x".repeat(100_000));
    let block = build_evidence_block(&[item("S1", "t", "u", huge)]);
    assert_eq!(block.chars().count(), "[S1] t\n    URL: u\n    CONTENT: \n\n".chars().count() + 60_000);
    let short = format!("--- FULL TEXT{}", "x".repeat(10_000));
    let block = build_evidence_block(&[item("S1", "t", "u", short)]);
    assert_eq!(block.chars().count(), "[S1] t\n    URL: u\n    CONTENT: \n\n".chars().count() + 3000);
}

/// A plan as the planner writes it down, read member by member.
fn parse_plan_json(raw: &str) -> Plan {
    let value: serde_json::Value = serde_json::from_str(&unfence(raw)).unwrap();
    let texts = |key: &str| -> Vec<String> {
        value[key].as_array().unwrap().iter().map(|v| v.as_str().unwrap().to_string()).collect()
    };
    let number = |key: &str| value.get(key).map(|v| v.as_u64().unwrap() as usize);
    PlanFields {
        key_questions: texts("key_questions"),
        evidence_needed: texts("evidence_needed"),
        scale: value["scale"].as_str().unwrap().to_string(),
        queries: texts("queries"),
        web_per_query: number("web_per_query"),
        download_budget: number("download_budget"),
    }
    .into_plan()
}

#[test]
fn legacy_plan_without_adaptive_fields_defaults() {
    // Old-format plan (no web_per_query / download_budget) must still parse.
    let raw = r#"{
            "key_questions": ["q1"],
            "evidence_needed": ["e1"],
            "scale": "direct",
            "queries": ["query one", "query two"]
        }"#;
    let plan = parse_plan_json(raw);
    assert_eq!(plan.web_per_query, 6, "missing web_per_query should default to 6");
    assert_eq!(plan.download_budget, 8, "missing download_budget should default to 8");
}

#[test]
fn adaptive_plan_uses_llm_adaptive_fields() {
    // Broad/current-events topic -> planner sets high coverage values.
    let raw = r#"{
            "key_questions": ["how did energy prices move this week"],
            "evidence_needed": ["prices", "policy", "supply"],
            "scale": "survey",
            "queries": ["energy market week", "oil prices change"],
            "web_per_query": 18,
            "download_budget": 20
        }"#;
    let plan = parse_plan_json(raw);
    assert_eq!(plan.web_per_query, 18);
    assert_eq!(plan.download_budget, 20);
    assert_eq!(plan.scale, "survey");
}

#[test]
fn effective_download_cap_is_min_of_config_and_plan() {
    // User hard cap of 8 must win over a planner budget of 20.
    let config_cap = 8usize;
    let plan_budget = 20usize;
    let effective = effective_max_sources(config_cap, plan_budget);
    assert_eq!(effective, 8);
    // But a smaller planner budget (narrow topic) also caps downward.
    let narrow_budget = 5usize;
    let effective2 = effective_max_sources(config_cap, narrow_budget);
    assert_eq!(effective2, 5);
}

#[test]
fn plans_without_a_budget_take_the_limit() {
    assert_eq!(effective_max_sources(8, 0), 8);
    assert_eq!(results_per_query(0), 6);
    assert_eq!(results_per_query(15), 15);
    assert_eq!(default_web_per_query(), 6);
    assert_eq!(default_download_budget(), 8);
}

#[test]
fn fences_are_taken_off() {
    assert_eq!(unfence(" ```json\n{}\n``` "), "{}");
    assert_eq!(unfence("```{}```"), "{}");
    assert_eq!(unfence("{}"), "{}");
    assert_eq!(unfence("```json {}"), "```json {}");
    assert_eq!(parse_plan_json("```json\n{\"key_questions\":[],\"evidence_needed\":[],\"scale\":\"s\",\"queries\":[\"q\"]}\n```").queries, vec!["q"]);
}

fn plan(queries: &[&str]) -> Plan {
    Plan {
        key_questions: vec!["k".into()],
        evidence_needed: vec!["e".into()],
        scale: "direct".into(),
        queries: queries.iter().map(|q| q.to_string()).collect(),
        web_per_query: 7,
        download_budget: 3,
    }
}

#[test]
fn plans_are_written_down() {
    assert_eq!(
        format_plan(&plan(&["a", "b"]), "T", "t"),
        "# Research Plan: T\n\n- **Slug:** t\n- **Scale:** direct\n\n## Key Questions\n\n- k\n\
         \n## Evidence Needed\n\n- e\n\n## Search Queries\n\n- a\n- b\n"
    );
    assert!(plan_prompt("T").user.content.starts_with("Research topic: T\n"));
    assert!(plan_prompt("T").json);
    assert!(plan_prompt("T").system.content.contains("{\n\"key_questions\": [\"...\"],\n"));
}

#[test]
fn plans_are_asked_for_three_times() {
    assert_eq!(judge(&None), PlanVerdict::Unreadable);
    assert_eq!(judge(&Some(plan(&[]))), PlanVerdict::NoQueries);
    assert_eq!(judge(&Some(plan(&["q"]))), PlanVerdict::Accept);
    let twice = Planning::start().replied(None).replied(Some(plan(&[])));
    assert!(matches!(twice, Planning::Asking { refused: 2 }));
    assert!(matches!(twice.replied(Some(plan(&["q"]))), Planning::Planned { plan } if plan.queries.len() == 1));
    let thrice = Planning::start().replied(None).replied(None).replied(None);
    assert!(matches!(thrice, Planning::GivenUp));
}

#[test]
fn tasks_follow_the_plan() {
    let kinds = |tasks: &Vec<GatherTask>| -> Vec<String> {
        tasks
            .iter()
            .map(|t| match t {
                GatherTask::ArxivById(id) => format!("arxiv {}", id),
                GatherTask::PubmedById(id) => format!("pubmed {}", id),
                GatherTask::Web { query, max } => format!("web {} {}", query, max),
                GatherTask::ArxivSearch { query, max } => format!("arxiv? {} {}", query, max),
                GatherTask::PubmedSearch { query, max } => format!("pubmed? {} {}", query, max),
                GatherTask::ScopusSearch { query, max } => format!("scopus? {} {}", query, max),
            })
            .collect()
    };
    let tasks = plan_gathering(&plan(&["a", "b", "c"]), "arXiv:2607.29378 PMID:11504948", true);
    assert_eq!(
        kinds(&tasks),
        vec![
            "arxiv 2607.29378", "pubmed 11504948", "web a 7", "web b 7", "web c 7", "arxiv? a 4", "arxiv? b 4",
            "pubmed? a 4", "pubmed? b 4", "scopus? a 4", "scopus? b 4"
        ]
    );
    let tasks = gather_tasks(&vec![], &vec![], &plan(&[]), "topic", false);
    assert_eq!(kinds(&tasks), vec!["web topic 7", "arxiv? topic 4", "pubmed? topic 4"]);
}

fn page(url: &str) -> SearchResult {
    SearchResult { title: format!("t {}", url), url: url.into(), snippet: format!("s {}", url) }
}

fn arxiv_paper(id: &str) -> ArxivPaper {
    ArxivPaper {
        arxiv_id: id.into(),
        title: "A".into(),
        authors: vec!["X".into(), "Y".into()],
        abstract_text: "abs".into(),
        url: format!("https://arxiv.org/abs/{}", id),
        published: Some("2026".into()),
        categories: vec!["cs".into()],
    }
}

fn pubmed_paper(id: &str) -> PubmedPaper {
    PubmedPaper {
        pmid: id.into(),
        title: "P".into(),
        authors: vec!["Z".into()],
        abstract_text: "abs".into(),
        url: format!("https://pubmed.ncbi.nlm.nih.gov/{}/", id),
        journal: None,
        published: None,
        doi: Some("10.1/p".into()),
    }
}

fn scopus_paper(url: &str) -> ScopusPaper {
    ScopusPaper {
        eid: "e".into(),
        scopus_id: "s".into(),
        doi: Some("10.1/s".into()),
        title: "S".into(),
        creators: vec!["C".into()],
        journal: Some("J".into()),
        year: Some("2020".into()),
        citedby: -3,
        url: url.into(),
        abstract_text: "own".into(),
    }
}

#[test]
fn known_addresses_are_not_kept_twice() {
    let mut haul = Haul::new();
    haul.keep(Find::ArxivNamed(arxiv_paper("1")));
    haul.keep(Find::PubmedNamed(pubmed_paper("2")));
    haul.keep(Find::Web(vec![page("a"), page("b"), page("a"), page("https://arxiv.org/abs/1")]));
    haul.keep(Find::Web(vec![page("b"), page("c")]));
    haul.keep(Find::Arxiv(vec![arxiv_paper("1"), arxiv_paper("3")]));
    haul.keep(Find::Pubmed(vec![pubmed_paper("2"), pubmed_paper("4")]));
    haul.keep(Find::Scopus(vec![scopus_paper("c"), scopus_paper("d"), scopus_paper("d")]));
    let urls: Vec<&str> = haul.found.web.iter().map(|r| r.url.as_str()).collect();
    assert_eq!(urls, vec!["a", "b", "c"]);
    assert_eq!(haul.found.arxiv.iter().map(|p| p.arxiv_id.as_str()).collect::<Vec<_>>(), vec!["1", "3"]);
    assert_eq!(haul.found.pubmed.len(), 2);
    assert_eq!(haul.found.scopus.len(), 1);
    let mut all: Vec<&str> = haul.found.web.iter().map(|r| r.url.as_str()).collect();
    all.extend(haul.found.arxiv.iter().map(|p| p.url.as_str()));
    all.extend(haul.found.pubmed.iter().map(|p| p.url.as_str()));
    all.extend(haul.found.scopus.iter().map(|p| p.url.as_str()));
    let total = all.len();
    all.sort();
    all.dedup();
    assert_eq!(all.len(), total);
    haul.keep(Find::ArxivNamed(arxiv_paper("1")));
    assert_eq!(haul.found.arxiv.len(), 3);
}

#[test]
fn papers_become_sources() {
    let full = "f".repeat(200);
    let evidence = paper_evidence(
        &vec![arxiv_paper("1"), arxiv_paper("2"), arxiv_paper("3")],
        &vec![Some(full.clone()), Some("short".into())],
        &vec![pubmed_paper("9")],
        &vec![scopus_paper("u"), scopus_paper("v")],
        &vec![Some("found".into()), Some(String::new())],
    );
    assert_eq!(evidence.iter().map(|e| e.id.as_str()).collect::<Vec<_>>(), vec!["S1", "S2", "S3", "S4", "S5", "S6"]);
    assert_eq!(evidence[0].title, "A (arXiv:1)");
    assert_eq!(evidence[0].url, "https://arxiv.org/html/1");
    let known = "Authors: X, Y\nCategories: cs\nPublished: 2026\n\nAbstract:\nabs";
    assert_eq!(evidence[0].text, format!("{}\n\n--- FULL TEXT (arxiv.org/html) ---\n\n{}", known, full));
    assert_eq!(evidence[1].text, known);
    assert_eq!(evidence[2].text, known);
    assert_eq!(evidence[3].title, "P (PMID:9)");
    assert_eq!(evidence[3].text, "Journal: \nAuthors: Z\nPublished: \nDOI: 10.1/p\n\nAbstract:\nabs");
    assert_eq!(evidence[4].title, "S (Scopus)");
    assert_eq!(
        evidence[4].text,
        "Journal: J\nAuthors: C\nYear: 2020\nDOI: 10.1/s\nCited by: -3\n\nAbstract:\nfound"
    );
    assert!(evidence[5].text.ends_with("own"));
    assert_eq!(full_text_url(&arxiv_paper("7")), "https://arxiv.org/html/7");
    assert_eq!(wanted_doi(&scopus_paper("u"), true).as_deref(), Some("10.1/s"));
    assert_eq!(wanted_doi(&scopus_paper("u"), false), None);
}

fn fetch_all(mut pages: PageFetch, text: impl Fn(&str) -> Option<String>) -> (Vec<String>, Vec<String>, Vec<String>) {
    let mut asked = Vec::new();
    while let Some(page) = pages.next() {
        let url = pages.address(page);
        pages.fetched(page, text(&url));
        asked.push(url);
    }
    let (evidence, rejected) = pages.finish();
    (asked, evidence.into_iter().map(|e| format!("{} {}", e.id, e.url)).collect(), rejected)
}

#[test]
fn pages_are_fetched_up_to_the_limit() {
    let there = vec![item("S1", "t", "a", "x".into())];
    let pages = PageFetch::start(vec![page("a"), page("b"), page("c"), page("d"), page("e")], 4, 0, there);
    let (asked, accepted, rejected) = fetch_all(pages, |url| match url {
        "b" => Some("y".repeat(200)),
        "c" => Some("y".repeat(199)),
        _ => None,
    });
    assert_eq!(asked, vec!["b", "c", "d"]);
    assert_eq!(accepted, vec!["S1 a", "S2 b"]);
    assert_eq!(rejected, vec!["c (too short)", "d"]);
}

#[test]
fn fetching_stops_when_the_context_is_full() {
    let there = vec![item("S1", "t", "a", "x".repeat(12_000))];
    let pages = PageFetch::start(vec![page("b"), page("c"), page("d")], 2, 0, there);
    let (asked, accepted, _) = fetch_all(pages, |_| Some("y".repeat(12_000)));
    assert_eq!(asked, vec!["b"]);
    assert_eq!(accepted.len(), 2);
    let pages = PageFetch::start(vec![page("b")], 0, 0, vec![]);
    assert_eq!(pages.next(), None);
    let pages = PageFetch::start(vec![page("b")], usize::MAX, 0, vec![]);
    assert_eq!(pages.next(), Some(0));
}

#[test]
fn full_texts_count_toward_the_limit() {
    assert_eq!((full_texts_allowed(0, 3), full_texts_allowed(2, 3), full_texts_allowed(5, 3)), (0, 2, 3));
    for papers in 0..5 {
        let full_texts = full_texts_allowed(papers, 3);
        let pages = PageFetch::start(vec![page("a"), page("b"), page("c"), page("d")], 3, full_texts, vec![]);
        let (asked, _, _) = fetch_all(pages, |_| Some("y".repeat(200)));
        assert_eq!(full_texts + asked.len(), 3);
    }
    let there = vec![item("S1", "t", "a", "x".into())];
    assert_eq!(PageFetch::start(vec![page("b")], 1, 1, there).next(), None);
    assert_eq!(PageFetch::start(vec![page("b")], 1, 2, vec![]).next(), None);
}

#[test]
fn no_page_is_taken_twice() {
    let pages = PageFetch::start(vec![page("a"), page("b"), page("a"), page("b"), page("c")], 8, 0, vec![]);
    let (asked, accepted, rejected) = fetch_all(pages, |_| Some("y".repeat(200)));
    assert_eq!(asked, vec!["a", "b", "c"]);
    assert_eq!(accepted, vec!["S1 a", "S2 b", "S3 c"]);
    assert!(rejected.is_empty());
}

#[test]
fn searches_without_pages_are_warned_of() {
    let mut found = Gathered::empty();
    assert_eq!(
        found.warning().unwrap(),
        "0 web results for this topic — all keyless backends (DDG/Bing/Brave) returned empty or were gated. Retry the run if the topic is current-events/news."
    );
    found.web.push(page("a"));
    assert_eq!(found.warning(), None);
}

#[test]
fn notes_hold_every_source() {
    let mut one = item("S1", "One", "u1", "text".into());
    one.snippet = "snip".into();
    let two = item("S2", "Two", "u2", "more".into());
    assert_eq!(
        build_research_notes(&[one.clone(), two]),
        "# Research Notes (direct)\n\n## [S1] One\nURL: u1\n\nSnippet: snip\n\ntext\n\n## [S2] Two\nURL: u2\n\nmore\n\n"
    );
    assert_eq!(source_lines_of(&[one]), vec!["[S1] One — u1"]);
}

#[test]
fn prompts_carry_the_sources() {
    let ev = vec![item("S1", "One", "u1", "text".into()), item("S2", "Two", "u2", "more".into())];
    let d = draft_prompt("T", &ev);
    assert!(d.user.content.starts_with("Topic: T\n\nEvidence:\n\n[S1] One\n    URL: u1\n    CONTENT: text\n\n[S2]"));
    let c = cite_prompt("D", &ev);
    assert_eq!(
        c.user.content,
        "Sources available:\n[S1] One — u1\n[S2] Two — u2\n\nDraft to cite:\n\nD\n\nOutput the fully cited markdown."
    );
    let mut consensus = sample_debate().consensus;
    let r = review_prompt("C", &ev, &consensus);
    assert!(r.user.content.contains("Debate outcome:\nConsensus points:\n- Point A\n\nDissensus points:\n- Point B\n\nsum\n\nCited draft to review:\n\nC\n\n"));
    consensus.consensus_points.clear();
    consensus.dissensus_points.clear();
    let r = review_prompt("C", &ev, &consensus);
    assert!(r.user.content.contains("Debate outcome:\nsum\n\n"));
}

#[test]
fn reviews_are_split() {
    let r = split_review("# Verification Report\nfine\n---\n# Final Document\n doc ", "cited");
    assert_eq!(r.final_md, "doc");
    assert_eq!(r.review_md, "# Verification Report\nfine\n---");
    let r = split_review("no heading", "cited");
    assert_eq!((r.final_md.as_str(), r.review_md.as_str()), ("cited", "no heading"));
    let r = split_review("report # Final Document \n", "cited");
    assert_eq!((r.final_md.as_str(), r.review_md.as_str()), ("cited", "report"));
}

#[test]
fn provenance_tracks_sources() {
    let p = build_provenance_on("2026-01-02", "T", 3, &vec!["x".into(), "y (too short)".into()], "p", "n", "d", "c", "r");
    assert!(p.starts_with("# Provenance: T\n\n- **Date:** 2026-01-02\n- **Rounds:** 1 research round (direct search, no subagents)\n- **Sources accepted:** 3\n- **Sources rejected:** x, y (too short)\n- **Verification:** PASS\n- **Plan:** p\n- **Research files:** n\n- **Draft:** d\n- **Cited draft:** c\n- **Verification notes:** r\n\n### Notes\n"));
    assert!(p.contains("\n- Generated by research_mcp (Rust) — Feynman deepresearch port.\n- Direct search mode: "));
    let p = build_provenance("T", 0, &vec![], "p", "n", "d", "c", "r");
    assert!(p.contains("- **Sources rejected:** none\n"));
    let date = p.split("- **Date:** ").nth(1).unwrap().split('\n').next().unwrap();
    assert_eq!(date.len(), 10);
    assert_eq!(date.matches('-').count(), 2);
    let shape: String = date.chars().map(|c| if c.is_ascii_digit() { '0' } else { c }).collect();
    assert_eq!(shape, "0000-00-00");
}

#[test]
fn paths_are_joined() {
    assert_eq!(join_path("/out", "a.md"), "/out/a.md");
    assert_eq!(join_path("/out/", "a.md"), "/out/a.md");
    assert_eq!(join_path("", "a.md"), "a.md");
    assert_eq!(join_path("/out", "/a.md"), "/a.md");
    for (dir, name) in [("/out", "a"), ("out/", "b"), ("", "c"), ("/", "d"), ("x", "/e")] {
        let std = std::path::Path::new(dir).join(name);
        assert_eq!(join_path(dir, name), std.to_string_lossy());
    }
    assert_eq!(rel("a/b"), "a/b");
}
